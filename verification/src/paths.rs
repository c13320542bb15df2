//! Textual path rewriting: substring replacement over paths, prefix tests,
//! parent computation and the other pure string operations the reconciler
//! builds its target paths from.
use vstd::prelude::*;

verus! {

use vstd::string::StrSliceExecFns;
use vstd::string::StringExecFns;

/// True when `pat` occurs in `s` starting at position `i`.
pub open spec fn match_at(s: Seq<char>, pat: Seq<char>, i: int) -> bool {
    &&& 0 <= i
    &&& i + pat.len() <= s.len()
    &&& s.subrange(i, i + pat.len() as int) == pat
}

/// `s` with every occurrence of `pat`, scanned left to right without
/// overlap, replaced by `rep`. An empty `pat` leaves `s` unchanged.
pub open spec fn replace_all(s: Seq<char>, pat: Seq<char>, rep: Seq<char>) -> Seq<char>
    decreases s.len(),
{
    if pat.len() == 0 || s.len() < pat.len() {
        s
    } else if s.subrange(0, pat.len() as int) == pat {
        rep + replace_all(s.skip(pat.len() as int), pat, rep)
    } else {
        seq![s[0]] + replace_all(s.skip(1), pat, rep)
    }
}

/// How many occurrences of `pat` the left-to-right scan of `replace_all`
/// replaces in `s`.
pub open spec fn occurrences(s: Seq<char>, pat: Seq<char>) -> nat
    decreases s.len(),
{
    if pat.len() == 0 || s.len() < pat.len() {
        0
    } else if s.subrange(0, pat.len() as int) == pat {
        1 + occurrences(s.skip(pat.len() as int), pat)
    } else {
        occurrences(s.skip(1), pat)
    }
}

/// Position of the first occurrence of `pat` in `s`; `None` when `pat` is
/// empty or does not occur.
pub open spec fn first_match(s: Seq<char>, pat: Seq<char>) -> Option<int>
    decreases s.len(),
{
    if pat.len() == 0 || s.len() < pat.len() {
        None
    } else if s.subrange(0, pat.len() as int) == pat {
        Some(0int)
    } else {
        match first_match(s.skip(1), pat) {
            Some(i) => Some(i + 1),
            None => None,
        }
    }
}

fn str_matches_at(s: &str, pat: &str, i: usize, m: usize) -> (r: bool)
    requires
        m == pat@.len(),
        i + m <= s@.len(),
        s@.len() <= usize::MAX,
    ensures
        r == match_at(s@, pat@, i as int),
{
    let mut j: usize = 0;
    while j < m
        invariant
            j <= m,
            m == pat@.len(),
            i + m <= s@.len(),
            s@.len() <= usize::MAX,
            forall|k: int| 0 <= k < j ==> s@[i + k] == pat@[k],
        decreases m - j,
    {
        if s.get_char(i + j) != pat.get_char(j) {
            proof {
                assert(s@.subrange(i as int, i + m as int)[j as int] == s@[i + j]);
            }
            return false;
        }
        j = j + 1;
    }
    proof {
        assert(s@.subrange(i as int, i + m as int) =~= pat@);
    }
    true
}

/// Replaces `old_value` with `new_value` in `text`, at every occurrence,
/// scanning left to right. This is the textual base swap the reconciler
/// uses to turn a home-directory path into its sync-directory counterpart
/// and back.
pub fn swap_path_bases(text: &str, old_value: &str, new_value: &str) -> (r: String)
    ensures
        r@ == replace_all(text@, old_value@, new_value@),
{
    let n = text.unicode_len();
    let m = old_value.unicode_len();
    let mut out = String::new();
    if m == 0 {
        out.append(text);
        proof {
            assert(out@ =~= text@);
        }
        return out;
    }
    let mut i: usize = 0;
    proof {
        assert(text@.skip(0) =~= text@);
        assert(out@ + replace_all(text@, old_value@, new_value@) =~= replace_all(
            text@,
            old_value@,
            new_value@,
        ));
    }
    while i < n
        invariant
            i <= n,
            n == text@.len(),
            m == old_value@.len(),
            m > 0,
            replace_all(text@, old_value@, new_value@) == out@ + replace_all(
                text@.skip(i as int),
                old_value@,
                new_value@,
            ),
        decreases n - i,
    {
        let ghost pre = out@;
        let ghost tail = text@.skip(i as int);
        if m <= n - i && str_matches_at(text, old_value, i, m) {
            out.append(new_value);
            proof {
                assert(tail.subrange(0, m as int) =~= text@.subrange(i as int, i + m as int));
                assert(tail.subrange(0, m as int) == old_value@);
                assert(replace_all(tail, old_value@, new_value@) == new_value@ + replace_all(
                    tail.skip(m as int),
                    old_value@,
                    new_value@,
                ));
                assert(tail.skip(m as int) =~= text@.skip(i + m as int));
                assert(out@ + replace_all(text@.skip(i + m as int), old_value@, new_value@)
                    =~= pre + replace_all(tail, old_value@, new_value@));
            }
            i = i + m;
        } else {
            let piece = text.substring_char(i, i + 1);
            out.append(piece);
            proof {
                assert(piece@ =~= seq![text@[i as int]]);
                if i + m <= n {
                    assert(!match_at(text@, old_value@, i as int));
                    assert(tail.subrange(0, m as int) =~= text@.subrange(
                        i as int,
                        i + m as int,
                    ));
                    assert(tail.subrange(0, m as int) != old_value@);
                    assert(replace_all(tail, old_value@, new_value@) == seq![tail[0]]
                        + replace_all(tail.skip(1), old_value@, new_value@));
                } else {
                    assert(tail.len() < m);
                    assert(tail.skip(1).len() < m);
                    assert(replace_all(tail, old_value@, new_value@) == tail);
                    assert(replace_all(tail.skip(1), old_value@, new_value@) == tail.skip(1));
                    assert(tail =~= seq![tail[0]] + tail.skip(1));
                }
                assert(tail.skip(1) =~= text@.skip(i + 1));
                assert(out@ + replace_all(text@.skip(i + 1), old_value@, new_value@)
                    =~= pre + replace_all(tail, old_value@, new_value@));
            }
            i = i + 1;
        }
    }
    proof {
        assert(text@.skip(n as int) =~= Seq::<char>::empty());
        assert(replace_all(Seq::<char>::empty(), old_value@, new_value@)
            == Seq::<char>::empty());
        assert(out@ + Seq::<char>::empty() =~= out@);
    }
    out
}

pub proof fn lemma_no_match_replace_identity(s: Seq<char>, pat: Seq<char>, rep: Seq<char>)
    requires
        occurrences(s, pat) == 0,
    ensures
        replace_all(s, pat, rep) == s,
    decreases s.len(),
{
    if pat.len() == 0 || s.len() < pat.len() {
    } else if s.subrange(0, pat.len() as int) == pat {
        assert(false);
    } else {
        lemma_no_match_replace_identity(s.skip(1), pat, rep);
        assert(seq![s[0]] + s.skip(1) =~= s);
    }
}

pub proof fn lemma_occurrences_first_match(s: Seq<char>, pat: Seq<char>)
    requires
        occurrences(s, pat) >= 1,
    ensures
        first_match(s, pat) is Some,
    decreases s.len(),
{
    if pat.len() == 0 || s.len() < pat.len() {
    } else if s.subrange(0, pat.len() as int) == pat {
    } else {
        lemma_occurrences_first_match(s.skip(1), pat);
    }
}

pub proof fn lemma_replace_at_first_match(s: Seq<char>, pat: Seq<char>, rep: Seq<char>)
    requires
        first_match(s, pat) is Some,
    ensures
        ({
            let i = first_match(s, pat).unwrap();
            &&& match_at(s, pat, i)
            &&& replace_all(s, pat, rep) == s.subrange(0, i) + rep + replace_all(
                s.skip(i + pat.len()),
                pat,
                rep,
            )
            &&& occurrences(s, pat) == 1 + occurrences(s.skip(i + pat.len()), pat)
        }),
    decreases s.len(),
{
    let i = first_match(s, pat).unwrap();
    let m = pat.len() as int;
    if pat.len() == 0 || s.len() < pat.len() {
    } else if s.subrange(0, m) == pat {
        assert(s.subrange(0, 0) =~= Seq::<char>::empty());
        assert(s.subrange(0, 0) + rep + replace_all(s.skip(m), pat, rep) =~= rep
            + replace_all(s.skip(m), pat, rep));
    } else {
        let t = s.skip(1);
        lemma_replace_at_first_match(t, pat, rep);
        assert(t.subrange(i - 1, i - 1 + m) =~= s.subrange(i, i + m));
        assert(t.skip(i - 1 + m) =~= s.skip(i + m));
        assert(seq![s[0]] + (t.subrange(0, i - 1) + rep + replace_all(
            t.skip(i - 1 + m),
            pat,
            rep,
        )) =~= s.subrange(0, i) + rep + replace_all(s.skip(i + m), pat, rep));
    }
}

/// The round-trip law of the base swap: rewriting base `a` to `b` in `p`
/// and then `b` back to `a` restores `p`, whenever `a` occurs in `p` just
/// once and the rewritten path holds `b` just once, at that same place.
/// (When `a` or `b` also occurs elsewhere, the textual substitution is
/// lossy by design.)
pub proof fn lemma_swap_round_trip(p: Seq<char>, a: Seq<char>, b: Seq<char>)
    requires
        occurrences(p, a) == 1,
        occurrences(replace_all(p, a, b), b) == 1,
        first_match(replace_all(p, a, b), b) == first_match(p, a),
    ensures
        replace_all(replace_all(p, a, b), b, a) == p,
{
    lemma_occurrences_first_match(p, a);
    let i = first_match(p, a).unwrap();
    let m = a.len() as int;
    lemma_replace_at_first_match(p, a, b);
    let tail = p.skip(i + m);
    lemma_no_match_replace_identity(tail, a, b);
    let r = replace_all(p, a, b);
    assert(r == p.subrange(0, i) + b + tail);
    let nb = b.len() as int;
    lemma_replace_at_first_match(r, b, a);
    assert(r.subrange(0, i) =~= p.subrange(0, i));
    assert(r.skip(i + nb) =~= tail);
    lemma_no_match_replace_identity(tail, b, a);
    assert(replace_all(r, b, a) == r.subrange(0, i) + a + tail);
    assert(p.subrange(i, i + m) == a);
    assert(p.subrange(0, i) + a + tail =~= p);
}

/// Character-wise equality of two string slices.
pub fn str_eq(a: &str, b: &str) -> (r: bool)
    ensures
        r == (a@ == b@),
{
    let n = a.unicode_len();
    let m = b.unicode_len();
    if n != m {
        return false;
    }
    let mut j: usize = 0;
    while j < n
        invariant
            j <= n,
            n == a@.len(),
            n == b@.len(),
            forall|k: int| 0 <= k < j ==> a@[k] == b@[k],
        decreases n - j,
    {
        if a.get_char(j) != b.get_char(j) {
            return false;
        }
        j = j + 1;
    }
    proof {
        assert(a@ =~= b@);
    }
    true
}

/// True when `pre` is a prefix of `s`. The empty prefix matches everything.
pub open spec fn starts_with(s: Seq<char>, pre: Seq<char>) -> bool {
    match_at(s, pre, 0)
}

pub fn str_starts_with(s: &str, pre: &str) -> (r: bool)
    ensures
        r == starts_with(s@, pre@),
{
    let n = s.unicode_len();
    let m = pre.unicode_len();
    if m > n {
        return false;
    }
    str_matches_at(s, pre, 0, m)
}

/// Position of the last occurrence of `c` in `s`.
pub open spec fn last_index_of(s: Seq<char>, c: char) -> Option<int>
    decreases s.len(),
{
    if s.len() == 0 {
        None
    } else if s[s.len() - 1] == c {
        Some(s.len() - 1)
    } else {
        last_index_of(s.drop_last(), c)
    }
}

pub proof fn lemma_last_index_of_bounds(s: Seq<char>, c: char)
    requires
        last_index_of(s, c) is Some,
    ensures
        0 <= last_index_of(s, c).unwrap() < s.len(),
        s[last_index_of(s, c).unwrap()] == c,
    decreases s.len(),
{
    if s.len() == 0 {
    } else if s[s.len() - 1] == c {
    } else {
        lemma_last_index_of_bounds(s.drop_last(), c);
    }
}

pub fn str_last_index_of(s: &str, c: char) -> (r: Option<usize>)
    ensures
        match r {
            Some(k) => last_index_of(s@, c) == Some(k as int),
            None => last_index_of(s@, c) is None,
        },
{
    let n = s.unicode_len();
    let mut j: usize = n;
    proof {
        assert(s@.take(n as int) =~= s@);
    }
    while j > 0
        invariant
            j <= n,
            n == s@.len(),
            last_index_of(s@, c) == last_index_of(s@.take(j as int), c),
        decreases j,
    {
        if s.get_char(j - 1) == c {
            return Some(j - 1);
        }
        proof {
            assert(s@.take(j as int).drop_last() =~= s@.take(j - 1));
        }
        j = j - 1;
    }
    proof {
        assert(s@.take(0) =~= Seq::<char>::empty());
    }
    None
}

/// The parent of a path, in the way the reconciler needs it: everything up
/// to the last separator. A bare name has the empty parent; the root and
/// the empty path have none. Paths are taken as written, without
/// normalizing trailing separators.
pub open spec fn parent_spec(p: Seq<char>) -> Option<Seq<char>> {
    match last_index_of(p, '/') {
        None => if p.len() == 0 {
            None
        } else {
            Some(Seq::<char>::empty())
        },
        Some(k) => if p.len() == 1 {
            None
        } else if k == 0 {
            Some(seq!['/'])
        } else {
            Some(p.subrange(0, k))
        },
    }
}

pub fn parent_of(p: &str) -> (r: Option<String>)
    ensures
        match r {
            Some(q) => parent_spec(p@) == Some(q@),
            None => parent_spec(p@) is None,
        },
{
    let n = p.unicode_len();
    match str_last_index_of(p, '/') {
        None => {
            if n == 0 {
                None
            } else {
                Some(String::new())
            }
        },
        Some(k) => {
            proof {
                lemma_last_index_of_bounds(p@, '/');
            }
            if n == 1 {
                None
            } else if k == 0 {
                let sep = String::from_str("/");
                proof {
                    reveal_strlit("/");
                    assert(sep@ =~= seq!['/']);
                }
                Some(sep)
            } else {
                Some(String::from_str(p.substring_char(0, k)))
            }
        },
    }
}

/// `s` without its leading run of separators.
pub open spec fn trim_leading_slashes(s: Seq<char>) -> Seq<char>
    decreases s.len(),
{
    if s.len() > 0 && s[0] == '/' {
        trim_leading_slashes(s.skip(1))
    } else {
        s
    }
}

/// `s` without its trailing run of separators.
pub open spec fn trim_trailing_slashes(s: Seq<char>) -> Seq<char>
    decreases s.len(),
{
    if s.len() > 0 && s[s.len() - 1] == '/' {
        trim_trailing_slashes(s.drop_last())
    } else {
        s
    }
}

/// `s` without leading and trailing separators, the form in which a path
/// relative to the sync directory is compared against the ignore prefixes.
pub open spec fn trim_slashes(s: Seq<char>) -> Seq<char> {
    trim_trailing_slashes(trim_leading_slashes(s))
}

pub fn trim_slash_ends(s: &str) -> (r: String)
    ensures
        r@ == trim_slashes(s@),
{
    let n = s.unicode_len();
    let mut a: usize = 0;
    proof {
        assert(s@.skip(0) =~= s@);
    }
    while a < n && s.get_char(a) == '/'
        invariant
            a <= n,
            n == s@.len(),
            trim_leading_slashes(s@) == trim_leading_slashes(s@.skip(a as int)),
        decreases n - a,
    {
        proof {
            assert(s@.skip(a as int).skip(1) =~= s@.skip(a + 1));
        }
        a = a + 1;
    }
    if a == n {
        proof {
            assert(s@.skip(n as int) =~= Seq::<char>::empty());
        }
        return String::new();
    }
    let ghost mid = s@.skip(a as int);
    proof {
        assert(mid[0] == s@[a as int]);
        assert(trim_leading_slashes(s@) == mid);
    }
    let mut b: usize = n;
    proof {
        assert(s@.subrange(a as int, n as int) =~= mid);
    }
    while s.get_char(b - 1) == '/'
        invariant
            a < b <= n,
            n == s@.len(),
            s@[a as int] != '/',
            trim_trailing_slashes(mid) == trim_trailing_slashes(
                s@.subrange(a as int, b as int),
            ),
        decreases b,
    {
        proof {
            assert(s@.subrange(a as int, b as int).drop_last() =~= s@.subrange(
                a as int,
                b - 1,
            ));
            assert(s@.subrange(a as int, b as int)[b - 1 - a] == s@[b - 1]);
        }
        b = b - 1;
    }
    proof {
        let cut = s@.subrange(a as int, b as int);
        assert(cut[b - 1 - a] == s@[b - 1]);
        assert(trim_trailing_slashes(cut) == cut);
    }
    String::from_str(s.substring_char(a, b))
}

pub fn trim_trailing_slash_ends(s: &str) -> (r: String)
    ensures
        r@ == trim_trailing_slashes(s@),
{
    let n = s.unicode_len();
    let mut b: usize = n;
    proof {
        assert(s@.take(n as int) =~= s@);
    }
    while b > 0 && s.get_char(b - 1) == '/'
        invariant
            b <= n,
            n == s@.len(),
            trim_trailing_slashes(s@) == trim_trailing_slashes(s@.take(b as int)),
        decreases b,
    {
        proof {
            assert(s@.take(b as int).drop_last() =~= s@.take(b - 1));
            assert(s@.take(b as int)[b - 1] == s@[b - 1]);
        }
        b = b - 1;
    }
    proof {
        if b > 0 {
            assert(s@.take(b as int)[b - 1] == s@[b - 1]);
        }
        assert(trim_trailing_slashes(s@.take(b as int)) == s@.take(b as int));
    }
    String::from_str(s.substring_char(0, b))
}

/// `s` cut at every comma, the way the ignore-prefix list is stored in the
/// configuration. The empty sequence yields one empty piece.
pub open spec fn split_commas(s: Seq<char>) -> Seq<Seq<char>>
    decreases s.len(),
{
    if s.len() == 0 {
        seq![Seq::<char>::empty()]
    } else if s[0] == ',' {
        seq![Seq::<char>::empty()] + split_commas(s.skip(1))
    } else {
        let rest = split_commas(s.skip(1));
        seq![seq![s[0]] + rest[0]] + rest.skip(1)
    }
}

pub proof fn lemma_split_commas_nonempty(s: Seq<char>)
    ensures
        split_commas(s).len() >= 1,
    decreases s.len(),
{
    if s.len() == 0 {
    } else {
        lemma_split_commas_nonempty(s.skip(1));
    }
}

pub fn split_on_commas(s: &str) -> (r: Vec<String>)
    ensures
        r@.map_values(|t: String| t@) == split_commas(s@),
{
    let n = s.unicode_len();
    let mut out: Vec<String> = Vec::new();
    let mut st: usize = 0;
    let mut i: usize = 0;
    proof {
        assert(s@.skip(0) =~= s@);
        assert(s@.subrange(0, 0) =~= Seq::<char>::empty());
        lemma_split_commas_nonempty(s@);
        let rest = split_commas(s@);
        assert(seq![Seq::<char>::empty() + rest[0]] + rest.skip(1) =~= rest);
        assert(out@.map_values(|t: String| t@) =~= Seq::<Seq<char>>::empty());
    }
    while i < n
        invariant
            st <= i <= n,
            n == s@.len(),
            split_commas(s@) == out@.map_values(|t: String| t@) + seq![
                s@.subrange(st as int, i as int) + split_commas(s@.skip(i as int))[0]
            ] + split_commas(s@.skip(i as int)).skip(1),
            split_commas(s@.skip(i as int)).len() >= 1,
        decreases n - i,
    {
        let ghost outv = out@.map_values(|t: String| t@);
        let ghost pre = s@.subrange(st as int, i as int);
        let ghost tail = s@.skip(i as int);
        let ghost rest2 = split_commas(s@.skip(i + 1));
        proof {
            assert(tail[0] == s@[i as int]);
            assert(tail.skip(1) =~= s@.skip(i + 1));
            lemma_split_commas_nonempty(s@.skip(i + 1));
        }
        if s.get_char(i) == ',' {
            let piece = String::from_str(s.substring_char(st, i));
            out.push(piece);
            proof {
                assert(split_commas(tail) == seq![Seq::<char>::empty()] + rest2);
                assert(split_commas(tail)[0] == Seq::<char>::empty());
                assert(split_commas(tail).skip(1) =~= rest2);
                assert(pre + Seq::<char>::empty() =~= pre);
                assert(out@.map_values(|t: String| t@) =~= outv + seq![pre]);
                assert(s@.subrange(i + 1, i + 1) =~= Seq::<char>::empty());
                assert(Seq::<char>::empty() + rest2[0] =~= rest2[0]);
                assert(outv + seq![pre + split_commas(tail)[0]] + split_commas(tail).skip(1)
                    =~= (outv + seq![pre]) + seq![
                    s@.subrange(i + 1, i + 1) + rest2[0]
                ] + rest2.skip(1));
            }
            st = i + 1;
            i = i + 1;
        } else {
            proof {
                assert(split_commas(tail) == seq![seq![tail[0]] + rest2[0]] + rest2.skip(1));
                assert(split_commas(tail)[0] == seq![s@[i as int]] + rest2[0]);
                assert(split_commas(tail).skip(1) =~= rest2.skip(1));
                assert(pre + (seq![s@[i as int]] + rest2[0]) =~= s@.subrange(
                    st as int,
                    i + 1,
                ) + rest2[0]);
                assert(outv + seq![pre + split_commas(tail)[0]] + split_commas(tail).skip(1)
                    =~= outv + seq![s@.subrange(st as int, i + 1) + rest2[0]] + rest2.skip(
                    1,
                ));
            }
            i = i + 1;
        }
    }
    let piece = String::from_str(s.substring_char(st, n));
    out.push(piece);
    proof {
        assert(s@.skip(n as int) =~= Seq::<char>::empty());
        let rest = split_commas(s@.skip(n as int));
        assert(rest == seq![Seq::<char>::empty()]);
        assert(rest.skip(1) =~= Seq::<Seq<char>>::empty());
        assert(s@.subrange(st as int, n as int) + Seq::<char>::empty() =~= s@.subrange(
            st as int,
            n as int,
        ));
        assert(out@.map_values(|t: String| t@) =~= out@.map_values(|t: String| t@).subrange(
            0,
            out@.len() - 1,
        ) + seq![s@.subrange(st as int, n as int)]);
        assert(split_commas(s@) =~= out@.map_values(|t: String| t@));
    }
    out
}

/// A relative path resolved against a working directory; an absolute path
/// stands as it is, and an empty one resolves to the directory itself.
pub open spec fn resolve_spec(path: Seq<char>, cwd: Seq<char>) -> Seq<char> {
    if path.len() == 0 {
        cwd
    } else if path[0] == '/' {
        path
    } else if cwd.len() > 0 && cwd[cwd.len() - 1] == '/' {
        cwd + path
    } else {
        cwd + seq!['/'] + path
    }
}

pub fn resolve_path(path: &str, cwd: &str) -> (r: String)
    ensures
        r@ == resolve_spec(path@, cwd@),
{
    let n = path.unicode_len();
    if n == 0 {
        return String::from_str(cwd);
    }
    if path.get_char(0) == '/' {
        return String::from_str(path);
    }
    let m = cwd.unicode_len();
    let mut out = String::from_str(cwd);
    if m == 0 || cwd.get_char(m - 1) != '/' {
        let sep = "/";
        proof {
            reveal_strlit("/");
            assert(sep@ =~= seq!['/']);
        }
        out.append(sep);
    }
    out.append(path);
    proof {
        if m > 0 && cwd@[m - 1] == '/' {
            assert(out@ =~= cwd@ + path@);
        } else {
            assert(out@ =~= cwd@ + seq!['/'] + path@);
        }
    }
    out
}

/// A sub-path joined onto a base directory; an absolute sub-path replaces
/// the base, as a path join does.
pub open spec fn join_spec(base: Seq<char>, sub: Seq<char>) -> Seq<char> {
    if sub.len() > 0 && sub[0] == '/' {
        sub
    } else if base.len() > 0 && base[base.len() - 1] == '/' {
        base + sub
    } else {
        base + seq!['/'] + sub
    }
}

pub fn join_path(base: &str, sub: &str) -> (r: String)
    ensures
        r@ == join_spec(base@, sub@),
{
    let n = sub.unicode_len();
    if n > 0 && sub.get_char(0) == '/' {
        return String::from_str(sub);
    }
    let m = base.unicode_len();
    let mut out = String::from_str(base);
    if m == 0 || base.get_char(m - 1) != '/' {
        let sep = "/";
        proof {
            reveal_strlit("/");
            assert(sep@ =~= seq!['/']);
        }
        out.append(sep);
    }
    out.append(sub);
    proof {
        if m > 0 && base@[m - 1] == '/' {
            assert(out@ =~= base@ + sub@);
        } else {
            assert(out@ =~= base@ + seq!['/'] + sub@);
        }
    }
    out
}

} // verus!

