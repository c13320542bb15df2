//! The configuration store: an ordered, string-keyed list of pairs kept
//! in memory. The caller reads the backing file's text and hands it to
//! `from_text`, and writes `to_text` back; parsing the INI form is the
//! work of the rust-ini crate, behind a trusted wrapper.
use vstd::prelude::*;

verus! {

use crate::errors::FfError;
use crate::paths::str_eq;
use vstd::string::StringExecFns;

/// The general-section key/value pairs that parsing `text` as an INI
/// document yields, in order; `None` when the text does not parse.
pub uninterp spec fn ini_general_of(text: Seq<char>) -> Option<Seq<(Seq<char>, Seq<char>)>>;

/// Relies on `ini::Ini::load_from_str`, `Ini::general_section` and
/// `Properties::iter` of the rust-ini crate: parsing is a function of
/// the text alone, and the properties iterate in insertion order.
#[verifier::external_body]
fn ini_parse(text: &str) -> (r: Option<Vec<(String, String)>>)
    ensures
        (r is Some) == (ini_general_of(text@) is Some),
        (r matches Some(v) ==> Some(v@.map_values(|p: (String, String)| (p.0@, p.1@)))
            == ini_general_of(text@)),
{
    match ini::Ini::load_from_str(text) {
        Err(_) => None,
        Ok(conf) => Some(
            conf.general_section().iter().map(|(k, v)| (k.to_string(), v.to_string())).collect(),
        ),
    }
}

/// The value of the first pair carrying `key`.
pub open spec fn lookup_spec(pairs: Seq<(Seq<char>, Seq<char>)>, key: Seq<char>) -> Option<
    Seq<char>,
>
    decreases pairs.len(),
{
    if pairs.len() == 0 {
        None
    } else if pairs[0].0 == key {
        Some(pairs[0].1)
    } else {
        lookup_spec(pairs.skip(1), key)
    }
}

/// `pairs` with the first pair carrying `key` set to `value`, keeping its
/// place, or with the pair appended when the key is absent.
pub open spec fn set_spec(
    pairs: Seq<(Seq<char>, Seq<char>)>,
    key: Seq<char>,
    value: Seq<char>,
) -> Seq<(Seq<char>, Seq<char>)>
    decreases pairs.len(),
{
    if pairs.len() == 0 {
        seq![(key, value)]
    } else if pairs[0].0 == key {
        seq![(key, value)] + pairs.skip(1)
    } else {
        seq![pairs[0]] + set_spec(pairs.skip(1), key, value)
    }
}

/// The text of the store: one `key=value` line per pair, in order.
pub open spec fn render_spec(pairs: Seq<(Seq<char>, Seq<char>)>) -> Seq<char>
    decreases pairs.len(),
{
    if pairs.len() == 0 {
        Seq::empty()
    } else {
        pairs[0].0 + "="@ + pairs[0].1 + "\n"@ + render_spec(pairs.skip(1))
    }
}

proof fn lemma_lookup_found(pairs: Seq<(Seq<char>, Seq<char>)>, key: Seq<char>, j: int)
    requires
        0 <= j < pairs.len(),
        forall|k: int| 0 <= k < j ==> pairs[k].0 != key,
        pairs[j].0 == key,
    ensures
        lookup_spec(pairs, key) == Some(pairs[j].1),
    decreases pairs.len(),
{
    if j == 0 {
    } else {
        lemma_lookup_found(pairs.skip(1), key, j - 1);
    }
}

proof fn lemma_lookup_absent(pairs: Seq<(Seq<char>, Seq<char>)>, key: Seq<char>)
    requires
        forall|k: int| 0 <= k < pairs.len() ==> pairs[k].0 != key,
    ensures
        lookup_spec(pairs, key) is None,
    decreases pairs.len(),
{
    if pairs.len() == 0 {
    } else {
        lemma_lookup_absent(pairs.skip(1), key);
    }
}

proof fn lemma_set_spec_found(
    pairs: Seq<(Seq<char>, Seq<char>)>,
    key: Seq<char>,
    value: Seq<char>,
    j: int,
)
    requires
        0 <= j < pairs.len(),
        forall|k: int| 0 <= k < j ==> pairs[k].0 != key,
        pairs[j].0 == key,
    ensures
        set_spec(pairs, key, value) == pairs.update(j, (key, value)),
    decreases pairs.len(),
{
    if j == 0 {
        assert(seq![(key, value)] + pairs.skip(1) =~= pairs.update(0, (key, value)));
    } else {
        lemma_set_spec_found(pairs.skip(1), key, value, j - 1);
        assert(seq![pairs[0]] + pairs.skip(1).update(j - 1, (key, value)) =~= pairs.update(
            j,
            (key, value),
        ));
    }
}

proof fn lemma_set_spec_absent(pairs: Seq<(Seq<char>, Seq<char>)>, key: Seq<char>, value: Seq<char>)
    requires
        forall|k: int| 0 <= k < pairs.len() ==> pairs[k].0 != key,
    ensures
        set_spec(pairs, key, value) == pairs.push((key, value)),
    decreases pairs.len(),
{
    if pairs.len() == 0 {
        assert(seq![(key, value)] =~= pairs.push((key, value)));
    } else {
        lemma_set_spec_absent(pairs.skip(1), key, value);
        assert(seq![pairs[0]] + pairs.skip(1).push((key, value)) =~= pairs.push((key, value)));
    }
}

/// A string-keyed configuration store backed by a file at a path. The
/// pairs live in memory; reading and writing the file is the caller's.
#[derive(Debug)]
pub struct Config {
    path: String,
    pairs: Vec<(String, String)>,
}

impl Config {
    /// The path of the backing file.
    pub closed spec fn path_view(&self) -> Seq<char> {
        self.path@
    }

    /// The key/value pairs, in order.
    pub closed spec fn pairs_view(&self) -> Seq<(Seq<char>, Seq<char>)> {
        self.pairs@.map_values(|p: (String, String)| (p.0@, p.1@))
    }

    /// Gives an empty store kept at `path`.
    pub fn new(path: &str) -> (r: Config)
        ensures
            r.path_view() == path@,
            r.pairs_view() == Seq::<(Seq<char>, Seq<char>)>::empty(),
    {
        let c = Config { path: String::from_str(path), pairs: Vec::new() };
        proof {
            assert(c.pairs_view() =~= Seq::<(Seq<char>, Seq<char>)>::empty());
        }
        c
    }

    /// Returns the path to the file where the store is kept.
    pub fn get_path(&self) -> (r: &str)
        ensures
            r@ == self.path_view(),
    {
        self.path.as_str()
    }

    /// A store loaded from the text of the file at `path`; an error
    /// naming the path when the text does not parse.
    pub fn from_text(path: &str, text: &str) -> (r: Result<Config, FfError>)
        ensures
            (r is Ok) == (ini_general_of(text@) is Some),
            (r matches Ok(c) ==> c.path_view() == path@ && Some(c.pairs_view())
                == ini_general_of(text@)),
            (r matches Err(e) ==> (e matches FfError::Config(s) && s@ == path@)),
    {
        match ini_parse(text) {
            None => Err(FfError::Config(String::from_str(path))),
            Some(pairs) => Ok(Config { path: String::from_str(path), pairs }),
        }
    }

    /// Returns the value stored under `key`: the value of the first pair
    /// with that key.
    pub fn get(&self, key: &str) -> (r: Option<String>)
        ensures
            match r {
                Some(v) => lookup_spec(self.pairs_view(), key@) == Some(v@),
                None => lookup_spec(self.pairs_view(), key@) is None,
            },
    {
        let mut i: usize = 0;
        while i < self.pairs.len()
            invariant
                i <= self.pairs@.len(),
                forall|k: int| 0 <= k < i ==> #[trigger] self.pairs_view()[k].0 != key@,
            decreases self.pairs@.len() - i,
        {
            if str_eq(self.pairs[i].0.as_str(), key) {
                proof {
                    lemma_lookup_found(self.pairs_view(), key@, i as int);
                }
                return Some(self.pairs[i].1.clone());
            }
            i = i + 1;
        }
        proof {
            lemma_lookup_absent(self.pairs_view(), key@);
        }
        None
    }

    /// Sets `value` under `key`: replaces the value of the first pair
    /// with that key, or appends a new pair.
    pub fn set(&mut self, key: &str, value: &str)
        ensures
            final (self).path_view() == old(self).path_view(),
            final (self).pairs_view() == set_spec(old(self).pairs_view(), key@, value@),
    {
        let mut i: usize = 0;
        while i < self.pairs.len()
            invariant
                i <= self.pairs@.len(),
                *self == *old(self),
                forall|k: int| 0 <= k < i ==> #[trigger] self.pairs_view()[k].0 != key@,
            decreases self.pairs@.len() - i,
        {
            if str_eq(self.pairs[i].0.as_str(), key) {
                proof {
                    lemma_set_spec_found(self.pairs_view(), key@, value@, i as int);
                }
                self.pairs.set(i, (String::from_str(key), String::from_str(value)));
                proof {
                    assert(self.pairs_view() =~= old(self).pairs_view().update(
                        i as int,
                        (key@, value@),
                    ));
                }
                return ;
            }
            i = i + 1;
        }
        proof {
            lemma_set_spec_absent(self.pairs_view(), key@, value@);
        }
        self.pairs.push((String::from_str(key), String::from_str(value)));
        proof {
            assert(self.pairs_view() =~= old(self).pairs_view().push((key@, value@)));
        }
    }

    /// The text of the store, as it is written back to the file: one
    /// `key=value` line per pair.
    pub fn to_text(&self) -> (r: String)
        ensures
            r@ == render_spec(self.pairs_view()),
    {
        let mut out = String::new();
        let mut i: usize = 0;
        proof {
            assert(self.pairs_view().skip(0) =~= self.pairs_view());
            assert(out@ + render_spec(self.pairs_view()) =~= render_spec(self.pairs_view()));
        }
        while i < self.pairs.len()
            invariant
                i <= self.pairs@.len(),
                render_spec(self.pairs_view()) == out@ + render_spec(
                    self.pairs_view().skip(i as int),
                ),
            decreases self.pairs@.len() - i,
        {
            let ghost pre = out@;
            let ghost rest = self.pairs_view().skip(i as int);
            out.append(self.pairs[i].0.as_str());
            out.append("=");
            out.append(self.pairs[i].1.as_str());
            out.append("\n");
            proof {
                assert(rest[0] == self.pairs_view()[i as int]);
                assert(rest.skip(1) =~= self.pairs_view().skip(i + 1));
                assert(render_spec(rest) == rest[0].0 + "="@ + rest[0].1 + "\n"@
                    + render_spec(rest.skip(1)));
                assert(out@ + render_spec(self.pairs_view().skip(i + 1)) =~= pre
                    + render_spec(rest));
            }
            i = i + 1;
        }
        proof {
            assert(self.pairs_view().skip(self.pairs@.len() as int) =~= Seq::<
                (Seq<char>, Seq<char>),
            >::empty());
            assert(out@ + Seq::<char>::empty() =~= out@);
        }
        out
    }
}

} // verus!
