//! The sync-root registrar: the decisions around choosing, validating and
//! persisting the synchronized directory, and reading it back for the
//! other operations. The caller canonicalizes paths and supplies the home
//! and working directories; every rule about them is decided here.
use vstd::prelude::*;

verus! {

use crate::config::Config;
use crate::config::lookup_spec;
use crate::config::set_spec;
use crate::errors::FfError;
use crate::paths::join_path;
use crate::paths::join_spec;
use crate::paths::split_commas;
use crate::paths::split_on_commas;
use crate::paths::starts_with;
use crate::paths::str_eq;
use crate::paths::str_starts_with;
use crate::paths::trim_trailing_slash_ends;
use crate::paths::trim_trailing_slashes;
use vstd::string::StringExecFns;

/// Whether `p` lies at or under `base`, component-wise: it is `base`
/// itself (trailing separators aside) or continues it past a separator.
pub open spec fn is_descendant(p: Seq<char>, base: Seq<char>) -> bool {
    let b = trim_trailing_slashes(base);
    p == b || starts_with(p, b + seq!['/'])
}

/// What `init` reports on success: the previously registered sync root,
/// when one existed and differs from the new one.
#[derive(Debug)]
pub struct InitOutcome {
    pub overwritten: Option<String>,
}

/// The old sync root that registering `sync_dir` overwrites: the value
/// registered in `pairs`, when there is one and it differs.
pub open spec fn overwritten_spec(
    pairs: Seq<(Seq<char>, Seq<char>)>,
    sync_dir: Seq<char>,
) -> Option<Seq<char>> {
    match lookup_spec(pairs, "sync-dir"@) {
        Some(v) => if v != sync_dir {
            Some(v)
        } else {
            None
        },
        None => None,
    }
}

/// Registers `sync_dir` — handed in absolute and canonical — as the sync
/// root: verifies it is a descendant of `home_dir`, persists it in the
/// store under `sync-dir` together with the default ignore prefixes
/// under `ignore-when-apply`, and reports the old root when a different
/// one is overwritten. A sync root outside the home directory is refused
/// and leaves the store untouched.
pub fn init(sync_dir: &str, home_dir: &str, config: &mut Config) -> (r: Result<
    InitOutcome,
    FfError,
>)
    ensures
        !is_descendant(sync_dir@, home_dir@) ==> ({
            &&& (r matches Err(e) && (e matches FfError::Precondition(s) && s@
                == "Sync dir should be descendant of home dir"@))
            &&& final (config).path_view() == old(config).path_view()
            &&& final (config).pairs_view() == old(config).pairs_view()
        }),
        is_descendant(sync_dir@, home_dir@) ==> ({
            let pairs1 = set_spec(old(config).pairs_view(), "ignore-when-apply"@, ".git/,.hg/"@);
            &&& final (config).path_view() == old(config).path_view()
            &&& final (config).pairs_view() == set_spec(pairs1, "sync-dir"@, sync_dir@)
            &&& r is Ok
            &&& crate::reconcile::opt_string_view(r->Ok_0.overwritten) == overwritten_spec(
                old(config).pairs_view(),
                sync_dir@,
            )
        }),
{
    let base = trim_trailing_slash_ends(home_dir);
    let mut prefix = base.clone();
    let sep = "/";
    proof {
        reveal_strlit("/");
        assert(sep@ =~= seq!['/']);
    }
    prefix.append(sep);
    let inside = str_eq(sync_dir, base.as_str()) || str_starts_with(sync_dir, prefix.as_str());
    if !inside {
        return Err(
            FfError::Precondition(String::from_str("Sync dir should be descendant of home dir")),
        );
    }
    let old_root = config.get("sync-dir");
    config.set("ignore-when-apply", ".git/,.hg/");
    config.set("sync-dir", sync_dir);
    let overwritten = match old_root {
        Some(p) => {
            if !str_eq(p.as_str(), sync_dir) {
                Some(p)
            } else {
                None
            }
        },
        None => None,
    };
    Ok(InitOutcome { overwritten })
}

/// The directory `init` is pointed at: the candidate itself, or the
/// working directory when the candidate is empty.
pub fn effective_candidate(candidate: &str, cwd: &str) -> (r: String)
    ensures
        r@ == (if candidate@.len() == 0 {
            cwd@
        } else {
            candidate@
        }),
{
    if candidate.unicode_len() == 0 {
        String::from_str(cwd)
    } else {
        String::from_str(candidate)
    }
}

/// Correctness of a looked-up sync root: the registered root joined with
/// the sub-directory when one is given, and a precondition error naming
/// the store's path when no root was registered.
pub open spec fn space_dir_matches(
    r: Result<String, FfError>,
    pairs: Seq<(Seq<char>, Seq<char>)>,
    config_path: Seq<char>,
    space_dir: Seq<char>,
) -> bool {
    match lookup_spec(pairs, "sync-dir"@) {
        None => (r matches Err(e) && (e matches FfError::Precondition(s) && s@
            == "Can't find 'sync-dir' value in config file: "@ + config_path)),
        Some(v) => (r matches Ok(d) && d@ == (if space_dir.len() == 0 {
            v
        } else {
            join_spec(v, space_dir)
        })),
    }
}

/// The registered sync root, with `space_dir` joined onto it when it is
/// not empty.
pub fn with_space_dir(space_dir: &str, config: &Config) -> (r: Result<String, FfError>)
    ensures
        space_dir_matches(r, config.pairs_view(), config.path_view(), space_dir@),
{
    match config.get("sync-dir") {
        None => {
            let mut m = String::from_str("Can't find 'sync-dir' value in config file: ");
            m.append(config.get_path());
            Err(FfError::Precondition(m))
        },
        Some(root) => {
            if space_dir.unicode_len() == 0 {
                Ok(root)
            } else {
                Ok(join_path(root.as_str(), space_dir))
            }
        },
    }
}

/// The ignore prefixes of the store: the comma-separated pieces of the
/// `ignore-when-apply` value, none when the key is absent.
pub open spec fn ignores_spec(pairs: Seq<(Seq<char>, Seq<char>)>) -> Seq<Seq<char>> {
    match lookup_spec(pairs, "ignore-when-apply"@) {
        None => Seq::empty(),
        Some(v) => split_commas(v),
    }
}

pub fn ignore_list(config: &Config) -> (r: Vec<String>)
    ensures
        r@.map_values(|t: String| t@) == ignores_spec(config.pairs_view()),
{
    match config.get("ignore-when-apply") {
        None => {
            let v: Vec<String> = Vec::new();
            proof {
                assert(v@.map_values(|t: String| t@) =~= Seq::<Seq<char>>::empty());
            }
            v
        },
        Some(v) => split_on_commas(v.as_str()),
    }
}

/// What one `apply` run takes from the store: the walk root — the sync
/// root joined with the sub-directory — and the ignore prefixes.
pub struct ApplySetup {
    pub walk_root: String,
    pub ignores: Vec<String>,
}

/// Collects the walk root and the ignore prefixes for an `apply` run.
pub fn action_apply(space_dir: &str, config: &Config) -> (r: Result<ApplySetup, FfError>)
    ensures
        match r {
            Ok(setup) => space_dir_matches(
                Ok(setup.walk_root),
                config.pairs_view(),
                config.path_view(),
                space_dir@,
            ) && setup.ignores@.map_values(|t: String| t@) == ignores_spec(config.pairs_view()),
            Err(e) => space_dir_matches(
                Err(e),
                config.pairs_view(),
                config.path_view(),
                space_dir@,
            ),
        },
{
    match with_space_dir(space_dir, config) {
        Err(e) => Err(e),
        Ok(root) => Ok(ApplySetup { walk_root: root, ignores: ignore_list(config) }),
    }
}

} // verus!
