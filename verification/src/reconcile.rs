//! The link reconciler and tree walker: the engine that plans how a file
//! moves into the sync directory and is replaced by a symbolic link, how
//! the link is undone, and how a whole sync tree is reconciled against
//! the home directory. The planning and every decision is made here; the
//! filesystem calls that carry a plan out are the caller's, which reports
//! each step's success back in.
use vstd::prelude::*;

verus! {

use crate::errors::FfError;
use crate::fs_model::ActionModel;
use crate::fs_model::FsAction;
use crate::fs_model::LeafModel;
use crate::fs_model::run_actions;
use crate::fs_model::action_effect;
use crate::paths::parent_of;
use crate::paths::parent_spec;
use crate::paths::replace_all;
use crate::paths::resolve_path;
use crate::paths::resolve_spec;
use crate::paths::starts_with;
use crate::paths::str_starts_with;
use crate::paths::swap_path_bases;
use crate::paths::trim_slash_ends;
use crate::paths::trim_slashes;
use vstd::string::StringExecFns;

/// The plan of one `add`: where the file stands, where it will be
/// stored, and the directory that must exist first.
#[derive(Debug)]
pub struct AddPlan {
    /// The absolute original path; on success it ends as a symbolic link.
    pub file: String,
    /// The path under the sync directory that will hold the file.
    pub target: String,
    /// The parent directory of `target`.
    pub parent: String,
}

/// The target path `add` computes for a file: its absolute form with the
/// home-directory base rewritten to the sync-directory base.
pub open spec fn add_target_spec(
    file_path: Seq<char>,
    home_dir: Seq<char>,
    sync_dir: Seq<char>,
    cwd: Seq<char>,
) -> Seq<char> {
    replace_all(resolve_spec(file_path, cwd), home_dir, sync_dir)
}

/// Correctness of an `add` outcome: a full plan whenever the target path
/// has a parent, and a path-resolution error naming the target otherwise.
pub open spec fn add_plan_matches(
    r: Result<AddPlan, FfError>,
    file_path: Seq<char>,
    home_dir: Seq<char>,
    sync_dir: Seq<char>,
    cwd: Seq<char>,
) -> bool {
    let abs = resolve_spec(file_path, cwd);
    let target = add_target_spec(file_path, home_dir, sync_dir, cwd);
    match r {
        Ok(p) => {
            &&& parent_spec(target) is Some
            &&& p.file@ == abs
            &&& p.target@ == target
            &&& p.parent@ == parent_spec(target).unwrap()
        },
        Err(e) => {
            &&& parent_spec(target) is None
            &&& (e matches FfError::PathResolution(s) && s@ == target)
        },
    }
}

/// Plans the relocation of `file_path` into the sync directory: resolves
/// it against `cwd`, rewrites the home base to the sync base, and names
/// the parent directory that must be created. The filesystem steps of the
/// plan are `add_actions`; a failed step is judged by `add_failure`.
pub fn add(file_path: &str, home_dir: &str, sync_dir: &str, cwd: &str) -> (r: Result<
    AddPlan,
    FfError,
>)
    ensures
        add_plan_matches(r, file_path@, home_dir@, sync_dir@, cwd@),
{
    let abs = resolve_path(file_path, cwd);
    let target = swap_path_bases(abs.as_str(), home_dir, sync_dir);
    match parent_of(target.as_str()) {
        None => Err(FfError::PathResolution(target)),
        Some(parent) => Ok(AddPlan { file: abs, target, parent }),
    }
}

/// The action sequence of an `add` plan: create the parent directories,
/// move the file to the sync path, link the old path to the new one.
pub open spec fn add_actions_spec(file: Seq<char>, target: Seq<char>, parent: Seq<char>) -> Seq<
    ActionModel,
> {
    seq![
        ActionModel::CreateDirAll(parent),
        ActionModel::Rename { from: file, to: target },
        ActionModel::Symlink { source: target, link: file },
    ]
}

pub fn add_actions(plan: &AddPlan) -> (r: Vec<FsAction>)
    ensures
        r@.map_values(|a: FsAction| a@) == add_actions_spec(
            plan.file@,
            plan.target@,
            plan.parent@,
        ),
{
    let mut v: Vec<FsAction> = Vec::new();
    v.push(FsAction::CreateDirAll(plan.parent.clone()));
    v.push(FsAction::Rename { from: plan.file.clone(), to: plan.target.clone() });
    v.push(FsAction::Symlink { source: plan.target.clone(), link: plan.file.clone() });
    proof {
        assert(v@.map_values(|a: FsAction| a@) =~= add_actions_spec(
            plan.file@,
            plan.target@,
            plan.parent@,
        ));
    }
    v
}

/// The step of an `add` at which a filesystem action failed.
#[derive(Debug, Clone, PartialEq, Eq)]
pub enum AddStep {
    /// Creating the parent directories under the sync directory.
    MakeParent,
    /// Moving the file to its sync path.
    Move,
    /// Linking the original path to the sync path.
    Link,
}

/// What follows a failed `add` step: give up with the error, or first
/// move the file back where it was.
pub enum AddFailure {
    Fatal(FfError),
    Revert(FsAction),
}

/// Judges a failed `add` step. A failure before or at the move is fatal
/// for this file; a failure of the link step asks for the move to be
/// reverted, whose own outcome `add_revert_result` judges.
pub fn add_failure(plan: &AddPlan, step: &AddStep) -> (r: AddFailure)
    ensures
        match step {
            AddStep::MakeParent => (r matches AddFailure::Fatal(e) && (
            e matches FfError::Mutation(s) && s@ == "Can't create sync-dir: "@
                + plan.parent@)),
            AddStep::Move => (r matches AddFailure::Fatal(e) && (
            e matches FfError::Mutation(s) && s@ == "Can't move file to sync-dir: "@
                + plan.target@)),
            AddStep::Link => (r matches AddFailure::Revert(a) && a@
                == ActionModel::Rename { from: plan.target@, to: plan.file@ }),
        },
{
    match step {
        AddStep::MakeParent => {
            let mut m = String::from_str("Can't create sync-dir: ");
            m.append(plan.parent.as_str());
            AddFailure::Fatal(FfError::Mutation(m))
        },
        AddStep::Move => {
            let mut m = String::from_str("Can't move file to sync-dir: ");
            m.append(plan.target.as_str());
            AddFailure::Fatal(FfError::Mutation(m))
        },
        AddStep::Link => AddFailure::Revert(
            FsAction::Rename { from: plan.target.clone(), to: plan.file.clone() },
        ),
    }
}

/// The outcome of the rollback after a failed link step: the move was
/// reverted when the rename back succeeded, and the sync path needs
/// manual cleanup when it failed too.
pub fn add_revert_result(plan: &AddPlan, revert_ok: bool) -> (r: FfError)
    ensures
        revert_ok ==> r == FfError::MoveReverted,
        !revert_ok ==> (r matches FfError::ManualCleanup(s) && s@ == plan.target@),
{
    if revert_ok {
        FfError::MoveReverted
    } else {
        FfError::ManualCleanup(plan.target.clone())
    }
}

/// Plans the relocation of every path in `file_paths`, in input order;
/// each entry is planned on its own and one failure leaves the others
/// untouched.
pub fn add_files(file_paths: &Vec<String>, home_dir: &str, sync_dir: &str, cwd: &str) -> (r:
    Vec<Result<AddPlan, FfError>>)
    ensures
        r@.len() == file_paths@.len(),
        forall|i: int|
            0 <= i < r@.len() ==> add_plan_matches(
                r@[i],
                file_paths@[i]@,
                home_dir@,
                sync_dir@,
                cwd@,
            ),
{
    let mut out: Vec<Result<AddPlan, FfError>> = Vec::new();
    let mut i: usize = 0;
    while i < file_paths.len()
        invariant
            i <= file_paths@.len(),
            out@.len() == i,
            forall|k: int|
                0 <= k < i ==> add_plan_matches(
                    out@[k],
                    file_paths@[k]@,
                    home_dir@,
                    sync_dir@,
                    cwd@,
                ),
        decreases file_paths@.len() - i,
    {
        out.push(crate::reconcile::add(file_paths[i].as_str(), home_dir, sync_dir, cwd));
        i = i + 1;
    }
    out
}

/// The plan of one `remove`: the stored file moves back over the link.
#[derive(Debug)]
pub struct RemovePlan {
    /// The symlink path that becomes the regular file again.
    pub link: String,
    /// The stored path the link pointed at.
    pub stored: String,
}

/// The view of an optional borrowed string.
pub open spec fn opt_str_view(o: Option<&str>) -> Option<Seq<char>> {
    match o {
        Some(t) => Some(t@),
        None => None,
    }
}

/// The view of an optional owned string.
pub open spec fn opt_string_view(o: Option<String>) -> Option<Seq<char>> {
    match o {
        Some(t) => Some(t@),
        None => None,
    }
}

/// Correctness of a `remove` outcome: a plan exactly when reading the
/// link yielded a target, and a precondition error naming the path
/// otherwise.
pub open spec fn remove_plan_matches(
    r: Result<RemovePlan, FfError>,
    symlinked: Seq<char>,
    link_target: Option<Seq<char>>,
) -> bool {
    match link_target {
        Some(t) => (r matches Ok(p) && p.link@ == symlinked && p.stored@ == t),
        None => (r matches Err(e) && (e matches FfError::Precondition(s) && s@
            == "Can't read symlink: "@ + symlinked)),
    }
}

/// Plans the removal of a tracked link. `link_target` is what reading the
/// symbolic link at `symlinked` yielded; `None` when the path is no link
/// or could not be read, which aborts the operation for this file.
pub fn remove(symlinked: &str, link_target: Option<&str>) -> (r: Result<RemovePlan, FfError>)
    ensures
        remove_plan_matches(r, symlinked@, opt_str_view(link_target)),
{
    match link_target {
        Some(t) => Ok(
            RemovePlan { link: String::from_str(symlinked), stored: String::from_str(t) },
        ),
        None => {
            let mut m = String::from_str("Can't read symlink: ");
            m.append(symlinked);
            Err(FfError::Precondition(m))
        },
    }
}

/// The one action of a `remove` plan: the stored file is renamed back
/// onto the link path, replacing the link.
pub open spec fn remove_actions_spec(link: Seq<char>, stored: Seq<char>) -> Seq<ActionModel> {
    seq![ActionModel::Rename { from: stored, to: link }]
}

pub fn remove_action(plan: &RemovePlan) -> (r: FsAction)
    ensures
        r@ == (ActionModel::Rename { from: plan.stored@, to: plan.link@ }),
{
    FsAction::Rename { from: plan.stored.clone(), to: plan.link.clone() }
}

/// The error reported when the move back failed.
pub fn remove_failure(plan: &RemovePlan) -> (r: FfError)
    ensures
        r matches FfError::Mutation(s) && s@ == "Can't move file "@ + plan.stored@ + " to "@
            + plan.link@,
{
    let mut m = String::from_str("Can't move file ");
    m.append(plan.stored.as_str());
    m.append(" to ");
    m.append(plan.link.as_str());
    FfError::Mutation(m)
}

/// Plans the removal of every read link in `reads`, each pair being a
/// path and what reading the link there yielded, in input order.
pub fn remove_files(reads: &Vec<(String, Option<String>)>) -> (r: Vec<
    Result<RemovePlan, FfError>,
>)
    ensures
        r@.len() == reads@.len(),
        forall|i: int|
            0 <= i < r@.len() ==> remove_plan_matches(
                r@[i],
                reads@[i].0@,
                opt_string_view(reads@[i].1),
            ),
{
    let mut out: Vec<Result<RemovePlan, FfError>> = Vec::new();
    let mut i: usize = 0;
    while i < reads.len()
        invariant
            i <= reads@.len(),
            out@.len() == i,
            forall|k: int|
                0 <= k < i ==> remove_plan_matches(
                    out@[k],
                    reads@[k].0@,
                    opt_string_view(reads@[k].1),
                ),
        decreases reads@.len() - i,
    {
        let link_target = match &reads[i].1 {
            Some(t) => Some(t.as_str()),
            None => None,
        };
        out.push(remove(reads[i].0.as_str(), link_target));
        i = i + 1;
    }
    out
}

/// Removes all read links in `reads`, as `remove_files` does.
pub fn action_remove(reads: &Vec<(String, Option<String>)>) -> (r: Vec<
    Result<RemovePlan, FfError>,
>)
    ensures
        r@.len() == reads@.len(),
        forall|i: int|
            0 <= i < r@.len() ==> remove_plan_matches(
                r@[i],
                reads@[i].0@,
                opt_string_view(reads@[i].1),
            ),
{
    remove_files(reads)
}

/// The plan of one traversal entry: the home-side path to relink, the
/// sync-side file it will point at, and the parent directory that must
/// exist first.
#[derive(Debug)]
pub struct SymlinkPlan {
    /// The home-side path; it ends as a symbolic link.
    pub link: String,
    /// The sync-side file the link points at.
    pub source: String,
    /// The parent directory of `link`.
    pub parent: String,
}

/// One entry of the directory walk over the sync tree: its path, and
/// whether its metadata reports a regular file.
#[derive(Debug)]
pub struct WalkEntry {
    pub path: String,
    pub is_file: bool,
}

/// The home-side path of a sync-side one: the sync base rewritten to the
/// home base.
pub open spec fn link_target_spec(
    entry_path: Seq<char>,
    sync_dir: Seq<char>,
    home_dir: Seq<char>,
) -> Seq<char> {
    replace_all(entry_path, sync_dir, home_dir)
}

/// Correctness of a `symlink_file` outcome: nothing for an entry that is
/// no regular file; otherwise a full plan whenever the home-side path has
/// a parent, and a path-resolution error naming that path otherwise.
pub open spec fn symlink_plan_matches(
    r: Result<Option<SymlinkPlan>, FfError>,
    entry_path: Seq<char>,
    entry_is_file: bool,
    sync_dir: Seq<char>,
    home_dir: Seq<char>,
) -> bool {
    let link = link_target_spec(entry_path, sync_dir, home_dir);
    if !entry_is_file {
        r matches Ok(p) && p is None
    } else {
        match parent_spec(link) {
            Some(par) => (r matches Ok(p) && (p matches Some(pl) && pl.link@ == link
                && pl.source@ == entry_path && pl.parent@ == par)),
            None => (r matches Err(e) && (e matches FfError::PathResolution(s) && s@ == link)),
        }
    }
}

/// Plans the reconciliation of one traversal entry: a regular file under
/// the sync tree gets a symbolic link at its home-side path; directories
/// and other node kinds are left alone.
pub fn symlink_file(entry_path: &str, entry_is_file: bool, sync_dir: &str, home_dir: &str) -> (r:
    Result<Option<SymlinkPlan>, FfError>)
    ensures
        symlink_plan_matches(r, entry_path@, entry_is_file, sync_dir@, home_dir@),
{
    if !entry_is_file {
        return Ok(None);
    }
    let link = swap_path_bases(entry_path, sync_dir, home_dir);
    match parent_of(link.as_str()) {
        None => Err(FfError::PathResolution(link)),
        Some(parent) => Ok(
            Some(SymlinkPlan { link, source: String::from_str(entry_path), parent }),
        ),
    }
}

/// The action sequence of a `symlink_file` plan: create the parent
/// directories, clear whatever stands at the home-side path, and link it
/// to the sync-side file.
pub open spec fn symlink_actions_spec(link: Seq<char>, source: Seq<char>, parent: Seq<char>) -> Seq<
    ActionModel,
> {
    seq![
        ActionModel::CreateDirAll(parent),
        ActionModel::ClearPath(link),
        ActionModel::Symlink { source: source, link: link },
    ]
}

pub fn symlink_actions(plan: &SymlinkPlan) -> (r: Vec<FsAction>)
    ensures
        r@.map_values(|a: FsAction| a@) == symlink_actions_spec(
            plan.link@,
            plan.source@,
            plan.parent@,
        ),
{
    let mut v: Vec<FsAction> = Vec::new();
    v.push(FsAction::CreateDirAll(plan.parent.clone()));
    v.push(FsAction::ClearPath(plan.link.clone()));
    v.push(FsAction::Symlink { source: plan.source.clone(), link: plan.link.clone() });
    proof {
        assert(v@.map_values(|a: FsAction| a@) =~= symlink_actions_spec(
            plan.link@,
            plan.source@,
            plan.parent@,
        ));
    }
    v
}

/// The sync-relative form of an entry path: the sync base removed, the
/// separators at the ends trimmed.
pub open spec fn rel_spec(entry_path: Seq<char>, sync_dir: Seq<char>) -> Seq<char> {
    trim_slashes(replace_all(entry_path, sync_dir, Seq::empty()))
}

/// Whether the relative form begins with one of the ignore prefixes.
pub open spec fn ignored_spec(rel: Seq<char>, ignores: Seq<Seq<char>>) -> bool {
    exists|k: int| 0 <= k < ignores.len() && starts_with(rel, ignores[k])
}

pub fn is_ignored(rel: &str, ignores: &Vec<String>) -> (r: bool)
    ensures
        r == ignored_spec(rel@, ignores@.map_values(|t: String| t@)),
{
    let ghost igv = ignores@.map_values(|t: String| t@);
    let mut k: usize = 0;
    while k < ignores.len()
        invariant
            k <= ignores@.len(),
            igv == ignores@.map_values(|t: String| t@),
            forall|j: int| 0 <= j < k ==> !starts_with(rel@, #[trigger] igv[j]),
        decreases ignores@.len() - k,
    {
        if str_starts_with(rel, ignores[k].as_str()) {
            proof {
                assert(starts_with(rel@, igv[k as int]));
            }
            return true;
        }
        k = k + 1;
    }
    false
}

/// Whether the walk reconciles this entry: a regular file whose relative
/// form no ignore prefix matches.
pub open spec fn entry_reconciled(e: WalkEntry, sync_dir: Seq<char>, ignores: Seq<Seq<char>>) -> bool {
    e.is_file && !ignored_spec(rel_spec(e.path@, sync_dir), ignores)
}

/// The plans of a walk, in traversal order: one triple of link path,
/// source path and parent directory per reconciled entry whose home-side
/// path has a parent.
pub open spec fn apply_plans_spec(
    entries: Seq<WalkEntry>,
    sync_dir: Seq<char>,
    home_dir: Seq<char>,
    ignores: Seq<Seq<char>>,
) -> Seq<(Seq<char>, Seq<char>, Seq<char>)>
    decreases entries.len(),
{
    if entries.len() == 0 {
        Seq::empty()
    } else {
        let e = entries[0];
        let rest = apply_plans_spec(entries.skip(1), sync_dir, home_dir, ignores);
        let link = link_target_spec(e.path@, sync_dir, home_dir);
        if entry_reconciled(e, sync_dir, ignores) && parent_spec(link) is Some {
            seq![(link, e.path@, parent_spec(link).unwrap())] + rest
        } else {
            rest
        }
    }
}

/// The per-file failures of a walk, in traversal order: the home-side
/// path of each reconciled entry that has no parent.
pub open spec fn apply_errors_spec(
    entries: Seq<WalkEntry>,
    sync_dir: Seq<char>,
    home_dir: Seq<char>,
    ignores: Seq<Seq<char>>,
) -> Seq<Seq<char>>
    decreases entries.len(),
{
    if entries.len() == 0 {
        Seq::empty()
    } else {
        let e = entries[0];
        let rest = apply_errors_spec(entries.skip(1), sync_dir, home_dir, ignores);
        let link = link_target_spec(e.path@, sync_dir, home_dir);
        if entry_reconciled(e, sync_dir, ignores) && parent_spec(link) is None {
            seq![link] + rest
        } else {
            rest
        }
    }
}

/// Reconciles a walked sync tree against the home directory: for every
/// entry, in traversal order, the entry is skipped when its sync-relative
/// form starts with an ignore prefix or it is no regular file, planned
/// otherwise, and a per-file error is collected — without halting the
/// walk — when its home-side path has no parent.
pub fn apply(
    entries: &Vec<WalkEntry>,
    sync_dir: &str,
    home_dir: &str,
    to_ignore: &Vec<String>,
) -> (r: (Vec<SymlinkPlan>, Vec<FfError>))
    ensures
        r.0@.map_values(|p: SymlinkPlan| (p.link@, p.source@, p.parent@)) == apply_plans_spec(
            entries@,
            sync_dir@,
            home_dir@,
            to_ignore@.map_values(|t: String| t@),
        ),
        r.1@.len() == apply_errors_spec(
            entries@,
            sync_dir@,
            home_dir@,
            to_ignore@.map_values(|t: String| t@),
        ).len(),
        forall|i: int|
            0 <= i < r.1@.len() ==> (#[trigger] r.1@[i] matches FfError::PathResolution(s) && s@
                == apply_errors_spec(
                entries@,
                sync_dir@,
                home_dir@,
                to_ignore@.map_values(|t: String| t@),
            )[i]),
{
    let ghost igv = to_ignore@.map_values(|t: String| t@);
    let mut plans: Vec<SymlinkPlan> = Vec::new();
    let mut errs: Vec<FfError> = Vec::new();
    let mut i: usize = 0;
    let empty = "";
    proof {
        reveal_strlit("");
        assert(empty@ =~= Seq::<char>::empty());
        assert(entries@.skip(0) =~= entries@);
        assert(plans@.map_values(|p: SymlinkPlan| (p.link@, p.source@, p.parent@)) =~= Seq::<
            (Seq<char>, Seq<char>, Seq<char>),
        >::empty());
        assert(errs@.map_values(|e: FfError| e->PathResolution_0@) =~= Seq::<Seq<char>>::empty());
    }
    while i < entries.len()
        invariant
            i <= entries@.len(),
            empty@ == Seq::<char>::empty(),
            igv == to_ignore@.map_values(|t: String| t@),
            apply_plans_spec(entries@, sync_dir@, home_dir@, igv) == plans@.map_values(
                |p: SymlinkPlan| (p.link@, p.source@, p.parent@),
            ) + apply_plans_spec(entries@.skip(i as int), sync_dir@, home_dir@, igv),
            apply_errors_spec(entries@, sync_dir@, home_dir@, igv) == errs@.map_values(|e: FfError| e->PathResolution_0@) + apply_errors_spec(
                entries@.skip(i as int),
                sync_dir@,
                home_dir@,
                igv,
            ),
            forall|k: int| 0 <= k < errs@.len() ==> #[trigger] errs@[k] is PathResolution,
        decreases entries@.len() - i,
    {
        let ghost pv = plans@.map_values(|p: SymlinkPlan| (p.link@, p.source@, p.parent@));
        let ghost ev = errs@.map_values(|e: FfError| e->PathResolution_0@);
        let ghost tail = entries@.skip(i as int);
        proof {
            assert(tail[0] == entries@[i as int]);
            assert(tail.skip(1) =~= entries@.skip(i + 1));
        }
        let entry = &entries[i];
        let bare = swap_path_bases(entry.path.as_str(), sync_dir, empty);
        let rel = trim_slash_ends(bare.as_str());
        proof {
            assert(rel@ == rel_spec(entry.path@, sync_dir@));
        }
        if !is_ignored(rel.as_str(), to_ignore) {
            match symlink_file(entry.path.as_str(), entry.is_file, sync_dir, home_dir) {
                Ok(Some(plan)) => {
                    proof {
                        assert(entry_reconciled(tail[0], sync_dir@, igv));
                    }
                    plans.push(plan);
                    proof {
                        assert(plans@.map_values(
                            |p: SymlinkPlan| (p.link@, p.source@, p.parent@),
                        ) =~= pv + seq![
                            (
                                link_target_spec(entry.path@, sync_dir@, home_dir@),
                                entry.path@,
                                parent_spec(
                                    link_target_spec(entry.path@, sync_dir@, home_dir@),
                                ).unwrap(),
                            ),
                        ]);
                    }
                },
                Ok(None) => {
                    proof {
                        assert(!entry_reconciled(tail[0], sync_dir@, igv));
                    }
                },
                Err(e) => {
                    proof {
                        assert(entry_reconciled(tail[0], sync_dir@, igv));
                    }
                    errs.push(e);
                    proof {
                        assert(errs@.map_values(|e: FfError| e->PathResolution_0@) =~= ev + seq![link_target_spec(entry.path@, sync_dir@, home_dir@)]);
                    }
                },
            }
        } else {
            proof {
                assert(!entry_reconciled(tail[0], sync_dir@, igv));
            }
        }
        i = i + 1;
    }
    proof {
        assert(entries@.skip(entries@.len() as int) =~= Seq::<WalkEntry>::empty());
        let pv = plans@.map_values(|p: SymlinkPlan| (p.link@, p.source@, p.parent@));
        assert(pv + Seq::<(Seq<char>, Seq<char>, Seq<char>)>::empty() =~= pv);
        let ev = errs@.map_values(|e: FfError| e->PathResolution_0@);
        assert(ev + Seq::<Seq<char>>::empty() =~= ev);
    }
    (plans, errs)
}

/// The ignore law of the walk: no plan of `apply` names a sync-side path
/// whose sync-relative form starts with a configured ignore prefix.
pub proof fn lemma_apply_respects_ignores(
    entries: Seq<WalkEntry>,
    sync_dir: Seq<char>,
    home_dir: Seq<char>,
    ignores: Seq<Seq<char>>,
    i: int,
)
    requires
        0 <= i < apply_plans_spec(entries, sync_dir, home_dir, ignores).len(),
    ensures
        !ignored_spec(
            rel_spec(apply_plans_spec(entries, sync_dir, home_dir, ignores)[i].1, sync_dir),
            ignores,
        ),
    decreases entries.len(),
{
    if entries.len() == 0 {
    } else {
        let e = entries[0];
        let link = link_target_spec(e.path@, sync_dir, home_dir);
        if entry_reconciled(e, sync_dir, ignores) && parent_spec(link) is Some {
            if i == 0 {
            } else {
                lemma_apply_respects_ignores(
                    entries.skip(1),
                    sync_dir,
                    home_dir,
                    ignores,
                    i - 1,
                );
            }
        } else {
            lemma_apply_respects_ignores(entries.skip(1), sync_dir, home_dir, ignores, i);
        }
    }
}

/// The filesystem after the actions of one walk plan: whatever stood at
/// the home-side path is replaced by a link to the sync-side file.
pub proof fn lemma_symlink_actions_effect(
    fs: Map<Seq<char>, LeafModel>,
    link: Seq<char>,
    source: Seq<char>,
    parent: Seq<char>,
)
    ensures
        run_actions(fs, symlink_actions_spec(link, source, parent)) == fs.insert(
            link,
            LeafModel::Symlink(source),
        ),
{
    reveal_with_fuel(run_actions, 2);
    let acts = symlink_actions_spec(link, source, parent);
    let fs1 = action_effect(fs, acts[0]);
    let fs2 = action_effect(fs1, acts[1]);
    let fs3 = action_effect(fs2, acts[2]);
    assert(acts.skip(1) =~= seq![acts[1], acts[2]]);
    assert(seq![acts[1], acts[2]].skip(1) =~= seq![acts[2]]);
    assert(seq![acts[2]].skip(1) =~= Seq::<ActionModel>::empty());
    assert(run_actions(fs, acts) == run_actions(fs1, seq![acts[1], acts[2]]));
    assert(run_actions(fs1, seq![acts[1], acts[2]]) == run_actions(fs2, seq![acts[2]]));
    assert(run_actions(fs2, seq![acts[2]]) == run_actions(fs3, Seq::<ActionModel>::empty()));
    assert(fs3 =~= fs.insert(link, LeafModel::Symlink(source)));
}

/// The filesystem after all plans of a walk, each plan's actions in turn.
pub open spec fn run_plans(
    fs: Map<Seq<char>, LeafModel>,
    plans: Seq<(Seq<char>, Seq<char>, Seq<char>)>,
) -> Map<Seq<char>, LeafModel>
    decreases plans.len(),
{
    if plans.len() == 0 {
        fs
    } else {
        run_plans(
            run_actions(fs, symlink_actions_spec(plans[0].0, plans[0].1, plans[0].2)),
            plans.skip(1),
        )
    }
}

proof fn lemma_run_plans_union(
    fs: Map<Seq<char>, LeafModel>,
    plans: Seq<(Seq<char>, Seq<char>, Seq<char>)>,
)
    ensures
        run_plans(fs, plans) == fs.union_prefer_right(
            run_plans(Map::<Seq<char>, LeafModel>::empty(), plans),
        ),
    decreases plans.len(),
{
    let empty = Map::<Seq<char>, LeafModel>::empty();
    if plans.len() == 0 {
        assert(fs.union_prefer_right(empty) =~= fs);
    } else {
        let p = plans[0];
        lemma_symlink_actions_effect(fs, p.0, p.1, p.2);
        lemma_symlink_actions_effect(empty, p.0, p.1, p.2);
        let fs1 = fs.insert(p.0, LeafModel::Symlink(p.1));
        let e1 = empty.insert(p.0, LeafModel::Symlink(p.1));
        lemma_run_plans_union(fs1, plans.skip(1));
        lemma_run_plans_union(e1, plans.skip(1));
        let o = run_plans(empty, plans.skip(1));
        assert(fs1.union_prefer_right(o) =~= fs.union_prefer_right(e1.union_prefer_right(o)));
    }
}

/// The idempotence law of the walk: running the plans of an `apply` twice
/// leaves exactly the leaves of running them once — and the walk of an
/// unchanged sync tree yields the same plans, so a second `apply` changes
/// nothing more.
pub proof fn lemma_apply_idempotent(
    fs: Map<Seq<char>, LeafModel>,
    plans: Seq<(Seq<char>, Seq<char>, Seq<char>)>,
)
    ensures
        run_plans(run_plans(fs, plans), plans) == run_plans(fs, plans),
{
    lemma_run_plans_union(fs, plans);
    lemma_run_plans_union(run_plans(fs, plans), plans);
    assert(run_plans(fs, plans).union_prefer_right(
        run_plans(Map::<Seq<char>, LeafModel>::empty(), plans),
    ) =~= run_plans(fs, plans));
}

/// The round-trip law: on a filesystem holding a regular file at `file`
/// and nothing at its target path, running the actions of `add` and then
/// the action of `remove` restores the filesystem exactly — the file is
/// a regular file with its original content again, and nothing is left
/// at the sync path.
pub proof fn lemma_add_remove_round_trip(
    fs: Map<Seq<char>, LeafModel>,
    file: Seq<char>,
    target: Seq<char>,
    parent: Seq<char>,
    content: u64,
)
    requires
        fs.contains_key(file),
        fs[file] == LeafModel::File(content),
        !fs.contains_key(target),
        file != target,
    ensures
        ({
            let after_add = run_actions(fs, add_actions_spec(file, target, parent));
            &&& after_add.contains_key(file)
            &&& after_add[file] == LeafModel::Symlink(target)
            &&& after_add.contains_key(target)
            &&& after_add[target] == LeafModel::File(content)
            &&& run_actions(after_add, remove_actions_spec(file, target)) == fs
        }),
{
    reveal_with_fuel(run_actions, 2);
    let acts = add_actions_spec(file, target, parent);
    let fs1 = action_effect(fs, acts[0]);
    let fs2 = action_effect(fs1, acts[1]);
    let fs3 = action_effect(fs2, acts[2]);
    assert(acts.skip(1) =~= seq![acts[1], acts[2]]);
    assert(seq![acts[1], acts[2]].skip(1) =~= seq![acts[2]]);
    assert(seq![acts[2]].skip(1) =~= Seq::<ActionModel>::empty());
    assert(run_actions(fs, acts) == run_actions(fs1, seq![acts[1], acts[2]]));
    assert(run_actions(fs1, seq![acts[1], acts[2]]) == run_actions(fs2, seq![acts[2]]));
    assert(run_actions(fs2, seq![acts[2]]) == run_actions(
        fs3,
        Seq::<ActionModel>::empty(),
    ));
    assert(run_actions(fs, acts) == fs3);
    assert(fs3 == fs.remove(file).insert(target, LeafModel::File(content)).insert(
        file,
        LeafModel::Symlink(target),
    ));
    let rem = remove_actions_spec(file, target);
    assert(rem.skip(1) =~= Seq::<ActionModel>::empty());
    assert(fs3.contains_key(target));
    assert(run_actions(fs3, rem) == run_actions(
        action_effect(fs3, rem[0]),
        Seq::<ActionModel>::empty(),
    ));
    assert(run_actions(fs3, rem) == fs3.remove(target).insert(file, LeafModel::File(content)));
    assert(fs3.remove(target).insert(file, LeafModel::File(content)) =~= fs);
}

/// The rollback law behind `add_failure` and `add_revert_result`: when
/// the directories were made and the move succeeded but the link step
/// failed, running the revert action restores the filesystem exactly —
/// the original path holds the regular file again and nothing is left at
/// the sync path.
pub proof fn lemma_add_revert_restores(
    fs: Map<Seq<char>, LeafModel>,
    file: Seq<char>,
    target: Seq<char>,
    parent: Seq<char>,
    content: u64,
)
    requires
        fs.contains_key(file),
        fs[file] == LeafModel::File(content),
        !fs.contains_key(target),
        file != target,
    ensures
        ({
            let after_move = run_actions(fs, add_actions_spec(file, target, parent).take(2));
            run_actions(after_move, seq![ActionModel::Rename { from: target, to: file }])
                == fs
        }),
{
    reveal_with_fuel(run_actions, 2);
    let acts = add_actions_spec(file, target, parent);
    let two = acts.take(2);
    assert(two =~= seq![acts[0], acts[1]]);
    let fs1 = action_effect(fs, acts[0]);
    let fs2 = action_effect(fs1, acts[1]);
    assert(two.skip(1) =~= seq![acts[1]]);
    assert(seq![acts[1]].skip(1) =~= Seq::<ActionModel>::empty());
    assert(run_actions(fs, two) == run_actions(fs1, seq![acts[1]]));
    assert(run_actions(fs1, seq![acts[1]]) == run_actions(
        fs2,
        Seq::<ActionModel>::empty(),
    ));
    assert(run_actions(fs, two) == fs2);
    assert(fs2 == fs.remove(file).insert(target, LeafModel::File(content)));
    let rev = seq![ActionModel::Rename { from: target, to: file }];
    assert(rev.skip(1) =~= Seq::<ActionModel>::empty());
    assert(fs2.contains_key(target));
    assert(run_actions(fs2, rev) == run_actions(
        action_effect(fs2, rev[0]),
        Seq::<ActionModel>::empty(),
    ));
    assert(run_actions(fs2, rev) == fs2.remove(target).insert(file, LeafModel::File(content)));
    assert(fs2.remove(target).insert(file, LeafModel::File(content)) =~= fs);
}

} // verus!
