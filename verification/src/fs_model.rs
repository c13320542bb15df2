//! The filesystem slice the reconciler touches, as a value: a map from a
//! path to the leaf standing there, a leaf being a regular file or a
//! symbolic link. The engine plans `FsAction`s against this model, and
//! `FsSim` executes them in memory so the planned behaviour can be
//! observed without a real filesystem.
use vstd::prelude::*;

verus! {

use crate::paths::str_eq;
use vstd::string::StringExecFns;

/// What stands at a path: a regular file (named by an opaque content
/// stamp) or a symbolic link to another path.
#[derive(Debug, Clone, PartialEq, Eq)]
pub enum FsLeaf {
    File(u64),
    Symlink(String),
}

/// The spec-level form of a leaf.
pub enum LeafModel {
    File(u64),
    Symlink(Seq<char>),
}

impl View for FsLeaf {
    type V = LeafModel;

    open spec fn view(&self) -> LeafModel {
        match self {
            FsLeaf::File(c) => LeafModel::File(*c),
            FsLeaf::Symlink(t) => LeafModel::Symlink(t@),
        }
    }
}

impl FsLeaf {
    /// A copy with the same view.
    pub fn dup(&self) -> (r: FsLeaf)
        ensures
            r@ == self@,
    {
        match self {
            FsLeaf::File(c) => FsLeaf::File(*c),
            FsLeaf::Symlink(t) => FsLeaf::Symlink(t.clone()),
        }
    }
}

/// One filesystem mutation the engine plans. `ClearPath` removes whatever
/// leaf stands at a path, if any; `CreateDirAll` creates the missing
/// directories of a path and touches no leaf.
#[derive(Debug, Clone, PartialEq, Eq)]
pub enum FsAction {
    CreateDirAll(String),
    ClearPath(String),
    Rename { from: String, to: String },
    Symlink { source: String, link: String },
}

/// The spec-level form of an action.
pub enum ActionModel {
    CreateDirAll(Seq<char>),
    ClearPath(Seq<char>),
    Rename { from: Seq<char>, to: Seq<char> },
    Symlink { source: Seq<char>, link: Seq<char> },
}

impl View for FsAction {
    type V = ActionModel;

    open spec fn view(&self) -> ActionModel {
        match self {
            FsAction::CreateDirAll(p) => ActionModel::CreateDirAll(p@),
            FsAction::ClearPath(p) => ActionModel::ClearPath(p@),
            FsAction::Rename { from, to } => ActionModel::Rename { from: from@, to: to@ },
            FsAction::Symlink { source, link } => ActionModel::Symlink {
                source: source@,
                link: link@,
            },
        }
    }
}

/// The leaves after one successful action. Creating directories adds no
/// leaf; clearing removes one; a rename moves one, replacing anything at
/// its destination; a new symlink adds one.
pub open spec fn action_effect(fs: Map<Seq<char>, LeafModel>, a: ActionModel) -> Map<
    Seq<char>,
    LeafModel,
> {
    match a {
        ActionModel::CreateDirAll(_) => fs,
        ActionModel::ClearPath(p) => fs.remove(p),
        ActionModel::Rename { from, to } => if fs.contains_key(from) {
            fs.remove(from).insert(to, fs[from])
        } else {
            fs
        },
        ActionModel::Symlink { source, link } => fs.insert(link, LeafModel::Symlink(source)),
    }
}

/// Whether the action succeeds on that filesystem: a rename needs its
/// source to exist, a new symbolic link needs its path to be free.
pub open spec fn action_admitted(fs: Map<Seq<char>, LeafModel>, a: ActionModel) -> bool {
    match a {
        ActionModel::CreateDirAll(_) => true,
        ActionModel::ClearPath(_) => true,
        ActionModel::Rename { from, to } => fs.contains_key(from),
        ActionModel::Symlink { source, link } => !fs.contains_key(link),
    }
}

/// The leaves after a sequence of actions, each applied in turn.
pub open spec fn run_actions(fs: Map<Seq<char>, LeafModel>, s: Seq<ActionModel>) -> Map<
    Seq<char>,
    LeafModel,
>
    decreases s.len(),
{
    if s.len() == 0 {
        fs
    } else {
        run_actions(action_effect(fs, s[0]), s.skip(1))
    }
}

/// An in-memory filesystem: a journal of the leaves set and cleared, read
/// back newest-first. Its view is the map of leaves currently standing.
pub struct FsSim {
    journal: Vec<(String, Option<FsLeaf>)>,
}

/// The map a journal describes: each entry in turn sets or clears the
/// leaf at its path.
spec fn journal_map(s: Seq<(String, Option<FsLeaf>)>) -> Map<Seq<char>, LeafModel>
    decreases s.len(),
{
    if s.len() == 0 {
        Map::empty()
    } else {
        match s.last().1 {
            Some(leaf) => journal_map(s.drop_last()).insert(s.last().0@, leaf@),
            None => journal_map(s.drop_last()).remove(s.last().0@),
        }
    }
}

impl View for FsSim {
    type V = Map<Seq<char>, LeafModel>;

    closed spec fn view(&self) -> Map<Seq<char>, LeafModel> {
        journal_map(self.journal@)
    }
}

impl FsSim {
    /// An empty filesystem.
    pub fn new() -> (r: FsSim)
        ensures
            r@ == Map::<Seq<char>, LeafModel>::empty(),
    {
        FsSim { journal: Vec::new() }
    }

    /// The leaf at `path`, if any.
    pub fn lookup(&self, path: &str) -> (r: Option<FsLeaf>)
        ensures
            match r {
                Some(leaf) => self@.contains_key(path@) && self@[path@] == leaf@,
                None => !self@.contains_key(path@),
            },
    {
        let mut j: usize = self.journal.len();
        proof {
            assert(self.journal@.take(j as int) =~= self.journal@);
        }
        while j > 0
            invariant
                j <= self.journal@.len(),
                ({
                    let full = journal_map(self.journal@);
                    let part = journal_map(self.journal@.take(j as int));
                    &&& full.contains_key(path@) == part.contains_key(path@)
                    &&& (part.contains_key(path@) ==> full[path@] == part[path@])
                }),
            decreases j,
        {
            let ghost part = journal_map(self.journal@.take(j as int));
            proof {
                assert(self.journal@.take(j as int).last() == self.journal@[j - 1]);
                assert(self.journal@.take(j as int).drop_last() =~= self.journal@.take(
                    j - 1,
                ));
            }
            let entry = &self.journal[j - 1];
            if str_eq(entry.0.as_str(), path) {
                match &entry.1 {
                    Some(leaf) => {
                        return Some(leaf.dup());
                    },
                    None => {
                        return None;
                    },
                }
            }
            j = j - 1;
        }
        proof {
            assert(self.journal@.take(0) =~= Seq::<(String, Option<FsLeaf>)>::empty());
        }
        None
    }

    /// Puts `leaf` at `path`, replacing whatever stood there.
    pub fn set(&mut self, path: &str, leaf: FsLeaf)
        ensures
            final(self)@ == old(self)@.insert(path@, leaf@),
    {
        let key = String::from_str(path);
        self.journal.push((key, Some(leaf)));
        proof {
            assert(self.journal@.drop_last() =~= old(self).journal@);
        }
    }

    /// Removes the leaf at `path`, if any stood there.
    pub fn clear(&mut self, path: &str)
        ensures
            final(self)@ == old(self)@.remove(path@),
    {
        let key = String::from_str(path);
        self.journal.push((key, None));
        proof {
            assert(self.journal@.drop_last() =~= old(self).journal@);
        }
    }

    /// Executes one planned action, reporting whether the filesystem call
    /// it stands for succeeds here: renaming needs its source, a new link
    /// needs a free path, and a failed action changes nothing.
    pub fn run_action(&mut self, a: &FsAction) -> (ok: bool)
        ensures
            ok == action_admitted(old(self)@, a@),
            ok ==> final(self)@ == action_effect(old(self)@, a@),
            !ok ==> final(self)@ == old(self)@,
    {
        match a {
            FsAction::CreateDirAll(_) => true,
            FsAction::ClearPath(p) => {
                self.clear(p.as_str());
                true
            },
            FsAction::Rename { from, to } => {
                match self.lookup(from.as_str()) {
                    None => false,
                    Some(leaf) => {
                        self.clear(from.as_str());
                        self.set(to.as_str(), leaf);
                        true
                    },
                }
            },
            FsAction::Symlink { source, link } => {
                match self.lookup(link.as_str()) {
                    Some(_) => false,
                    None => {
                        self.set(link.as_str(), FsLeaf::Symlink(source.clone()));
                        true
                    },
                }
            },
        }
    }
}

} // verus!
