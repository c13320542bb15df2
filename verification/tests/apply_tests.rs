use ff::fs_model::FsLeaf;
use ff::fs_model::FsSim;
use ff::reconcile::apply;
use ff::reconcile::symlink_actions;
use ff::reconcile::symlink_file;
use ff::reconcile::SymlinkPlan;
use ff::reconcile::WalkEntry;

fn entry(path: &str, is_file: bool) -> WalkEntry {
    WalkEntry { path: path.to_string(), is_file }
}

fn run_plans(fs: &mut FsSim, plans: &Vec<SymlinkPlan>) {
    for p in plans {
        for a in symlink_actions(p) {
            assert!(fs.run_action(&a));
        }
    }
}

#[test]
fn apply_works_for_single_file_which_missing() {
    let mut fs = FsSim::new();
    fs.set("/home/user1/dot-files/.vimrc", FsLeaf::File(4));
    let entries = vec![
        entry("/home/user1/dot-files", false),
        entry("/home/user1/dot-files/.vimrc", true),
    ];

    let (plans, errs) = apply(&entries, "/home/user1/dot-files", "/home/user1", &vec![]);
    assert_eq!(errs.len(), 0);
    assert_eq!(plans.len(), 1);
    run_plans(&mut fs, &plans);

    assert_eq!(
        fs.lookup("/home/user1/.vimrc"),
        Some(FsLeaf::Symlink("/home/user1/dot-files/.vimrc".to_string()))
    );
}

#[test]
fn apply_works_for_single_file_which_exists() {
    let mut fs = FsSim::new();
    fs.set("/home/user1/dot-files/.vimrc", FsLeaf::File(4));
    fs.set("/home/user1/.vimrc", FsLeaf::File(8));
    let entries = vec![
        entry("/home/user1/dot-files", false),
        entry("/home/user1/dot-files/.vimrc", true),
    ];

    let (plans, errs) = apply(&entries, "/home/user1/dot-files", "/home/user1", &vec![]);
    assert_eq!(errs.len(), 0);
    run_plans(&mut fs, &plans);

    assert_eq!(
        fs.lookup("/home/user1/.vimrc"),
        Some(FsLeaf::Symlink("/home/user1/dot-files/.vimrc".to_string()))
    );
}

#[test]
fn apply_skips_ignored_prefixes() {
    let mut fs = FsSim::new();
    fs.set("/home/u/dotfiles/.git/config", FsLeaf::File(1));
    fs.set("/home/u/dotfiles/.vimrc", FsLeaf::File(2));
    let entries = vec![
        entry("/home/u/dotfiles", false),
        entry("/home/u/dotfiles/.git", false),
        entry("/home/u/dotfiles/.git/config", true),
        entry("/home/u/dotfiles/.vimrc", true),
    ];
    let ignores = vec![".git/".to_string()];

    let (plans, errs) = apply(&entries, "/home/u/dotfiles", "/home/u", &ignores);
    assert_eq!(errs.len(), 0);
    assert_eq!(plans.len(), 1);
    run_plans(&mut fs, &plans);

    assert_eq!(fs.lookup("/home/u/.git/config"), None);
    assert_eq!(
        fs.lookup("/home/u/.vimrc"),
        Some(FsLeaf::Symlink("/home/u/dotfiles/.vimrc".to_string()))
    );
}

#[test]
fn apply_twice_changes_nothing_more() {
    let mut fs = FsSim::new();
    fs.set("/home/u/dotfiles/.vimrc", FsLeaf::File(2));
    fs.set("/home/u/dotfiles/conf/app.ini", FsLeaf::File(3));
    let entries = vec![
        entry("/home/u/dotfiles", false),
        entry("/home/u/dotfiles/.vimrc", true),
        entry("/home/u/dotfiles/conf", false),
        entry("/home/u/dotfiles/conf/app.ini", true),
    ];

    let (plans_one, _) = apply(&entries, "/home/u/dotfiles", "/home/u", &vec![]);
    run_plans(&mut fs, &plans_one);
    let vimrc_once = fs.lookup("/home/u/.vimrc");
    let ini_once = fs.lookup("/home/u/conf/app.ini");

    // The sync tree is unchanged, so the walk yields the same entries.
    let (plans_two, _) = apply(&entries, "/home/u/dotfiles", "/home/u", &vec![]);
    assert_eq!(plans_two.len(), plans_one.len());
    run_plans(&mut fs, &plans_two);

    assert_eq!(fs.lookup("/home/u/.vimrc"), vimrc_once);
    assert_eq!(fs.lookup("/home/u/conf/app.ini"), ini_once);
    assert_eq!(
        fs.lookup("/home/u/.vimrc"),
        Some(FsLeaf::Symlink("/home/u/dotfiles/.vimrc".to_string()))
    );
}

#[test]
fn apply_reports_unparentable_path_and_walks_on() {
    let entries = vec![
        // This entry rewrites to the bare root, which has no parent.
        entry("/home/u/dotfiles", true),
        entry("/home/u/dotfiles/.vimrc", true),
    ];

    let (plans2, errs2) = apply(&entries, "/home/u/dotfiles", "", &vec![]);
    assert_eq!(errs2.len(), 1);
    assert_eq!(plans2.len(), 1);
    assert_eq!(errs2[0].message(), "Can't resolve path: ".to_string());
}

#[test]
fn symlink_file_leaves_directories_alone() {
    let r = symlink_file("/home/u/dotfiles/conf", false, "/home/u/dotfiles", "/home/u");
    assert!(matches!(r, Ok(None)));
}

#[test]
fn symlink_file_plans_a_regular_file() {
    let plan = symlink_file("/home/u/dotfiles/.vimrc", true, "/home/u/dotfiles", "/home/u")
        .unwrap()
        .unwrap();
    assert_eq!(plan.link, "/home/u/.vimrc");
    assert_eq!(plan.source, "/home/u/dotfiles/.vimrc");
    assert_eq!(plan.parent, "/home/u");
}

#[test]
fn empty_ignore_prefix_skips_everything() {
    let entries = vec![entry("/home/u/dotfiles/.vimrc", true)];
    let ignores = vec!["".to_string()];
    let (plans, errs) = apply(&entries, "/home/u/dotfiles", "/home/u", &ignores);
    assert_eq!(plans.len(), 0);
    assert_eq!(errs.len(), 0);
}
