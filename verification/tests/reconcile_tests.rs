use ff::errors::FfError;
use ff::fs_model::FsLeaf;
use ff::fs_model::FsSim;
use ff::reconcile::add;
use ff::reconcile::add_actions;
use ff::reconcile::add_failure;
use ff::reconcile::add_files;
use ff::reconcile::add_revert_result;
use ff::reconcile::remove;
use ff::reconcile::remove_action;
use ff::reconcile::remove_failure;
use ff::reconcile::remove_files;
use ff::reconcile::AddFailure;
use ff::reconcile::AddStep;

fn step_of(index: usize) -> AddStep {
    match index {
        0 => AddStep::MakeParent,
        1 => AddStep::Move,
        _ => AddStep::Link,
    }
}

fn run_add(fs: &mut FsSim, file: &str, home: &str, sync: &str, cwd: &str) -> Result<(), FfError> {
    let plan = add(file, home, sync, cwd)?;
    let actions = add_actions(&plan);
    for (i, a) in actions.iter().enumerate() {
        if !fs.run_action(a) {
            match add_failure(&plan, &step_of(i)) {
                AddFailure::Fatal(e) => return Err(e),
                AddFailure::Revert(rev) => {
                    let ok = fs.run_action(&rev);
                    return Err(add_revert_result(&plan, ok));
                }
            }
        }
    }
    Ok(())
}

fn run_remove(fs: &mut FsSim, path: &str) -> Result<(), FfError> {
    let target = match fs.lookup(path) {
        Some(FsLeaf::Symlink(t)) => Some(t),
        _ => None,
    };
    let plan = remove(path, target.as_deref())?;
    let action = remove_action(&plan);
    if fs.run_action(&action) {
        Ok(())
    } else {
        Err(remove_failure(&plan))
    }
}

#[test]
fn add_file_works_ok() {
    let mut fs = FsSim::new();
    fs.set("/home/u/.vimrc", FsLeaf::File(7));

    run_add(&mut fs, ".vimrc", "/home/u", "/home/u/dotfiles", "/home/u").unwrap();

    assert_eq!(fs.lookup("/home/u/dotfiles/.vimrc"), Some(FsLeaf::File(7)));
    assert_eq!(
        fs.lookup("/home/u/.vimrc"),
        Some(FsLeaf::Symlink("/home/u/dotfiles/.vimrc".to_string()))
    );
}

#[test]
fn add_many_files_works_ok() {
    let mut fs = FsSim::new();
    fs.set("/home/user1/.vimrc", FsLeaf::File(1));
    fs.set("/home/user1/.bashrc", FsLeaf::File(2));
    let paths = vec![".vimrc".to_string(), ".bashrc".to_string()];

    let plans = add_files(&paths, "/home/user1", "/home/user1/dot-files", "/home/user1");
    assert_eq!(plans.len(), 2);
    for plan in plans {
        let plan = plan.unwrap();
        for a in add_actions(&plan) {
            assert!(fs.run_action(&a));
        }
    }

    assert_eq!(fs.lookup("/home/user1/dot-files/.vimrc"), Some(FsLeaf::File(1)));
    assert_eq!(fs.lookup("/home/user1/dot-files/.bashrc"), Some(FsLeaf::File(2)));
    assert_eq!(
        fs.lookup("/home/user1/.vimrc"),
        Some(FsLeaf::Symlink("/home/user1/dot-files/.vimrc".to_string()))
    );
    assert_eq!(
        fs.lookup("/home/user1/.bashrc"),
        Some(FsLeaf::Symlink("/home/user1/dot-files/.bashrc".to_string()))
    );
}

#[test]
fn added_file_is_removed_ok() {
    let mut fs = FsSim::new();
    fs.set("/home/u/.vimrc", FsLeaf::File(9));
    run_add(&mut fs, ".vimrc", "/home/u", "/home/u/dotfiles", "/home/u").unwrap();

    run_remove(&mut fs, "/home/u/.vimrc").unwrap();

    assert_eq!(fs.lookup("/home/u/.vimrc"), Some(FsLeaf::File(9)));
    assert_eq!(fs.lookup("/home/u/dotfiles/.vimrc"), None);
}

#[test]
fn added_files_are_removed_correctly() {
    let mut fs = FsSim::new();
    fs.set("/home/user1/dot-files/.vimrc", FsLeaf::File(1));
    fs.set("/home/user1/dot-files/.bashrc", FsLeaf::File(2));
    fs.set(
        "/home/user1/.vimrc",
        FsLeaf::Symlink("/home/user1/dot-files/.vimrc".to_string()),
    );
    fs.set(
        "/home/user1/.bashrc",
        FsLeaf::Symlink("/home/user1/dot-files/.bashrc".to_string()),
    );

    let reads = vec![
        (
            "/home/user1/.vimrc".to_string(),
            Some("/home/user1/dot-files/.vimrc".to_string()),
        ),
        (
            "/home/user1/.bashrc".to_string(),
            Some("/home/user1/dot-files/.bashrc".to_string()),
        ),
    ];
    let plans = remove_files(&reads);
    assert_eq!(plans.len(), 2);
    for plan in plans {
        let plan = plan.unwrap();
        assert!(fs.run_action(&remove_action(&plan)));
    }

    assert_eq!(fs.lookup("/home/user1/.vimrc"), Some(FsLeaf::File(1)));
    assert_eq!(fs.lookup("/home/user1/.bashrc"), Some(FsLeaf::File(2)));
    assert_eq!(fs.lookup("/home/user1/dot-files/.vimrc"), None);
    assert_eq!(fs.lookup("/home/user1/dot-files/.bashrc"), None);
}

#[test]
fn remove_of_non_symlink_is_refused() {
    let mut fs = FsSim::new();
    fs.set("/home/u/.vimrc", FsLeaf::File(3));

    let err = run_remove(&mut fs, "/home/u/.vimrc").unwrap_err();
    assert_eq!(
        err.message(),
        "Can't read symlink: /home/u/.vimrc".to_string()
    );
    assert_eq!(fs.lookup("/home/u/.vimrc"), Some(FsLeaf::File(3)));
}

#[test]
fn failed_link_step_reverts_the_move() {
    let mut fs = FsSim::new();
    fs.set("/home/u/.vimrc", FsLeaf::File(5));
    let plan = add(".vimrc", "/home/u", "/home/u/dotfiles", "/home/u").unwrap();
    let actions = add_actions(&plan);
    assert!(fs.run_action(&actions[0]));
    assert!(fs.run_action(&actions[1]));
    assert_eq!(fs.lookup("/home/u/dotfiles/.vimrc"), Some(FsLeaf::File(5)));

    // The link step fails here (say, permission denied at the original
    // path): the engine asks for the move to be reverted.
    let err = match add_failure(&plan, &AddStep::Link) {
        AddFailure::Fatal(_) => panic!("link failure must ask for a revert"),
        AddFailure::Revert(rev) => {
            let ok = fs.run_action(&rev);
            add_revert_result(&plan, ok)
        }
    };

    assert_eq!(err, FfError::MoveReverted);
    assert_eq!(err.message(), "File move reverted".to_string());
    assert_eq!(fs.lookup("/home/u/.vimrc"), Some(FsLeaf::File(5)));
    assert_eq!(fs.lookup("/home/u/dotfiles/.vimrc"), None);
}

#[test]
fn failed_revert_asks_for_manual_cleanup() {
    let plan = add(".vimrc", "/home/u", "/home/u/dotfiles", "/home/u").unwrap();
    let err = add_revert_result(&plan, false);
    assert_eq!(
        err.message(),
        "Can't revert file move - clean it MANUALLY: /home/u/dotfiles/.vimrc".to_string()
    );
}

#[test]
fn failed_move_step_is_fatal() {
    let plan = add(".vimrc", "/home/u", "/home/u/dotfiles", "/home/u").unwrap();
    match add_failure(&plan, &AddStep::Move) {
        AddFailure::Fatal(e) => assert_eq!(
            e.message(),
            "Can't move file to sync-dir: /home/u/dotfiles/.vimrc".to_string()
        ),
        AddFailure::Revert(_) => panic!("move failure must be fatal"),
    }
    match add_failure(&plan, &AddStep::MakeParent) {
        AddFailure::Fatal(e) => assert_eq!(
            e.message(),
            "Can't create sync-dir: /home/u/dotfiles".to_string()
        ),
        AddFailure::Revert(_) => panic!("directory failure must be fatal"),
    }
}

#[test]
fn add_of_rootlike_target_reports_path_error() {
    let err = add("/", "/", "/", "/").unwrap_err();
    assert_eq!(err, FfError::PathResolution("/".to_string()));
    assert_eq!(err.message(), "Can't resolve path: /".to_string());
}
