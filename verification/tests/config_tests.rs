use ff::config::Config;
use ff::errors::FfError;
use ff::registrar::action_apply;
use ff::registrar::effective_candidate;
use ff::registrar::ignore_list;
use ff::registrar::init;
use ff::registrar::with_space_dir;

#[test]
fn init_saves_dir_to_init_in_config_file() {
    let mut config = Config::new("/home/user1/.ff/config.ini");

    let outcome = init("/home/user1/dot-files", "/home/user1", &mut config).unwrap();

    assert_eq!(outcome.overwritten, None);
    let text = config.to_text();
    assert_eq!(text.contains("ignore-when-apply=.git/,.hg/\n"), true);
    assert_eq!(text.contains("sync-dir=/home/user1/dot-files\n"), true);
}

#[test]
fn init_refuses_dir_outside_home() {
    let mut config = Config::new("/home/user1/.ff/config.ini");

    let err = init("/srv/files", "/home/user1", &mut config).unwrap_err();

    assert_eq!(
        err.message(),
        "Sync dir should be descendant of home dir".to_string()
    );
    assert_eq!(config.get("sync-dir"), None);
}

#[test]
fn init_refuses_lookalike_sibling_of_home() {
    let mut config = Config::new("/home/user1/.ff/config.ini");
    let err = init("/home/user10/dot-files", "/home/user1", &mut config);
    assert!(err.is_err());
}

#[test]
fn init_accepts_home_itself_and_trailing_slash_base() {
    let mut config = Config::new("/home/user1/.ff/config.ini");
    assert!(init("/home/user1", "/home/user1/", &mut config).is_ok());
}

#[test]
fn init_warns_when_overwriting_a_different_dir() {
    let mut config = Config::new("/home/user1/.ff/config.ini");
    init("/home/user1/old-files", "/home/user1", &mut config).unwrap();

    let outcome = init("/home/user1/dot-files", "/home/user1", &mut config).unwrap();
    assert_eq!(outcome.overwritten, Some("/home/user1/old-files".to_string()));

    let again = init("/home/user1/dot-files", "/home/user1", &mut config).unwrap();
    assert_eq!(again.overwritten, None);
    assert_eq!(config.get("sync-dir"), Some("/home/user1/dot-files".to_string()));
}

#[test]
fn config_round_trips_through_ini_text() {
    let mut config = Config::new("/home/user1/.ff/config.ini");
    init("/home/user1/dot-files", "/home/user1", &mut config).unwrap();
    let text = config.to_text();

    let loaded = Config::from_text("/home/user1/.ff/config.ini", &text).unwrap();
    assert_eq!(loaded.get_path(), "/home/user1/.ff/config.ini");
    assert_eq!(loaded.get("sync-dir"), Some("/home/user1/dot-files".to_string()));
    assert_eq!(loaded.get("ignore-when-apply"), Some(".git/,.hg/".to_string()));
    assert_eq!(loaded.get("no-such-key"), None);
}

#[test]
fn from_text_reads_the_general_section() {
    let text = "sync-dir=/home/u/dotfiles\nignore-when-apply=.git/\n[other]\nsync-dir=/elsewhere\n";
    let config = Config::from_text("/home/u/.ff/config.ini", text).unwrap();
    assert_eq!(config.get("sync-dir"), Some("/home/u/dotfiles".to_string()));
    assert_eq!(ignore_list(&config), vec![".git/".to_string()]);
}

#[test]
fn from_text_refuses_text_that_does_not_parse() {
    let err = Config::from_text("/home/u/.ff/config.ini", "[unclosed\n").unwrap_err();
    assert_eq!(err, FfError::Config("/home/u/.ff/config.ini".to_string()));
    assert_eq!(
        err.message(),
        "Can't load config file: /home/u/.ff/config.ini".to_string()
    );
}

#[test]
fn set_replaces_in_place_and_appends_new_keys() {
    let mut config = Config::new("/home/u/.ff/config.ini");
    config.set("a", "1");
    config.set("b", "2");
    config.set("a", "3");
    assert_eq!(config.get("a"), Some("3".to_string()));
    assert_eq!(config.get("b"), Some("2".to_string()));
    assert_eq!(config.to_text(), "a=3\nb=2\n");
}

#[test]
fn with_space_dir_joins_the_subdirectory() {
    let mut config = Config::new("/home/u/.ff/config.ini");
    init("/home/u/dotfiles", "/home/u", &mut config).unwrap();

    assert_eq!(
        with_space_dir("", &config).unwrap(),
        "/home/u/dotfiles".to_string()
    );
    assert_eq!(
        with_space_dir("homedir", &config).unwrap(),
        "/home/u/dotfiles/homedir".to_string()
    );
}

#[test]
fn with_space_dir_needs_a_registered_root() {
    let config = Config::new("/home/u/.ff/config.ini");
    let err = with_space_dir("homedir", &config).unwrap_err();
    assert_eq!(
        err.message(),
        "Can't find 'sync-dir' value in config file: /home/u/.ff/config.ini".to_string()
    );
}

#[test]
fn action_apply_collects_root_and_ignores() {
    let mut config = Config::new("/home/u/.ff/config.ini");
    init("/home/u/dotfiles", "/home/u", &mut config).unwrap();

    let setup = action_apply("", &config).unwrap();
    assert_eq!(setup.walk_root, "/home/u/dotfiles".to_string());
    assert_eq!(setup.ignores, vec![".git/".to_string(), ".hg/".to_string()]);
}

#[test]
fn ignore_list_is_empty_without_the_key() {
    let config = Config::new("/home/u/.ff/config.ini");
    assert_eq!(ignore_list(&config), Vec::<String>::new());
}

#[test]
fn effective_candidate_defaults_to_cwd() {
    assert_eq!(effective_candidate("", "/home/u/dotfiles"), "/home/u/dotfiles");
    assert_eq!(effective_candidate("mine", "/home/u/dotfiles"), "mine");
}
