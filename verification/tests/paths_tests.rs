use ff::paths::join_path;
use ff::paths::parent_of;
use ff::paths::resolve_path;
use ff::paths::split_on_commas;
use ff::paths::str_eq;
use ff::paths::str_starts_with;
use ff::paths::swap_path_bases;
use ff::paths::trim_slash_ends;
use ff::paths::trim_trailing_slash_ends;

#[test]
fn swap_rewrites_home_base_to_sync_base() {
    let result = swap_path_bases("/home/joe/.bashrc", "/home/joe", "/home/joe/dot-files");
    assert_eq!(result, "/home/joe/dot-files/.bashrc");
}

#[test]
fn swap_leaves_path_without_occurrence_unchanged() {
    let result = swap_path_bases("/srv/data/file", "/home/joe", "/home/joe/dot-files");
    assert_eq!(result, "/srv/data/file");
}

#[test]
fn swap_replaces_every_occurrence() {
    let result = swap_path_bases("/a/x/a/x", "/a", "/b");
    assert_eq!(result, "/b/x/b/x");
}

#[test]
fn swap_round_trip_restores_original() {
    let p = "/home/u/.vimrc";
    let there = swap_path_bases(p, "/home/u", "/home/u/dotfiles");
    assert_eq!(there, "/home/u/dotfiles/.vimrc");
    let back = swap_path_bases(&there, "/home/u/dotfiles", "/home/u");
    assert_eq!(back, p);
}

#[test]
fn swap_with_empty_old_base_is_identity() {
    let result = swap_path_bases("/home/u/.vimrc", "", "/x");
    assert_eq!(result, "/home/u/.vimrc");
}

#[test]
fn parent_of_nested_path() {
    assert_eq!(parent_of("/home/u/dotfiles/.vimrc"), Some("/home/u/dotfiles".to_string()));
}

#[test]
fn parent_of_top_level_entry_is_root() {
    assert_eq!(parent_of("/etc"), Some("/".to_string()));
}

#[test]
fn parent_of_root_is_none() {
    assert_eq!(parent_of("/"), None);
    assert_eq!(parent_of(""), None);
}

#[test]
fn parent_of_bare_name_is_empty() {
    assert_eq!(parent_of("name"), Some("".to_string()));
}

#[test]
fn trim_strips_separators_at_both_ends() {
    assert_eq!(trim_slash_ends("/a/b/"), "a/b");
    assert_eq!(trim_slash_ends("///"), "");
    assert_eq!(trim_slash_ends("a"), "a");
    assert_eq!(trim_trailing_slash_ends("/home/u/"), "/home/u");
    assert_eq!(trim_trailing_slash_ends("/home/u"), "/home/u");
}

#[test]
fn split_cuts_at_every_comma() {
    let pieces = split_on_commas(".git/,.hg/");
    assert_eq!(pieces, vec![".git/".to_string(), ".hg/".to_string()]);
    assert_eq!(split_on_commas(""), vec!["".to_string()]);
    assert_eq!(split_on_commas("a,,b"), vec!["a".to_string(), "".to_string(), "b".to_string()]);
}

#[test]
fn resolve_keeps_absolute_and_anchors_relative() {
    assert_eq!(resolve_path("/etc/passwd", "/home/u"), "/etc/passwd");
    assert_eq!(resolve_path(".vimrc", "/home/u"), "/home/u/.vimrc");
    assert_eq!(resolve_path(".vimrc", "/home/u/"), "/home/u/.vimrc");
    assert_eq!(resolve_path("", "/home/u"), "/home/u");
}

#[test]
fn join_appends_relative_and_takes_absolute() {
    assert_eq!(join_path("/home/u/dotfiles", "homedir"), "/home/u/dotfiles/homedir");
    assert_eq!(join_path("/home/u/dotfiles/", "homedir"), "/home/u/dotfiles/homedir");
    assert_eq!(join_path("/home/u/dotfiles", "/abs"), "/abs");
}

#[test]
fn string_comparisons() {
    assert!(str_eq("abc", "abc"));
    assert!(!str_eq("abc", "abd"));
    assert!(!str_eq("abc", "ab"));
    assert!(str_starts_with(".git/config", ".git/"));
    assert!(!str_starts_with(".github/x", ".git/"));
    assert!(str_starts_with("anything", ""));
}
