use relconf::path::{expand_home, is_subdir, same_path, CanonicalPath};
use relconf::tool::{export_line, export_statement, is_selected, should_run, DirectoryRule};

fn path(s: &str) -> CanonicalPath {
    CanonicalPath { components: s.split('/').filter(|c| !c.is_empty()).map(|c| c.to_string()).collect() }
}

fn rule(dir: &str, subdirs: bool) -> DirectoryRule {
    DirectoryRule { directory: Some(path(dir)), match_subdirectories: subdirs }
}

#[test]
fn no_rules_always_apply() {
    assert_eq!(should_run(&[], &path("/anywhere/at/all")), Ok(true));
    assert_eq!(should_run(&[], &path("/")), Ok(true));
}

#[test]
fn a_rule_applies_in_its_own_directory() {
    assert_eq!(should_run(&[rule("/work", false)], &path("/work")), Ok(true));
    assert_eq!(should_run(&[rule("/work", true)], &path("/work")), Ok(true));
}

#[test]
fn subdirectories_need_the_flag() {
    assert_eq!(should_run(&[rule("/work", false)], &path("/work/sub")), Ok(false));
    assert_eq!(should_run(&[rule("/work", true)], &path("/work/sub")), Ok(true));
    assert_eq!(should_run(&[rule("/work", true)], &path("/work/sub/deeper")), Ok(true));
}

#[test]
fn gated_fragment_is_excluded_elsewhere() {
    assert_eq!(should_run(&[rule("/work", true)], &path("/work/sub")), Ok(true));
    assert_eq!(should_run(&[rule("/work", true)], &path("/other")), Ok(false));
    assert_eq!(should_run(&[rule("/work", true)], &path("/workshop")), Ok(false));
    assert_eq!(should_run(&[rule("/work/sub", true)], &path("/work")), Ok(false));
}

#[test]
fn any_rule_suffices() {
    let rules = [rule("/a", false), rule("/b", true)];
    assert_eq!(should_run(&rules, &path("/b/c")), Ok(true));
    assert_eq!(should_run(&rules, &path("/a")), Ok(true));
    assert_eq!(should_run(&rules, &path("/a/c")), Ok(false));
}

#[test]
fn subdir_and_same_path() {
    assert!(is_subdir(&path("/"), &path("/x")));
    assert!(is_subdir(&path("/x"), &path("/x")));
    assert!(!is_subdir(&path("/x/y"), &path("/x")));
    assert!(same_path(&path("/x/y"), &path("/x/y")));
    assert!(!same_path(&path("/x/y"), &path("/x/z")));
}

#[test]
fn tilde_expands_to_home() {
    assert_eq!(expand_home("~/conf/a.yaml", Some("/home/u")), "/home/u/conf/a.yaml");
    assert_eq!(expand_home("~", Some("/home/u")), "/home/u");
    assert_eq!(expand_home("~other/x", Some("/home/u")), "~other/x");
    assert_eq!(expand_home("/etc/x", Some("/home/u")), "/etc/x");
    assert_eq!(expand_home("~/x", None), "~/x");
}

#[test]
fn export_lines_quote_the_path() {
    assert_eq!(export_line("CONF", "/tmp/out.json"), "export CONF=\"/tmp/out.json\"");
    assert_eq!(export_line("Q", "/a \"b\""), "export Q=\"/a \\\"b\\\"\"");
    assert_eq!(export_statement("N", "'x'"), "export N='x'");
}

#[test]
fn tool_filter() {
    assert!(is_selected(&vec![], "git"));
    assert!(is_selected(&vec!["git".to_string(), "npm".to_string()], "npm"));
    assert!(!is_selected(&vec!["git".to_string()], "npm"));
}

#[test]
fn unresolved_directory_is_an_error_only_when_reached() {
    let gone = DirectoryRule { directory: None, match_subdirectories: true };
    let rules = [rule("/work", true), gone];
    assert_eq!(should_run(&rules, &path("/work/sub")), Ok(true));
    assert_eq!(should_run(&rules, &path("/other")), Err(1));
    let gone = DirectoryRule { directory: None, match_subdirectories: false };
    assert_eq!(should_run(&[gone, rule("/work", true)], &path("/work")), Err(0));
}
