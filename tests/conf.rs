use relconf::command::{command_output, CommandError};
use relconf::conf::{Config, ConfigError, DirectoryPath, FilePath, InjectConfig, When};

#[test]
fn exactly_one_source_is_accepted() {
    match InjectConfig::from_fields(Some(FilePath("a.yaml".to_string())), None) {
        Ok(InjectConfig::Path { path }) => assert_eq!(path.0, "a.yaml"),
        other => panic!("unexpected {:?}", other),
    }
    match InjectConfig::from_fields(None, Some("echo a: 1".to_string())) {
        Ok(InjectConfig::Template { command }) => assert_eq!(command, "echo a: 1"),
        other => panic!("unexpected {:?}", other),
    }
}

#[test]
fn both_or_neither_source_is_refused() {
    let both = InjectConfig::from_fields(Some(FilePath("a".to_string())), Some("b".to_string()));
    assert_eq!(both.unwrap_err(), ConfigError::BothSources);
    let neither = InjectConfig::from_fields(None, None);
    assert_eq!(neither.unwrap_err(), ConfigError::NoSource);
    assert_eq!(
        ConfigError::BothSources.message(),
        "cannot specify both 'path' and 'command' on config"
    );
    assert_eq!(
        ConfigError::NoSource.message(),
        "must specify either 'path' or 'command' on config"
    );
}

#[test]
fn paths_are_checked_against_the_file_system_answer() {
    assert_eq!(FilePath::checked("f".to_string(), true).unwrap().0, "f");
    let e = FilePath::checked("f".to_string(), false).unwrap_err();
    assert_eq!(e, ConfigError::NotAFile { path: "f".to_string() });
    assert_eq!(e.message(), "Expected a file path or symlink to a file, received f");
    assert_eq!(DirectoryPath::checked("d".to_string(), true).unwrap().0, "d");
    let e = DirectoryPath::checked("d".to_string(), false).unwrap_err();
    assert_eq!(e, ConfigError::NotADirectory { path: "d".to_string() });
    assert_eq!(e.message(), "Expected a directory path or symlink to a directory");
}

#[test]
fn missing_conditions_are_none() {
    let c = Config { config: InjectConfig::Template { command: "true".to_string() }, when: None };
    assert_eq!(c.conditions().len(), 0);
    let w = When { directory: DirectoryPath("/w".to_string()), match_subdirectories: true };
    let c = Config { config: InjectConfig::Template { command: "true".to_string() }, when: Some(vec![w]) };
    assert_eq!(c.conditions().len(), 1);
    assert!(c.conditions()[0].match_subdirectories);
}

#[test]
fn successful_command_yields_its_output() {
    let r = command_output("echo", true, b"a: 1\n".to_vec(), vec![]);
    assert_eq!(r, Ok("a: 1\n".to_string()));
    let r = command_output("echo", true, "é".as_bytes().to_vec(), vec![]);
    assert_eq!(r, Ok("é".to_string()));
}

#[test]
fn non_utf8_output_is_an_error() {
    let r = command_output("cat x", true, vec![0xff, 0xfe], vec![]);
    let e = r.unwrap_err();
    assert_eq!(e, CommandError::OutputNotUtf8 { command: "cat x".to_string() });
    assert_eq!(e.message(), "failed to parse output of command cat x as utf8");
}

#[test]
fn failed_command_reports_its_stderr() {
    let r = command_output("false", false, b"ignored".to_vec(), b"boom".to_vec());
    assert_eq!(r, Err(CommandError::Failed { message: "boom".to_string() }));
    let r = command_output("false", false, vec![], vec![0xc3]);
    let e = r.unwrap_err();
    assert_eq!(e.message(), "unknown error executing command false");
}
