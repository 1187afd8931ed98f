use toolchain::{Environment, Files, Platform};

#[test]
fn a_new_environment_has_no_variables() {
    let env = Environment::new(Platform::unix());
    assert_eq!(env.var("PATH"), None);
    assert_eq!(env.var(""), None);
    assert_eq!(env.home_dir(), None);
}

#[test]
fn a_variable_that_was_set_is_found_under_its_exact_name() {
    let mut env = Environment::new(Platform::unix());
    env.set_var("CARGO".to_string(), b"/opt/cargo".to_vec());
    assert_eq!(env.var("CARGO"), Some(b"/opt/cargo".to_vec()));
    assert_eq!(env.var("cargo"), None);
    assert_eq!(env.var("CARGO_HOME"), None);
}

#[test]
fn setting_a_variable_again_replaces_its_value() {
    let mut env = Environment::new(Platform::unix());
    env.set_var("CARGO".to_string(), b"/first".to_vec());
    env.set_var("RUSTC".to_string(), b"/rustc".to_vec());
    env.set_var("CARGO".to_string(), b"/second".to_vec());
    assert_eq!(env.var("CARGO"), Some(b"/second".to_vec()));
    assert_eq!(env.var("RUSTC"), Some(b"/rustc".to_vec()));
}

#[test]
fn a_variable_may_be_empty_or_hold_any_bytes() {
    let mut env = Environment::new(Platform::unix());
    env.set_var("EMPTY".to_string(), Vec::new());
    env.set_var("RAW".to_string(), vec![0xff, 0x00, 0x80]);
    assert_eq!(env.var("EMPTY"), Some(Vec::new()));
    assert_eq!(env.var("RAW"), Some(vec![0xff, 0x00, 0x80]));
}

#[test]
fn the_home_directory_is_kept_as_given() {
    let mut env = Environment::new(Platform::unix());
    env.set_home_dir(b"/home/user".to_vec());
    assert_eq!(env.home_dir(), Some(b"/home/user".to_vec()));
    env.set_home_dir(b"/home/other".to_vec());
    assert_eq!(env.home_dir(), Some(b"/home/other".to_vec()));
    assert_eq!(env.var("HOME"), None);
}

#[test]
fn the_environment_keeps_its_platform() {
    let env = Environment::new(Platform::windows());
    assert_eq!(env.platform().exe_extension(), "exe");
    assert_eq!(env.platform().path_separator(), b';');
}

#[test]
fn the_unix_conventions() {
    let platform = Platform::unix();
    assert_eq!(platform.exe_extension(), "");
    assert_eq!(platform.path_separator(), b':');
}

#[test]
fn the_windows_conventions() {
    let platform = Platform::windows();
    assert_eq!(platform.exe_extension(), "exe");
    assert_eq!(platform.path_separator(), b';');
}

#[test]
fn a_platform_of_ones_own() {
    let platform = Platform::new("out".to_string(), b',').unwrap();
    assert_eq!(platform.exe_extension(), "out");
    assert_eq!(platform.path_separator(), b',');
    assert!(Platform::new(String::new(), b':').is_some());
}

#[test]
fn an_extension_with_a_path_separator_is_refused() {
    assert!(Platform::new("a/b".to_string(), b':').is_none());
    assert!(Platform::new("a\\b".to_string(), b':').is_none());
    assert!(Platform::new("/".to_string(), b':').is_none());
    assert!(Platform::new("exe\\".to_string(), b';').is_none());
}

#[test]
fn files_hold_what_was_inserted() {
    let mut files = Files::new();
    assert!(!files.is_file("/bin/sh"));
    files.insert("/bin/sh".to_string());
    files.insert("/bin/ls".to_string());
    files.insert("/bin/sh".to_string());
    assert!(files.is_file("/bin/sh"));
    assert!(files.is_file("/bin/ls"));
    assert!(!files.is_file("/bin"));
    assert!(!files.is_file("/bin/sh "));
    assert!(!files.is_file(""));
}
