use toolchain::{
    candidates, find, find_in_cargo_home, find_in_env, find_in_path, find_with_cargo_home,
    get_cargo_home, Environment, Files, Platform,
};

fn files_with(paths: &[&str]) -> Files {
    let mut files = Files::new();
    for path in paths {
        files.insert(path.to_string());
    }
    files
}

fn unix_with(variables: &[(&str, &str)]) -> Environment {
    let mut env = Environment::new(Platform::unix());
    for (name, value) in variables {
        env.set_var(name.to_string(), value.as_bytes().to_vec());
    }
    env
}

fn some(path: &str) -> Option<String> {
    Some(path.to_string())
}

#[test]
fn test_find_in_path() {
    let temp_dir = "/tmp/work";
    let fake_bin = format!("{}/{}", temp_dir, "fake-binary");
    let files = files_with(&[&fake_bin]);
    let env = unix_with(&[("PATH", temp_dir)]);

    let expected_path = fake_bin.clone();
    assert_eq!(find_in_path(&env, &files, "fake-binary"), Some(expected_path));
    assert_eq!(find_in_path(&env, &files, "non-existent-binary"), None);
}

#[test]
fn test_find_in_env() {
    let env = unix_with(&[("TESTEXEC", "/path/to/testexec")]);
    assert!(find_in_env(&env, "testexec").is_some());
    assert!(find_in_env(&env, "nonexistent").is_none());
}

#[test]
fn test_find_with_cargo_home() {
    let temp_dir = "/tmp/work";
    let fake_cargo_home = format!("{}/{}", temp_dir, ".cargo");
    let fake_bin = format!("{}/{}/{}", fake_cargo_home, "bin", "fake-cargo-binary");
    let files = files_with(&[&fake_bin]);
    let env = unix_with(&[("CARGO_HOME", &fake_cargo_home)]);

    assert!(find_with_cargo_home(&env, &files, "fake-cargo-binary").is_some());
    assert!(find_with_cargo_home(&env, &files, "non-existent-binary").is_none());
}

#[test]
fn nothing_is_found_where_nothing_is() {
    let files = files_with(&["/usr/bin/other"]);
    let env = unix_with(&[("PATH", "/usr/bin:/bin"), ("OTHER", "/x")]);
    assert_eq!(find(&env, &files, "tool"), None);
    assert_eq!(find_with_cargo_home(&env, &files, "tool"), None);
}

#[test]
fn without_path_no_directory_is_searched() {
    let files = files_with(&["tool", "/tool", "./tool"]);
    let env = unix_with(&[]);
    assert_eq!(find_in_path(&env, &files, "tool"), None);
    assert_eq!(find(&env, &files, "tool"), None);
}

#[test]
fn an_empty_directory_name_gives_the_bare_name() {
    let files = files_with(&["tool"]);
    assert_eq!(find_in_path(&unix_with(&[("PATH", "")]), &files, "tool"), some("tool"));
    assert_eq!(find_in_path(&unix_with(&[("PATH", "/bin:")]), &files, "tool"), some("tool"));
}

#[test]
fn a_file_in_a_listed_directory_is_found_among_others() {
    let files = files_with(&["/opt/tools/tool", "/usr/bin/unrelated"]);
    let env = unix_with(&[("PATH", "/usr/bin:/missing:/opt/tools:/bin")]);
    assert_eq!(find(&env, &files, "tool"), some("/opt/tools/tool"));
    assert_eq!(find_in_path(&env, &files, "tool"), some("/opt/tools/tool"));
}

#[test]
fn the_earliest_directory_wins() {
    let files = files_with(&["/b/tool", "/a/tool", "/c/tool"]);
    assert_eq!(find(&unix_with(&[("PATH", "/a:/b:/c")]), &files, "tool"), some("/a/tool"));
    assert_eq!(find(&unix_with(&[("PATH", "/c:/b:/a")]), &files, "tool"), some("/c/tool"));
    assert_eq!(find(&unix_with(&[("PATH", "/x:/b:/a")]), &files, "tool"), some("/b/tool"));
}

#[test]
fn a_directory_with_a_trailing_separator_is_joined_once() {
    let files = files_with(&["/a/tool"]);
    assert_eq!(find_in_path(&unix_with(&[("PATH", "/a/")]), &files, "tool"), some("/a/tool"));
}

#[test]
fn a_directory_that_is_not_text_is_passed_over() {
    let files = files_with(&["/b/tool"]);
    let mut env = Environment::new(Platform::unix());
    let mut value = vec![b'/', 0xff, 0xfe, b':'];
    value.extend_from_slice(b"/b");
    env.set_var("PATH".to_string(), value);
    assert_eq!(find_in_path(&env, &files, "tool"), some("/b/tool"));

    let mut only_bad = Environment::new(Platform::unix());
    only_bad.set_var("PATH".to_string(), vec![0xc3]);
    assert_eq!(find_in_path(&only_bad, &files, "tool"), None);
}

#[test]
fn the_platform_decides_the_separator() {
    let files = files_with(&["/b/tool"]);
    let mut env = Environment::new(Platform::new(String::new(), b';').unwrap());
    env.set_var("PATH".to_string(), b"/a;/b".to_vec());
    assert_eq!(find_in_path(&env, &files, "tool"), some("/b/tool"));
    assert_eq!(find_in_path(&unix_with(&[("PATH", "/a;/b")]), &files, "tool"), None);
}

#[test]
fn the_executable_extension_is_tried_in_each_directory() {
    let files = files_with(&["/b/tool.exe", "/c/tool"]);
    let mut env = Environment::new(Platform::windows());
    env.set_var("PATH".to_string(), b"/a;/b;/c".to_vec());
    assert_eq!(find_in_path(&env, &files, "tool"), some("/b/tool.exe"));
}

#[test]
fn the_variable_is_the_name_in_ascii_upper_case() {
    let env = unix_with(&[
        ("CARGO", "/opt/cargo"),
        ("RUST-ANALYZER", "/opt/ra"),
        ("TOOL2", "/opt/tool2"),
        ("\u{e9}T\u{e9}", "/opt/ete"),
    ]);
    assert_eq!(find_in_env(&env, "cargo"), some("/opt/cargo"));
    assert_eq!(find_in_env(&env, "Cargo"), some("/opt/cargo"));
    assert_eq!(find_in_env(&env, "CARGO"), some("/opt/cargo"));
    assert_eq!(find_in_env(&env, "rust-analyzer"), some("/opt/ra"));
    assert_eq!(find_in_env(&env, "tool2"), some("/opt/tool2"));
    assert_eq!(find_in_env(&env, "\u{e9}t\u{e9}"), some("/opt/ete"));
    assert_eq!(find_in_env(&env, "\u{c9}t\u{e9}"), None);
}

#[test]
fn a_variable_in_lower_case_is_not_consulted() {
    let env = unix_with(&[("cargo", "/opt/cargo")]);
    assert_eq!(find_in_env(&env, "cargo"), None);
}

#[test]
fn the_variable_is_taken_at_its_word() {
    let files = Files::new();
    let env = unix_with(&[("PATH", "/usr/bin"), ("TOOL", "/nowhere/at/all")]);
    assert_eq!(find(&env, &files, "tool"), some("/nowhere/at/all"));
    assert_eq!(find_with_cargo_home(&env, &files, "tool"), some("/nowhere/at/all"));
}

#[test]
fn the_value_of_the_variable_is_returned_exactly() {
    let env = unix_with(&[("TOOL", " relative/../path with spaces/"), ("EMPTY", "")]);
    assert_eq!(find_in_env(&env, "tool"), some(" relative/../path with spaces/"));
    assert_eq!(find_in_env(&env, "empty"), some(""));
}

#[test]
fn a_variable_that_is_not_text_counts_as_unset() {
    let mut env = Environment::new(Platform::unix());
    env.set_var("TOOL".to_string(), vec![b'/', 0xff]);
    assert_eq!(find_in_env(&env, "tool"), None);
    assert_eq!(find(&env, &Files::new(), "tool"), None);
}

#[test]
fn path_takes_precedence_over_the_variable() {
    let files = files_with(&["/usr/bin/tool", "/pinned/tool"]);
    let env = unix_with(&[("PATH", "/usr/bin"), ("TOOL", "/pinned/tool")]);
    assert_eq!(find(&env, &files, "tool"), some("/usr/bin/tool"));
    assert_eq!(find_with_cargo_home(&env, &files, "tool"), some("/usr/bin/tool"));
}

#[test]
fn the_variable_takes_precedence_over_the_cargo_home() {
    let files = files_with(&["/cargo/bin/tool"]);
    let env = unix_with(&[("TOOL", "/pinned/tool"), ("CARGO_HOME", "/cargo")]);
    assert_eq!(find_with_cargo_home(&env, &files, "tool"), some("/pinned/tool"));
}

#[test]
fn the_cargo_home_is_searched_last() {
    let files = files_with(&["/cargo/bin/tool"]);
    let env = unix_with(&[("PATH", "/usr/bin"), ("CARGO_HOME", "/cargo")]);
    assert_eq!(find_with_cargo_home(&env, &files, "tool"), some("/cargo/bin/tool"));
    assert_eq!(find_in_cargo_home(&env, &files, "tool"), some("/cargo/bin/tool"));
    assert_eq!(find(&env, &files, "tool"), None);
}

#[test]
fn the_cargo_home_is_the_variable_as_it_stands() {
    assert_eq!(get_cargo_home(&unix_with(&[("CARGO_HOME", "/cargo")])), some("/cargo"));
    assert_eq!(get_cargo_home(&unix_with(&[("CARGO_HOME", "rel/home/")])), some("rel/home/"));
    let mut env = unix_with(&[("CARGO_HOME", "/cargo")]);
    env.set_home_dir(b"/home/user".to_vec());
    assert_eq!(get_cargo_home(&env), some("/cargo"));
}

#[test]
fn the_cargo_home_defaults_to_the_user_home() {
    let mut env = unix_with(&[]);
    assert_eq!(get_cargo_home(&env), None);
    env.set_home_dir(b"/home/user".to_vec());
    assert_eq!(get_cargo_home(&env), some("/home/user/.cargo"));
    let files = files_with(&["/home/user/.cargo/bin/tool"]);
    assert_eq!(find_in_cargo_home(&env, &files, "tool"), some("/home/user/.cargo/bin/tool"));
    assert_eq!(find_with_cargo_home(&env, &files, "tool"), some("/home/user/.cargo/bin/tool"));
    assert_eq!(find_in_cargo_home(&env, &files, "other"), None);
}

#[test]
fn a_cargo_home_that_is_not_text_counts_as_unset() {
    let mut env = Environment::new(Platform::unix());
    env.set_var("CARGO_HOME".to_string(), vec![0xff]);
    assert_eq!(get_cargo_home(&env), None);
    env.set_home_dir(b"/home/user".to_vec());
    assert_eq!(get_cargo_home(&env), some("/home/user/.cargo"));
}

#[test]
fn a_user_home_that_is_not_text_gives_no_cargo_home() {
    let mut env = Environment::new(Platform::unix());
    env.set_home_dir(vec![b'/', 0x80]);
    assert_eq!(get_cargo_home(&env), None);
    assert_eq!(find_in_cargo_home(&env, &files_with(&["/.cargo/bin/tool"]), "tool"), None);
}

#[test]
fn the_cargo_home_tries_the_executable_extension() {
    let files = files_with(&["/cargo/bin/tool.exe"]);
    let mut env = Environment::new(Platform::windows());
    env.set_var("CARGO_HOME".to_string(), b"/cargo".to_vec());
    assert_eq!(find_in_cargo_home(&env, &files, "tool"), some("/cargo/bin/tool.exe"));
}

#[test]
fn candidates_list_every_path_in_the_order_of_the_search() {
    let mut env = unix_with(&[("PATH", "/a:/b"), ("TOOL", "/pinned")]);
    env.set_home_dir(b"/home/user".to_vec());
    assert_eq!(
        candidates(&env, "tool"),
        vec!["/a/tool".to_string(), "/b/tool".to_string(), "/home/user/.cargo/bin/tool".to_string()]
    );
    assert_eq!(candidates(&unix_with(&[]), "tool"), Vec::<String>::new());
}

#[test]
fn candidates_include_the_executable_extension() {
    let mut env = Environment::new(Platform::windows());
    env.set_var("PATH".to_string(), b"/a".to_vec());
    env.set_var("CARGO_HOME".to_string(), b"/cargo".to_vec());
    assert_eq!(
        candidates(&env, "tool"),
        vec![
            "/a/tool".to_string(),
            "/a/tool.exe".to_string(),
            "/cargo/bin/tool".to_string(),
            "/cargo/bin/tool.exe".to_string()
        ]
    );
}

#[test]
fn a_snapshot_of_the_candidates_is_enough() {
    let env = unix_with(&[("PATH", "/a:/b"), ("CARGO_HOME", "/cargo")]);
    let everything = files_with(&["/b/tool", "/cargo/bin/tool", "/elsewhere/tool", "/b/other"]);
    let mut tested = Files::new();
    for candidate in candidates(&env, "tool") {
        if everything.is_file(&candidate) {
            tested.insert(candidate);
        }
    }
    assert_eq!(
        find_with_cargo_home(&env, &tested, "tool"),
        find_with_cargo_home(&env, &everything, "tool")
    );
    assert_eq!(find_with_cargo_home(&env, &tested, "tool"), some("/b/tool"));
}

#[test]
fn searching_twice_gives_the_same_result() {
    let files = files_with(&["/b/tool"]);
    let env = unix_with(&[("PATH", "/a:/b"), ("OTHER", "/pinned")]);
    assert_eq!(find(&env, &files, "tool"), find(&env, &files, "tool"));
    assert_eq!(find_in_path(&env, &files, "tool"), find_in_path(&env, &files, "tool"));
    assert_eq!(find_in_env(&env, "other"), find_in_env(&env, "other"));
    assert_eq!(find_with_cargo_home(&env, &files, "x"), find_with_cargo_home(&env, &files, "x"));
    assert_eq!(find_in_cargo_home(&env, &files, "x"), find_in_cargo_home(&env, &files, "x"));
}

#[test]
fn two_snapshots_with_the_same_content_give_the_same_result() {
    let files = files_with(&["/b/tool"]);
    let other_files = files_with(&["/b/tool", "/b/tool"]);
    let env = unix_with(&[("PATH", "/a:/b"), ("TOOL", "/pinned")]);
    let other_env = unix_with(&[("TOOL", "/old"), ("TOOL", "/pinned"), ("PATH", "/a:/b")]);
    assert_eq!(find(&env, &files, "tool"), find(&other_env, &other_files, "tool"));
    assert_eq!(find_in_env(&env, "tool"), find_in_env(&other_env, "tool"));
}
