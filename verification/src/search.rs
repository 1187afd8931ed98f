//! The search for a tool: the directories of `PATH`, the variable named
//! after the tool, and the cargo home.

use crate::environment::{Environment, EnvironmentView};
use crate::files::Files;
use crate::paths::{ascii_uppercase, decode, join, path_join};
use crate::platform::PlatformView;
use crate::probe::{candidates_for, probe, probe_candidates, probe_for_binary};
use crate::split::{contents, split, split_paths};
use vstd::prelude::*;
use vstd::utf8::*;

verus! {

/// The text that `bytes` encode, if they are well-formed.
pub open spec fn text_of(bytes: Seq<u8>) -> Option<Seq<char>> {
    if valid_utf8(bytes) {
        Some(decode_utf8(bytes))
    } else {
        None
    }
}

/// The bytes that encode a text are read as that text.
pub proof fn lemma_text_of_encoded(text: Seq<char>)
    ensures
        text_of(encode_utf8(text)) == Some(text),
{
    encode_utf8_valid_utf8(text);
    encode_utf8_decode_utf8(text);
}

/// The value of the variable `name` as text; nothing if the variable is not
/// set or its value is not well-formed text.
pub open spec fn variable_text(env: EnvironmentView, name: Seq<char>) -> Option<Seq<char>> {
    if env.variables.contains_key(name) {
        text_of(env.variables[name])
    } else {
        None
    }
}

/// The directories to search, in the order in which `PATH` lists them; none
/// if `PATH` is not set.
pub open spec fn search_directories(env: EnvironmentView) -> Seq<Seq<u8>> {
    if env.variables.contains_key("PATH"@) {
        split(env.variables["PATH"@], env.platform.path_separator)
    } else {
        Seq::empty()
    }
}

/// What probing for `exec` in the directory `dir` finds. A directory whose
/// name is not well-formed text is passed over.
pub open spec fn probe_in(
    platform: PlatformView,
    files: Set<Seq<char>>,
    dir: Seq<u8>,
    exec: Seq<char>,
) -> Option<Seq<char>> {
    match text_of(dir) {
        Some(dir) => probe(platform, files, path_join(dir, exec)),
        None => None,
    }
}

/// What the first of `dirs` that holds `exec` gives.
pub open spec fn probe_directories(
    platform: PlatformView,
    files: Set<Seq<char>>,
    dirs: Seq<Seq<u8>>,
    exec: Seq<char>,
) -> Option<Seq<char>>
    decreases dirs.len(),
{
    if dirs.len() == 0 {
        None
    } else {
        match probe_in(platform, files, dirs.first(), exec) {
            Some(found) => Some(found),
            None => probe_directories(platform, files, dirs.drop_first(), exec),
        }
    }
}

/// The result of searching the directories of `PATH` for `exec`.
pub open spec fn path_probe(env: EnvironmentView, files: Set<Seq<char>>, exec: Seq<char>) -> Option<
    Seq<char>,
> {
    probe_directories(env.platform, files, search_directories(env), exec)
}

/// The path that the variable named after `exec` pins the tool to.
pub open spec fn env_override(env: EnvironmentView, exec: Seq<char>) -> Option<Seq<char>> {
    variable_text(env, ascii_uppercase(exec))
}

/// The cargo home: the value of `CARGO_HOME` where that is usable, else the
/// directory `.cargo` in the user's home.
pub open spec fn cargo_home(env: EnvironmentView) -> Option<Seq<char>> {
    match variable_text(env, "CARGO_HOME"@) {
        Some(home) => Some(home),
        None => match env.home_dir {
            Some(home) => match text_of(home) {
                Some(home) => Some(path_join(home, ".cargo"@)),
                None => None,
            },
            None => None,
        },
    }
}

/// The path at which the cargo home would hold `exec`.
pub open spec fn cargo_home_candidate(env: EnvironmentView, exec: Seq<char>) -> Option<Seq<char>> {
    match cargo_home(env) {
        Some(home) => Some(path_join(path_join(home, "bin"@), exec)),
        None => None,
    }
}

/// The result of looking for `exec` in the `bin` directory of the cargo home.
pub open spec fn home_fallback(
    env: EnvironmentView,
    files: Set<Seq<char>>,
    exec: Seq<char>,
) -> Option<Seq<char>> {
    match cargo_home_candidate(env, exec) {
        Some(candidate) => probe(env.platform, files, candidate),
        None => None,
    }
}

/// Where `exec` is found: in `PATH`, else through its variable.
pub open spec fn resolve(env: EnvironmentView, files: Set<Seq<char>>, exec: Seq<char>) -> Option<
    Seq<char>,
> {
    match path_probe(env, files, exec) {
        Some(found) => Some(found),
        None => env_override(env, exec),
    }
}

/// Where `exec` is found: in `PATH`, else through its variable, else in the
/// cargo home.
pub open spec fn resolve_with_cargo_home(
    env: EnvironmentView,
    files: Set<Seq<char>>,
    exec: Seq<char>,
) -> Option<Seq<char>> {
    match resolve(env, files, exec) {
        Some(found) => Some(found),
        None => home_fallback(env, files, exec),
    }
}

/// Every path that probing `dirs` for `exec` may test, in the order of the
/// tests.
pub open spec fn directory_candidates(
    platform: PlatformView,
    dirs: Seq<Seq<u8>>,
    exec: Seq<char>,
) -> Seq<Seq<char>>
    decreases dirs.len(),
{
    if dirs.len() == 0 {
        Seq::empty()
    } else {
        let first = match text_of(dirs.first()) {
            Some(dir) => probe_candidates(platform, path_join(dir, exec)),
            None => Seq::empty(),
        };
        first + directory_candidates(platform, dirs.drop_first(), exec)
    }
}

/// Every path that looking for `exec` in the cargo home may test.
pub open spec fn home_candidates(env: EnvironmentView, exec: Seq<char>) -> Seq<Seq<char>> {
    match cargo_home_candidate(env, exec) {
        Some(candidate) => probe_candidates(env.platform, candidate),
        None => Seq::empty(),
    }
}

/// Every path that a search for `exec` may test: what a search needs to
/// know of the files on disk.
pub open spec fn search_candidates(env: EnvironmentView, exec: Seq<char>) -> Seq<Seq<char>> {
    directory_candidates(env.platform, search_directories(env), exec) + home_candidates(env, exec)
}

/// The value of the variable `name` as text.
fn var_text(env: &Environment, name: &str) -> (text: Option<String>)
    ensures
        text.deep_view() == variable_text(env@, name@),
{
    match env.var(name) {
        Some(value) => match decode(value.as_slice()) {
            Some(text) => Some(text.to_owned()),
            None => None,
        },
        None => None,
    }
}

/// Searches the directories of `PATH`, in the order listed, for `exec`.
pub fn find_in_path(env: &Environment, files: &Files, exec: &str) -> (found: Option<String>)
    ensures
        found.deep_view() == path_probe(env@, files@, exec@),
        found matches Some(file) ==> files@.contains(file@),
{
    let value = match env.var("PATH") {
        Some(value) => value,
        None => {
            return None;
        },
    };
    let platform = env.platform();
    let dirs = split_paths(&value, platform.path_separator());
    let ghost all = contents(dirs@);
    let mut i: usize = 0;
    assert(all.skip(0) =~= all);
    while i < dirs.len()
        invariant
            i <= dirs@.len(),
            all == contents(dirs@),
            platform@ == env@.platform,
            path_probe(env@, files@, exec@) == probe_directories(
                platform@,
                files@,
                all.skip(i as int),
                exec@,
            ),
        decreases dirs@.len() - i,
    {
        proof {
            assert(all.skip(i as int).drop_first() =~= all.skip(i + 1));
            assert(all.skip(i as int).first() == dirs@[i as int]@);
        }
        match decode(dirs[i].as_slice()) {
            Some(dir) => {
                let found = probe_for_binary(platform, files, join(dir, exec));
                if found.is_some() {
                    return found;
                }
            },
            None => {},
        }
        i = i + 1;
    }
    None
}

/// Looks up the variable named after `exec` in upper case and takes its
/// value for the tool's path, without testing that a file is there.
pub fn find_in_env(env: &Environment, exec: &str) -> (found: Option<String>)
    ensures
        found.deep_view() == env_override(env@, exec@),
{
    let name = exec.to_ascii_uppercase();
    var_text(env, name.as_str())
}

/// Determines the cargo home.
pub fn get_cargo_home(env: &Environment) -> (home: Option<String>)
    ensures
        home.deep_view() == cargo_home(env@),
{
    if let Some(home) = var_text(env, "CARGO_HOME") {
        return Some(home);
    }
    if let Some(home) = env.home_dir() {
        if let Some(home) = decode(home.as_slice()) {
            return Some(join(home, ".cargo"));
        }
    }
    None
}

/// The path at which the cargo home would hold `exec`.
fn cargo_home_binary(env: &Environment, exec: &str) -> (path: Option<String>)
    ensures
        path.deep_view() == cargo_home_candidate(env@, exec@),
{
    match get_cargo_home(env) {
        Some(home) => {
            let bin = join(home.as_str(), "bin");
            Some(join(bin.as_str(), exec))
        },
        None => None,
    }
}

/// Looks for `exec` in the `bin` directory of the cargo home.
pub fn find_in_cargo_home(env: &Environment, files: &Files, exec: &str) -> (found: Option<String>)
    ensures
        found.deep_view() == home_fallback(env@, files@, exec@),
        found matches Some(file) ==> files@.contains(file@),
{
    match cargo_home_binary(env, exec) {
        Some(path) => probe_for_binary(env.platform(), files, path),
        None => None,
    }
}

/// Finds `exec` in `PATH` or, failing that, through the variable named
/// after it.
pub fn find(env: &Environment, files: &Files, exec: &str) -> (found: Option<String>)
    ensures
        found.deep_view() == resolve(env@, files@, exec@),
        found matches Some(path) ==> files@.contains(path@) || env_override(env@, exec@) == Some(
            path@,
        ),
{
    match find_in_path(env, files, exec) {
        Some(found) => Some(found),
        None => find_in_env(env, exec),
    }
}

/// Finds `exec` in `PATH`, through the variable named after it or, failing
/// both, in the cargo home.
pub fn find_with_cargo_home(env: &Environment, files: &Files, exec: &str) -> (found: Option<String>)
    ensures
        found.deep_view() == resolve_with_cargo_home(env@, files@, exec@),
        found matches Some(path) ==> files@.contains(path@) || env_override(env@, exec@) == Some(
            path@,
        ),
{
    match find(env, files, exec) {
        Some(found) => Some(found),
        None => find_in_cargo_home(env, files, exec),
    }
}

/// Lists every path that a search for `exec` may test, so that a snapshot
/// of the files can be taken before the search is made.
pub fn candidates(env: &Environment, exec: &str) -> (paths: Vec<String>)
    ensures
        paths.deep_view() == search_candidates(env@, exec@),
{
    let platform = env.platform();
    let mut paths: Vec<String> = Vec::new();
    if let Some(value) = env.var("PATH") {
        let dirs = split_paths(&value, platform.path_separator());
        let ghost all = contents(dirs@);
        let mut i: usize = 0;
        assert(all.skip(0) =~= all);
        assert(paths.deep_view() + directory_candidates(platform@, all, exec@)
            =~= directory_candidates(platform@, all, exec@));
        while i < dirs.len()
            invariant
                i <= dirs@.len(),
                all == contents(dirs@),
                paths.deep_view() + directory_candidates(platform@, all.skip(i as int), exec@)
                    == directory_candidates(platform@, all, exec@),
            decreases dirs@.len() - i,
        {
            let ghost before = paths.deep_view();
            proof {
                assert(all.skip(i as int).drop_first() =~= all.skip(i + 1));
                assert(all.skip(i as int).first() == dirs@[i as int]@);
            }
            if let Some(dir) = decode(dirs[i].as_slice()) {
                let mut more = candidates_for(platform, join(dir, exec));
                let ghost added = more.deep_view();
                paths.append(&mut more);
                assert(paths.deep_view() =~= before + added);
            }
            i = i + 1;
            assert(paths.deep_view() + directory_candidates(platform@, all.skip(i as int), exec@)
                =~= directory_candidates(platform@, all, exec@));
        }
        assert(all.skip(i as int) =~= Seq::<Seq<u8>>::empty());
        assert(paths.deep_view() =~= directory_candidates(platform@, all, exec@));
    } else {
        assert(paths.deep_view() =~= Seq::<Seq<char>>::empty());
    }
    let ghost before = paths.deep_view();
    if let Some(path) = cargo_home_binary(env, exec) {
        let mut more = candidates_for(platform, path);
        let ghost added = more.deep_view();
        paths.append(&mut more);
        assert(paths.deep_view() =~= before + added);
    }
    assert(paths.deep_view() =~= before + home_candidates(env@, exec@));
    paths
}

} // verus!
