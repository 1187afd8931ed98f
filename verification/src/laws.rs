//! What holds of every search, proved from the definitions.

use crate::environment::{Environment, EnvironmentView};
use crate::files::Files;
use crate::paths::{ascii_uppercase, path_join, path_with_extension};
use crate::platform::PlatformView;
use crate::probe::{
    agree_on, first_regular_file, lemma_first_file_in_turn, lemma_first_file_local,
    lemma_first_file_sound, lemma_probe_prefers_plain_path, lemma_probe_sound, probe,
    probe_candidates,
};
use crate::search::{
    cargo_home, directory_candidates, env_override, home_candidates, home_fallback,
    lemma_text_of_encoded, path_probe, probe_directories, probe_in, resolve,
    resolve_with_cargo_home, search_candidates, search_directories, text_of, variable_text,
};
use vstd::prelude::*;
use vstd::utf8::*;

verus! {

/// Whether the directory `dir` holds the tool: its name is well-formed text,
/// and a regular file named `exec` is in it, with or without the platform's
/// executable extension.
pub open spec fn directory_holds(
    platform: PlatformView,
    files: Set<Seq<char>>,
    dir: Seq<u8>,
    exec: Seq<char>,
) -> bool {
    match text_of(dir) {
        Some(dir) => {
            let path = path_join(dir, exec);
            files.contains(path) || (platform.exe_extension.len() > 0 && files.contains(
                path_with_extension(path, platform.exe_extension),
            ))
        },
        None => false,
    }
}

/// Whether none of the first `i` of `dirs` holds the tool.
pub open spec fn none_holds_before(
    platform: PlatformView,
    files: Set<Seq<char>>,
    dirs: Seq<Seq<u8>>,
    exec: Seq<char>,
    i: int,
) -> bool {
    forall|j: int| 0 <= j < i ==> !directory_holds(platform, files, #[trigger] dirs[j], exec)
}

/// Probing a directory finds something exactly when the directory holds the
/// tool.
pub proof fn lemma_probe_in_finds_what_is_held(
    platform: PlatformView,
    files: Set<Seq<char>>,
    dir: Seq<u8>,
    exec: Seq<char>,
)
    ensures
        probe_in(platform, files, dir, exec) is Some <==> directory_holds(
            platform,
            files,
            dir,
            exec,
        ),
{
    if let Some(dir) = text_of(dir) {
        lemma_probe_sound(platform, files, path_join(dir, exec));
    }
}

/// Directories that do not hold the tool have no part in the result.
pub proof fn lemma_empty_directories_skipped(
    platform: PlatformView,
    files: Set<Seq<char>>,
    dirs: Seq<Seq<u8>>,
    exec: Seq<char>,
    i: int,
)
    requires
        0 <= i <= dirs.len(),
        none_holds_before(platform, files, dirs, exec, i),
    ensures
        probe_directories(platform, files, dirs, exec) == probe_directories(
            platform,
            files,
            dirs.skip(i),
            exec,
        ),
    decreases i,
{
    if i == 0 {
        assert(dirs.skip(0) =~= dirs);
    } else {
        let rest = dirs.drop_first();
        assert(!directory_holds(platform, files, dirs[0], exec));
        lemma_probe_in_finds_what_is_held(platform, files, dirs[0], exec);
        assert forall|j: int| 0 <= j < i - 1 implies !directory_holds(
            platform,
            files,
            #[trigger] rest[j],
            exec,
        ) by {
            assert(rest[j] == dirs[j + 1]);
        }
        lemma_empty_directories_skipped(platform, files, rest, exec, i - 1);
        assert(rest.skip(i - 1) =~= dirs.skip(i));
    }
}

/// Where probing the directories finds nothing, none of them holds the
/// tool.
pub proof fn lemma_nothing_found_nothing_held(
    platform: PlatformView,
    files: Set<Seq<char>>,
    dirs: Seq<Seq<u8>>,
    exec: Seq<char>,
)
    requires
        probe_directories(platform, files, dirs, exec) is None,
    ensures
        none_holds_before(platform, files, dirs, exec, dirs.len() as int),
    decreases dirs.len(),
{
    if dirs.len() > 0 {
        let rest = dirs.drop_first();
        lemma_probe_in_finds_what_is_held(platform, files, dirs.first(), exec);
        lemma_nothing_found_nothing_held(platform, files, rest, exec);
        assert forall|j: int| 0 <= j < dirs.len() implies !directory_holds(
            platform,
            files,
            #[trigger] dirs[j],
            exec,
        ) by {
            if j > 0 {
                assert(rest[j - 1] == dirs[j]);
            }
        }
    }
}

/// Where no directory of `PATH` holds the tool and the variable named after
/// it is not set, nothing is found.
pub proof fn lemma_nothing_to_find(env: EnvironmentView, files: Set<Seq<char>>, exec: Seq<char>)
    requires
        none_holds_before(
            env.platform,
            files,
            search_directories(env),
            exec,
            search_directories(env).len() as int,
        ),
        !env.variables.contains_key(ascii_uppercase(exec)),
    ensures
        resolve(env, files, exec) is None,
{
    let dirs = search_directories(env);
    lemma_empty_directories_skipped(env.platform, files, dirs, exec, dirs.len() as int);
}

/// The earliest directory of `PATH` that holds the tool decides the result,
/// whatever the later directories hold and whatever the tool's variable
/// says.
pub proof fn lemma_earliest_directory_wins(
    env: EnvironmentView,
    files: Set<Seq<char>>,
    exec: Seq<char>,
    i: int,
)
    requires
        0 <= i < search_directories(env).len(),
        none_holds_before(env.platform, files, search_directories(env), exec, i),
        directory_holds(env.platform, files, search_directories(env)[i], exec),
    ensures
        path_probe(env, files, exec) is Some,
        path_probe(env, files, exec) == probe_in(
            env.platform,
            files,
            search_directories(env)[i],
            exec,
        ),
        resolve(env, files, exec) == path_probe(env, files, exec),
        resolve_with_cargo_home(env, files, exec) == path_probe(env, files, exec),
{
    let dirs = search_directories(env);
    lemma_empty_directories_skipped(env.platform, files, dirs, exec, i);
    lemma_probe_in_finds_what_is_held(env.platform, files, dirs[i], exec);
    assert(dirs.skip(i).first() == dirs[i]);
}

/// Where a directory of `PATH` with the name `dir` holds a regular file
/// named `exec`, and no earlier directory holds the tool, the search yields
/// that file.
pub proof fn lemma_file_in_directory_found(
    env: EnvironmentView,
    files: Set<Seq<char>>,
    exec: Seq<char>,
    i: int,
    dir: Seq<char>,
)
    requires
        0 <= i < search_directories(env).len(),
        text_of(search_directories(env)[i]) == Some(dir),
        files.contains(path_join(dir, exec)),
        none_holds_before(env.platform, files, search_directories(env), exec, i),
    ensures
        resolve(env, files, exec) == Some(path_join(dir, exec)),
{
    lemma_probe_prefers_plain_path(env.platform, files, path_join(dir, exec));
    lemma_earliest_directory_wins(env, files, exec, i);
}

/// Where no directory of `PATH` holds the tool and the variable named after
/// it is set to `value`, the search yields `value` itself, whether or not a
/// file is there.
pub proof fn lemma_override_taken_at_its_word(
    env: EnvironmentView,
    files: Set<Seq<char>>,
    exec: Seq<char>,
    value: Seq<char>,
)
    requires
        none_holds_before(
            env.platform,
            files,
            search_directories(env),
            exec,
            search_directories(env).len() as int,
        ),
        env.variables.contains_key(ascii_uppercase(exec)),
        env.variables[ascii_uppercase(exec)] == encode_utf8(value),
    ensures
        resolve(env, files, exec) == Some(value),
{
    let dirs = search_directories(env);
    lemma_empty_directories_skipped(env.platform, files, dirs, exec, dirs.len() as int);
    lemma_text_of_encoded(value);
}

/// A match in `PATH` takes precedence over the tool's variable and over the
/// cargo home.
pub proof fn lemma_path_takes_precedence(
    env: EnvironmentView,
    files: Set<Seq<char>>,
    exec: Seq<char>,
)
    requires
        path_probe(env, files, exec) is Some,
    ensures
        resolve(env, files, exec) == path_probe(env, files, exec),
        resolve_with_cargo_home(env, files, exec) == path_probe(env, files, exec),
{
}

/// The tool's variable takes precedence over the cargo home.
pub proof fn lemma_override_precedes_cargo_home(
    env: EnvironmentView,
    files: Set<Seq<char>>,
    exec: Seq<char>,
)
    requires
        path_probe(env, files, exec) is None,
        env_override(env, exec) is Some,
    ensures
        resolve_with_cargo_home(env, files, exec) == env_override(env, exec),
{
}

/// Where neither `PATH` nor the tool's variable gives a result and
/// `CARGO_HOME` is set to `home`, a regular file named `exec` in the `bin`
/// directory of `home` is the result.
pub proof fn lemma_cargo_home_searched_last(
    env: EnvironmentView,
    files: Set<Seq<char>>,
    exec: Seq<char>,
    home: Seq<char>,
)
    requires
        none_holds_before(
            env.platform,
            files,
            search_directories(env),
            exec,
            search_directories(env).len() as int,
        ),
        env_override(env, exec) is None,
        env.variables.contains_key("CARGO_HOME"@),
        env.variables["CARGO_HOME"@] == encode_utf8(home),
        files.contains(path_join(path_join(home, "bin"@), exec)),
    ensures
        resolve_with_cargo_home(env, files, exec) == Some(path_join(path_join(home, "bin"@), exec)),
{
    let dirs = search_directories(env);
    lemma_empty_directories_skipped(env.platform, files, dirs, exec, dirs.len() as int);
    lemma_text_of_encoded(home);
    lemma_probe_prefers_plain_path(env.platform, files, path_join(path_join(home, "bin"@), exec));
}

/// Where `CARGO_HOME` gives no usable path, the cargo home is the directory
/// `.cargo` in the user's home.
pub proof fn lemma_cargo_home_defaults_to_user_home(env: EnvironmentView, home: Seq<char>)
    requires
        variable_text(env, "CARGO_HOME"@) is None,
        env.home_dir == Some(encode_utf8(home)),
    ensures
        cargo_home(env) == Some(path_join(home, ".cargo"@)),
{
    lemma_text_of_encoded(home);
}

/// Two snapshots with the same content give the same results, however each
/// was put together: a search repeated in an unchanged world finds what it
/// found before.
pub proof fn lemma_search_repeatable(
    env: Environment,
    again: Environment,
    files: Files,
    files_again: Files,
    exec: Seq<char>,
    path: Seq<char>,
)
    requires
        env@ == again@,
        files@ == files_again@,
    ensures
        probe(env@.platform, files@, path) == probe(again@.platform, files_again@, path),
        path_probe(env@, files@, exec) == path_probe(again@, files_again@, exec),
        env_override(env@, exec) == env_override(again@, exec),
        home_fallback(env@, files@, exec) == home_fallback(again@, files_again@, exec),
        resolve(env@, files@, exec) == resolve(again@, files_again@, exec),
        resolve_with_cargo_home(env@, files@, exec) == resolve_with_cargo_home(
            again@,
            files_again@,
            exec,
        ),
{
}

/// Probing directories one by one finds the first regular file among all
/// the paths that the directories give, taken in order.
pub proof fn lemma_directories_probed_in_order(
    platform: PlatformView,
    files: Set<Seq<char>>,
    dirs: Seq<Seq<u8>>,
    exec: Seq<char>,
)
    ensures
        probe_directories(platform, files, dirs, exec) == first_regular_file(
            files,
            directory_candidates(platform, dirs, exec),
        ),
    decreases dirs.len(),
{
    if dirs.len() > 0 {
        let first = match text_of(dirs.first()) {
            Some(dir) => probe_candidates(platform, path_join(dir, exec)),
            None => Seq::empty(),
        };
        lemma_directories_probed_in_order(platform, files, dirs.drop_first(), exec);
        lemma_first_file_in_turn(
            files,
            first,
            directory_candidates(platform, dirs.drop_first(), exec),
        );
    }
}

/// A search depends on the files only through the paths that `candidates`
/// lists: two snapshots that agree on them give the same results.
pub proof fn lemma_search_reads_candidates_only(
    env: EnvironmentView,
    files: Set<Seq<char>>,
    other: Set<Seq<char>>,
    exec: Seq<char>,
)
    requires
        agree_on(files, other, search_candidates(env, exec)),
    ensures
        path_probe(env, files, exec) == path_probe(env, other, exec),
        home_fallback(env, files, exec) == home_fallback(env, other, exec),
        resolve(env, files, exec) == resolve(env, other, exec),
        resolve_with_cargo_home(env, files, exec) == resolve_with_cargo_home(env, other, exec),
{
    let in_path = directory_candidates(env.platform, search_directories(env), exec);
    let in_home = home_candidates(env, exec);
    let all = search_candidates(env, exec);
    assert forall|k: int| 0 <= k < in_path.len() implies (files.contains(#[trigger] in_path[k])
        <==> other.contains(in_path[k])) by {
        assert(all[k] == in_path[k]);
    }
    assert forall|k: int| 0 <= k < in_home.len() implies (files.contains(#[trigger] in_home[k])
        <==> other.contains(in_home[k])) by {
        assert(all[in_path.len() + k] == in_home[k]);
    }
    lemma_directories_probed_in_order(env.platform, files, search_directories(env), exec);
    lemma_directories_probed_in_order(env.platform, other, search_directories(env), exec);
    lemma_first_file_local(files, other, in_path);
    lemma_first_file_local(files, other, in_home);
}

/// A result is never made up: it is the value of the tool's variable, or
/// one of the paths that `candidates` lists and a regular file.
pub proof fn lemma_result_pinned_or_tested(
    env: EnvironmentView,
    files: Set<Seq<char>>,
    exec: Seq<char>,
)
    ensures
        resolve_with_cargo_home(env, files, exec) matches Some(found) ==> env_override(env, exec)
            == Some(found) || (files.contains(found) && search_candidates(env, exec).contains(
            found,
        )),
        resolve(env, files, exec) matches Some(found) ==> env_override(env, exec) == Some(found)
            || (files.contains(found) && search_candidates(env, exec).contains(found)),
        path_probe(env, files, exec) matches Some(found) ==> files.contains(found)
            && search_candidates(env, exec).contains(found),
        home_fallback(env, files, exec) matches Some(found) ==> files.contains(found)
            && search_candidates(env, exec).contains(found),
{
    let in_path = directory_candidates(env.platform, search_directories(env), exec);
    let in_home = home_candidates(env, exec);
    let all = search_candidates(env, exec);
    lemma_directories_probed_in_order(env.platform, files, search_directories(env), exec);
    lemma_first_file_sound(files, in_path);
    lemma_first_file_sound(files, in_home);
    if let Some(found) = path_probe(env, files, exec) {
        let k: int = choose|k: int| 0 <= k < in_path.len() && in_path[k] == found;
        assert(all[k] == found);
    }
    if let Some(found) = home_fallback(env, files, exec) {
        let k: int = choose|k: int| 0 <= k < in_home.len() && in_home[k] == found;
        assert(all[in_path.len() + k] == found);
    }
}

} // verus!
