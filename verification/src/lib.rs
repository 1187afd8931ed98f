//! Locates a named command-line tool from a snapshot of the process
//! environment and of the files on disk.
//!
//! The search looks in three places, in this order: the directories of
//! `PATH`, a variable named after the tool in upper case, and the `bin`
//! directory of the cargo home. Every function here is a pure function of
//! the snapshots it is given; reading the environment and the disk is left
//! to the caller, who can ask `candidates` beforehand which paths a search
//! may test.

pub mod environment;
pub mod files;
pub mod laws;
pub mod paths;
pub mod platform;
pub mod probe;
pub mod search;
pub mod split;

pub use environment::Environment;
pub use files::Files;
pub use platform::Platform;
pub use probe::probe_for_binary;
pub use search::{
    candidates, find, find_in_cargo_home, find_in_env, find_in_path, find_with_cargo_home,
    get_cargo_home,
};
pub use split::split_paths;
