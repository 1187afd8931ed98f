//! Operations on paths and names that are left to `camino` and to the
//! standard library. Nothing here is proved: each contract records what the
//! called function is documented to do.

use camino::Utf8Path;
use vstd::prelude::*;
use vstd::utf8::*;

verus! {

/// The path that results from adjoining `component` to `base`, by the rules
/// of the platform the crate is built for.
pub uninterp spec fn path_join(base: Seq<char>, component: Seq<char>) -> Seq<char>;

/// The path `path` with its extension replaced by `extension`, or with
/// `extension` added if it had none.
pub uninterp spec fn path_with_extension(path: Seq<char>, extension: Seq<char>) -> Seq<char>;

/// Whether `c` separates the components of a path, on Unix-like or on
/// Windows-like systems.
pub open spec fn is_separator(c: char) -> bool {
    c == '/' || c == '\\'
}

/// Whether `text` is free of path separators.
pub open spec fn separator_free(text: Seq<char>) -> bool {
    forall|i: int| 0 <= i < text.len() ==> !is_separator(#[trigger] text[i])
}

/// The upper-case equivalent of an ASCII lower-case letter; any other
/// character unchanged.
pub open spec fn ascii_upper(c: char) -> char {
    if 'a' <= c && c <= 'z' {
        ((c as u8) - 32) as char
    } else {
        c
    }
}

/// `text` with every character replaced by its `ascii_upper`.
pub open spec fn ascii_uppercase(text: Seq<char>) -> Seq<char> {
    Seq::new(text.len(), |i: int| ascii_upper(text[i]))
}

/// Calls `camino::Utf8Path::join`, which adjoins `component` to `base` as
/// `std::path::Path::join` does. The result is a function of the two texts
/// alone; the contract gives it the name `path_join` and claims nothing more.
#[verifier::external_body]
pub(crate) fn join(base: &str, component: &str) -> (joined: String)
    ensures
        joined@ == path_join(base@, component@),
{
    Utf8Path::new(base).join(component).into_string()
}

/// Calls `camino::Utf8Path::with_extension`, which sets the extension as
/// `std::path::PathBuf::set_extension` does. That function panics when the
/// extension holds a path separator, so such an extension is ruled out. The
/// result is a function of the two texts alone; the contract gives it the
/// name `path_with_extension` and claims nothing more.
#[verifier::external_body]
pub(crate) fn with_extension(path: &str, extension: &str) -> (replaced: String)
    requires
        separator_free(extension@),
    ensures
        replaced@ == path_with_extension(path@, extension@),
{
    Utf8Path::new(path).with_extension(extension).into_string()
}

/// Calls `std::str::from_utf8`, which yields the text that `bytes` encode
/// exactly when they are well-formed UTF-8.
#[verifier::external_body]
pub(crate) fn decode(bytes: &[u8]) -> (text: Option<&str>)
    ensures
        text is Some <==> valid_utf8(bytes@),
        text matches Some(t) ==> t@ == decode_utf8(bytes@),
{
    std::str::from_utf8(bytes).ok()
}

/// `str::to_ascii_uppercase` maps the letters `a` to `z` to `A` to `Z` and
/// leaves every other character as it is.
pub assume_specification[ str::to_ascii_uppercase ](text: &str) -> (upper: String)
    ensures
        upper@ == ascii_uppercase(text@),
;

} // verus!
