//! The conventions of the platform a search is made for.

use crate::paths::{is_separator, separator_free};
use vstd::prelude::*;

verus! {

/// What a search needs to know of a platform.
pub struct Platform {
    exe_extension: String,
    path_separator: u8,
}

/// The mathematical content of a `Platform`.
pub struct PlatformView {
    /// The extension that executable files conventionally carry, without its
    /// dot; empty where there is no such convention.
    pub exe_extension: Seq<char>,
    /// The byte that separates the directories of a search path.
    pub path_separator: u8,
}

impl View for Platform {
    type V = PlatformView;

    closed spec fn view(&self) -> PlatformView {
        PlatformView { exe_extension: self.exe_extension@, path_separator: self.path_separator }
    }
}

/// Whether `text` holds no path separator.
fn has_no_separator(text: &str) -> (free: bool)
    ensures
        free == separator_free(text@),
{
    let n: usize = text.unicode_len();
    let mut i: usize = 0;
    while i < n
        invariant
            n == text@.len(),
            i <= n,
            forall|j: int| 0 <= j < i ==> !is_separator(#[trigger] text@[j]),
        decreases n - i,
    {
        let c = text.get_char(i);
        if c == '/' || c == '\\' {
            return false;
        }
        i = i + 1;
    }
    true
}

impl Platform {
    #[verifier::type_invariant]
    spec fn well_formed(self) -> bool {
        separator_free(self.exe_extension@)
    }

    /// A platform with the given executable extension and search-path
    /// separator. An extension that holds a path separator names no
    /// extension at all and is refused.
    pub fn new(exe_extension: String, path_separator: u8) -> (platform: Option<Platform>)
        ensures
            platform is Some <==> separator_free(exe_extension@),
            platform matches Some(p) ==> p@ == (PlatformView {
                exe_extension: exe_extension@,
                path_separator,
            }),
    {
        if has_no_separator(exe_extension.as_str()) {
            Some(Platform { exe_extension, path_separator })
        } else {
            None
        }
    }

    /// The conventions of Unix-like systems: no executable extension, and a
    /// colon between the directories of a search path.
    pub fn unix() -> (platform: Platform)
        ensures
            platform@ == (PlatformView {
                exe_extension: Seq::<char>::empty(),
                path_separator: 0x3a,
            }),
    {
        Platform { exe_extension: String::new(), path_separator: 0x3a }
    }

    /// The conventions of Windows-like systems: the extension `exe`, and a
    /// semicolon between the directories of a search path.
    pub fn windows() -> (platform: Platform)
        ensures
            platform@ == (PlatformView { exe_extension: "exe"@, path_separator: 0x3b }),
    {
        proof {
            reveal_strlit("exe");
        }
        Platform { exe_extension: "exe".to_owned(), path_separator: 0x3b }
    }

    /// The extension that executable files conventionally carry.
    pub fn exe_extension(&self) -> (extension: &str)
        ensures
            extension@ == self@.exe_extension,
            separator_free(extension@),
    {
        proof {
            use_type_invariant(self);
        }
        self.exe_extension.as_str()
    }

    /// The byte that separates the directories of a search path.
    pub fn path_separator(&self) -> (separator: u8)
        ensures
            separator == self@.path_separator,
    {
        self.path_separator
    }
}

} // verus!
