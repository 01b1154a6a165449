use vstd::prelude::*;

verus! {

/// The operating systems the shell distinguishes between.
#[derive(Clone, Copy, Debug, PartialEq, Eq, Structural)]
pub enum Platform {
    Windows,
    MacOs,
    Linux,
    /// Any other host: no native opener is known there.
    Other,
}

impl Platform {
    /// The separator that paths built on this platform use.
    pub open spec fn separator(self) -> char {
        if self is Windows {
            '\\'
        } else {
            '/'
        }
    }

    /// Whether `c` ends a path component on this platform.
    pub open spec fn is_separator(self, c: char) -> bool {
        c == '/' || (self is Windows && c == '\\')
    }

    pub fn is_windows(&self) -> (r: bool)
        ensures
            r == (*self is Windows),
    {
        match self {
            Platform::Windows => true,
            _ => false,
        }
    }
}

} // verus!
