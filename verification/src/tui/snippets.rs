//! Code snippets for the syntax highlighting preview.

pub mod sample;

use vstd::prelude::*;

verus! {

/// A sample program shown in the code preview.
pub struct CodeSnippet {
    /// File extension that selects the syntax
    pub extension: &'static str,
    /// Name of the language shown in the title
    pub display_name: &'static str,
    /// The program text
    pub code: &'static str,
}

} // verus!
