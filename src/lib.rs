//! Converts a small block-level subset of Markdown into HTML.
use vstd::prelude::*;

pub mod classify;
pub mod markdown;
pub mod text;

pub use markdown::parse_markdown;

verus! {

} // verus!
