//! Words as falling rigid bodies: a glyph cache with stable entries, the
//! measurement and layout of a word's glyphs, and the toy sentence grammar
//! used to produce demo text.
use vstd::prelude::*;

pub mod glyph;
pub mod grammar;
pub mod word;

verus! {

} // verus!
