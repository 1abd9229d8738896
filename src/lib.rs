//! Composition core of a pinyin input method: syllable segmentation,
//! double-pinyin decoding, dictionary lookup with fuzzy matching, candidate
//! ranking, schema-driven pipeline assembly and the composition state machine.
use vstd::prelude::*;

pub mod types;
pub mod error;
pub mod text;
pub mod candidate;
pub mod segment;
pub mod resource_loader;
pub mod ranker;
pub mod syllable;
pub mod double_pinyin;
pub mod matcher;
pub mod schema;
pub mod composer;




verus! {

/// Version of the library.
pub const VERSION: &'static str = "0.1.0";

} // verus!
