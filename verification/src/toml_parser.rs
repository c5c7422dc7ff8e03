//! The typed declaration model and the entry point that callers feed raw
//! configuration text into.

pub mod parsed;

use vstd::prelude::*;

verus! {

/// Holds one configuration file's raw text until it is parsed. The
/// deserialization itself is done by the surrounding application; this type
/// records the text and whether parsing has happened.
pub struct Parser<T> {
    pub raw_content: String,
    pub is_parsed: bool,
    pub type_marker: core::marker::PhantomData<T>,
}

impl<T> Parser<T> {
    pub fn new(raw_content: String) -> (r: Self)
        ensures
            r.raw_content@ == raw_content@,
            !r.is_parsed,
    {
        Parser { raw_content, is_parsed: false, type_marker: core::marker::PhantomData }
    }
}

} // verus!
