use vstd::prelude::*;
use crate::text::{parse_u32, parse_u32_spec};

verus! {

/// Turns typed text into numbers.
pub struct Converter {}

impl Converter {
    /// A converter.
    pub fn new() -> (c: Self) {
        Converter {}
    }

    /// The number written in `text`, which must be what `str::parse::<u32>`
    /// accepts.
    pub fn integer(text: String) -> (n: u32)
        requires
            parse_u32_spec(text@) is Some,
        ensures
            Some(n) == parse_u32_spec(text@),
    {
        parse_u32(text.as_str()).unwrap()
    }
}

} // verus!
