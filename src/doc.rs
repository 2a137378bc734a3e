use vstd::prelude::*;

verus! {

/// A numeric literal of the document, before any machine type is chosen for it.
///
/// It keeps every reading that the harness may need later: the value as a
/// 64-bit signed integer where the literal has one, the bit pattern of the
/// literal read as a 64-bit float, that float narrowed to 32 bits, and the
/// literal's text for messages.
#[derive(Debug, PartialEq, Eq)]
pub struct Number {
    pub int: Option<i64>,
    pub bits64: u64,
    pub bits32: u32,
    pub text: String,
}

impl Number {
    /// A field-for-field copy.
    pub fn copy(&self) -> (r: Number)
        ensures
            r == *self,
    {
        Number { int: self.int, bits64: self.bits64, bits32: self.bits32, text: self.text.clone() }
    }
}

/// An untyped document tree: mappings, sequences, strings and numbers.
#[derive(Debug)]
pub enum Doc {
    Null,
    Bool(bool),
    Num(Number),
    Text(String),
    Sequence(Vec<Doc>),
    Mapping(Vec<(Doc, Doc)>),
}

} // verus!
