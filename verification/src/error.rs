use vstd::prelude::*;

use crate::renderer::dom::node::ElementKind;

verus! {

/// What can be wrong with what is read: a page, a style sheet, a script, a
/// value or an address.
#[derive(Debug, Clone, Copy, PartialEq, Eq, Structural)]
pub enum Error {
    /// A tokenizer met a character that it has no rule for.
    UnsupportedInput(char),
    /// An element of this kind had to be closed, and none is open.
    ElementNotOpen(ElementKind),
    /// A number literal does not fit in 64 bits.
    NumberTooLarge,
    /// A value is not one of those that are understood where it stands.
    UnexpectedInput,
}

} // verus!
