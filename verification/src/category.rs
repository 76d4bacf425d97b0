use vstd::prelude::*;

verus! {

/// The category code of a character, as assigned by TeX's category table.
#[derive(Debug, PartialEq, Eq, Clone, Copy, Hash, Structural)]
pub enum Category {
    Escape,
    BeginGroup,
    EndGroup,
    MathShift,
    AlignmentTab,
    EndOfLine,
    Parameter,
    Superscript,
    Subscript,
    Ignored,
    Space,
    Letter,
    Other,
    Active,
    Comment,
    Invalid,
}

} // verus!
