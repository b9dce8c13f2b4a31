//! The instruction set and the characters that denote it.

use vstd::prelude::*;

verus! {

/// One instruction of a compiled program.
///
/// The two jump variants carry the absolute index of their partner in the
/// program.
#[derive(Clone, Copy, Debug, PartialEq, Eq, Structural)]
pub enum Instruction {
    /// `>`: move the pointer one cell forward.
    IncrementPointer,
    /// `<`: move the pointer one cell backward.
    DecrementPointer,
    /// `+`: add one to the addressed cell.
    IncreaseValue,
    /// `-`: subtract one from the addressed cell.
    DecreaseValue,
    /// `.`: write the addressed cell to the output.
    Output,
    /// `,`: read one byte of input into the addressed cell.
    Input,
    /// `[`: jump to the given index if the addressed cell is zero.
    JumpAhead(usize),
    /// `]`: jump to the given index if the addressed cell is not zero.
    JumpBack(usize),
}

/// Whether `c` is one of the eight characters that denote an instruction.
pub open spec fn is_significant(c: char) -> bool {
    c == '>' || c == '<' || c == '+' || c == '-' || c == '.' || c == ',' || c == '[' || c == ']'
}

impl Instruction {
    /// Tells whether a character of the source text denotes an instruction.
    /// Every other character is a comment.
    pub fn valid_char(character: &char) -> (valid: bool)
        ensures
            valid == is_significant(*character),
    {
        match *character {
            '>' | '<' | '+' | '-' | '.' | ',' | '[' | ']' => true,
            _ => false,
        }
    }
}

} // verus!
