use vstd::prelude::*;

verus! {

/// The closed set of failures an operation of the machine can surface.
///
/// `BadInput` reports the offending byte (as a character) when dispatch
/// reaches a byte outside the eight-instruction alphabet. `InputEOF` is a
/// reserved kind: exhaustion of the input queue writes a zero byte instead
/// of failing, so no operation currently produces it.
#[derive(Debug, Clone, PartialEq, Eq)]
pub enum BrainfuckError {
    BadInput(char),
    NoProgramLoaded,
    MemoryOverflow,
    MemoryUnderflow,
    InputEOF,
    UnmatchedJump,
}

} // verus!
