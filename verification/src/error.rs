use vstd::prelude::*;

verus! {

/// The conditions the simulator can report.
#[derive(Clone, Copy, Debug, PartialEq, Eq, Structural)]
pub enum ErrorKind {
    /// An unrecognized character sequence or a malformed numeric literal.
    LexFailure,
    /// A control transfer to a name that the jump table does not hold.
    UnresolvedLabel,
    /// A mnemonic that is not an instruction for the number of operands given.
    UnknownMnemonic,
    /// An operand that fits none of the addressing modes the instruction accepts.
    InvalidOperand,
    /// `div AB` with a zero divisor.
    DivisionByZero,
    /// A register bank selector outside `0..4`.
    BankOutOfRange,
}

/// A reported condition together with the source position it was found at.
#[derive(Clone, Copy, Debug, PartialEq, Eq, Structural)]
pub struct Diagnostic {
    pub kind: ErrorKind,
    pub pos: usize,
}

} // verus!
