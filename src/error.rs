use vstd::prelude::*;
use crate::cell::Inst;

verus! {

/// One of the four registers of the machine.
#[derive(Clone, Copy, Debug, PartialEq, Eq, Structural)]
pub enum Register {
    Stack,
    Env,
    Control,
    Dump,
}

/// What the parser was looking for when it failed.
#[derive(Clone, Copy, Debug, PartialEq, Eq, Structural)]
pub enum Expected {
    Expression,
    Name,
    Number,
    Boolean,
    Character,
    CloseParen,
    EndOfInput,
}

/// Every way in which parsing, compiling or running a program can fail.
#[derive(Debug, PartialEq, Eq)]
pub enum Error {
    /// Malformed source text.
    ParseError { position: usize, expected: Expected },
    /// A form that the compiler cannot lower; `form` names its operator.
    CompileError { form: String },
    /// An opcode received cells of the wrong variants.
    TypeError { op: Inst },
    /// An opcode popped from an empty register (`op` is `None` when the
    /// control register was empty before any opcode was read).
    UnderflowError { op: Option<Inst>, register: Register },
    /// An inline operand, or a cell in opcode position, has the wrong shape.
    MalformedInstruction { op: Option<Inst> },
    /// `LD` addressed beyond the current environment.
    IndexOutOfRange { level: i64, pos: i64 },
    /// Integer division or remainder by zero.
    ArithmeticError,
    /// The driver's step bound was reached.
    StepLimitExceeded,
}

} // verus!
