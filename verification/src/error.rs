//! The reasons for which a program is refused, and their kinds.

use vstd::prelude::*;

verus! {

/// The class of a diagnostic.
#[derive(Debug, Clone, Copy, PartialEq, Eq, Structural)]
pub enum ErrorKind {
    /// The source text is not laid out in its editable sections.
    Input,
    /// The source text holds something that is no token.
    Lex,
    /// The tokens do not form a program.
    Parse,
    /// The program asks for something that cannot be compiled.
    Semantic,
}

/// Why a compilation stopped.
#[derive(Debug, Clone, Copy, PartialEq, Eq, Structural)]
pub enum CompileError {
    /// The sections of the program do not begin with the six statements of
    /// the header.
    MissingHeader,
    /// The program has not three editable sections between their markers.
    BadSections,
    /// A pattern of the lexer was refused by the pattern engine.
    BadPattern,
    /// The text ended inside a string that spans lines.
    EofInString,
    /// The text ended inside brackets or after a line continuation.
    EofInStatement,
    /// A line is indented less than its block and matches no outer block.
    Unindent,
    /// A string opens with a prefix that belongs to no kind of string.
    BadStringPrefix,
    /// A number is neither decimal nor `0x` hexadecimal, or exceeds 32 bits.
    BadNumber,
    /// A token name that the token vocabulary does not hold.
    UnknownToken,
    /// A token stands where the grammar allows none of its kind.
    UnexpectedToken,
    /// `del` and the other contexts beside load and store.
    UnsupportedContext,
    /// `and` / `or` with other than two operands.
    MalformedBoolOp,
    /// `in` and `not in`.
    UnsupportedComparison,
    /// A built-in called with the wrong number of arguments.
    WrongArgumentCount,
    /// `len` of something that is none of the four arrays.
    LenOfNonArray,
    /// A slice, or an extended slice, where one index is expected.
    UnsupportedSubscript,
    /// The operator `@`.
    UnsupportedOperator,
    /// A dict outside the header.
    UnsupportedDict,
    /// Attribute access.
    UnsupportedAttribute,
    /// A starred expression.
    UnsupportedStarred,
    /// A list.
    UnsupportedList,
    /// A tuple.
    UnsupportedTuple,
    /// `nonlocal`.
    UnsupportedNonlocal,
    /// An assignment to something that is neither a name nor `array[index]`.
    UnsupportedTarget,
    /// All 251 temporaries are live.
    OutOfTemporaries,
    /// A name that no scope defines.
    UnknownVariable,
    /// A name of the symbol table that stands for no memory cell.
    NotAssignable,
    /// `global` names one of the header's constants.
    ReadOnlyGlobal,
    /// `global` names something that the outermost scope does not hold.
    UnknownGlobal,
    /// `break` outside a loop.
    BreakOutsideLoop,
    /// `continue` outside a loop.
    ContinueOutsideLoop,
    /// A counter or an offset of the compiler left 32 bits.
    LimitExceeded,
    /// An array of more than 2^32 cells.
    OversizeArray,
    /// A function body inside a function body met the lifetime pass.
    NestedFunction,
    /// An instruction that only exists before expansion met the backend.
    NotExpanded,
    /// An operand that is no place to store to, or a wrapper around a wrapper.
    BadOperand,
    /// The value would have to travel through the register that addresses
    /// its own target or source.
    RegisterClash,
    /// A stack offset beyond 255.
    OffsetTooLarge,
    /// The bytecode is longer than 65535 bytes.
    CodeTooLong,
    /// A jump to a label that the code does not hold.
    UnknownLabel,
    /// The configuration was finalised before.
    AlreadyFinalised,
}

impl CompileError {
    pub open spec fn spec_kind(self) -> ErrorKind {
        match self {
            CompileError::MissingHeader | CompileError::BadSections => ErrorKind::Input,
            CompileError::BadPattern
            | CompileError::EofInString
            | CompileError::EofInStatement
            | CompileError::Unindent
            | CompileError::BadStringPrefix
            | CompileError::BadNumber
            | CompileError::UnknownToken => ErrorKind::Lex,
            CompileError::UnexpectedToken => ErrorKind::Parse,
            _ => ErrorKind::Semantic,
        }
    }

    /// The class of this diagnostic.
    #[verifier::when_used_as_spec(spec_kind)]
    pub fn kind(self) -> (k: ErrorKind)
        ensures
            k == self.spec_kind(),
    {
        match self {
            CompileError::MissingHeader | CompileError::BadSections => ErrorKind::Input,
            CompileError::BadPattern
            | CompileError::EofInString
            | CompileError::EofInStatement
            | CompileError::Unindent
            | CompileError::BadStringPrefix
            | CompileError::BadNumber
            | CompileError::UnknownToken => ErrorKind::Lex,
            CompileError::UnexpectedToken => ErrorKind::Parse,
            _ => ErrorKind::Semantic,
        }
    }
}

} // verus!
