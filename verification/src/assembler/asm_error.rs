//! The diagnostics of the lexer and the assembler.
use vstd::prelude::*;

verus! {

/// What is wrong with a line.
#[derive(Debug, Clone, Copy, PartialEq, Eq, Structural)]
pub enum ErrorType {
    /// The line is no instruction, no directive and nothing to skip.
    SyntaxError,
    /// The operands are not those that the instruction or directive takes,
    /// in number or in kind.
    OperandShapeError,
    /// A number or an offset does not fit the field that has to hold it.
    ImmediateRangeError,
    /// A label is referred to and defined nowhere.
    UnresolvedLabelError,
    /// A label is defined a second time.
    DuplicateLabelError,
    /// The source does not start with `.ORIG`, or holds a second one.
    OriginError,
    /// The program does not fit below the top of the address space.
    AddressOverflowError,
    /// The line holds a word that stands for no instruction, register or
    /// value, or an operand without an instruction.
    InvalidTokenError,
}

/// What is said about a line that is neither an instruction nor a directive.
pub const SYNTAX_MESSAGE: &'static str =
    "neither a valid instruction nor a valid directive line was given. perhaps there are too many operands?";

/// What is said about operands of the wrong number or kind.
pub const OPERAND_SHAPE_MESSAGE: &'static str =
    "the operands are not the ones that this instruction or directive takes";

/// What is said about a value that does not fit its field.
pub const IMMEDIATE_RANGE_MESSAGE: &'static str =
    "the value or the distance to the label does not fit the field that holds it";

/// What is said about a label without a definition.
pub const UNRESOLVED_LABEL_MESSAGE: &'static str = "the label is not defined anywhere";

/// What is said about a second definition of a label.
pub const DUPLICATE_LABEL_MESSAGE: &'static str = "the label is defined more than once";

/// What is said about a missing, late or repeated `.ORIG`.
pub const ORIGIN_MESSAGE: &'static str =
    "the program has to start with exactly one .ORIG directive";

/// What is said about a program that runs past the last address.
pub const ADDRESS_OVERFLOW_MESSAGE: &'static str =
    "the program does not fit below the top of the address space";

/// What is said about a word that stands for nothing, or stands alone.
pub const INVALID_TOKEN_MESSAGE: &'static str =
    "this is no instruction, register or value, or it belongs to no instruction";

/// What is said about an error of kind `error_type`.
pub open spec fn message_of(error_type: ErrorType) -> Seq<char> {
    match error_type {
        ErrorType::SyntaxError => SYNTAX_MESSAGE@,
        ErrorType::OperandShapeError => OPERAND_SHAPE_MESSAGE@,
        ErrorType::ImmediateRangeError => IMMEDIATE_RANGE_MESSAGE@,
        ErrorType::UnresolvedLabelError => UNRESOLVED_LABEL_MESSAGE@,
        ErrorType::DuplicateLabelError => DUPLICATE_LABEL_MESSAGE@,
        ErrorType::OriginError => ORIGIN_MESSAGE@,
        ErrorType::AddressOverflowError => ADDRESS_OVERFLOW_MESSAGE@,
        ErrorType::InvalidTokenError => INVALID_TOKEN_MESSAGE@,
    }
}

/// What is said about an error of kind `error_type`.
pub fn message(error_type: ErrorType) -> (text: &'static str)
    ensures
        text@ == message_of(error_type),
{
    match error_type {
        ErrorType::SyntaxError => SYNTAX_MESSAGE,
        ErrorType::OperandShapeError => OPERAND_SHAPE_MESSAGE,
        ErrorType::ImmediateRangeError => IMMEDIATE_RANGE_MESSAGE,
        ErrorType::UnresolvedLabelError => UNRESOLVED_LABEL_MESSAGE,
        ErrorType::DuplicateLabelError => DUPLICATE_LABEL_MESSAGE,
        ErrorType::OriginError => ORIGIN_MESSAGE,
        ErrorType::AddressOverflowError => ADDRESS_OVERFLOW_MESSAGE,
        ErrorType::InvalidTokenError => INVALID_TOKEN_MESSAGE,
    }
}

/// One diagnostic.
#[derive(Debug, Clone, PartialEq, Eq)]
pub struct AsmError {
    /// The text that the diagnostic is about: a line or a word of it.
    pub line: String,
    /// Number of the line, counted from one.
    pub line_num: usize,
    pub error_type: ErrorType,
    /// What is wrong, in words.
    pub message: String,
}

/// The mathematical content of an [`AsmError`].
pub struct AsmErrorView {
    pub line: Seq<char>,
    pub line_num: usize,
    pub error_type: ErrorType,
    pub message: Seq<char>,
}

impl View for AsmError {
    type V = AsmErrorView;

    open spec fn view(&self) -> AsmErrorView {
        AsmErrorView {
            line: self.line@,
            line_num: self.line_num,
            error_type: self.error_type,
            message: self.message@,
        }
    }
}

impl DeepView for AsmError {
    type V = AsmErrorView;

    open spec fn deep_view(&self) -> AsmErrorView {
        self@
    }
}

impl AsmError {
    /// A diagnostic of kind `error_type` about `line`, which is line number
    /// `line_num` of the source.
    pub fn new(line: &str, line_num: usize, error_type: ErrorType, message: &str) -> (error:
        AsmError)
        ensures
            error@ == (AsmErrorView { line: line@, line_num, error_type, message: message@ }),
    {
        AsmError { line: line.to_owned(), line_num, error_type, message: message.to_owned() }
    }

    /// A copy of this diagnostic.
    pub fn duplicate(&self) -> (copy: AsmError)
        ensures
            copy@ == self@,
    {
        AsmError {
            line: self.line.clone(),
            line_num: self.line_num,
            error_type: self.error_type,
            message: self.message.clone(),
        }
    }
}

} // verus!
