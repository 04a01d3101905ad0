//! The errors of a run, and their messages.

use crate::arithmetic::BinaryOp;
use crate::arithmetic::OperationError;
use crate::arithmetic::ValueKind;
use crate::text::decimal;
use crate::text::decimal_text;
use vstd::prelude::*;

verus! {

/// A half-open range `[start, end)` of positions in the program text.
#[derive(Clone, Copy, Debug, PartialEq, Eq, Structural)]
pub struct Span {
    pub start: usize,
    pub end: usize,
}

impl Span {
    /// The range from `start` up to `end`.
    pub fn new(start: usize, end: usize) -> (span: Span)
        ensures
            span.start == start,
            span.end == end,
    {
        Span { start, end }
    }
}

/// Why an instruction or one of its operands cannot be fetched.
#[derive(Clone, Copy, Debug, PartialEq, Eq, Structural)]
pub enum FetchError {
    /// A primitive stands where an opcode is due.
    ExpectedOpcode,
    /// An opcode stands where a primitive is due.
    ExpectedPrimitive,
    /// The stack holds fewer values than the instruction takes.
    StackUnderflow,
    /// A position lies beyond the end of the table that it indexes.
    OutOfRange,
}

/// A part of the program text that an error points to.
#[derive(Debug, PartialEq, Eq)]
pub struct Label {
    pub message: String,
    pub primary: bool,
    pub span: Span,
}

/// The failure of a function call.
#[derive(Debug, PartialEq, Eq)]
pub struct CallError {
    pub message: String,
    pub labels: Vec<Label>,
    pub notes: Vec<String>,
}

/// What ends a run without a value, or waits in the error register.
#[derive(Debug, PartialEq, Eq)]
pub enum ExpressionError {
    /// The program asked to stop.
    Abort { span: Span },
    /// The bytecode is malformed.
    Fetch(FetchError),
    /// An operation has no result on its operands.
    Operation(OperationError),
    /// A function call failed.
    Call(CallError),
    /// The event could not be read or written.
    Host(String),
}

/// What a [`Label`] stands for.
pub struct LabelView {
    pub message: Seq<char>,
    pub primary: bool,
    pub span: Span,
}

impl View for Label {
    type V = LabelView;

    open spec fn view(&self) -> LabelView {
        LabelView { message: self.message@, primary: self.primary, span: self.span }
    }
}

/// What a sequence of labels stands for.
pub open spec fn label_views(labels: Seq<Label>) -> Seq<LabelView> {
    Seq::new(labels.len(), |i: int| labels[i]@)
}

/// What a [`CallError`] stands for.
pub struct CallErrorView {
    pub message: Seq<char>,
    pub labels: Seq<LabelView>,
    pub notes: Seq<Seq<char>>,
}

impl View for CallError {
    type V = CallErrorView;

    open spec fn view(&self) -> CallErrorView {
        CallErrorView {
            message: self.message@,
            labels: label_views(self.labels@),
            notes: crate::path::texts(self.notes@),
        }
    }
}

impl CallErrorView {
    /// The same failure, with the function and the place of the call put in
    /// front of its message.
    pub open spec fn annotated(self, identifier: Seq<char>, span: Span) -> CallErrorView {
        CallErrorView { message: call_text(identifier, span, self.message), ..self }
    }
}

/// What an [`ExpressionError`] stands for.
pub enum ErrorView {
    Abort { span: Span },
    Fetch(FetchError),
    Operation(OperationError),
    Call(CallErrorView),
    Host(Seq<char>),
}

impl View for ExpressionError {
    type V = ErrorView;

    open spec fn view(&self) -> ErrorView {
        match self {
            ExpressionError::Abort { span } => ErrorView::Abort { span: *span },
            ExpressionError::Fetch(error) => ErrorView::Fetch(*error),
            ExpressionError::Operation(error) => ErrorView::Operation(*error),
            ExpressionError::Call(error) => ErrorView::Call(error@),
            ExpressionError::Host(message) => ErrorView::Host(message@),
        }
    }
}

/// The name of a kind of value.
pub open spec fn kind_text(kind: ValueKind) -> Seq<char> {
    match kind {
        ValueKind::Bytes => "string"@,
        ValueKind::Integer => "integer"@,
        ValueKind::Float => "float"@,
        ValueKind::Boolean => "boolean"@,
        ValueKind::Object => "object"@,
        ValueKind::Array => "array"@,
        ValueKind::Timestamp => "timestamp"@,
        ValueKind::Regex => "regex"@,
        ValueKind::Null => "null"@,
    }
}

/// How the message on an unsupported operation begins.
pub open spec fn opening(op: BinaryOp) -> Seq<char> {
    match op {
        BinaryOp::Add => "can't add type "@,
        BinaryOp::Subtract => "can't subtract type "@,
        BinaryOp::Multiply => "can't multiply type "@,
        BinaryOp::Divide => "can't divide type "@,
        BinaryOp::Rem => "can't calculate remainder of type "@,
        BinaryOp::Merge => "can't merge type "@,
        _ => "can't compare "@,
    }
}

/// What stands between the two kinds in the message on an unsupported
/// operation.
pub open spec fn joint(op: BinaryOp) -> Seq<char> {
    match op {
        BinaryOp::Add => " to "@,
        BinaryOp::Subtract => " from "@,
        BinaryOp::Multiply => " by "@,
        BinaryOp::Divide => " by "@,
        BinaryOp::Rem => " and "@,
        BinaryOp::Merge => " into "@,
        BinaryOp::Greater => " > "@,
        BinaryOp::GreaterEqual => " >= "@,
        BinaryOp::Less => " < "@,
        BinaryOp::LessEqual => " <= "@,
    }
}

/// Whether the message on an unsupported operation names the right operand
/// first.
pub open spec fn right_first(op: BinaryOp) -> bool {
    op == BinaryOp::Add || op == BinaryOp::Subtract || op == BinaryOp::Merge
}

/// The message of an operation error.
pub open spec fn operation_text(error: OperationError) -> Seq<char> {
    match error {
        OperationError::Unsupported(op, lhs, rhs) => if right_first(op) {
            opening(op) + kind_text(rhs) + joint(op) + kind_text(lhs)
        } else {
            opening(op) + kind_text(lhs) + joint(op) + kind_text(rhs)
        },
        OperationError::DivideByZero => "can't divide by zero"@,
        OperationError::NegatingNothing => "Negating nothing"@,
        OperationError::NegatingNonNumber => "Negating non number"@,
        OperationError::NottingNothing => "Notting nothing"@,
        OperationError::NottingNonBoolean => "Notting non boolean"@,
        OperationError::Expected(expected, got) => "expected "@ + kind_text(expected) + ", got "@
            + kind_text(got),
    }
}

/// The message of a fetch error.
pub open spec fn fetch_text(error: FetchError) -> Seq<char> {
    match error {
        FetchError::ExpectedOpcode => "expecting opcode"@,
        FetchError::ExpectedPrimitive => "expecting primitive"@,
        FetchError::StackUnderflow => "stack underflow"@,
        FetchError::OutOfRange => "slot out of range"@,
    }
}

/// The message of a failed call, with the function and the place of the call
/// in front of what the function said.
pub open spec fn call_text(identifier: Seq<char>, span: Span, message: Seq<char>) -> Seq<char> {
    "function call error for \""@ + identifier + "\" at ("@ + decimal_text(span.start as nat)
        + ":"@ + decimal_text(span.end as nat) + "): "@ + message
}

impl ErrorView {
    /// The message of the error.
    pub open spec fn message(self) -> Seq<char> {
        match self {
            ErrorView::Abort { .. } => "aborted"@,
            ErrorView::Fetch(error) => fetch_text(error),
            ErrorView::Operation(error) => operation_text(error),
            ErrorView::Call(error) => error.message,
            ErrorView::Host(message) => message,
        }
    }
}

/// The message of an operation error is not empty.
pub proof fn lemma_operation_text_not_empty(error: OperationError)
    ensures
        operation_text(error).len() > 0,
{
    reveal_strlit("can't add type ");
    reveal_strlit("can't subtract type ");
    reveal_strlit("can't multiply type ");
    reveal_strlit("can't divide type ");
    reveal_strlit("can't calculate remainder of type ");
    reveal_strlit("can't merge type ");
    reveal_strlit("can't compare ");
    reveal_strlit("can't divide by zero");
    reveal_strlit("Negating nothing");
    reveal_strlit("Negating non number");
    reveal_strlit("Notting nothing");
    reveal_strlit("Notting non boolean");
    reveal_strlit("expected ");
}

/// The message of a failed call is not empty.
pub proof fn lemma_call_text_not_empty(identifier: Seq<char>, span: Span, message: Seq<char>)
    ensures
        call_text(identifier, span, message).len() > 0,
{
    reveal_strlit("function call error for \"");
}

/// The name of a kind of value.
pub fn kind_name(kind: ValueKind) -> (name: &'static str)
    ensures
        name@ == kind_text(kind),
{
    match kind {
        ValueKind::Bytes => "string",
        ValueKind::Integer => "integer",
        ValueKind::Float => "float",
        ValueKind::Boolean => "boolean",
        ValueKind::Object => "object",
        ValueKind::Array => "array",
        ValueKind::Timestamp => "timestamp",
        ValueKind::Regex => "regex",
        ValueKind::Null => "null",
    }
}

/// How the message on an unsupported operation begins.
fn opening_of(op: BinaryOp) -> (text: &'static str)
    ensures
        text@ == opening(op),
{
    match op {
        BinaryOp::Add => "can't add type ",
        BinaryOp::Subtract => "can't subtract type ",
        BinaryOp::Multiply => "can't multiply type ",
        BinaryOp::Divide => "can't divide type ",
        BinaryOp::Rem => "can't calculate remainder of type ",
        BinaryOp::Merge => "can't merge type ",
        _ => "can't compare ",
    }
}

/// What stands between the two kinds.
fn joint_of(op: BinaryOp) -> (text: &'static str)
    ensures
        text@ == joint(op),
{
    match op {
        BinaryOp::Add => " to ",
        BinaryOp::Subtract => " from ",
        BinaryOp::Multiply => " by ",
        BinaryOp::Divide => " by ",
        BinaryOp::Rem => " and ",
        BinaryOp::Merge => " into ",
        BinaryOp::Greater => " > ",
        BinaryOp::GreaterEqual => " >= ",
        BinaryOp::Less => " < ",
        BinaryOp::LessEqual => " <= ",
    }
}

impl OperationError {
    /// The message of the error.
    pub fn message(&self) -> (text: String)
        ensures
            text@ == operation_text(*self),
    {
        match self {
            OperationError::Unsupported(op, lhs, rhs) => {
                let right_first = matches!(op, BinaryOp::Add | BinaryOp::Subtract | BinaryOp::Merge);
                let (first, second) = if right_first {
                    (*rhs, *lhs)
                } else {
                    (*lhs, *rhs)
                };
                let mut text = String::from_str(opening_of(*op));
                text.append(kind_name(first));
                text.append(joint_of(*op));
                text.append(kind_name(second));
                text
            },
            OperationError::DivideByZero => String::from_str("can't divide by zero"),
            OperationError::NegatingNothing => String::from_str("Negating nothing"),
            OperationError::NegatingNonNumber => String::from_str("Negating non number"),
            OperationError::NottingNothing => String::from_str("Notting nothing"),
            OperationError::NottingNonBoolean => String::from_str("Notting non boolean"),
            OperationError::Expected(expected, got) => {
                let mut text = String::from_str("expected ");
                text.append(kind_name(*expected));
                text.append(", got ");
                text.append(kind_name(*got));
                text
            },
        }
    }
}

impl FetchError {
    /// The message of the error.
    pub fn message(&self) -> (text: String)
        ensures
            text@ == fetch_text(*self),
    {
        match self {
            FetchError::ExpectedOpcode => String::from_str("expecting opcode"),
            FetchError::ExpectedPrimitive => String::from_str("expecting primitive"),
            FetchError::StackUnderflow => String::from_str("stack underflow"),
            FetchError::OutOfRange => String::from_str("slot out of range"),
        }
    }
}

impl CallError {
    /// A failure that says `message` and no more.
    pub fn new(message: &str) -> (error: CallError)
        ensures
            error@ == (CallErrorView {
                message: message@,
                labels: Seq::empty(),
                notes: Seq::empty(),
            }),
    {
        let error = CallError {
            message: String::from_str(message),
            labels: Vec::new(),
            notes: Vec::new(),
        };
        assert(error@.labels =~= Seq::empty());
        assert(error@.notes =~= Seq::empty());
        error
    }

    /// The same failure, with the function and the place of the call put in
    /// front of its message.
    pub fn annotate(self, identifier: &str, span: Span) -> (error: CallError)
        ensures
            error@ == self@.annotated(identifier@, span),
    {
        let mut text = String::from_str("function call error for \"");
        text.append(identifier);
        text.append("\" at (");
        let start = decimal(span.start);
        text.append(start.as_str());
        text.append(":");
        let end = decimal(span.end);
        text.append(end.as_str());
        text.append("): ");
        text.append(self.message.as_str());
        CallError { message: text, labels: self.labels, notes: self.notes }
    }
}

impl ExpressionError {
    /// The message of the error.
    pub fn message(&self) -> (text: String)
        ensures
            text@ == self@.message(),
    {
        match self {
            ExpressionError::Abort { .. } => String::from_str("aborted"),
            ExpressionError::Fetch(error) => error.message(),
            ExpressionError::Operation(error) => error.message(),
            ExpressionError::Call(error) => error.message.clone(),
            ExpressionError::Host(message) => message.clone(),
        }
    }
}

} // verus!
