//! The state of one run.

use crate::context::argument_views;
use crate::context::ArgumentView;
use crate::context::VmArgument;
use crate::error::ErrorView;
use crate::error::ExpressionError;
use crate::error::FetchError;
use crate::machine::Instruction;
use crate::machine::OpCode;
use crate::machine::Program;
use crate::machine::Vm;
use crate::value::views_of_seq;
use crate::value::Value;
use crate::value::ValueView;
use vstd::prelude::*;

verus! {

/// The state of one run of a program: where the run stands, the operand
/// stack, the parameter stack and the error register.
#[verifier::reject_recursive_types(S)]
pub struct VmState<'a, S> {
    /// The program that runs.
    pub vm: &'a Vm<S>,
    /// The position of the next instruction.
    pub instruction_pointer: usize,
    /// The operand stack, with its top at the end.
    pub stack: Vec<Value>,
    /// The arguments gathered for the next call.
    pub parameter_stack: Vec<Option<VmArgument<'a, S>>>,
    /// The error that waits to be handled, if there is one.
    pub error: Option<ExpressionError>,
}

/// What a [`VmState`] stands for.
pub struct StateView<S> {
    pub ip: int,
    pub stack: Seq<ValueView>,
    pub parameters: Seq<ArgumentView<S>>,
    pub error: Option<ErrorView>,
}

/// What the error register stands for.
pub open spec fn register_view(error: Option<ExpressionError>) -> Option<ErrorView> {
    match error {
        Some(error) => Some(error@),
        None => None,
    }
}

impl<'a, S> View for VmState<'a, S> {
    type V = StateView<S>;

    open spec fn view(&self) -> StateView<S> {
        StateView {
            ip: self.instruction_pointer as int,
            stack: views_of_seq(self.stack@),
            parameters: argument_views(self.parameter_stack@),
            error: register_view(self.error),
        }
    }
}

/// The opcode at position `ip`.
pub open spec fn opcode_at(code: Seq<Instruction>, ip: int) -> Result<OpCode, FetchError> {
    if 0 <= ip < code.len() {
        match code[ip] {
            Instruction::OpCode(code) => Ok(code),
            Instruction::Primitive(_) => Err(FetchError::ExpectedOpcode),
        }
    } else {
        Err(FetchError::OutOfRange)
    }
}

/// The primitive at position `ip`.
pub open spec fn primitive_at(code: Seq<Instruction>, ip: int) -> Result<usize, FetchError> {
    if 0 <= ip < code.len() {
        match code[ip] {
            Instruction::Primitive(primitive) => Ok(primitive),
            Instruction::OpCode(_) => Err(FetchError::ExpectedPrimitive),
        }
    } else {
        Err(FetchError::OutOfRange)
    }
}

/// How far a fetch at position `ip` moves the instruction pointer: past the
/// instruction that stands there, whatever it is, and not at all where none
/// stands there.
pub open spec fn moved(code: Seq<Instruction>, ip: int) -> int {
    if 0 <= ip < code.len() {
        1
    } else {
        0
    }
}

impl<S> StateView<S> {
    /// The state at the start of a run.
    pub open spec fn start() -> StateView<S> {
        StateView { ip: 0, stack: Seq::empty(), parameters: Seq::empty(), error: None }
    }

    /// The same state, `n` instructions further on.
    pub open spec fn advance(self, n: int) -> StateView<S> {
        StateView { ip: self.ip + n, ..self }
    }

    /// The same state at position `ip`.
    pub open spec fn at(self, ip: int) -> StateView<S> {
        StateView { ip, ..self }
    }

    /// The same state with `value` on top of the stack.
    pub open spec fn push(self, value: ValueView) -> StateView<S> {
        StateView { stack: self.stack.push(value), ..self }
    }

    /// The same state without the `n` values on top of the stack.
    pub open spec fn pop(self, n: int) -> StateView<S> {
        StateView { stack: self.stack.take(self.stack.len() - n), ..self }
    }

    /// The value `depth` places below the top of the stack.
    pub open spec fn peek(self, depth: int) -> ValueView {
        self.stack[self.stack.len() - 1 - depth]
    }

    /// The same state with this in the error register.
    pub open spec fn with_error(self, error: Option<ErrorView>) -> StateView<S> {
        StateView { error, ..self }
    }

    /// The same state with `argument` on top of the parameter stack.
    pub open spec fn push_parameter(self, argument: ArgumentView<S>) -> StateView<S> {
        StateView { parameters: self.parameters.push(argument), ..self }
    }
}

impl<'a, S> VmState<'a, S> {
    /// The program that runs.
    pub open spec fn program(&self) -> Program<S> {
        self.vm@
    }

    /// The state at the start of a run of `vm`.
    pub fn new(vm: &'a Vm<S>) -> (state: Self)
        ensures
            state@ == StateView::<S>::start(),
            state.vm == vm,
    {
        let state = VmState {
            vm,
            instruction_pointer: 0,
            stack: Vec::new(),
            parameter_stack: Vec::new(),
            error: None,
        };
        assert(state@.stack =~= Seq::empty());
        assert(state@.parameters =~= Seq::empty());
        state
    }

    /// Reads the instruction at the instruction pointer as an opcode and
    /// moves the pointer on. Nothing else of the state changes.
    pub fn next_opcode(&mut self) -> (r: Result<OpCode, ExpressionError>)
        ensures
            final(self).vm == old(self).vm,
            final(self)@ == old(self)@.advance(moved(old(self).program().code, old(self)@.ip)),
            match opcode_at(old(self).program().code, old(self)@.ip) {
                Ok(code) => r matches Ok(read) && read == code && final(self)@ == old(self)@.advance(1),
                Err(error) => r matches Err(e) && e@ == ErrorView::Fetch(error),
            },
    {
        let instructions = self.vm.instructions();
        if self.instruction_pointer >= instructions.len() {
            return Err(ExpressionError::Fetch(FetchError::OutOfRange));
        }
        let instruction = instructions[self.instruction_pointer];
        self.instruction_pointer += 1;
        match instruction {
            Instruction::Primitive(_) => Err(ExpressionError::Fetch(FetchError::ExpectedOpcode)),
            Instruction::OpCode(code) => Ok(code),
        }
    }

    /// Reads the instruction at the instruction pointer as a primitive and
    /// moves the pointer on. Nothing else of the state changes.
    pub fn next_primitive(&mut self) -> (r: Result<usize, ExpressionError>)
        ensures
            final(self).vm == old(self).vm,
            final(self)@ == old(self)@.advance(moved(old(self).program().code, old(self)@.ip)),
            match primitive_at(old(self).program().code, old(self)@.ip) {
                Ok(primitive) => r matches Ok(read) && read == primitive && final(self)@ == old(self)@.advance(1),
                Err(error) => r matches Err(e) && e@ == ErrorView::Fetch(error),
            },
    {
        let instructions = self.vm.instructions();
        if self.instruction_pointer >= instructions.len() {
            return Err(ExpressionError::Fetch(FetchError::OutOfRange));
        }
        let instruction = instructions[self.instruction_pointer];
        self.instruction_pointer += 1;
        match instruction {
            Instruction::Primitive(primitive) => Ok(primitive),
            Instruction::OpCode(_) => Err(ExpressionError::Fetch(FetchError::ExpectedPrimitive)),
        }
    }

    /// Reads the primitive at the instruction pointer as a slot of the
    /// constant pool and returns a copy of the constant there. Nothing of the
    /// state changes but the instruction pointer.
    pub fn read_constant(&mut self) -> (r: Result<Value, ExpressionError>)
        ensures
            final(self).vm == old(self).vm,
            final(self)@ == old(self)@.advance(moved(old(self).program().code, old(self)@.ip)),
            match primitive_at(old(self).program().code, old(self)@.ip) {
                Ok(slot) => if slot < old(self).program().constants.len() {
                    r matches Ok(value) && value@ == old(self).program().constants[slot as int]
                        && final(self)@ == old(self)@.advance(1)
                } else {
                    r matches Err(e) && e@ == ErrorView::Fetch(FetchError::OutOfRange)
                },
                Err(error) => r matches Err(e) && e@ == ErrorView::Fetch(error),
            },
    {
        let slot = self.next_primitive()?;
        match self.vm.constant(slot) {
            Some(value) => Ok(value.clone()),
            None => Err(ExpressionError::Fetch(FetchError::OutOfRange)),
        }
    }

    /// Puts `value` on top of the stack.
    pub fn push_stack(&mut self, value: Value)
        ensures
            final(self).vm == old(self).vm,
            final(self)@ == old(self)@.push(value@),
    {
        self.stack.push(value);
        assert(self@.stack =~= old(self)@.stack.push(value@));
    }

    /// Takes the value on top of the stack.
    pub fn pop_stack(&mut self) -> (r: Result<Value, ExpressionError>)
        ensures
            final(self).vm == old(self).vm,
            match r {
                Ok(value) => old(self)@.stack.len() > 0 && value@ == old(self)@.peek(0) && final(self)@ == old(self)@.pop(1),
                Err(e) => old(self)@.stack.len() == 0 && e@ == ErrorView::Fetch(
                    FetchError::StackUnderflow,
                ) && final(self)@ == old(self)@,
            },
    {
        match self.stack.pop() {
            Some(value) => {
                assert(self@.stack =~= old(self)@.pop(1).stack);
                Ok(value)
            },
            None => Err(ExpressionError::Fetch(FetchError::StackUnderflow)),
        }
    }

    /// The value on top of the stack.
    pub fn peek_stack(&self) -> (r: Result<&Value, ExpressionError>)
        ensures
            match r {
                Ok(value) => self@.stack.len() > 0 && value@ == self@.peek(0),
                Err(e) => self@.stack.len() == 0 && e@ == ErrorView::Fetch(
                    FetchError::StackUnderflow,
                ),
            },
    {
        if self.stack.len() == 0 {
            return Err(ExpressionError::Fetch(FetchError::StackUnderflow));
        }
        Ok(&self.stack[self.stack.len() - 1])
    }
}

} // verus!
