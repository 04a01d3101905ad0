//! What each instruction does: the machine as a function from one state to
//! the next.

use crate::access::fetch;
use crate::access::put;
use crate::arithmetic::evaluate;
use crate::arithmetic::likeness;
use crate::arithmetic::BinaryOp;
use crate::arithmetic::Evaluation;
use crate::arithmetic::Likeness;
use crate::arithmetic::OperationError;
use crate::arithmetic::ValueKind;
use crate::context::ArgumentView;
use crate::error::ErrorView;
use crate::error::FetchError;
use crate::error::Span;
use crate::machine::OpCode;
use crate::machine::Program;
use crate::number::negated;
use crate::state::opcode_at;
use crate::state::primitive_at;
use crate::state::StateView;
use crate::text::lossy_text;
use crate::value::ValueView;
use crate::variable::VariableView;
use vstd::prelude::*;
use vstd::utf8::encode_utf8;

verus! {

/// What one instruction leads to.
pub enum Transition<S> {
    /// The run goes on in this state, with this variable store.
    Next(StateView<S>, Map<Seq<char>, ValueView>),
    /// The run ends with this value.
    Return(ValueView),
    /// The run ends with this error.
    Fail(ErrorView),
    /// The instruction reads or writes the event, calls a function or needs
    /// the float unit: what follows is for them to decide.
    Host,
}

/// The run ends because an instruction or an operand cannot be fetched.
pub open spec fn fetch_fails<S>(error: FetchError) -> Transition<S> {
    Transition::Fail(ErrorView::Fetch(error))
}

/// The run ends because an operation has no result.
pub open spec fn operation_fails<S>(error: OperationError) -> Transition<S> {
    Transition::Fail(ErrorView::Operation(error))
}

/// The variable store after `value` is assigned to `variable`. A local is
/// set, or has the value put at a path inside it. An assignment to the
/// sink or to the stack is dropped. One to the event leaves the store as it
/// is.
pub open spec fn assign(
    store: Map<Seq<char>, ValueView>,
    variable: VariableView,
    value: ValueView,
) -> Map<Seq<char>, ValueView> {
    match variable {
        VariableView::Internal(ident, None) => store.insert(ident, value),
        VariableView::Internal(ident, Some(path)) => store.insert(
            ident,
            put(
                if store.contains_key(ident) {
                    store[ident]
                } else {
                    ValueView::Null
                },
                path,
                value,
            ),
        ),
        _ => store,
    }
}

/// The value of a local, read as a whole or at a path inside it; null where
/// the local is not set or the path leads nowhere.
pub open spec fn read_local(
    store: Map<Seq<char>, ValueView>,
    ident: Seq<char>,
    path: Option<Seq<crate::path::SegmentView>>,
) -> ValueView {
    if store.contains_key(ident) {
        match path {
            Some(path) => fetch(store[ident], path).or_null(),
            None => store[ident],
        }
    } else {
        ValueView::Null
    }
}

/// The operation behind an opcode that works on the two values on top of the
/// stack and heeds the error register.
pub open spec fn guarded(code: OpCode) -> Option<BinaryOp> {
    match code {
        OpCode::Add => Some(BinaryOp::Add),
        OpCode::Subtract => Some(BinaryOp::Subtract),
        OpCode::Multiply => Some(BinaryOp::Multiply),
        OpCode::Divide => Some(BinaryOp::Divide),
        OpCode::Rem => Some(BinaryOp::Rem),
        OpCode::Merge => Some(BinaryOp::Merge),
        OpCode::Greater => Some(BinaryOp::Greater),
        OpCode::GreaterEqual => Some(BinaryOp::GreaterEqual),
        OpCode::Less => Some(BinaryOp::Less),
        OpCode::LessEqual => Some(BinaryOp::LessEqual),
        _ => None,
    }
}

/// A guarded operation. With an error in the register it does nothing. On
/// success it takes its two operands and leaves its result. On failure it
/// leaves the stack as it is and the error in the register.
pub open spec fn binary_step<S>(
    op: BinaryOp,
    state: StateView<S>,
    store: Map<Seq<char>, ValueView>,
) -> Transition<S> {
    if state.error is Some {
        Transition::Next(state, store)
    } else if state.stack.len() < 2 {
        fetch_fails(FetchError::StackUnderflow)
    } else {
        match evaluate(op, state.peek(1), state.peek(0)) {
            Evaluation::Value(value) => Transition::Next(state.pop(2).push(value), store),
            Evaluation::Error(error) => Transition::Next(
                state.with_error(Some(ErrorView::Operation(error))),
                store,
            ),
            Evaluation::Numeric(_, _) => Transition::Host,
        }
    }
}

/// `Equal`, and `NotEqual` where `negate` is set: takes two values and leaves
/// whether they are alike.
pub open spec fn equality_step<S>(
    negate: bool,
    state: StateView<S>,
    store: Map<Seq<char>, ValueView>,
) -> Transition<S> {
    if state.stack.len() < 2 {
        fetch_fails(FetchError::StackUnderflow)
    } else {
        match likeness(state.peek(1), state.peek(0)) {
            Likeness::Known(alike) => Transition::Next(
                state.pop(2).push(ValueView::Boolean(alike != negate)),
                store,
            ),
            Likeness::Numeric(_, _) => Transition::Host,
        }
    }
}

/// `Negate`: turns the sign of the floating-point number on top.
pub open spec fn negate_step<S>(
    state: StateView<S>,
    store: Map<Seq<char>, ValueView>,
) -> Transition<S> {
    if state.stack.len() == 0 {
        operation_fails(OperationError::NegatingNothing)
    } else {
        match state.peek(0) {
            ValueView::Float(bits) => Transition::Next(
                state.pop(1).push(ValueView::Float(negated(bits))),
                store,
            ),
            _ => operation_fails(OperationError::NegatingNonNumber),
        }
    }
}

/// `Not`: inverts the boolean on top.
pub open spec fn not_step<S>(
    state: StateView<S>,
    store: Map<Seq<char>, ValueView>,
) -> Transition<S> {
    if state.stack.len() == 0 {
        operation_fails(OperationError::NottingNothing)
    } else {
        match state.peek(0) {
            ValueView::Boolean(b) => Transition::Next(
                state.pop(1).push(ValueView::Boolean(!b)),
                store,
            ),
            _ => operation_fails(OperationError::NottingNonBoolean),
        }
    }
}

/// `Constant`: puts a copy of the constant in the given slot on the stack.
pub open spec fn constant_step<S>(
    program: Program<S>,
    state: StateView<S>,
    store: Map<Seq<char>, ValueView>,
) -> Transition<S> {
    match primitive_at(program.code, state.ip) {
        Err(error) => fetch_fails(error),
        Ok(slot) => if slot < program.constants.len() {
            Transition::Next(state.advance(1).push(program.constants[slot as int]), store)
        } else {
            fetch_fails(FetchError::OutOfRange)
        },
    }
}

/// The run goes on at `target`. A target past the end of the program is one
/// from which nothing can be fetched.
pub open spec fn jump_to<S>(
    program: Program<S>,
    state: StateView<S>,
    store: Map<Seq<char>, ValueView>,
    target: int,
) -> Transition<S> {
    if target <= program.code.len() {
        Transition::Next(state.at(target), store)
    } else {
        fetch_fails(FetchError::OutOfRange)
    }
}

/// Whether a jump is taken.
pub enum Taken {
    /// It is.
    Yes,
    /// It is not.
    No,
    /// The jump looks at the top of a stack that is empty.
    Underflow,
}

/// Whether the jump `code` is taken in `state`.
pub open spec fn taken<S>(code: OpCode, state: StateView<S>) -> Taken {
    match code {
        OpCode::JumpIfFalse => if state.stack.len() == 0 {
            Taken::Underflow
        } else if state.peek(0) != ValueView::Boolean(true) {
            Taken::Yes
        } else {
            Taken::No
        },
        OpCode::JumpIfTrue => if state.stack.len() == 0 {
            Taken::Underflow
        } else if state.peek(0) == ValueView::Boolean(true) {
            Taken::Yes
        } else {
            Taken::No
        },
        OpCode::JumpIfNotErr => if state.error is None {
            Taken::Yes
        } else {
            Taken::No
        },
        _ => Taken::Yes,
    }
}

/// A jump: where it is taken, the run goes on as many instructions after the
/// offset as the offset says.
pub open spec fn jump_step<S>(
    code: OpCode,
    program: Program<S>,
    state: StateView<S>,
    store: Map<Seq<char>, ValueView>,
) -> Transition<S> {
    match primitive_at(program.code, state.ip) {
        Err(error) => fetch_fails(error),
        Ok(offset) => match taken(code, state) {
            Taken::Underflow => fetch_fails(FetchError::StackUnderflow),
            Taken::Yes => jump_to(program, state, store, state.ip + 1 + offset),
            Taken::No => Transition::Next(state.advance(1), store),
        },
    }
}

/// The target in the slot that the primitive at `ip` names.
pub open spec fn target_at<S>(program: Program<S>, ip: int) -> Result<VariableView, FetchError> {
    match primitive_at(program.code, ip) {
        Err(error) => Err(error),
        Ok(slot) => if slot < program.targets.len() {
            Ok(program.targets[slot as int])
        } else {
            Err(FetchError::OutOfRange)
        },
    }
}

/// `SetPath`: assigns the value on top of the stack, and leaves it there.
pub open spec fn set_path_step<S>(
    program: Program<S>,
    state: StateView<S>,
    store: Map<Seq<char>, ValueView>,
) -> Transition<S> {
    match target_at(program, state.ip) {
        Err(error) => fetch_fails(error),
        Ok(target) => if state.stack.len() == 0 {
            fetch_fails(FetchError::StackUnderflow)
        } else if target is External {
            Transition::Host
        } else {
            Transition::Next(state.advance(1), assign(store, target, state.peek(0)))
        },
    }
}

/// The byte string that a text is stored as.
pub open spec fn text_value(text: Seq<char>) -> ValueView {
    ValueView::Bytes(encode_utf8(text))
}

/// `SetPathInfallible`: with an error in the register, takes the error out,
/// assigns the default to the first target and the error's message to the
/// second, and leaves the message on the stack. Without one, assigns the
/// value on top of the stack to the first target and null to the second,
/// and leaves the value there.
pub open spec fn set_path_infallible_step<S>(
    program: Program<S>,
    state: StateView<S>,
    store: Map<Seq<char>, ValueView>,
) -> Transition<S> {
    match target_at(program, state.ip) {
        Err(error) => fetch_fails(error),
        Ok(ok) => match target_at(program, state.ip + 1) {
            Err(error) => fetch_fails(error),
            Ok(err) => match primitive_at(program.code, state.ip + 2) {
                Err(error) => fetch_fails(error),
                Ok(slot) => if slot >= program.constants.len() {
                    fetch_fails(FetchError::OutOfRange)
                } else {
                    let default = program.constants[slot as int];
                    match state.error {
                        Some(error) => if ok is External || err is External {
                            Transition::Host
                        } else {
                            let text = text_value(error.message());
                            Transition::Next(
                                state.advance(3).with_error(None).push(text),
                                assign(assign(store, ok, default), err, text),
                            )
                        },
                        None => if state.stack.len() == 0 {
                            fetch_fails(FetchError::StackUnderflow)
                        } else if ok is External || err is External {
                            Transition::Host
                        } else {
                            Transition::Next(
                                state.advance(3),
                                assign(assign(store, ok, state.peek(0)), err, ValueView::Null),
                            )
                        },
                    }
                },
            },
        },
    }
}

/// `GetPath`: puts what the target holds on the stack, and null where it
/// holds nothing.
pub open spec fn get_path_step<S>(
    program: Program<S>,
    state: StateView<S>,
    store: Map<Seq<char>, ValueView>,
) -> Transition<S> {
    match target_at(program, state.ip) {
        Err(error) => fetch_fails(error),
        Ok(target) => match target {
            VariableView::External(_) => Transition::Host,
            VariableView::Internal(ident, path) => Transition::Next(
                state.advance(1).push(read_local(store, ident, path)),
                store,
            ),
            VariableView::Sink => Transition::Next(state.advance(1).push(ValueView::Null), store),
            VariableView::Stack(path) => if state.stack.len() == 0 {
                fetch_fails(FetchError::StackUnderflow)
            } else {
                Transition::Next(
                    state.advance(1).pop(1).push(fetch(state.peek(0), path).or_null()),
                    store,
                )
            },
        },
    }
}

/// `Call`: once the function and the place of the call are read, the rest
/// is for the function to decide.
pub open spec fn call_step<S>(program: Program<S>, state: StateView<S>) -> Transition<S> {
    match primitive_at(program.code, state.ip) {
        Err(error) => fetch_fails(error),
        Ok(function) => match primitive_at(program.code, state.ip + 1) {
            Err(error) => fetch_fails(error),
            Ok(_) => match primitive_at(program.code, state.ip + 2) {
                Err(error) => fetch_fails(error),
                Ok(_) => if function < program.functions.len() {
                    Transition::Host
                } else {
                    fetch_fails(FetchError::OutOfRange)
                },
            },
        },
    }
}

/// `CreateArray`: takes as many values as the primitive says and leaves an
/// array of them, the one pushed first in front.
pub open spec fn create_array_step<S>(
    program: Program<S>,
    state: StateView<S>,
    store: Map<Seq<char>, ValueView>,
) -> Transition<S> {
    match primitive_at(program.code, state.ip) {
        Err(error) => fetch_fails(error),
        Ok(count) => if state.stack.len() < count {
            fetch_fails(FetchError::StackUnderflow)
        } else {
            Transition::Next(
                state.advance(1).pop(count as int).push(
                    ValueView::Array(
                        state.stack.subrange(
                            state.stack.len() - count,
                            state.stack.len() as int,
                        ),
                    ),
                ),
                store,
            )
        },
    }
}

/// What comes of gathering pairs from a stack.
pub enum Gathered {
    /// The stack holds fewer values than the pairs take.
    Underflow,
    /// A key is of this kind, and no byte string.
    BadKey(ValueKind),
    /// These fields.
    Fields(Map<Seq<char>, ValueView>),
}

/// `fields` with `key` bound to `value`, where the key is not bound yet.
pub open spec fn bind_new(
    fields: Map<Seq<char>, ValueView>,
    key: Seq<char>,
    value: ValueView,
) -> Map<Seq<char>, ValueView> {
    if fields.contains_key(key) {
        fields
    } else {
        fields.insert(key, value)
    }
}

/// The fields made of the `count` pairs on top of `stack`, added to
/// `fields`. Each pair has its value on top and its key below. The pairs
/// are taken from the top down, and a key that is bound already keeps its
/// value: of two pairs with one key, the one that was pushed last stays.
pub open spec fn gather(stack: Seq<ValueView>, count: nat, fields: Map<Seq<char>, ValueView>)
    -> Gathered
    decreases count,
{
    if count == 0 {
        Gathered::Fields(fields)
    } else if stack.len() < 2 {
        Gathered::Underflow
    } else {
        match stack[stack.len() - 2] {
            ValueView::Bytes(key) => gather(
                stack.take(stack.len() - 2),
                (count - 1) as nat,
                bind_new(fields, lossy_text(key), stack[stack.len() - 1]),
            ),
            other => Gathered::BadKey(other.kind()),
        }
    }
}

/// What is bound before pairs are gathered stays bound to the same value.
pub proof fn lemma_gather_keeps_bindings(
    stack: Seq<ValueView>,
    count: nat,
    fields: Map<Seq<char>, ValueView>,
    key: Seq<char>,
)
    requires
        fields.contains_key(key),
        gather(stack, count, fields) is Fields,
    ensures
        gather(stack, count, fields)->Fields_0.contains_key(key),
        gather(stack, count, fields)->Fields_0[key] == fields[key],
    decreases count,
{
    if count > 0 {
        let text = lossy_text(stack[stack.len() - 2]->Bytes_0);
        lemma_gather_keeps_bindings(
            stack.take(stack.len() - 2),
            (count - 1) as nat,
            bind_new(fields, text, stack[stack.len() - 1]),
            key,
        );
    }
}

/// Of the pairs that make an object, the one pushed last has its value in
/// the object, whatever pairs with the same key lie below it.
pub proof fn lemma_last_pushed_pair_stays(stack: Seq<ValueView>, count: nat)
    requires
        count > 0,
        gather(stack, count, Map::empty()) is Fields,
    ensures
        stack.len() >= 2,
        stack[stack.len() - 2] is Bytes,
        gather(stack, count, Map::empty())->Fields_0[lossy_text(
            stack[stack.len() - 2]->Bytes_0,
        )] == stack[stack.len() - 1],
{
    let text = lossy_text(stack[stack.len() - 2]->Bytes_0);
    lemma_gather_keeps_bindings(
        stack.take(stack.len() - 2),
        (count - 1) as nat,
        bind_new(Map::empty(), text, stack[stack.len() - 1]),
        text,
    );
}

/// `CreateObject`: takes as many pairs as the primitive says and leaves an
/// object of them. Where a key comes more than once, the pair that was
/// pushed last is the one in the object.
pub open spec fn create_object_step<S>(
    program: Program<S>,
    state: StateView<S>,
    store: Map<Seq<char>, ValueView>,
) -> Transition<S> {
    match primitive_at(program.code, state.ip) {
        Err(error) => fetch_fails(error),
        Ok(count) => match gather(state.stack, count as nat, Map::empty()) {
            Gathered::Underflow => fetch_fails(FetchError::StackUnderflow),
            Gathered::BadKey(kind) => operation_fails(
                OperationError::Expected(ValueKind::Bytes, kind),
            ),
            Gathered::Fields(fields) => Transition::Next(
                state.advance(1).pop(2 * count).push(ValueView::Object(fields)),
                store,
            ),
        },
    }
}

/// `MoveParameter`: moves the value on top of the stack to the parameter
/// stack; with nothing on the stack, the argument is absent.
pub open spec fn move_parameter_step<S>(
    state: StateView<S>,
    store: Map<Seq<char>, ValueView>,
) -> Transition<S> {
    if state.stack.len() == 0 {
        Transition::Next(state.push_parameter(ArgumentView::Absent), store)
    } else {
        Transition::Next(
            state.pop(1).push_parameter(ArgumentView::Value(state.peek(0))),
            store,
        )
    }
}

/// `MoveStatic`: puts the static parameter in the given slot on the parameter
/// stack.
pub open spec fn move_static_step<S>(
    program: Program<S>,
    state: StateView<S>,
    store: Map<Seq<char>, ValueView>,
) -> Transition<S> {
    match primitive_at(program.code, state.ip) {
        Err(error) => fetch_fails(error),
        Ok(slot) => if slot < program.statics.len() {
            Transition::Next(
                state.advance(1).push_parameter(ArgumentView::Any(program.statics[slot as int])),
                store,
            )
        } else {
            fetch_fails(FetchError::OutOfRange)
        },
    }
}

/// `Abort`: ends the run with the span that the two primitives give.
pub open spec fn abort_step<S>(program: Program<S>, state: StateView<S>) -> Transition<S> {
    match primitive_at(program.code, state.ip) {
        Err(error) => fetch_fails(error),
        Ok(start) => match primitive_at(program.code, state.ip + 1) {
            Err(error) => fetch_fails(error),
            Ok(end) => Transition::Fail(ErrorView::Abort { span: Span { start, end } }),
        },
    }
}

/// What `code` does in `state`, the state just after the opcode is read.
pub open spec fn execute<S>(
    code: OpCode,
    program: Program<S>,
    state: StateView<S>,
    store: Map<Seq<char>, ValueView>,
) -> Transition<S> {
    match code {
        OpCode::Abort => abort_step(program, state),
        OpCode::Return => Transition::Return(
            if state.stack.len() > 0 {
                state.peek(0)
            } else {
                ValueView::Null
            },
        ),
        OpCode::Constant => constant_step(program, state, store),
        OpCode::Negate => negate_step(state, store),
        OpCode::Not => not_step(state, store),
        OpCode::NotEqual => equality_step(true, state, store),
        OpCode::Equal => equality_step(false, state, store),
        OpCode::Pop => Transition::Next(
            if state.stack.len() > 0 {
                state.pop(1)
            } else {
                state
            },
            store,
        ),
        OpCode::ClearError => Transition::Next(state.with_error(None), store),
        OpCode::JumpIfFalse => jump_step(code, program, state, store),
        OpCode::JumpIfTrue => jump_step(code, program, state, store),
        OpCode::JumpIfNotErr => jump_step(code, program, state, store),
        OpCode::Jump => jump_step(code, program, state, store),
        OpCode::SetPathInfallible => set_path_infallible_step(program, state, store),
        OpCode::SetPath => set_path_step(program, state, store),
        OpCode::GetPath => get_path_step(program, state, store),
        OpCode::Call => call_step(program, state),
        OpCode::CreateArray => create_array_step(program, state, store),
        OpCode::CreateObject => create_object_step(program, state, store),
        OpCode::EmptyParameter => Transition::Next(
            state.push_parameter(ArgumentView::Absent),
            store,
        ),
        OpCode::MoveParameter => move_parameter_step(state, store),
        OpCode::MoveStatic => move_static_step(program, state, store),
        _ => match guarded(code) {
            Some(op) => binary_step(op, state, store),
            None => Transition::Host,
        },
    }
}

/// What the instruction at the instruction pointer leads to.
pub open spec fn transition<S>(
    program: Program<S>,
    state: StateView<S>,
    store: Map<Seq<char>, ValueView>,
) -> Transition<S> {
    match opcode_at(program.code, state.ip) {
        Err(error) => fetch_fails(error),
        Ok(code) => execute(code, program, state.advance(1), store),
    }
}

/// How a run ends.
pub enum Outcome {
    /// With this value, and this variable store.
    Return(ValueView, Map<Seq<char>, ValueView>),
    /// With this error, and this variable store.
    Fail(ErrorView, Map<Seq<char>, ValueView>),
    /// Left open: the host decides, and what it says is not at hand.
    Host,
}

/// How the run from `state` ends.
pub open spec fn run<S>(
    program: Program<S>,
    state: StateView<S>,
    store: Map<Seq<char>, ValueView>,
) -> Outcome
    decreases program.code.len() - state.ip,
{
    match transition(program, state, store) {
        Transition::Return(value) => Outcome::Return(value, store),
        Transition::Fail(error) => Outcome::Fail(error, store),
        Transition::Host => Outcome::Host,
        Transition::Next(next, changed) => if state.ip < next.ip <= program.code.len() {
            run(program, next, changed)
        } else {
            Outcome::Host
        },
    }
}

/// How a run of `program` ends that starts with the variables in `store`.
pub open spec fn run_program<S>(program: Program<S>, store: Map<Seq<char>, ValueView>) -> Outcome {
    run(program, StateView::start(), store)
}

/// Each instruction that does not end the run moves the instruction pointer
/// on, and not past the end of the program.
pub proof fn lemma_transition_moves_on<S>(
    program: Program<S>,
    state: StateView<S>,
    store: Map<Seq<char>, ValueView>,
)
    requires
        0 <= state.ip,
    ensures
        transition(program, state, store) matches Transition::Next(next, _) ==> state.ip < next.ip
            <= program.code.len(),
{
}

/// What `n` instructions lead to, one after another.
pub open spec fn after<S>(
    program: Program<S>,
    state: StateView<S>,
    store: Map<Seq<char>, ValueView>,
    n: nat,
) -> Transition<S>
    decreases n,
{
    if n == 0 {
        Transition::Next(state, store)
    } else {
        match transition(program, state, store) {
            Transition::Next(next, changed) => after(program, next, changed, (n - 1) as nat),
            other => other,
        }
    }
}

/// The `n` instructions from position `from` on are guarded operations.
pub open spec fn guarded_run(code: Seq<crate::machine::Instruction>, from: int, n: int) -> bool {
    forall|i: int|
        from <= i < from + n ==> 0 <= i < code.len() && (#[trigger] code[i]
            matches crate::machine::Instruction::OpCode(op) && guarded(op) is Some)
}

/// A program that is a single `Return` yields null.
pub proof fn lemma_return_on_empty_yields_null<S>(
    program: Program<S>,
    store: Map<Seq<char>, ValueView>,
)
    requires
        program.code == seq![crate::machine::Instruction::OpCode(OpCode::Return)],
    ensures
        run_program(program, store) == Outcome::Return(ValueView::Null, store),
{
}

/// `Constant(k); Return` yields the constant in slot `k`.
pub proof fn lemma_constant_round_trip<S>(
    program: Program<S>,
    store: Map<Seq<char>, ValueView>,
    k: usize,
)
    requires
        program.code == seq![
            crate::machine::Instruction::OpCode(OpCode::Constant),
            crate::machine::Instruction::Primitive(k),
            crate::machine::Instruction::OpCode(OpCode::Return),
        ],
        k < program.constants.len(),
    ensures
        run_program(program, store) == Outcome::Return(program.constants[k as int], store),
{
    reveal_with_fuel(run, 2);
}

/// `Constant(k); SetPath(t); Return`, where slot `t` names a local, yields
/// the constant and leaves it in the local as well.
pub proof fn lemma_chained_assignment<S>(
    program: Program<S>,
    store: Map<Seq<char>, ValueView>,
    k: usize,
    t: usize,
    ident: Seq<char>,
)
    requires
        program.code == seq![
            crate::machine::Instruction::OpCode(OpCode::Constant),
            crate::machine::Instruction::Primitive(k),
            crate::machine::Instruction::OpCode(OpCode::SetPath),
            crate::machine::Instruction::Primitive(t),
            crate::machine::Instruction::OpCode(OpCode::Return),
        ],
        k < program.constants.len(),
        t < program.targets.len(),
        program.targets[t as int] == VariableView::Internal(ident, None),
    ensures
        run_program(program, store) == Outcome::Return(
            program.constants[k as int],
            store.insert(ident, program.constants[k as int]),
        ),
{
    reveal_with_fuel(run, 3);
}

/// A jump whose offset was patched when the program was `end` instructions
/// long lands at position `end`: one past the last instruction written
/// before the patch, where the next instruction written stands.
pub proof fn lemma_patched_jump_lands_at_end<S>(
    program: Program<S>,
    state: StateView<S>,
    store: Map<Seq<char>, ValueView>,
    code: OpCode,
    end: int,
)
    requires
        code == OpCode::JumpIfFalse || code == OpCode::JumpIfTrue || code == OpCode::JumpIfNotErr
            || code == OpCode::Jump,
        0 <= state.ip,
        state.ip + 1 < end <= program.code.len(),
        program.code[state.ip] == crate::machine::Instruction::OpCode(code),
        program.code[state.ip + 1] matches crate::machine::Instruction::Primitive(jump)
            && state.ip + 1 + 1 + jump == end,
        taken(code, state) is Yes,
    ensures
        transition(program, state, store) == Transition::Next(state.at(end), store),
{
}

/// A guarded operation does nothing while an error is in the register: the
/// stack, the register, the parameter stack and the variable store stay as
/// they are, through any number of such operations.
pub proof fn lemma_error_skips_guarded_operations<S>(
    program: Program<S>,
    state: StateView<S>,
    store: Map<Seq<char>, ValueView>,
    n: nat,
)
    requires
        0 <= state.ip,
        state.error is Some,
        guarded_run(program.code, state.ip, n as int),
    ensures
        after(program, state, store, n) == Transition::Next(state.advance(n as int), store),
    decreases n,
{
    if n > 0 {
        lemma_error_skips_guarded_operations(program, state.advance(1), store, (n - 1) as nat);
    }
}

/// With an error in the register, any run of guarded operations followed by
/// `SetPathInfallible(ok, err, default)` on two different locals leaves the
/// default in `ok` and the message of the error in `err`, clears the
/// register and puts the message on the stack, above all that was there.
pub proof fn lemma_error_reaches_infallible_assignment<S>(
    program: Program<S>,
    state: StateView<S>,
    store: Map<Seq<char>, ValueView>,
    n: nat,
    ok: Seq<char>,
    err: Seq<char>,
)
    requires
        0 <= state.ip,
        state.error is Some,
        guarded_run(program.code, state.ip, n as int),
        opcode_at(program.code, state.ip + n) == Ok::<OpCode, FetchError>(
            OpCode::SetPathInfallible,
        ),
        target_at(program, state.ip + n + 1) == Ok::<VariableView, FetchError>(
            VariableView::Internal(ok, None),
        ),
        target_at(program, state.ip + n + 2) == Ok::<VariableView, FetchError>(
            VariableView::Internal(err, None),
        ),
        primitive_at(program.code, state.ip + n + 3) is Ok,
        primitive_at(program.code, state.ip + n + 3)->Ok_0 < program.constants.len(),
        ok != err,
    ensures
        ({
            let default = program.constants[primitive_at(program.code, state.ip + n + 3)->Ok_0
                as int];
            let text = text_value(state.error->0.message());
            &&& after(program, state, store, n + 1) matches Transition::Next(last, changed)
            &&& last == state.advance(n as int + 4).with_error(None).push(text)
            &&& changed == store.insert(ok, default).insert(err, text)
            &&& changed[ok] == default
            &&& changed[err] == text
        }),
{
    lemma_error_skips_guarded_operations(program, state, store, n);
    lemma_after_one_more(program, state, store, n);
}

/// One instruction more than `n` is the instruction after the `n`.
pub proof fn lemma_after_one_more<S>(
    program: Program<S>,
    state: StateView<S>,
    store: Map<Seq<char>, ValueView>,
    n: nat,
)
    ensures
        after(program, state, store, n + 1) == match after(program, state, store, n) {
            Transition::Next(next, changed) => transition(program, next, changed),
            other => other,
        },
    decreases n,
{
    reveal_with_fuel(after, 2);
    if n > 0 {
        match transition(program, state, store) {
            Transition::Next(next, changed) => {
                lemma_after_one_more(program, next, changed, (n - 1) as nat);
            },
            _ => {},
        }
    }
}

/// A run can be taken up where its first `n` instructions have led: it ends
/// as the run from there ends. Where one of those instructions ends the run,
/// the run ends with what that instruction gave.
pub proof fn lemma_run_resumes_after<S>(
    program: Program<S>,
    state: StateView<S>,
    store: Map<Seq<char>, ValueView>,
    n: nat,
)
    requires
        0 <= state.ip,
    ensures
        match after(program, state, store, n) {
            Transition::Next(next, changed) => run(program, state, store) == run(
                program,
                next,
                changed,
            ),
            Transition::Return(value) => run(program, state, store) matches Outcome::Return(
                returned,
                _,
            ) && returned == value,
            Transition::Fail(error) => run(program, state, store) matches Outcome::Fail(raised, _)
                && raised == error,
            Transition::Host => run(program, state, store) is Host,
        },
    decreases n,
{
    if n > 0 {
        lemma_transition_moves_on(program, state, store);
        match transition(program, state, store) {
            Transition::Next(next, changed) => {
                lemma_run_resumes_after(program, next, changed, (n - 1) as nat);
            },
            _ => {},
        }
    }
}

/// The error that an instruction puts into an empty register is an
/// operation error, and its message is not empty.
pub proof fn lemma_pending_error_has_a_message<S>(
    program: Program<S>,
    state: StateView<S>,
    store: Map<Seq<char>, ValueView>,
)
    requires
        state.error is None,
        transition(program, state, store) matches Transition::Next(next, _) && next.error is Some,
    ensures
        transition(program, state, store) matches Transition::Next(next, _)
            && next.error matches Some(ErrorView::Operation(error)) && text_value(
            ErrorView::Operation(error).message(),
        ) matches ValueView::Bytes(bytes) && bytes.len() > 0,
{
    let next = transition(program, state, store)->Next_0;
    let error = next.error->0->Operation_0;
    crate::error::lemma_operation_text_not_empty(error);
    lemma_text_value_not_empty(crate::error::operation_text(error));
}

/// The byte string of a text that is not empty is not empty.
pub proof fn lemma_text_value_not_empty(text: Seq<char>)
    requires
        text.len() > 0,
    ensures
        encode_utf8(text).len() > 0,
{
}

} // verus!
