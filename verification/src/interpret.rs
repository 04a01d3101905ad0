//! Running a program.

use crate::arithmetic::BinaryOp;
use crate::arithmetic::Evaluation;
use crate::arithmetic::Likeness;
use crate::arithmetic::Operand;
use crate::arithmetic::OperationError;
use crate::arithmetic::ValueKind;
use crate::arithmetic::evaluate;
use crate::arithmetic::likeness;
use crate::arithmetic::numeric_result;
use crate::context::ArgumentView;
use crate::context::Context;
use crate::context::VmArgument;
use crate::context::VmArgumentList;
use crate::context::argument_views;
use crate::error::ErrorView;
use crate::error::ExpressionError;
use crate::error::FetchError;
use crate::error::Span;
use crate::keymap::KeyMap;
use crate::machine::OpCode;
use crate::machine::Program;
use crate::machine::Vm;
use crate::number::FloatUnit;
use crate::number::float_eq;
use crate::replies::Hosted;
use crate::replies::Reply;
use crate::replies::binary_hosted;
use crate::replies::equality_hosted;
use crate::replies::hosted;
use crate::replies::run_with;
use crate::replies::writes_event;
use crate::semantics::Outcome;
use crate::semantics::Transition;
use crate::semantics::abort_step;
use crate::semantics::assign;
use crate::semantics::binary_step;
use crate::semantics::call_step;
use crate::semantics::constant_step;
use crate::semantics::create_array_step;
use crate::semantics::create_object_step;
use crate::semantics::equality_step;
use crate::semantics::execute;
use crate::semantics::gather;
use crate::semantics::get_path_step;
use crate::semantics::guarded;
use crate::semantics::jump_step;
use crate::semantics::move_parameter_step;
use crate::semantics::move_static_step;
use crate::semantics::negate_step;
use crate::semantics::not_step;
use crate::semantics::run;
use crate::semantics::run_program;
use crate::semantics::set_path_infallible_step;
use crate::semantics::set_path_step;
use crate::semantics::transition;
use crate::state::StateView;
use crate::state::VmState;
use crate::text::read_lossy;
use crate::value::Value;
use crate::value::ValueView;
use crate::value::lemma_view_array;
use crate::value::lemma_view_object;
use crate::value::views_of_map;
use crate::value::views_of_seq;
use crate::variable::Variable;
use vstd::prelude::*;

verus! {

/// What the machine does after an instruction.
pub enum Flow {
    /// It goes on to the next one.
    Continue,
    /// It ends the run with this value.
    Return(Value),
    /// It ends the run with this error.
    Fail(ExpressionError),
}

/// The machine did what the instruction leads to: it went on in the state
/// and with the store that the instruction leaves, or it ended the run as
/// the instruction does. Where the instruction leaves the outcome to the
/// host, anything follows.
pub open spec fn follows<S>(
    flow: Flow,
    state: StateView<S>,
    store: Map<Seq<char>, ValueView>,
    transition: Transition<S>,
) -> bool {
    match transition {
        Transition::Next(next, changed) => flow is Continue && state == next && store == changed,
        Transition::Return(value) => flow matches Flow::Return(returned) && returned@ == value,
        Transition::Fail(error) => flow matches Flow::Fail(failed) && failed@ == error,
        Transition::Host => true,
    }
}

/// The run ended as `outcome` says: with its value or its error, and its
/// variable store. An outcome that is left open is no end.
pub open spec fn ends_as(
    outcome: Outcome,
    r: Result<Value, ExpressionError>,
    store: Map<Seq<char>, ValueView>,
) -> bool {
    match outcome {
        Outcome::Return(value, last) => r matches Ok(returned) && returned@ == value && store
            == last,
        Outcome::Fail(error, last) => r matches Err(failed) && failed@ == error && store == last,
        Outcome::Host => false,
    }
}

/// The flow after a step that has no value to return.
pub open spec fn flow_of(r: Result<(), ExpressionError>) -> Flow {
    match r {
        Ok(()) => Flow::Continue,
        Err(error) => Flow::Fail(error),
    }
}

/// The machine did what the instruction leads to once the host has said
/// what `used` replies say.
pub open spec fn served<S>(
    flow: Flow,
    state: StateView<S>,
    store: Map<Seq<char>, ValueView>,
    used: nat,
    hosted: Hosted<S>,
) -> bool {
    match hosted {
        Hosted::Next(next, changed, taken) => flow is Continue && state == next && store == changed
            && taken == used,
        Hosted::Fail(error, changed) => flow matches Flow::Fail(failed) && failed@ == error && store
            == changed,
        Hosted::Stuck => false,
    }
}

/// `used` is what the float unit said to a guarded operation, and the
/// machine went on from it as it has to, whatever the host says next.
pub open spec fn binary_served<S>(
    flow: Flow,
    state: StateView<S>,
    op: BinaryOp,
    before: StateView<S>,
    used: Seq<Reply>,
) -> bool {
    forall|store: Map<Seq<char>, ValueView>, rest: Seq<Reply>|
        served(
            flow,
            state,
            store,
            used.len(),
            #[trigger] binary_hosted(op, before, store, used + rest),
        )
}

/// `used` is what the float unit said to an equality, and the machine went
/// on from it as it has to.
pub open spec fn equality_served<S>(
    flow: Flow,
    state: StateView<S>,
    negate: bool,
    before: StateView<S>,
    used: Seq<Reply>,
) -> bool {
    forall|store: Map<Seq<char>, ValueView>, rest: Seq<Reply>|
        served(
            flow,
            state,
            store,
            used.len(),
            #[trigger] equality_hosted(negate, before, store, used + rest),
        )
}

/// `used` is what the host said to the instruction at the instruction
/// pointer of `before`, and the machine went on from it as it has to,
/// whatever the host says next.
pub open spec fn step_served<S>(
    flow: Flow,
    state: StateView<S>,
    store: Map<Seq<char>, ValueView>,
    program: Program<S>,
    before: StateView<S>,
    origin: Map<Seq<char>, ValueView>,
    used: Seq<Reply>,
) -> bool {
    forall|rest: Seq<Reply>|
        served(
            flow,
            state,
            store,
            used.len(),
            #[trigger] hosted(
                crate::state::opcode_at(program.code, before.ip)->Ok_0,
                program,
                before.advance(1),
                origin,
                used + rest,
            ),
        )
}

/// `used` is what the host said to `code` in `before`, the state just after
/// the opcode was read, and the machine went on from it as it has to,
/// whatever the host says next.
pub open spec fn hosted_served<S>(
    flow: Flow,
    state: StateView<S>,
    store: Map<Seq<char>, ValueView>,
    code: OpCode,
    program: Program<S>,
    before: StateView<S>,
    origin: Map<Seq<char>, ValueView>,
    used: Seq<Reply>,
) -> bool {
    forall|rest: Seq<Reply>|
        served(
            flow,
            state,
            store,
            used.len(),
            #[trigger] hosted(code, program, before, origin, used + rest),
        )
}

/// The replies of the float unit that give `l` and `r` for the operands and
/// `computed` for the result.
pub open spec fn numeric_replies(
    arithmetic: bool,
    lhs: Operand,
    rhs: Operand,
    l: u64,
    r: u64,
    computed: u64,
) -> Seq<Reply> {
    (if lhs is Integer {
        seq![Reply::Converted(l)]
    } else {
        Seq::empty()
    }) + (if rhs is Integer {
        seq![Reply::Converted(r)]
    } else {
        Seq::empty()
    }) + (if arithmetic {
        seq![Reply::Computed(computed)]
    } else {
        Seq::empty()
    })
}

/// A guarded operation goes on from the replies of the float unit to the
/// result that they give.
proof fn lemma_binary_replies<S>(
    op: BinaryOp,
    state: StateView<S>,
    lhs: Operand,
    rhs: Operand,
    l: u64,
    r: u64,
    computed: u64,
)
    requires
        state.error is None,
        state.stack.len() >= 2,
        evaluate(op, state.peek(1), state.peek(0)) == Evaluation::Numeric(lhs, rhs),
        lhs.promoted(l),
        rhs.promoted(r),
    ensures
        binary_served(
            Flow::Continue,
            state.pop(2).push(numeric_result(op, l, r, computed)),
            op,
            state,
            numeric_replies(crate::arithmetic::float_op(op) is Some, lhs, rhs, l, r, computed),
        ),
{
}

/// An equality goes on from the replies of the float unit to the result
/// that they give.
proof fn lemma_equality_replies<S>(
    negate: bool,
    state: StateView<S>,
    lhs: Operand,
    rhs: Operand,
    l: u64,
    r: u64,
)
    requires
        state.stack.len() >= 2,
        likeness(state.peek(1), state.peek(0)) == Likeness::Numeric(lhs, rhs),
        lhs.promoted(l),
        rhs.promoted(r),
    ensures
        equality_served(
            Flow::Continue,
            state.pop(2).push(ValueView::Boolean(float_eq(l, r) != negate)),
            negate,
            state,
            numeric_replies(false, lhs, rhs, l, r, 0),
        ),
{
}

/// Whether a value is the boolean `true`.
pub fn is_true(object: &Value) -> (b: bool)
    ensures
        b == (object@ == ValueView::Boolean(true)),
{
    object.is_true()
}

/// The guarded operation `op` on the two values on top of the stack.
///
/// With an error in the register nothing happens. Otherwise the operation
/// is applied: its result takes the place of the two operands, or its error
/// goes to the register and the operands stay. Where the float unit
/// computes, the result is the [`numeric_result`] of what it returned.
///
/// With fewer than two operands and no error in the register the call
/// fails, and leaves the stack and the register as they are.
pub fn binary_op<S>(state: &mut VmState<S>, op: BinaryOp, unit: &dyn FloatUnit) -> (r: Result<
    (),
    ExpressionError,
>)
    ensures
        final(state).vm == old(state).vm,
        final(state)@.ip == old(state)@.ip,
        forall|store: Map<Seq<char>, ValueView>|
            follows(
                flow_of(r),
                final(state)@,
                store,
                #[trigger] binary_step(op, old(state)@, store),
            ),
        binary_step(op, old(state)@, Map::empty()) is Host ==> r is Ok && exists|
            used: Seq<Reply>,
        | #[trigger] binary_served(Flow::Continue, final(state)@, op, old(state)@, used),
        r is Err <==> old(state)@.error is None && old(state)@.stack.len() < 2,
        r is Err ==> final(state)@ == old(state)@,
{
    if state.error.is_some() {
        return Ok(());
    }
    let n = state.stack.len();
    if n < 2 {
        return Err(ExpressionError::Fetch(FetchError::StackUnderflow));
    }
    let computed = Value::apply(op, &state.stack[n - 2], &state.stack[n - 1], unit);
    match computed {
        Ok(value) => {
            let ghost before = state@;
            state.stack.pop();
            state.stack.pop();
            state.stack.push(value);
            assert(state@.stack =~= before.pop(2).push(value@).stack);
            assert(state@ == before.pop(2).push(value@));
            proof {
                if let Evaluation::Numeric(lhs, rhs) = evaluate(op, before.peek(1), before.peek(0)) {
                    let (l, r, c) = choose|l: u64, r: u64, c: u64|
                        lhs.promoted(l) && rhs.promoted(r) && value@ == #[trigger] numeric_result(
                            op,
                            l,
                            r,
                            c,
                        );
                    lemma_binary_replies(op, before, lhs, rhs, l, r, c);
                }
            }
            Ok(())
        },
        Err(error) => {
            state.error = Some(ExpressionError::Operation(error));
            Ok(())
        },
    }
}

/// Assigns `value` to `variable`.
///
/// A local is set in the variable store, as a whole or at a path inside its
/// value. A write to the event goes to the target, which may refuse it. A
/// write to the sink or to the stack is dropped. Only a write to the event
/// touches the event.
pub fn set_variable(ctx: &mut Context, variable: &Variable, value: Value) -> (r: Result<
    (),
    ExpressionError,
>)
    ensures
        !(variable@ is External) ==> r is Ok && final(ctx).state@ == assign(
            old(ctx).state@,
            variable@,
            value@,
        ),
        variable@ is External ==> final(ctx).state@ == old(ctx).state@ && (r matches Err(error)
            ==> error@ is Host),
        !(variable@ is External) ==> final(ctx).target == old(ctx).target,
{
    match variable {
        Variable::Internal(ident, path) => {
            match path {
                None => {
                    ctx.state.insert_variable(ident.clone(), value);
                },
                Some(path) => {
                    let stored = match ctx.state.take_variable(ident.as_str()) {
                        Some(stored) => stored,
                        None => Value::Null,
                    };
                    let placed = stored.insert_by_path(path, value);
                    ctx.state.insert_variable(ident.clone(), placed);
                },
            }
            Ok(())
        },
        Variable::External(path) => match ctx.target.insert(path, value) {
            Ok(()) => Ok(()),
            Err(message) => Err(ExpressionError::Host(message)),
        },
        Variable::Sink => Ok(()),
        Variable::Stack(_) => Ok(()),
    }
}

/// What the event said when it was asked for a value.
pub open spec fn got(reply: Result<Option<Value>, String>) -> Reply {
    match reply {
        Ok(Some(value)) => Reply::Found(value@),
        Ok(None) => Reply::NotFound,
        Err(message) => Reply::Refused(message@),
    }
}

/// What is left to do after the event was asked for a value: the value, or
/// null where there is none, goes on the stack, and a failure ends the run.
pub fn finish_get<S>(state: &mut VmState<S>, reply: Result<Option<Value>, String>) -> (flow: Flow)
    ensures
        final(state).vm == old(state).vm,
        match reply {
            Ok(Some(value)) => flow is Continue && final(state)@ == old(state)@.push(value@),
            Ok(None) => flow is Continue && final(state)@ == old(state)@.push(ValueView::Null),
            Err(message) => flow matches Flow::Fail(error) && error@ == ErrorView::Host(message@)
                && final(state)@ == old(state)@,
        },
{
    match reply {
        Ok(Some(value)) => {
            state.push_stack(value);
            Flow::Continue
        },
        Ok(None) => {
            state.push_stack(Value::Null);
            Flow::Continue
        },
        Err(message) => Flow::Fail(ExpressionError::Host(message)),
    }
}

/// What is left to do after a call: the result goes on the stack, and a
/// failure goes to the error register, with the function and the place of
/// the call put in front of its message.
pub fn finish_call<S>(
    state: &mut VmState<S>,
    result: Result<Value, crate::error::CallError>,
    identifier: &str,
    span: Span,
)
    ensures
        final(state).vm == old(state).vm,
        match result {
            Ok(value) => final(state)@ == old(state)@.push(value@),
            Err(error) => final(state)@ == old(state)@.with_error(
                Some(ErrorView::Call(error@.annotated(identifier@, span))),
            ),
        },
{
    match result {
        Ok(value) => {
            state.push_stack(value);
        },
        Err(error) => {
            state.error = Some(ExpressionError::Call(error.annotate(identifier, span)));
        },
    }
}

/// `Abort`.
fn op_abort<S>(state: &mut VmState<S>) -> (flow: Flow)
    ensures
        final(state).vm == old(state).vm,
        !(flow is Continue) ==> final(state)@.error == old(state)@.error,
        !(flow is Continue),
        follows(flow, final(state)@, Map::empty(), abort_step(old(state).program(), old(state)@)),
{
    let start = match state.next_primitive() {
        Ok(start) => start,
        Err(error) => {
            return Flow::Fail(error);
        },
    };
    let end = match state.next_primitive() {
        Ok(end) => end,
        Err(error) => {
            return Flow::Fail(error);
        },
    };
    Flow::Fail(ExpressionError::Abort { span: Span::new(start, end) })
}

/// `Return`.
fn op_return<S>(state: &mut VmState<S>) -> (flow: Flow)
    ensures
        final(state).vm == old(state).vm,
        !(flow is Continue) ==> final(state)@.error == old(state)@.error,
        flow matches Flow::Return(value) && value@ == (if old(state)@.stack.len() > 0 {
            old(state)@.peek(0)
        } else {
            ValueView::Null
        }),
{
    match state.stack.pop() {
        Some(value) => Flow::Return(value),
        None => Flow::Return(Value::Null),
    }
}

/// `Constant`.
fn op_constant<S>(state: &mut VmState<S>) -> (flow: Flow)
    ensures
        final(state).vm == old(state).vm,
        !(flow is Continue) ==> final(state)@.error == old(state)@.error,
        forall|store: Map<Seq<char>, ValueView>|
            follows(
                flow,
                final(state)@,
                store,
                #[trigger] constant_step(old(state).program(), old(state)@, store),
            ),
{
    match state.read_constant() {
        Ok(value) => {
            state.push_stack(value);
            Flow::Continue
        },
        Err(error) => Flow::Fail(error),
    }
}

/// `Negate`.
fn op_negate<S>(state: &mut VmState<S>) -> (flow: Flow)
    ensures
        final(state).vm == old(state).vm,
        !(flow is Continue) ==> final(state)@.error == old(state)@.error,
        forall|store: Map<Seq<char>, ValueView>|
            follows(flow, final(state)@, store, #[trigger] negate_step(old(state)@, store)),
{
    match state.stack.pop() {
        None => Flow::Fail(ExpressionError::Operation(OperationError::NegatingNothing)),
        Some(Value::Float(bits)) => {
            let value = Value::Float(crate::number::negate(bits));
            state.stack.push(value);
            assert(state@.stack =~= old(state)@.pop(1).push(value@).stack);
            Flow::Continue
        },
        Some(_) => Flow::Fail(ExpressionError::Operation(OperationError::NegatingNonNumber)),
    }
}

/// `Not`.
fn op_not<S>(state: &mut VmState<S>) -> (flow: Flow)
    ensures
        final(state).vm == old(state).vm,
        !(flow is Continue) ==> final(state)@.error == old(state)@.error,
        forall|store: Map<Seq<char>, ValueView>|
            follows(flow, final(state)@, store, #[trigger] not_step(old(state)@, store)),
{
    match state.stack.pop() {
        None => Flow::Fail(ExpressionError::Operation(OperationError::NottingNothing)),
        Some(Value::Boolean(b)) => {
            let value = Value::Boolean(!b);
            state.stack.push(value);
            assert(state@.stack =~= old(state)@.pop(1).push(value@).stack);
            Flow::Continue
        },
        Some(_) => Flow::Fail(ExpressionError::Operation(OperationError::NottingNonBoolean)),
    }
}

/// `Equal`, and `NotEqual` where `negate` is set.
fn op_equality<S>(state: &mut VmState<S>, negate: bool, unit: &dyn FloatUnit) -> (flow: Flow)
    ensures
        final(state).vm == old(state).vm,
        !(flow is Continue) ==> final(state)@.error == old(state)@.error,
        final(state)@.ip == old(state)@.ip,
        forall|store: Map<Seq<char>, ValueView>|
            follows(
                flow,
                final(state)@,
                store,
                #[trigger] equality_step(negate, old(state)@, store),
            ),
        equality_step(negate, old(state)@, Map::empty()) is Host ==> exists|used: Seq<Reply>|
            #[trigger] equality_served(flow, final(state)@, negate, old(state)@, used),
{
    let n = state.stack.len();
    if n < 2 {
        return Flow::Fail(ExpressionError::Fetch(FetchError::StackUnderflow));
    }
    let alike = state.stack[n - 2].eq_lossy(&state.stack[n - 1], unit);
    let value = Value::Boolean(alike != negate);
    state.stack.pop();
    state.stack.pop();
    state.stack.push(value);
    assert(state@.stack =~= old(state)@.pop(2).push(value@).stack);
    proof {
        if let Likeness::Numeric(lhs, rhs) = likeness(old(state)@.peek(1), old(state)@.peek(0)) {
            let (l, r) = choose|l: u64, r: u64|
                lhs.promoted(l) && rhs.promoted(r) && alike == #[trigger] float_eq(l, r);
            lemma_equality_replies(negate, old(state)@, lhs, rhs, l, r);
        }
    }
    Flow::Continue
}

/// `Pop`.
fn op_pop<S>(state: &mut VmState<S>)
    ensures
        final(state).vm == old(state).vm,
        final(state)@ == (if old(state)@.stack.len() > 0 {
            old(state)@.pop(1)
        } else {
            old(state)@
        }),
{
    let _ = state.stack.pop();
    assert(state@.stack =~= (if old(state)@.stack.len() > 0 {
        old(state)@.pop(1)
    } else {
        old(state)@
    }).stack);
}

/// A jump.
fn op_jump<S>(state: &mut VmState<S>, code: OpCode) -> (flow: Flow)
    requires
        code == OpCode::JumpIfFalse || code == OpCode::JumpIfTrue || code == OpCode::JumpIfNotErr
            || code == OpCode::Jump,
    ensures
        final(state).vm == old(state).vm,
        !(flow is Continue) ==> final(state)@.error == old(state)@.error,
        forall|store: Map<Seq<char>, ValueView>|
            follows(
                flow,
                final(state)@,
                store,
                #[trigger] jump_step(code, old(state).program(), old(state)@, store),
            ),
{
    let offset = match state.next_primitive() {
        Ok(offset) => offset,
        Err(error) => {
            return Flow::Fail(error);
        },
    };
    let jump = match code {
        OpCode::JumpIfFalse => match state.peek_stack() {
            Ok(top) => !is_true(top),
            Err(error) => {
                return Flow::Fail(error);
            },
        },
        OpCode::JumpIfTrue => match state.peek_stack() {
            Ok(top) => is_true(top),
            Err(error) => {
                return Flow::Fail(error);
            },
        },
        OpCode::JumpIfNotErr => state.error.is_none(),
        _ => true,
    };
    if jump {
        let len = state.vm.instructions().len();
        match state.instruction_pointer.checked_add(offset) {
            Some(target) => {
                if target <= len {
                    state.instruction_pointer = target;
                    Flow::Continue
                } else {
                    Flow::Fail(ExpressionError::Fetch(FetchError::OutOfRange))
                }
            },
            None => Flow::Fail(ExpressionError::Fetch(FetchError::OutOfRange)),
        }
    } else {
        Flow::Continue
    }
}

/// `CreateArray`.
fn op_create_array<S>(state: &mut VmState<S>) -> (flow: Flow)
    ensures
        final(state).vm == old(state).vm,
        !(flow is Continue) ==> final(state)@.error == old(state)@.error,
        forall|store: Map<Seq<char>, ValueView>|
            follows(
                flow,
                final(state)@,
                store,
                #[trigger] create_array_step(old(state).program(), old(state)@, store),
            ),
{
    let count = match state.next_primitive() {
        Ok(count) => count,
        Err(error) => {
            return Flow::Fail(error);
        },
    };
    let n = state.stack.len();
    if n < count {
        return Flow::Fail(ExpressionError::Fetch(FetchError::StackUnderflow));
    }
    let ghost before = state@;
    let items = state.stack.split_off(n - count);
    proof {
        lemma_view_array(items);
        assert(views_of_seq(items@) =~= before.stack.subrange(n - count, n as int));
    }
    let array = Value::Array(items);
    state.stack.push(array);
    assert(state@.stack =~= before.pop(count as int).push(array@).stack);
    Flow::Continue
}

/// `CreateObject`.
fn op_create_object<S>(state: &mut VmState<S>) -> (flow: Flow)
    ensures
        final(state).vm == old(state).vm,
        !(flow is Continue) ==> final(state)@.error == old(state)@.error,
        forall|store: Map<Seq<char>, ValueView>|
            follows(
                flow,
                final(state)@,
                store,
                #[trigger] create_object_step(old(state).program(), old(state)@, store),
            ),
{
    let count = match state.next_primitive() {
        Ok(count) => count,
        Err(error) => {
            return Flow::Fail(error);
        },
    };
    let ghost before = state@;
    let mut object: KeyMap<Value> = KeyMap::new();
    let mut i: usize = 0;
    assert(views_of_map(object@) =~= Map::empty());
    assert(before.stack.take(before.stack.len() - 0) =~= before.stack);
    while i < count
        invariant
            i <= count,
            state.vm == old(state).vm,
            before == old(state)@.advance(1),
            crate::state::primitive_at(old(state).program().code, old(state)@.ip) == Ok::<
                usize,
                FetchError,
            >(count),
            2 * i <= before.stack.len(),
            state@ == (StateView { stack: before.stack.take(before.stack.len() - 2 * i), ..before }),
            gather(before.stack, count as nat, Map::empty()) == gather(
                state@.stack,
                (count - i) as nat,
                views_of_map(object@),
            ),
        decreases count - i,
    {
        let ghost stack = state@.stack;
        let ghost fields = views_of_map(object@);
        let value = match state.pop_stack() {
            Ok(value) => value,
            Err(error) => {
                return Flow::Fail(error);
            },
        };
        let key = match state.pop_stack() {
            Ok(key) => key,
            Err(error) => {
                return Flow::Fail(error);
            },
        };
        let key = match key {
            Value::Bytes(bytes) => read_lossy(&bytes),
            other => {
                return Flow::Fail(
                    ExpressionError::Operation(
                        OperationError::Expected(ValueKind::Bytes, other.kind()),
                    ),
                );
            },
        };
        let ghost name = key@;
        let ghost held = value@;
        if !object.contains_key(key.as_str()) {
            object.insert(key, value);
        }
        proof {
            assert(state@.stack =~= stack.take(stack.len() - 2));
            assert(views_of_map(object@) =~= crate::semantics::bind_new(fields, name, held));
            assert(state@.stack =~= before.stack.take(before.stack.len() - 2 * (i + 1)));
        }
        i += 1;
    }
    proof {
        lemma_view_object(object);
    }
    let value = Value::Object(object);
    state.stack.push(value);
    assert(state@.stack =~= before.pop(2 * count).push(value@).stack);
    Flow::Continue
}

/// `MoveParameter`.
fn op_move_parameter<S>(state: &mut VmState<S>)
    ensures
        final(state).vm == old(state).vm,
        forall|store: Map<Seq<char>, ValueView>|
            follows(
                Flow::Continue,
                final(state)@,
                store,
                #[trigger] move_parameter_step(old(state)@, store),
            ),
{
    match state.stack.pop() {
        Some(value) => {
            let ghost view = value@;
            state.parameter_stack.push(Some(VmArgument::Value(value)));
            assert(state@.stack =~= old(state)@.pop(1).stack);
            assert(state@.parameters =~= old(state)@.parameters.push(ArgumentView::Value(view)));
        },
        None => {
            state.parameter_stack.push(None);
            assert(state@.parameters =~= old(state)@.parameters.push(ArgumentView::Absent));
        },
    }
}

/// `MoveStatic`.
fn op_move_static<'a, S>(state: &mut VmState<'a, S>) -> (flow: Flow)
    ensures
        final(state).vm == old(state).vm,
        !(flow is Continue) ==> final(state)@.error == old(state)@.error,
        forall|store: Map<Seq<char>, ValueView>|
            follows(
                flow,
                final(state)@,
                store,
                #[trigger] move_static_step(old(state).program(), old(state)@, store),
            ),
{
    let slot = match state.next_primitive() {
        Ok(slot) => slot,
        Err(error) => {
            return Flow::Fail(error);
        },
    };
    let vm: &'a Vm<S> = state.vm;
    match vm.static_param(slot) {
        Some(param) => {
            let ghost before = state@;
            state.parameter_stack.push(Some(VmArgument::Any(param)));
            assert(state@.parameters =~= before.parameters.push(ArgumentView::Any(*param)));
            Flow::Continue
        },
        None => Flow::Fail(ExpressionError::Fetch(FetchError::OutOfRange)),
    }
}

/// The target in the slot that the next primitive names.
fn next_target<'a, S>(state: &mut VmState<'a, S>) -> (r: Result<&'a Variable, ExpressionError>)
    ensures
        final(state).vm == old(state).vm,
        final(state)@ == old(state)@.advance(
            crate::state::moved(old(state).program().code, old(state)@.ip),
        ),
        match crate::semantics::target_at(old(state).program(), old(state)@.ip) {
            Ok(target) => r matches Ok(variable) && variable@ == target && final(state)@ == old(state)@.advance(1) && old(state)@.ip < old(state).program().code.len(),
            Err(error) => r matches Err(e) && e@ == ErrorView::Fetch(error),
        },
{
    let slot = state.next_primitive()?;
    let vm: &'a Vm<S> = state.vm;
    match vm.target(slot) {
        Some(variable) => Ok(variable),
        None => Err(ExpressionError::Fetch(FetchError::OutOfRange)),
    }
}

/// `GetPath`.
fn op_get_path<S>(state: &mut VmState<S>, ctx: &mut Context) -> (flow: Flow)
    ensures
        final(state).vm == old(state).vm,
        final(ctx).target == old(ctx).target,
        !(flow is Continue) ==> final(state)@.error == old(state)@.error,
        final(ctx).state@ == old(ctx).state@,
        flow is Continue ==> old(state)@.ip < final(state)@.ip <= old(state).program().code.len(),
        follows(
            flow,
            final(state)@,
            final(ctx).state@,
            get_path_step(old(state).program(), old(state)@, old(ctx).state@),
        ),
        get_path_step(old(state).program(), old(state)@, old(ctx).state@) is Host ==> exists|
            used: Seq<Reply>,
        | #[trigger]
            hosted_served(
                flow,
                final(state)@,
                final(ctx).state@,
                OpCode::GetPath,
                old(state).program(),
                old(state)@,
                old(ctx).state@,
                used,
            ),
{
    let variable = match next_target(state) {
        Ok(variable) => variable,
        Err(error) => {
            return Flow::Fail(error);
        },
    };
    match variable {
        Variable::External(path) => {
            let reply = ctx.target.get(path);
            let ghost used = seq![got(reply)];
            let flow = finish_get(state, reply);
            proof {
                assert(hosted_served(
                    flow,
                    state@,
                    ctx.state@,
                    OpCode::GetPath,
                    old(state).program(),
                    old(state)@,
                    old(ctx).state@,
                    used,
                ));
            }
            flow
        },
        Variable::Internal(ident, path) => {
            let value = match ctx.state.variable(ident.as_str()) {
                Some(value) => match path {
                    Some(path) => value.get_or_null(path),
                    None => value.clone(),
                },
                None => Value::Null,
            };
            state.push_stack(value);
            Flow::Continue
        },
        Variable::Sink => {
            state.push_stack(Value::Null);
            Flow::Continue
        },
        Variable::Stack(path) => {
            let value = match state.pop_stack() {
                Ok(value) => value,
                Err(error) => {
                    return Flow::Fail(error);
                },
            };
            let found = value.get_or_null(path);
            state.push_stack(found);
            Flow::Continue
        },
    }
}

/// `SetPath`.
fn op_set_path<S>(state: &mut VmState<S>, ctx: &mut Context) -> (flow: Flow)
    ensures
        final(state).vm == old(state).vm,
        !(set_path_step(old(state).program(), old(state)@, old(ctx).state@) is Host)
            ==> final(ctx).target == old(ctx).target,
        !(flow is Continue) ==> final(state)@.error == old(state)@.error,
        flow is Continue ==> old(state)@.ip < final(state)@.ip <= old(state).program().code.len(),
        follows(
            flow,
            final(state)@,
            final(ctx).state@,
            set_path_step(old(state).program(), old(state)@, old(ctx).state@),
        ),
        set_path_step(old(state).program(), old(state)@, old(ctx).state@) is Fail ==> final(ctx).state@ == old(ctx).state@,
        set_path_step(old(state).program(), old(state)@, old(ctx).state@) is Host ==> exists|
            used: Seq<Reply>,
        | #[trigger]
            hosted_served(
                flow,
                final(state)@,
                final(ctx).state@,
                OpCode::SetPath,
                old(state).program(),
                old(state)@,
                old(ctx).state@,
                used,
            ),
{
    let variable = match next_target(state) {
        Ok(variable) => variable,
        Err(error) => {
            return Flow::Fail(error);
        },
    };
    let ghost before = state@;
    let value = match state.pop_stack() {
        Ok(value) => value,
        Err(error) => {
            return Flow::Fail(error);
        },
    };
    let (flow, Ghost(used)) = assign_logged(ctx, variable, value.clone());
    match flow {
        Flow::Continue => {
            state.push_stack(value);
            assert(state@.stack =~= before.stack);
        },
        _ => {},
    }
    proof {
        if variable@ is External {
            assert(hosted_served(
                flow,
                state@,
                ctx.state@,
                OpCode::SetPath,
                old(state).program(),
                old(state)@,
                old(ctx).state@,
                used,
            ));
        }
    }
    flow
}

/// Assigns `value` to `variable`, and tells what the event said to it.
fn assign_logged(ctx: &mut Context, variable: &Variable, value: Value) -> (r: (
    Flow,
    Ghost<Seq<Reply>>,
))
    ensures
        !(variable@ is External) ==> final(ctx).target == old(ctx).target,
        !(r.0 is Return),
        match r.0 {
            Flow::Continue => final(ctx).state@ == (if variable@ is External {
                old(ctx).state@
            } else {
                assign(old(ctx).state@, variable@, value@)
            }) && r.1@ == (if variable@ is External {
                seq![Reply::Stored]
            } else {
                Seq::<Reply>::empty()
            }),
            Flow::Fail(error) => variable@ is External && final(ctx).state@ == old(ctx).state@
                && error@ is Host && r.1@ == seq![Reply::Refused(error@->Host_0)],
            Flow::Return(_) => false,
        },
{
    match set_variable(ctx, variable, value) {
        Ok(()) => {
            let ghost used = if variable@ is External {
                seq![Reply::Stored]
            } else {
                Seq::<Reply>::empty()
            };
            (Flow::Continue, Ghost(used))
        },
        Err(error) => {
            let ghost used = seq![Reply::Refused(error@->Host_0)];
            (Flow::Fail(error), Ghost(used))
        },
    }
}

/// `SetPathInfallible`.
#[verifier::rlimit(40)]
fn op_set_path_infallible<S>(state: &mut VmState<S>, ctx: &mut Context) -> (flow: Flow)
    ensures
        final(state).vm == old(state).vm,
        !(set_path_infallible_step(old(state).program(), old(state)@, old(ctx).state@) is Host)
            ==> final(ctx).target == old(ctx).target,
        set_path_infallible_step(old(state).program(), old(state)@, old(ctx).state@) is Fail
            ==> final(state)@.error == old(state)@.error,
        flow is Continue ==> old(state)@.ip < final(state)@.ip <= old(state).program().code.len(),
        follows(
            flow,
            final(state)@,
            final(ctx).state@,
            set_path_infallible_step(old(state).program(), old(state)@, old(ctx).state@),
        ),
        set_path_infallible_step(old(state).program(), old(state)@, old(ctx).state@) is Fail
            ==> final(ctx).state@ == old(ctx).state@,
        set_path_infallible_step(old(state).program(), old(state)@, old(ctx).state@) is Host
            ==> exists|used: Seq<Reply>| #[trigger]
            hosted_served(
                flow,
                final(state)@,
                final(ctx).state@,
                OpCode::SetPathInfallible,
                old(state).program(),
                old(state)@,
                old(ctx).state@,
                used,
            ),
{
    let variable = match next_target(state) {
        Ok(variable) => variable,
        Err(error) => {
            return Flow::Fail(error);
        },
    };
    let error = match next_target(state) {
        Ok(variable) => variable,
        Err(error) => {
            return Flow::Fail(error);
        },
    };
    let default = match state.read_constant() {
        Ok(value) => value,
        Err(error) => {
            return Flow::Fail(error);
        },
    };
    let ghost before = state@;
    let mut pending: Option<ExpressionError> = None;
    core::mem::swap(&mut state.error, &mut pending);
    let errored = pending.is_some();
    let (first, second) = match pending {
        Some(pending) => {
            let text = pending.message();
            (default, Value::from_text(text.as_str()))
        },
        None => {
            let value = match state.pop_stack() {
                Ok(value) => value,
                Err(error) => {
                    return Flow::Fail(error);
                },
            };
            (value, Value::Null)
        },
    };
    let left = if errored {
        second.clone()
    } else {
        first.clone()
    };
    let (one, Ghost(u1)) = assign_logged(ctx, variable, first);
    let (flow, Ghost(used)) = match one {
        Flow::Continue => {
            let (two, Ghost(u2)) = assign_logged(ctx, error, second);
            match two {
                Flow::Continue => {
                    state.push_stack(left);
                    assert(before.error is None ==> state@.stack =~= before.stack);
                    let ghost both = u1 + u2;
                    (Flow::Continue, Ghost(both))
                },
                other => {
                    let ghost both = u1 + u2;
                    (other, Ghost(both))
                },
            }
        },
        other => (other, Ghost(u1)),
    };
    proof {
        if variable@ is External || error@ is External {
            assert(hosted_served(
                flow,
                state@,
                ctx.state@,
                OpCode::SetPathInfallible,
                old(state).program(),
                old(state)@,
                old(ctx).state@,
                used,
            ));
        }
    }
    flow
}

/// What a function said when it was called, and the variable store as it
/// left it.
pub open spec fn called(
    result: Result<Value, crate::error::CallError>,
    store: Map<Seq<char>, ValueView>,
) -> Reply {
    match result {
        Ok(value) => Reply::Returned(value@, store),
        Err(error) => Reply::Failed(error@, store),
    }
}

/// `Call`.
#[verifier::rlimit(40)]
fn op_call<S>(state: &mut VmState<S>, ctx: &mut Context) -> (flow: Flow)
    ensures
        final(state).vm == old(state).vm,
        call_step(old(state).program(), old(state)@) is Fail ==> final(ctx).target == old(ctx).target,
        !(flow is Continue) ==> final(state)@.error == old(state)@.error,
        flow is Continue ==> old(state)@.ip < final(state)@.ip <= old(state).program().code.len(),
        follows(
            flow,
            final(state)@,
            final(ctx).state@,
            call_step(old(state).program(), old(state)@),
        ),
        call_step(old(state).program(), old(state)@) is Fail ==> final(ctx).state@ == old(ctx).state@,
        call_step(old(state).program(), old(state)@) is Host ==> exists|used: Seq<Reply>|
            #[trigger] hosted_served(
                flow,
                final(state)@,
                final(ctx).state@,
                OpCode::Call,
                old(state).program(),
                old(state)@,
                old(ctx).state@,
                used,
            ),
{
    let function_id = match state.next_primitive() {
        Ok(primitive) => primitive,
        Err(error) => {
            return Flow::Fail(error);
        },
    };
    let span_start = match state.next_primitive() {
        Ok(primitive) => primitive,
        Err(error) => {
            return Flow::Fail(error);
        },
    };
    let span_end = match state.next_primitive() {
        Ok(primitive) => primitive,
        Err(error) => {
            return Flow::Fail(error);
        },
    };
    let function = match state.vm.function(function_id) {
        Some(function) => function,
        None => {
            return Flow::Fail(ExpressionError::Fetch(FetchError::OutOfRange));
        },
    };
    let span = Span::new(span_start, span_end);
    let ghost before = state@;
    let parameters = function.parameters();
    let ghost asked = parameters@;
    let len = state.parameter_stack.len();
    if len < parameters.len() {
        let flow = Flow::Fail(ExpressionError::Fetch(FetchError::StackUnderflow));
        proof {
            let used = seq![Reply::Parameters(asked)];
            assert(hosted_served(
                flow,
                state@,
                ctx.state@,
                OpCode::Call,
                old(state).program(),
                old(state)@,
                old(ctx).state@,
                used,
            ));
        }
        return flow;
    }
    let args = state.parameter_stack.split_off(len - parameters.len());
    let ghost kept = state@;
    let ghost arguments = argument_views(args@);
    proof {
        assert(kept.parameters =~= before.parameters.take(len - asked.len()));
        assert(arguments =~= before.parameters.skip(len - asked.len()));
    }
    let mut list = VmArgumentList::new(parameters, args);
    let checked = list.check_arguments();
    let (result, Ghost(middle)) = match checked {
        Ok(()) => {
            let result = function.call(ctx, &mut list);
            let ghost said = seq![called(result, ctx.state@)];
            (result, Ghost(said))
        },
        Err(error) => {
            let ghost said = Seq::<Reply>::empty();
            (Err(error), Ghost(said))
        },
    };
    let identifier = function.identifier();
    let ghost used = seq![Reply::Parameters(asked)] + middle + seq![
        Reply::Identifier(identifier@),
    ];
    finish_call(state, result, identifier.as_str(), span);
    proof {
        assert(hosted_served(
            Flow::Continue,
            state@,
            ctx.state@,
            OpCode::Call,
            old(state).program(),
            old(state)@,
            old(ctx).state@,
            used,
        ));
    }
    Flow::Continue
}

impl<S> Vm<S> {
    /// Carries out the instruction at the instruction pointer.
    ///
    /// Where the instruction works on the stacks, the error register and the
    /// variable store alone, the machine does what [`transition`] says. Where
    /// it reads or writes the event, calls a function or needs the float
    /// unit, the machine does what [`hosted`] says of the replies that it
    /// got. Either way the instruction pointer moves on where the run goes
    /// on. An instruction that ends the run without asking the host leaves
    /// the error register as it is: an error that ends a run never waits in
    /// the register. The event stays as it was unless the instruction stores
    /// to a target in the event or calls a function.
    pub fn step(state: &mut VmState<S>, ctx: &mut Context) -> (flow: Flow)
        ensures
            final(state).vm == old(state).vm,
            !(transition(old(state).program(), old(state)@, old(ctx).state@) is Host)
                ==> final(ctx).target == old(ctx).target,
            !writes_event(old(state).program(), old(state)@) ==> final(ctx).target == old(ctx).target,
            !(flow is Continue) && !(transition(old(state).program(), old(state)@, old(ctx).state@) is Host)
                ==> final(state)@.error == old(state)@.error,
            flow is Continue ==> old(state)@.ip < final(state)@.ip <= old(state).program().code.len(),
            follows(
                flow,
                final(state)@,
                final(ctx).state@,
                transition(old(state).program(), old(state)@, old(ctx).state@),
            ),
            transition(old(state).program(), old(state)@, old(ctx).state@) is Fail
                || transition(old(state).program(), old(state)@, old(ctx).state@) is Return
                ==> final(ctx).state@ == old(ctx).state@,
            transition(old(state).program(), old(state)@, old(ctx).state@) is Host ==> exists|
                used: Seq<Reply>,
            | #[trigger]
                step_served(
                    flow,
                    final(state)@,
                    final(ctx).state@,
                    old(state).program(),
                    old(state)@,
                    old(ctx).state@,
                    used,
                ),
    {
        let ghost program = state.program();
        let ghost start = state@;
        let ghost store = ctx.state@;
        let code = match state.next_opcode() {
            Ok(code) => code,
            Err(error) => {
                return Flow::Fail(error);
            },
        };
        let ghost fetched = state@;
        proof {
            crate::semantics::lemma_transition_moves_on(program, start, store);
        }
        let flow = match code {
            OpCode::Abort => op_abort(state),
            OpCode::Return => op_return(state),
            OpCode::Constant => op_constant(state),
            OpCode::Negate => op_negate(state),
            OpCode::Not => op_not(state),
            OpCode::Add => Self::guarded_op(state, BinaryOp::Add, ctx.floats),
            OpCode::Subtract => Self::guarded_op(state, BinaryOp::Subtract, ctx.floats),
            OpCode::Multiply => Self::guarded_op(state, BinaryOp::Multiply, ctx.floats),
            OpCode::Divide => Self::guarded_op(state, BinaryOp::Divide, ctx.floats),
            OpCode::Rem => Self::guarded_op(state, BinaryOp::Rem, ctx.floats),
            OpCode::Merge => Self::guarded_op(state, BinaryOp::Merge, ctx.floats),
            OpCode::Greater => Self::guarded_op(state, BinaryOp::Greater, ctx.floats),
            OpCode::GreaterEqual => Self::guarded_op(state, BinaryOp::GreaterEqual, ctx.floats),
            OpCode::Less => Self::guarded_op(state, BinaryOp::Less, ctx.floats),
            OpCode::LessEqual => Self::guarded_op(state, BinaryOp::LessEqual, ctx.floats),
            OpCode::NotEqual => op_equality(state, true, ctx.floats),
            OpCode::Equal => op_equality(state, false, ctx.floats),
            OpCode::Pop => {
                op_pop(state);
                Flow::Continue
            },
            OpCode::ClearError => {
                state.error = None;
                Flow::Continue
            },
            OpCode::JumpIfFalse => op_jump(state, code),
            OpCode::JumpIfTrue => op_jump(state, code),
            OpCode::JumpIfNotErr => op_jump(state, code),
            OpCode::Jump => op_jump(state, code),
            OpCode::SetPathInfallible => op_set_path_infallible(state, ctx),
            OpCode::SetPath => op_set_path(state, ctx),
            OpCode::GetPath => op_get_path(state, ctx),
            OpCode::Call => op_call(state, ctx),
            OpCode::CreateArray => op_create_array(state),
            OpCode::CreateObject => op_create_object(state),
            OpCode::EmptyParameter => {
                state.parameter_stack.push(None);
                assert(state@.parameters =~= fetched.parameters.push(ArgumentView::Absent));
                Flow::Continue
            },
            OpCode::MoveParameter => {
                op_move_parameter(state);
                Flow::Continue
            },
            OpCode::MoveStatic => op_move_static(state),
        };
        proof {
            if transition(program, start, store) is Host {
                let used = match code {
                    OpCode::GetPath | OpCode::SetPath | OpCode::SetPathInfallible | OpCode::Call => {
                        choose|used: Seq<Reply>|
                            hosted_served(
                                flow,
                                state@,
                                ctx.state@,
                                code,
                                program,
                                fetched,
                                store,
                                used,
                            )
                    },
                    OpCode::NotEqual => choose|used: Seq<Reply>|
                        equality_served(flow, state@, true, fetched, used),
                    OpCode::Equal => choose|used: Seq<Reply>|
                        equality_served(flow, state@, false, fetched, used),
                    _ => choose|used: Seq<Reply>|
                        binary_served(flow, state@, guarded(code)->0, fetched, used),
                };
                assert(step_served(flow, state@, ctx.state@, program, start, store, used));
            }
        }
        flow
    }

    /// A guarded operation, as one step of the machine.
    fn guarded_op(state: &mut VmState<S>, op: BinaryOp, unit: &dyn FloatUnit) -> (flow: Flow)
        ensures
            final(state).vm == old(state).vm,
            !(flow is Continue) ==> final(state)@.error == old(state)@.error,
            final(state)@.ip == old(state)@.ip,
            forall|store: Map<Seq<char>, ValueView>|
                follows(
                    flow,
                    final(state)@,
                    store,
                    #[trigger] binary_step(op, old(state)@, store),
                ),
            binary_step(op, old(state)@, Map::empty()) is Host ==> exists|used: Seq<Reply>|
                #[trigger] binary_served(flow, final(state)@, op, old(state)@, used),
    {
        match binary_op(state, op, unit) {
            Ok(()) => Flow::Continue,
            Err(error) => Flow::Fail(error),
        }
    }

    /// Runs the program.
    ///
    /// The machine carries out one instruction after another, from the first
    /// on, until a `Return` ends the run with the value on top of the stack,
    /// or null where the stack is empty, or until an error ends it.
    ///
    /// The run ends as [`run_with`] says of the replies that the host gave,
    /// and leaves the variable store that it says. A program that does not
    /// touch the event, calls no function and needs no float arithmetic ends
    /// as [`run_program`] says, whatever the host is, and leaves the event as
    /// it was.
    #[verifier::rlimit(60)]
    pub fn interpret(&self, ctx: &mut Context) -> (r: Result<Value, ExpressionError>)
        ensures
            ends_as(run_program(self@, old(ctx).state@), r, final(ctx).state@) || run_program(
                self@,
                old(ctx).state@,
            ) is Host,
            exists|replies: Seq<Reply>| #[trigger]
                ends_as(
                    run_with(self@, StateView::start(), old(ctx).state@, replies),
                    r,
                    final(ctx).state@,
                ),
            !(run_program(self@, old(ctx).state@) is Host) ==> final(ctx).target == old(ctx).target,
    {
        let mut state: VmState<S> = VmState::new(self);
        let ghost program = self@;
        let ghost first = old(ctx).state@;
        let ghost mut log = Seq::<Reply>::empty();
        loop
            invariant
                state.vm == self,
                program == self@,
                first == old(ctx).state@,
                0 <= state@.ip <= program.code.len(),
                run_program(program, first) is Host || run_program(program, first) == run(
                    program,
                    state@,
                    ctx.state@,
                ),
                run_program(program, first) is Host || ctx.target == old(ctx).target,
                forall|rest: Seq<Reply>| #[trigger]
                    run_with(program, StateView::start(), first, log + rest) == run_with(
                        program,
                        state@,
                        ctx.state@,
                        rest,
                    ),
            decreases program.code.len() - state@.ip,
        {
            let ghost before = state@;
            let ghost store = ctx.state@;
            let ghost told = log;
            proof {
                crate::semantics::lemma_transition_moves_on(program, before, store);
            }
            let flow = Self::step(&mut state, ctx);
            proof {
                let used = if transition(program, before, store) is Host {
                    choose|used: Seq<Reply>|
                        step_served(flow, state@, ctx.state@, program, before, store, used)
                } else {
                    Seq::<Reply>::empty()
                };
                log = told + used;
                assert forall|rest: Seq<Reply>| #[trigger]
                    run_with(program, before, store, used + rest) == (match flow {
                        Flow::Continue => run_with(program, state@, ctx.state@, rest),
                        Flow::Return(value) => Outcome::Return(value@, ctx.state@),
                        Flow::Fail(error) => Outcome::Fail(error@, ctx.state@),
                    }) by {
                    if transition(program, before, store) is Host {
                        assert((used + rest).skip(used.len() as int) =~= rest);
                    } else {
                        assert(used + rest =~= rest);
                    }
                }
                assert forall|rest: Seq<Reply>| #[trigger]
                    run_with(program, StateView::start(), first, log + rest) == run_with(
                        program,
                        before,
                        store,
                        used + rest,
                    ) by {
                    assert(log + rest =~= told + (used + rest));
                }
                assert(log + Seq::<Reply>::empty() =~= log);
            }
            match flow {
                Flow::Continue => {},
                Flow::Return(value) => {
                    assert(ends_as(
                        run_with(program, StateView::start(), first, log),
                        Ok(value),
                        ctx.state@,
                    ));
                    return Ok(value);
                },
                Flow::Fail(error) => {
                    assert(ends_as(
                        run_with(program, StateView::start(), first, log),
                        Err(error),
                        ctx.state@,
                    ));
                    return Err(error);
                },
            }
        }
    }
}

} // verus!
