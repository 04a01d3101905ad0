//! What the host says, and how a run goes on from it.
//!
//! The machine asks its host for four things: the float unit to convert an
//! integer or to compute, the event to give or to take a value, and a
//! function to describe itself and to run. What the host says is a
//! [`Reply`]. A run is determined by the program, the variable store at its
//! start and the replies of the host, in the order in which they are asked
//! for.

use crate::arithmetic::evaluate;
use crate::arithmetic::float_op;
use crate::arithmetic::likeness;
use crate::arithmetic::numeric_result;
use crate::arithmetic::BinaryOp;
use crate::arithmetic::Evaluation;
use crate::arithmetic::Likeness;
use crate::arithmetic::Operand;
use crate::context::fault_error;
use crate::context::first_fault;
use crate::context::Parameter;
use crate::error::CallErrorView;
use crate::error::ErrorView;
use crate::error::FetchError;
use crate::error::Span;
use crate::machine::OpCode;
use crate::machine::Program;
use crate::number::float_eq;
use crate::semantics::assign;
use crate::semantics::guarded;
use crate::semantics::target_at;
use crate::semantics::text_value;
use crate::semantics::transition;
use crate::semantics::Outcome;
use crate::semantics::Transition;
use crate::state::opcode_at;
use crate::state::primitive_at;
use crate::state::StateView;
use crate::value::ValueView;
use crate::variable::VariableView;
use vstd::prelude::*;

verus! {

/// What the host says when it is asked.
pub enum Reply {
    /// The float unit: the floating-point number nearest to an integer.
    Converted(u64),
    /// The float unit: the result of an operation.
    Computed(u64),
    /// The event: the value at the path.
    Found(ValueView),
    /// The event: there is no value at the path.
    NotFound,
    /// The event: the value is stored.
    Stored,
    /// The event: it cannot be read or written, and why.
    Refused(Seq<char>),
    /// A function: its parameters.
    Parameters(Seq<Parameter>),
    /// A function: its name.
    Identifier(Seq<char>),
    /// A function: its result, and the variable store as the call left it.
    Returned(ValueView, Map<Seq<char>, ValueView>),
    /// A function: its failure, and the variable store as the call left it.
    Failed(CallErrorView, Map<Seq<char>, ValueView>),
}

/// What an instruction leads to, given what the host says.
pub enum Hosted<S> {
    /// The run goes on in this state, with this variable store, after this
    /// many replies.
    Next(StateView<S>, Map<Seq<char>, ValueView>, nat),
    /// The run ends with this error, and this variable store.
    Fail(ErrorView, Map<Seq<char>, ValueView>),
    /// The replies are not those that the instruction asks for.
    Stuck,
}

/// The number of replies that it takes to have `operand` as a
/// floating-point number.
pub open spec fn conversions(operand: Operand) -> nat {
    match operand {
        Operand::Integer(_) => 1,
        Operand::Float(_) => 0,
    }
}

/// `operand` as a floating-point number: itself, or what the reply at `at`
/// says that the integer converts to.
pub open spec fn converted(operand: Operand, replies: Seq<Reply>, at: int) -> Option<u64> {
    match operand {
        Operand::Float(bits) => Some(bits),
        Operand::Integer(_) => if 0 <= at < replies.len() {
            match replies[at] {
                Reply::Converted(bits) => Some(bits),
                _ => None,
            }
        } else {
            None
        },
    }
}

/// A guarded operation that needs the float unit: the operands are
/// converted, the left one first, and the unit computes where the operation
/// is arithmetic.
pub open spec fn binary_hosted<S>(
    op: BinaryOp,
    state: StateView<S>,
    store: Map<Seq<char>, ValueView>,
    replies: Seq<Reply>,
) -> Hosted<S> {
    if state.error is Some || state.stack.len() < 2 {
        Hosted::Stuck
    } else {
        match evaluate(op, state.peek(1), state.peek(0)) {
            Evaluation::Numeric(lhs, rhs) => {
                let first = conversions(lhs);
                let both = first + conversions(rhs);
                match (converted(lhs, replies, 0), converted(rhs, replies, first as int)) {
                    (Some(l), Some(r)) => if float_op(op) is None {
                        Hosted::Next(
                            state.pop(2).push(numeric_result(op, l, r, 0)),
                            store,
                            both,
                        )
                    } else if both < replies.len() {
                        match replies[both as int] {
                            Reply::Computed(computed) => Hosted::Next(
                                state.pop(2).push(numeric_result(op, l, r, computed)),
                                store,
                                both + 1,
                            ),
                            _ => Hosted::Stuck,
                        }
                    } else {
                        Hosted::Stuck
                    },
                    _ => Hosted::Stuck,
                }
            },
            _ => Hosted::Stuck,
        }
    }
}

/// `Equal` or `NotEqual` on an integer and a floating-point number: the
/// integer is converted, and the two are alike where they are the same
/// number.
pub open spec fn equality_hosted<S>(
    negate: bool,
    state: StateView<S>,
    store: Map<Seq<char>, ValueView>,
    replies: Seq<Reply>,
) -> Hosted<S> {
    if state.stack.len() < 2 {
        Hosted::Stuck
    } else {
        match likeness(state.peek(1), state.peek(0)) {
            Likeness::Numeric(lhs, rhs) => {
                let first = conversions(lhs);
                match (converted(lhs, replies, 0), converted(rhs, replies, first as int)) {
                    (Some(l), Some(r)) => Hosted::Next(
                        state.pop(2).push(ValueView::Boolean(float_eq(l, r) != negate)),
                        store,
                        first + conversions(rhs),
                    ),
                    _ => Hosted::Stuck,
                }
            },
            _ => Hosted::Stuck,
        }
    }
}

/// `GetPath` on the event: what the event gives goes on the stack, null
/// where it has nothing, and a refusal ends the run.
pub open spec fn get_hosted<S>(
    state: StateView<S>,
    store: Map<Seq<char>, ValueView>,
    replies: Seq<Reply>,
) -> Hosted<S> {
    if replies.len() == 0 {
        Hosted::Stuck
    } else {
        match replies[0] {
            Reply::Found(value) => Hosted::Next(state.advance(1).push(value), store, 1),
            Reply::NotFound => Hosted::Next(state.advance(1).push(ValueView::Null), store, 1),
            Reply::Refused(message) => Hosted::Fail(ErrorView::Host(message), store),
            _ => Hosted::Stuck,
        }
    }
}

/// What an assignment leads to.
pub enum Assigned {
    /// To this variable store, after this many replies.
    Done(Map<Seq<char>, ValueView>, nat),
    /// The event refused the value, and why.
    Refused(Seq<char>),
    /// The reply is not one that an assignment asks for.
    Stuck,
}

/// The assignment of `value` to `variable`, where the reply at `at` is what
/// the event says to a value that goes to it.
pub open spec fn assign_hosted(
    store: Map<Seq<char>, ValueView>,
    variable: VariableView,
    value: ValueView,
    replies: Seq<Reply>,
    at: int,
) -> Assigned {
    if variable is External {
        if 0 <= at < replies.len() {
            match replies[at] {
                Reply::Stored => Assigned::Done(store, 1),
                Reply::Refused(message) => Assigned::Refused(message),
                _ => Assigned::Stuck,
            }
        } else {
            Assigned::Stuck
        }
    } else {
        Assigned::Done(assign(store, variable, value), 0)
    }
}

/// `SetPath` on the event.
pub open spec fn set_hosted<S>(
    program: Program<S>,
    state: StateView<S>,
    store: Map<Seq<char>, ValueView>,
    replies: Seq<Reply>,
) -> Hosted<S> {
    match target_at(program, state.ip) {
        Ok(target) => if state.stack.len() == 0 {
            Hosted::Stuck
        } else {
            match assign_hosted(store, target, state.peek(0), replies, 0) {
                Assigned::Done(changed, used) => Hosted::Next(state.advance(1), changed, used),
                Assigned::Refused(message) => Hosted::Fail(ErrorView::Host(message), store),
                Assigned::Stuck => Hosted::Stuck,
            }
        },
        Err(_) => Hosted::Stuck,
    }
}

/// Two assignments, one after the other; the run goes on in `next` where
/// both are done.
pub open spec fn assign_both<S>(
    next: StateView<S>,
    store: Map<Seq<char>, ValueView>,
    ok: VariableView,
    first: ValueView,
    err: VariableView,
    second: ValueView,
    replies: Seq<Reply>,
) -> Hosted<S> {
    match assign_hosted(store, ok, first, replies, 0) {
        Assigned::Done(once, used) => match assign_hosted(once, err, second, replies, used as int) {
            Assigned::Done(twice, more) => Hosted::Next(next, twice, used + more),
            Assigned::Refused(message) => Hosted::Fail(ErrorView::Host(message), once),
            Assigned::Stuck => Hosted::Stuck,
        },
        Assigned::Refused(message) => Hosted::Fail(ErrorView::Host(message), store),
        Assigned::Stuck => Hosted::Stuck,
    }
}

/// `SetPathInfallible` where a target is in the event.
pub open spec fn set_infallible_hosted<S>(
    program: Program<S>,
    state: StateView<S>,
    store: Map<Seq<char>, ValueView>,
    replies: Seq<Reply>,
) -> Hosted<S> {
    match (
        target_at(program, state.ip),
        target_at(program, state.ip + 1),
        primitive_at(program.code, state.ip + 2),
    ) {
        (Ok(ok), Ok(err), Ok(slot)) => if slot >= program.constants.len() {
            Hosted::Stuck
        } else {
            match state.error {
                Some(error) => {
                    let text = text_value(error.message());
                    assign_both(
                        state.advance(3).with_error(None).push(text),
                        store,
                        ok,
                        program.constants[slot as int],
                        err,
                        text,
                        replies,
                    )
                },
                None => if state.stack.len() == 0 {
                    Hosted::Stuck
                } else {
                    assign_both(
                        state.advance(3),
                        store,
                        ok,
                        state.peek(0),
                        err,
                        ValueView::Null,
                        replies,
                    )
                },
            }
        },
        _ => Hosted::Stuck,
    }
}

/// The state after a call: with the result on the stack, or with the
/// failure in the error register, under the name of the function and the
/// place of the call.
pub open spec fn after_call<S>(
    state: StateView<S>,
    result: Result<ValueView, CallErrorView>,
    identifier: Seq<char>,
    span: Span,
) -> StateView<S> {
    match result {
        Ok(value) => state.push(value),
        Err(error) => state.with_error(Some(ErrorView::Call(error.annotated(identifier, span)))),
    }
}

/// `Call`: the function says what parameters it has, and as many arguments
/// are taken from the top of the parameter stack. Where the arguments fit
/// the parameters the function runs; where they do not, the call fails
/// without it. Then the function says its name.
pub open spec fn call_hosted<S>(
    program: Program<S>,
    state: StateView<S>,
    store: Map<Seq<char>, ValueView>,
    replies: Seq<Reply>,
) -> Hosted<S> {
    match (primitive_at(program.code, state.ip + 1), primitive_at(program.code, state.ip + 2)) {
        (Ok(start), Ok(end)) => if replies.len() > 0 && replies[0] is Parameters {
            let parameters = replies[0]->Parameters_0;
            let have = state.parameters.len();
            if have < parameters.len() {
                Hosted::Fail(ErrorView::Fetch(FetchError::StackUnderflow), store)
            } else {
                let kept = state.parameters.take(have - parameters.len());
                let arguments = state.parameters.skip(have - parameters.len());
                let base = StateView { parameters: kept, ..state.advance(3) };
                let span = Span { start, end };
                match first_fault(parameters, arguments, 0) {
                    Some(fault) => if replies.len() > 1 && replies[1] is Identifier {
                        Hosted::Next(
                            after_call(
                                base,
                                Err(fault_error(parameters, fault)),
                                replies[1]->Identifier_0,
                                span,
                            ),
                            store,
                            2,
                        )
                    } else {
                        Hosted::Stuck
                    },
                    None => if replies.len() > 2 && replies[2] is Identifier {
                        match replies[1] {
                            Reply::Returned(value, changed) => Hosted::Next(
                                after_call(base, Ok(value), replies[2]->Identifier_0, span),
                                changed,
                                3,
                            ),
                            Reply::Failed(error, changed) => Hosted::Next(
                                after_call(base, Err(error), replies[2]->Identifier_0, span),
                                changed,
                                3,
                            ),
                            _ => Hosted::Stuck,
                        }
                    } else {
                        Hosted::Stuck
                    },
                }
            }
        } else {
            Hosted::Stuck
        },
        _ => Hosted::Stuck,
    }
}

/// What `code` leads to in `state`, the state just after the opcode is read,
/// given what the host says.
pub open spec fn hosted<S>(
    code: OpCode,
    program: Program<S>,
    state: StateView<S>,
    store: Map<Seq<char>, ValueView>,
    replies: Seq<Reply>,
) -> Hosted<S> {
    match code {
        OpCode::NotEqual => equality_hosted(true, state, store, replies),
        OpCode::Equal => equality_hosted(false, state, store, replies),
        OpCode::GetPath => get_hosted(state, store, replies),
        OpCode::SetPath => set_hosted(program, state, store, replies),
        OpCode::SetPathInfallible => set_infallible_hosted(program, state, store, replies),
        OpCode::Call => call_hosted(program, state, store, replies),
        _ => match guarded(code) {
            Some(op) => binary_hosted(op, state, store, replies),
            None => Hosted::Stuck,
        },
    }
}

/// The instruction at the instruction pointer may write to the event: it
/// stores to a target in the event, or it calls a function.
pub open spec fn writes_event<S>(program: Program<S>, state: StateView<S>) -> bool {
    match opcode_at(program.code, state.ip) {
        Ok(OpCode::Call) => true,
        Ok(OpCode::SetPath) => target_at(program, state.ip + 1) matches Ok(target)
            && target is External,
        Ok(OpCode::SetPathInfallible) => (target_at(program, state.ip + 1) matches Ok(target)
            && target is External) || (target_at(program, state.ip + 2) matches Ok(target)
            && target is External),
        _ => false,
    }
}

/// How the run from `state` ends, given what the host says. Each
/// instruction that asks the host takes its replies from the front of
/// `replies`. Where the replies are not those that are asked for, or run
/// out, the end is left open.
pub open spec fn run_with<S>(
    program: Program<S>,
    state: StateView<S>,
    store: Map<Seq<char>, ValueView>,
    replies: Seq<Reply>,
) -> Outcome
    decreases program.code.len() - state.ip,
{
    match transition(program, state, store) {
        Transition::Return(value) => Outcome::Return(value, store),
        Transition::Fail(error) => Outcome::Fail(error, store),
        Transition::Next(next, changed) => if state.ip < next.ip <= program.code.len() {
            run_with(program, next, changed, replies)
        } else {
            Outcome::Host
        },
        Transition::Host => match opcode_at(program.code, state.ip) {
            Ok(code) => match hosted(code, program, state.advance(1), store, replies) {
                Hosted::Next(next, changed, used) => if state.ip < next.ip <= program.code.len()
                    && used <= replies.len() {
                    run_with(program, next, changed, replies.skip(used as int))
                } else {
                    Outcome::Host
                },
                Hosted::Fail(error, changed) => Outcome::Fail(error, changed),
                Hosted::Stuck => Outcome::Host,
            },
            Err(_) => Outcome::Host,
        },
    }
}

/// A run with a host can be taken up where its first `n` instructions have
/// led without asking the host: it ends as the run from there ends, on the
/// same replies.
pub proof fn lemma_run_with_resumes_after<S>(
    program: Program<S>,
    state: StateView<S>,
    store: Map<Seq<char>, ValueView>,
    replies: Seq<Reply>,
    n: nat,
)
    requires
        0 <= state.ip,
    ensures
        crate::semantics::after(program, state, store, n) matches Transition::Next(next, changed)
            ==> run_with(program, state, store, replies) == run_with(
            program,
            next,
            changed,
            replies,
        ),
    decreases n,
{
    if n > 0 {
        crate::semantics::lemma_transition_moves_on(program, state, store);
        match transition(program, state, store) {
            Transition::Next(next, changed) => {
                lemma_run_with_resumes_after(program, next, changed, replies, (n - 1) as nat);
            },
            _ => {},
        }
    }
}

/// A run that asks the host for nothing ends the same whatever the host
/// would say.
pub proof fn lemma_run_without_host<S>(
    program: Program<S>,
    state: StateView<S>,
    store: Map<Seq<char>, ValueView>,
    replies: Seq<Reply>,
)
    requires
        !(crate::semantics::run(program, state, store) is Host),
    ensures
        run_with(program, state, store, replies) == crate::semantics::run(program, state, store),
    decreases program.code.len() - state.ip,
{
    match transition(program, state, store) {
        Transition::Next(next, changed) => {
            if state.ip < next.ip <= program.code.len() {
                lemma_run_without_host(program, next, changed, replies);
            }
        },
        _ => {},
    }
}

} // verus!
