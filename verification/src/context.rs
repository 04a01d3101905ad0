//! What a run works on: the event, the variable store, the float unit, and
//! the functions that a program may call.

use crate::arithmetic::ValueKind;
use crate::error::CallError;
use crate::keymap::KeyMap;
use crate::kind::lemma_view_kind;
use crate::kind::Kind;
use crate::kind::KindView;
use crate::number::FloatUnit;
use crate::path::Lookup;
use crate::value::views_of_map;
use crate::value::Value;
use crate::value::ValueView;
use vstd::prelude::*;

verus! {

/// The event that a program reads and writes.
pub trait Target {
    /// The value at `path`, if there is one.
    fn get(&self, path: &Lookup) -> Result<Option<Value>, String>;

    /// Puts `value` at `path`.
    fn insert(&mut self, path: &Lookup, value: Value) -> Result<(), String>;
}

/// The variable store of one run: the locals of the program, by name.
#[derive(Debug, PartialEq, Eq)]
pub struct Runtime {
    variables: KeyMap<Value>,
}

impl View for Runtime {
    type V = Map<Seq<char>, ValueView>;

    closed spec fn view(&self) -> Map<Seq<char>, ValueView> {
        views_of_map(self.variables@)
    }
}

impl Runtime {
    /// A store without variables.
    pub fn new() -> (store: Runtime)
        ensures
            store@ == Map::<Seq<char>, ValueView>::empty(),
    {
        let store = Runtime { variables: KeyMap::new() };
        store
    }

    /// The value of the variable `ident`, if it is set.
    pub fn variable(&self, ident: &str) -> (r: Option<&Value>)
        ensures
            match r {
                Some(value) => self@.contains_key(ident@) && self@[ident@] == value@,
                None => !self@.contains_key(ident@),
            },
    {
        self.variables.get(ident)
    }

    /// Sets the variable `ident` to `value`.
    pub fn insert_variable(&mut self, ident: String, value: Value)
        ensures
            final(self)@ == old(self)@.insert(ident@, value@),
    {
        self.variables.insert(ident, value);
    }

    /// Takes the variable `ident` out of the store and returns its value.
    pub fn take_variable(&mut self, ident: &str) -> (r: Option<Value>)
        ensures
            final(self)@ == old(self)@.remove(ident@),
            match r {
                Some(value) => old(self)@.contains_key(ident@) && old(self)@[ident@] == value@,
                None => !old(self)@.contains_key(ident@),
            },
    {
        let r = self.variables.remove(ident);
        r
    }
}

/// What a run works on.
pub struct Context<'a> {
    /// The event.
    pub target: &'a mut dyn Target,
    /// The variable store.
    pub state: &'a mut Runtime,
    /// The unit that computes with floating-point numbers.
    pub floats: &'a dyn FloatUnit,
}

/// One parameter of a function.
#[derive(Debug, PartialEq, Eq)]
pub struct Parameter {
    /// The name of the parameter.
    pub keyword: String,
    /// The kinds of value that the parameter takes.
    pub kind: Kind,
    /// Whether an argument must be given.
    pub required: bool,
}

/// Whether a kind has the shape of values of the variant `value`.
pub open spec fn admits(kind: KindView, value: ValueKind) -> bool {
    match value {
        ValueKind::Bytes => kind.bytes,
        ValueKind::Integer => kind.integer,
        ValueKind::Float => kind.float,
        ValueKind::Boolean => kind.boolean,
        ValueKind::Object => kind.object is Present,
        ValueKind::Array => kind.array is Present,
        ValueKind::Timestamp => kind.timestamp,
        ValueKind::Regex => kind.regex,
        ValueKind::Null => kind.null,
    }
}

impl Kind {
    /// Whether the kind has the shape of values of the variant `value`.
    pub fn admits(&self, value: ValueKind) -> (b: bool)
        ensures
            b == admits(self@, value),
    {
        proof {
            lemma_view_kind(*self);
        }
        match value {
            ValueKind::Bytes => self.bytes,
            ValueKind::Integer => self.integer,
            ValueKind::Float => self.float,
            ValueKind::Boolean => self.boolean,
            ValueKind::Object => self.object.is_some(),
            ValueKind::Array => self.array.is_some(),
            ValueKind::Timestamp => self.timestamp,
            ValueKind::Regex => self.regex,
            ValueKind::Null => self.null,
        }
    }
}

/// An argument of a call: a value, or a static parameter of the program.
pub enum VmArgument<'a, S> {
    Value(Value),
    Any(&'a S),
}

/// What a slot of the parameter stack stands for.
pub enum ArgumentView<S> {
    /// No argument was given.
    Absent,
    /// The argument is this value.
    Value(ValueView),
    /// The argument is this static parameter.
    Any(S),
}

/// What a slot of the parameter stack stands for.
pub open spec fn argument_view<S>(slot: Option<VmArgument<'_, S>>) -> ArgumentView<S> {
    match slot {
        None => ArgumentView::Absent,
        Some(VmArgument::Value(value)) => ArgumentView::Value(value@),
        Some(VmArgument::Any(any)) => ArgumentView::Any(*any),
    }
}

/// What a sequence of slots stands for.
pub open spec fn argument_views<S>(slots: Seq<Option<VmArgument<'_, S>>>) -> Seq<ArgumentView<S>> {
    Seq::new(slots.len(), |i: int| argument_view(slots[i]))
}

/// What is wrong with an argument.
#[derive(Clone, Copy, Debug, PartialEq, Eq, Structural)]
pub enum ArgumentFault {
    /// The parameter at this position is required and has no argument.
    Missing(usize),
    /// The argument at this position is of a kind that its parameter does
    /// not take.
    Mismatch(usize),
}

/// What is wrong with the argument at position `i`, if anything.
pub open spec fn fault_at<S>(parameter: Parameter, argument: ArgumentView<S>, i: usize) -> Option<
    ArgumentFault,
> {
    match argument {
        ArgumentView::Absent => if parameter.required {
            Some(ArgumentFault::Missing(i))
        } else {
            None
        },
        ArgumentView::Value(value) => if admits(parameter.kind@, value.kind()) {
            None
        } else {
            Some(ArgumentFault::Mismatch(i))
        },
        ArgumentView::Any(_) => None,
    }
}

/// The first fault among the arguments from position `from` on.
pub open spec fn first_fault<S>(
    parameters: Seq<Parameter>,
    arguments: Seq<ArgumentView<S>>,
    from: int,
) -> Option<ArgumentFault>
    decreases parameters.len() - from,
{
    if from < 0 || from >= parameters.len() || from >= arguments.len() {
        None
    } else {
        match fault_at(parameters[from], arguments[from], from as usize) {
            Some(fault) => Some(fault),
            None => first_fault(parameters, arguments, from + 1),
        }
    }
}

/// The message on a fault.
pub open spec fn fault_text(parameters: Seq<Parameter>, fault: ArgumentFault) -> Seq<char> {
    match fault {
        ArgumentFault::Missing(i) => "missing required argument: "@ + parameters[i as int].keyword@,
        ArgumentFault::Mismatch(i) => "invalid argument type for: "@
            + parameters[i as int].keyword@,
    }
}

/// The failure that reports a fault.
pub open spec fn fault_error(parameters: Seq<Parameter>, fault: ArgumentFault)
    -> crate::error::CallErrorView {
    crate::error::CallErrorView {
        message: fault_text(parameters, fault),
        labels: Seq::empty(),
        notes: Seq::empty(),
    }
}

/// The arguments of one call, each beside its parameter.
pub struct VmArgumentList<'a, S> {
    pub parameters: Vec<Parameter>,
    pub values: Vec<Option<VmArgument<'a, S>>>,
}

impl<'a, S> VmArgumentList<'a, S> {
    /// The list of `values` for `parameters`.
    pub fn new(parameters: Vec<Parameter>, values: Vec<Option<VmArgument<'a, S>>>) -> (list: Self)
        ensures
            list.parameters == parameters,
            list.values == values,
    {
        VmArgumentList { parameters, values }
    }

    /// Checks each argument against its parameter: a required parameter has
    /// an argument, and an argument that is a value is of a kind that its
    /// parameter takes. Reports the first fault.
    pub fn check_arguments(&self) -> (r: Result<(), CallError>)
        ensures
            match first_fault(self.parameters@, argument_views(self.values@), 0) {
                None => r is Ok,
                Some(fault) => r matches Err(error) && error@ == fault_error(
                    self.parameters@,
                    fault,
                ),
            },
    {
        let mut i: usize = 0;
        let ghost arguments = argument_views(self.values@);
        while i < self.parameters.len() && i < self.values.len()
            invariant
                arguments == argument_views(self.values@),
                first_fault(self.parameters@, arguments, 0) == first_fault(
                    self.parameters@,
                    arguments,
                    i as int,
                ),
            decreases self.parameters@.len() - i,
        {
            let parameter = &self.parameters[i];
            match &self.values[i] {
                None => {
                    if parameter.required {
                        let mut error = CallError::new("missing required argument: ");
                        error.message.append(parameter.keyword.as_str());
                        return Err(error);
                    }
                },
                Some(VmArgument::Value(value)) => {
                    if !parameter.kind.admits(value.kind()) {
                        let mut error = CallError::new("invalid argument type for: ");
                        error.message.append(parameter.keyword.as_str());
                        return Err(error);
                    }
                },
                Some(VmArgument::Any(_)) => {},
            }
            i += 1;
        }
        Ok(())
    }
}

/// A function that programs may call.
pub trait Function<S>: Send + Sync {
    /// The name of the function.
    fn identifier(&self) -> String;

    /// The parameters of the function, in the order of its arguments.
    fn parameters(&self) -> Vec<Parameter>;

    /// Calls the function.
    fn call(&self, ctx: &mut Context, args: &mut VmArgumentList<S>) -> Result<Value, CallError>;
}

} // verus!
