//! The operations on values.

use crate::keymap::bytes_lt;
use crate::keymap::rank_bytes;
use crate::keymap::KeyMap;
use crate::keymap::Rank;
use crate::number::check_zero;
use crate::number::float_eq;
use crate::number::float_le;
use crate::number::float_lt;
use crate::number::is_zero;
use crate::number::or_zero;
use crate::number::FloatOp;
use crate::number::FloatUnit;
use crate::value::lemma_view_object;
use crate::value::views_of_map;
use crate::value::Value;
use crate::value::ValueView;
use vstd::prelude::*;

verus! {

/// The variant of a value.
#[derive(Clone, Copy, Debug, PartialEq, Eq, Structural)]
pub enum ValueKind {
    Bytes,
    Integer,
    Float,
    Boolean,
    Object,
    Array,
    Timestamp,
    Regex,
    Null,
}

/// An operation on two values.
#[derive(Clone, Copy, Debug, PartialEq, Eq, Structural)]
pub enum BinaryOp {
    Add,
    Subtract,
    Multiply,
    Divide,
    Rem,
    Merge,
    Greater,
    GreaterEqual,
    Less,
    LessEqual,
}

/// Why an operation has no result.
#[derive(Clone, Copy, Debug, PartialEq, Eq, Structural)]
pub enum OperationError {
    /// The operation is not defined on operands of these two kinds.
    Unsupported(BinaryOp, ValueKind, ValueKind),
    /// The divisor is zero.
    DivideByZero,
    /// There is no value to negate.
    NegatingNothing,
    /// What is to be negated is no floating-point number.
    NegatingNonNumber,
    /// There is no value to invert.
    NottingNothing,
    /// What is to be inverted is no boolean.
    NottingNonBoolean,
    /// A value of the first kind is due, and one of the second is there.
    Expected(ValueKind, ValueKind),
}

/// An operand that is a number.
#[derive(Clone, Copy, Debug, PartialEq, Eq, Structural)]
pub enum Operand {
    Integer(i64),
    Float(u64),
}

/// What an operation on two values comes to.
pub enum Evaluation {
    /// This value.
    Value(ValueView),
    /// This error.
    Error(OperationError),
    /// What the float unit makes of these two numbers.
    Numeric(Operand, Operand),
}

impl ValueView {
    /// The variant of the value.
    pub open spec fn kind(self) -> ValueKind {
        match self {
            ValueView::Null => ValueKind::Null,
            ValueView::Boolean(_) => ValueKind::Boolean,
            ValueView::Integer(_) => ValueKind::Integer,
            ValueView::Float(_) => ValueKind::Float,
            ValueView::Bytes(_) => ValueKind::Bytes,
            ValueView::Regex(_) => ValueKind::Regex,
            ValueView::Timestamp(_) => ValueKind::Timestamp,
            ValueView::Array(_) => ValueKind::Array,
            ValueView::Object(_) => ValueKind::Object,
        }
    }

    /// The value as a numeric operand, where it is a number.
    pub open spec fn operand(self) -> Option<Operand> {
        match self {
            ValueView::Integer(i) => Some(Operand::Integer(i)),
            ValueView::Float(bits) => Some(Operand::Float(bits)),
            _ => None,
        }
    }
}

impl Operand {
    /// The operand is zero.
    pub open spec fn is_zero(self) -> bool {
        match self {
            Operand::Integer(i) => i == 0,
            Operand::Float(bits) => is_zero(bits),
        }
    }

    /// `bits` may stand for the operand as a floating-point number: a
    /// floating-point operand is its own pattern, an integer is whatever the
    /// float unit converts it to.
    pub open spec fn promoted(self, bits: u64) -> bool {
        self matches Operand::Float(own) ==> bits == own
    }
}

/// The remainder of a signed division that rounds toward zero. The one
/// division that overflows, of the least integer by minus one, leaves zero.
pub open spec fn int_rem(a: i64, b: i64) -> i64 {
    match a.checked_rem(b) {
        Some(r) => r,
        None => 0,
    }
}

/// What an operation comes to on two operands of which it has no case of its
/// own: float arithmetic on two numbers, and an error on anything else.
pub open spec fn numeric_or_unsupported(op: BinaryOp, lhs: ValueView, rhs: ValueView) -> Evaluation {
    match (lhs.operand(), rhs.operand()) {
        (Some(l), Some(r)) => Evaluation::Numeric(l, r),
        _ => Evaluation::Error(OperationError::Unsupported(op, lhs.kind(), rhs.kind())),
    }
}

/// What a division or a remainder comes to.
pub open spec fn divide(op: BinaryOp, lhs: ValueView, rhs: ValueView) -> Evaluation {
    match (lhs.operand(), rhs.operand()) {
        (_, None) => Evaluation::Error(OperationError::Unsupported(op, lhs.kind(), rhs.kind())),
        (None, Some(r)) => if r.is_zero() {
            Evaluation::Error(OperationError::DivideByZero)
        } else {
            Evaluation::Error(OperationError::Unsupported(op, lhs.kind(), rhs.kind()))
        },
        (Some(l), Some(r)) => if r.is_zero() {
            Evaluation::Error(OperationError::DivideByZero)
        } else {
            match (op, l, r) {
                (BinaryOp::Rem, Operand::Integer(a), Operand::Integer(b)) => Evaluation::Value(
                    ValueView::Integer(int_rem(a, b)),
                ),
                _ => Evaluation::Numeric(l, r),
            }
        },
    }
}

/// Whether `a` stands to `b` as the comparison `op` asks, given whether `a`
/// is less than `b` and whether `b` is less than `a`.
pub open spec fn holds(op: BinaryOp, less: bool, greater: bool) -> bool {
    match op {
        BinaryOp::Greater => greater,
        BinaryOp::GreaterEqual => !less,
        BinaryOp::Less => less,
        _ => !greater,
    }
}

/// Whether the floating-point number `a` stands to `b` as the comparison
/// `op` asks. No comparison holds of what is not a number.
pub open spec fn float_holds(op: BinaryOp, a: u64, b: u64) -> bool {
    match op {
        BinaryOp::Greater => float_lt(b, a),
        BinaryOp::GreaterEqual => float_le(b, a),
        BinaryOp::Less => float_lt(a, b),
        _ => float_le(a, b),
    }
}

/// What a comparison comes to.
pub open spec fn compare(op: BinaryOp, lhs: ValueView, rhs: ValueView) -> Evaluation {
    match (lhs, rhs) {
        (ValueView::Integer(a), ValueView::Integer(b)) => Evaluation::Value(
            ValueView::Boolean(holds(op, a < b, b < a)),
        ),
        (ValueView::Timestamp(a), ValueView::Timestamp(b)) => Evaluation::Value(
            ValueView::Boolean(holds(op, a < b, b < a)),
        ),
        (ValueView::Bytes(a), ValueView::Bytes(b)) => Evaluation::Value(
            ValueView::Boolean(holds(op, bytes_lt(a, b), bytes_lt(b, a))),
        ),
        (ValueView::Float(a), ValueView::Float(b)) => Evaluation::Value(
            ValueView::Boolean(float_holds(op, a, b)),
        ),
        _ => numeric_or_unsupported(op, lhs, rhs),
    }
}

/// What `op` comes to on `lhs` and `rhs`.
///
/// Two integers are added, subtracted and multiplied with wrap-around.
/// Adding joins two byte strings, and null to a byte string leaves the byte
/// string. Division is float division on any two numbers. Integers, byte
/// strings, timestamps and floating-point numbers are compared among
/// themselves. Arithmetic on a floating-point number and a number, and the
/// comparison of a floating-point number with an integer, are for the float
/// unit. Merging is for two objects, and the right one wins where both
/// have a key.
pub open spec fn evaluate(op: BinaryOp, lhs: ValueView, rhs: ValueView) -> Evaluation {
    match op {
        BinaryOp::Add => match (lhs, rhs) {
            (ValueView::Integer(a), ValueView::Integer(b)) => Evaluation::Value(
                ValueView::Integer(a.wrapping_add(b)),
            ),
            (ValueView::Bytes(a), ValueView::Bytes(b)) => Evaluation::Value(ValueView::Bytes(a + b)),
            (ValueView::Bytes(_), ValueView::Null) => Evaluation::Value(lhs),
            (ValueView::Null, ValueView::Bytes(_)) => Evaluation::Value(rhs),
            _ => numeric_or_unsupported(op, lhs, rhs),
        },
        BinaryOp::Subtract => match (lhs, rhs) {
            (ValueView::Integer(a), ValueView::Integer(b)) => Evaluation::Value(
                ValueView::Integer(a.wrapping_sub(b)),
            ),
            _ => numeric_or_unsupported(op, lhs, rhs),
        },
        BinaryOp::Multiply => match (lhs, rhs) {
            (ValueView::Integer(a), ValueView::Integer(b)) => Evaluation::Value(
                ValueView::Integer(a.wrapping_mul(b)),
            ),
            _ => numeric_or_unsupported(op, lhs, rhs),
        },
        BinaryOp::Divide => divide(op, lhs, rhs),
        BinaryOp::Rem => divide(op, lhs, rhs),
        BinaryOp::Merge => match (lhs, rhs) {
            (ValueView::Object(a), ValueView::Object(b)) => Evaluation::Value(
                ValueView::Object(a.union_prefer_right(b)),
            ),
            _ => Evaluation::Error(OperationError::Unsupported(op, lhs.kind(), rhs.kind())),
        },
        _ => compare(op, lhs, rhs),
    }
}

/// The float operation behind an arithmetic operation.
pub open spec fn float_op(op: BinaryOp) -> Option<FloatOp> {
    match op {
        BinaryOp::Add => Some(FloatOp::Add),
        BinaryOp::Subtract => Some(FloatOp::Subtract),
        BinaryOp::Multiply => Some(FloatOp::Multiply),
        BinaryOp::Divide => Some(FloatOp::Divide),
        BinaryOp::Rem => Some(FloatOp::Rem),
        _ => None,
    }
}

/// The value of `op` on two floating-point numbers `lhs` and `rhs`, where
/// `computed` is what the float unit made of them. A comparison is read off
/// the two patterns. An arithmetic result is what was computed, and zero
/// where that is not a number.
pub open spec fn numeric_result(op: BinaryOp, lhs: u64, rhs: u64, computed: u64) -> ValueView {
    match float_op(op) {
        Some(_) => ValueView::Float(or_zero(computed)),
        None => ValueView::Boolean(float_holds(op, lhs, rhs)),
    }
}

/// What the lossy comparison of two values comes to.
pub enum Likeness {
    /// The two are alike, or not.
    Known(bool),
    /// The two are alike where the float unit finds these two the same
    /// number.
    Numeric(Operand, Operand),
}

/// Whether two values are alike. Two integers are alike where they are
/// equal, an integer and a floating-point number where they are the same
/// number after the integer is converted, two floating-point numbers where
/// they are the same number. Any other two are alike where they are the
/// same value.
pub open spec fn likeness(lhs: ValueView, rhs: ValueView) -> Likeness {
    match (lhs, rhs) {
        (ValueView::Integer(a), ValueView::Integer(b)) => Likeness::Known(a == b),
        (ValueView::Float(a), ValueView::Float(b)) => Likeness::Known(float_eq(a, b)),
        (ValueView::Integer(a), ValueView::Float(b)) => Likeness::Numeric(
            Operand::Integer(a),
            Operand::Float(b),
        ),
        (ValueView::Float(a), ValueView::Integer(b)) => Likeness::Numeric(
            Operand::Float(a),
            Operand::Integer(b),
        ),
        _ => Likeness::Known(lhs == rhs),
    }
}

/// The exec form of a numeric operand.
fn operand_of(value: &Value) -> (r: Option<Operand>)
    ensures
        r == value@.operand(),
{
    match value {
        Value::Integer(i) => Some(Operand::Integer(*i)),
        Value::Float(bits) => Some(Operand::Float(*bits)),
        _ => None,
    }
}

/// The pattern that stands for an operand as a floating-point number.
fn promote(operand: Operand, unit: &dyn FloatUnit) -> (bits: u64)
    ensures
        operand.promoted(bits),
{
    match operand {
        Operand::Integer(i) => unit.from_integer(i),
        Operand::Float(bits) => bits,
    }
}

/// Whether an operand is zero.
fn operand_is_zero(operand: Operand) -> (b: bool)
    ensures
        b == operand.is_zero(),
{
    match operand {
        Operand::Integer(i) => i == 0,
        Operand::Float(bits) => check_zero(bits),
    }
}

/// The float operation behind an arithmetic operation.
fn float_op_of(op: BinaryOp) -> (r: Option<FloatOp>)
    ensures
        r == float_op(op),
{
    match op {
        BinaryOp::Add => Some(FloatOp::Add),
        BinaryOp::Subtract => Some(FloatOp::Subtract),
        BinaryOp::Multiply => Some(FloatOp::Multiply),
        BinaryOp::Divide => Some(FloatOp::Divide),
        BinaryOp::Rem => Some(FloatOp::Rem),
        _ => None,
    }
}

/// The value of `op` on two floating-point numbers, given what the float unit
/// computed from them.
pub fn finish_numeric(op: BinaryOp, lhs: u64, rhs: u64, computed: u64) -> (value: Value)
    ensures
        value@ == numeric_result(op, lhs, rhs, computed),
{
    match op {
        BinaryOp::Add | BinaryOp::Subtract | BinaryOp::Multiply | BinaryOp::Divide | BinaryOp::Rem => {
            Value::Float(crate::number::zero_if_nan(computed))
        },
        BinaryOp::Greater => Value::Boolean(crate::number::less(rhs, lhs)),
        BinaryOp::GreaterEqual => Value::Boolean(crate::number::less_or_equal(rhs, lhs)),
        BinaryOp::Less => Value::Boolean(crate::number::less(lhs, rhs)),
        _ => Value::Boolean(crate::number::less_or_equal(lhs, rhs)),
    }
}

/// Has the float unit work on two numbers.
fn numeric(op: BinaryOp, lhs: Operand, rhs: Operand, unit: &dyn FloatUnit) -> (value: Value)
    ensures
        exists|l: u64, r: u64, computed: u64|
            lhs.promoted(l) && rhs.promoted(r) && value@ == #[trigger] numeric_result(
                op,
                l,
                r,
                computed,
            ),
{
    let l = promote(lhs, unit);
    let r = promote(rhs, unit);
    let computed = match float_op_of(op) {
        Some(float_op) => unit.compute(float_op, l, r),
        None => 0,
    };
    let value = finish_numeric(op, l, r, computed);
    value
}

/// What the exec result of an operation has to be, given what the operation
/// comes to.
pub open spec fn agrees(r: Result<Value, OperationError>, evaluation: Evaluation, op: BinaryOp) -> bool {
    match evaluation {
        Evaluation::Value(v) => r matches Ok(value) && value@ == v,
        Evaluation::Error(e) => r matches Err(error) && error == e,
        Evaluation::Numeric(lhs, rhs) => r matches Ok(value) && exists|
            l: u64,
            r: u64,
            computed: u64,
        |
            lhs.promoted(l) && rhs.promoted(r) && value@ == #[trigger] numeric_result(
                op,
                l,
                r,
                computed,
            ),
    }
}

/// Float arithmetic on two numbers, and an error on anything else.
fn apply_numeric(op: BinaryOp, lhs: &Value, rhs: &Value, unit: &dyn FloatUnit) -> (r: Result<
    Value,
    OperationError,
>)
    ensures
        agrees(r, numeric_or_unsupported(op, lhs@, rhs@), op),
{
    match (operand_of(lhs), operand_of(rhs)) {
        (Some(l), Some(r)) => Ok(numeric(op, l, r, unit)),
        _ => Err(OperationError::Unsupported(op, lhs.kind(), rhs.kind())),
    }
}

/// A division or a remainder.
fn apply_divide(op: BinaryOp, lhs: &Value, rhs: &Value, unit: &dyn FloatUnit) -> (r: Result<
    Value,
    OperationError,
>)
    requires
        op == BinaryOp::Divide || op == BinaryOp::Rem,
    ensures
        agrees(r, divide(op, lhs@, rhs@), op),
{
    match (operand_of(lhs), operand_of(rhs)) {
        (_, None) => Err(OperationError::Unsupported(op, lhs.kind(), rhs.kind())),
        (None, Some(r)) => {
            if operand_is_zero(r) {
                Err(OperationError::DivideByZero)
            } else {
                Err(OperationError::Unsupported(op, lhs.kind(), rhs.kind()))
            }
        },
        (Some(l), Some(r)) => {
            if operand_is_zero(r) {
                Err(OperationError::DivideByZero)
            } else {
                match (op, l, r) {
                    (BinaryOp::Rem, Operand::Integer(a), Operand::Integer(b)) => {
                        let rem = match a.checked_rem(b) {
                            Some(rem) => rem,
                            None => 0,
                        };
                        Ok(Value::Integer(rem))
                    },
                    _ => Ok(numeric(op, l, r, unit)),
                }
            }
        },
    }
}

/// Whether a comparison holds, given the two strict orders.
fn decide(op: BinaryOp, less: bool, greater: bool) -> (b: bool)
    ensures
        b == holds(op, less, greater),
{
    match op {
        BinaryOp::Greater => greater,
        BinaryOp::GreaterEqual => !less,
        BinaryOp::Less => less,
        _ => !greater,
    }
}

/// A comparison.
fn apply_compare(op: BinaryOp, lhs: &Value, rhs: &Value, unit: &dyn FloatUnit) -> (r: Result<
    Value,
    OperationError,
>)
    requires
        float_op(op) is None,
    ensures
        agrees(r, compare(op, lhs@, rhs@), op),
{
    match (lhs, rhs) {
        (Value::Integer(a), Value::Integer(b)) => Ok(Value::Boolean(decide(op, *a < *b, *b < *a))),
        (Value::Timestamp(a), Value::Timestamp(b)) => Ok(
            Value::Boolean(decide(op, *a < *b, *b < *a)),
        ),
        (Value::Float(a), Value::Float(b)) => Ok(finish_numeric(op, *a, *b, 0)),
        (Value::Bytes(a), Value::Bytes(b)) => {
            let rank = rank_bytes(a.as_slice(), b.as_slice());
            Ok(
                Value::Boolean(
                    decide(
                        op,
                        matches!(rank, Rank::Before),
                        matches!(rank, Rank::After),
                    ),
                ),
            )
        },
        _ => apply_numeric(op, lhs, rhs, unit),
    }
}

/// One byte string after another.
fn join_bytes(a: &Vec<u8>, b: &Vec<u8>) -> (r: Vec<u8>)
    ensures
        r@ == a@ + b@,
{
    let mut out = crate::value::copy_bytes(a);
    let mut i: usize = 0;
    while i < b.len()
        invariant
            i <= b@.len(),
            out@ == a@ + b@.take(i as int),
        decreases b@.len() - i,
    {
        out.push(b[i]);
        i += 1;
    }
    out
}

/// The bindings of `over`, put into `out` over what it holds.
fn pour(out: &mut KeyMap<Value>, over: &KeyMap<Value>)
    ensures
        views_of_map(final(out)@) == views_of_map(old(out)@).union_prefer_right(
            views_of_map(over@),
        ),
{
    let ghost start = out@;
    let mut i: usize = 0;
    proof {
        over.lemma_view_is_entries_map();
    }
    while i < over.len()
        invariant
            i <= over.pairs().len(),
            over@ == crate::keymap::entries_map(over.pairs()),
            forall|k: Seq<char>| #[trigger]
                out@.contains_key(k) <==> start.contains_key(k) || exists|j: int|
                    0 <= j < i && (#[trigger] over.pairs()[j]).0@ == k,
            forall|k: Seq<char>| #[trigger]
                out@.contains_key(k) ==> out@[k]@ == (if exists|j: int|
                    0 <= j < i && (#[trigger] over.pairs()[j]).0@ == k {
                    over@[k]@
                } else {
                    start[k]@
                }),
        decreases over.pairs().len() - i,
    {
        let (key, value) = over.entry(i);
        out.insert(key.clone(), value.clone());
        i += 1;
    }
}

/// The bindings of `a`, and over them those of `b`.
fn merge_maps(a: &KeyMap<Value>, b: &KeyMap<Value>) -> (r: KeyMap<Value>)
    ensures
        views_of_map(r@) == views_of_map(a@).union_prefer_right(views_of_map(b@)),
{
    let mut out: KeyMap<Value> = KeyMap::new();
    pour(&mut out, a);
    pour(&mut out, b);
    out
}

impl Value {
    /// The variant of the value.
    pub fn kind(&self) -> (kind: ValueKind)
        ensures
            kind == self@.kind(),
    {
        match self {
            Value::Null => ValueKind::Null,
            Value::Boolean(_) => ValueKind::Boolean,
            Value::Integer(_) => ValueKind::Integer,
            Value::Float(_) => ValueKind::Float,
            Value::Bytes(_) => ValueKind::Bytes,
            Value::Regex(_) => ValueKind::Regex,
            Value::Timestamp(_) => ValueKind::Timestamp,
            Value::Array(_) => ValueKind::Array,
            Value::Object(_) => ValueKind::Object,
        }
    }

    /// Applies `op` to two values. Float arithmetic is left to `unit`.
    ///
    /// Where neither operand is a floating-point number and the operation is
    /// no division, the result is what [`evaluate`] says. Otherwise it is the
    /// [`numeric_result`] of the converted operands and of what `unit`
    /// computed from them.
    pub fn apply(op: BinaryOp, lhs: &Value, rhs: &Value, unit: &dyn FloatUnit) -> (r: Result<
        Value,
        OperationError,
    >)
        ensures
            agrees(r, evaluate(op, lhs@, rhs@), op),
    {
        match op {
            BinaryOp::Add => match (lhs, rhs) {
                (Value::Integer(a), Value::Integer(b)) => Ok(Value::Integer(a.wrapping_add(*b))),
                (Value::Bytes(a), Value::Bytes(b)) => Ok(Value::Bytes(join_bytes(a, b))),
                (Value::Bytes(_), Value::Null) => Ok(lhs.clone()),
                (Value::Null, Value::Bytes(_)) => Ok(rhs.clone()),
                _ => apply_numeric(op, lhs, rhs, unit),
            },
            BinaryOp::Subtract => match (lhs, rhs) {
                (Value::Integer(a), Value::Integer(b)) => Ok(Value::Integer(a.wrapping_sub(*b))),
                _ => apply_numeric(op, lhs, rhs, unit),
            },
            BinaryOp::Multiply => match (lhs, rhs) {
                (Value::Integer(a), Value::Integer(b)) => Ok(Value::Integer(a.wrapping_mul(*b))),
                _ => apply_numeric(op, lhs, rhs, unit),
            },
            BinaryOp::Divide => apply_divide(op, lhs, rhs, unit),
            BinaryOp::Rem => apply_divide(op, lhs, rhs, unit),
            BinaryOp::Merge => match (lhs, rhs) {
                (Value::Object(a), Value::Object(b)) => {
                    let merged = merge_maps(a, b);
                    proof {
                        lemma_view_object(*a);
                        lemma_view_object(*b);
                        lemma_view_object(merged);
                    }
                    Ok(Value::Object(merged))
                },
                _ => Err(OperationError::Unsupported(op, lhs.kind(), rhs.kind())),
            },
            _ => apply_compare(op, lhs, rhs, unit),
        }
    }

    /// Whether two values are alike, up to the loss that comes with
    /// converting an integer to a floating-point number. The conversion is
    /// left to `unit`.
    pub fn eq_lossy(&self, rhs: &Value, unit: &dyn FloatUnit) -> (alike: bool)
        ensures
            match likeness(self@, rhs@) {
                Likeness::Known(b) => alike == b,
                Likeness::Numeric(l, r) => exists|lhs: u64, rhs: u64|
                    l.promoted(lhs) && r.promoted(rhs) && alike == #[trigger] float_eq(lhs, rhs),
            },
    {
        match (self, rhs) {
            (Value::Integer(a), Value::Integer(b)) => *a == *b,
            (Value::Float(a), Value::Float(b)) => crate::number::equal(*a, *b),
            (Value::Integer(a), Value::Float(b)) => {
                let l = unit.from_integer(*a);
                let alike = crate::number::equal(l, *b);
                alike
            },
            (Value::Float(a), Value::Integer(b)) => {
                let r = unit.from_integer(*b);
                let alike = crate::number::equal(*a, r);
                alike
            },
            _ => self.equals(rhs),
        }
    }
}

} // verus!
