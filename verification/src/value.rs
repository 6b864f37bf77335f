//! The runtime values and their algebra.
//!
//! A value is an integer, a float, a boolean, a text or an array of values.
//! Binary operators are defined on pairs of one variant only; every other
//! pairing is a fault. The library never computes with floats: a float is
//! carried as its IEEE-754 bit pattern, and whatever needs float arithmetic is
//! handed to the host as a [`FloatTask`], whose [`Answer`] the host hands back.

use crate::text::{
    append_decimal, decimal, decimal_text, integer_text, joined, parse_integer, precedes,
    read_integer, same_text, text_precedes,
};
use vstd::prelude::*;

verus! {

/// A 64-bit float, carried as its bit pattern.
#[derive(Clone, Copy, Debug, PartialEq, Eq, Structural)]
pub struct Float {
    pub bits: u64,
}

/// The variant of a value.
#[derive(Clone, Copy, Debug, PartialEq, Eq, Structural)]
pub enum ValueType {
    Integer,
    Float,
    Boolean,
    String,
    Array,
}

/// The binary operators of the value algebra.
#[derive(Clone, Copy, Debug, PartialEq, Eq, Structural)]
pub enum Operator {
    Add,
    Subtract,
    Multiply,
    Divide,
    Power,
    More,
    Less,
    Equal,
}

/// A runtime value.
#[derive(Debug, PartialEq)]
pub enum Value {
    Integer(i64),
    Float(Float),
    Boolean(bool),
    String(String),
    Array(Vec<Value>),
}

/// What a value is, mathematically.
pub enum ValueView {
    Integer(i64),
    Float(Float),
    Boolean(bool),
    String(Seq<char>),
    Array(Seq<ValueView>),
}

/// Work that only the host can do, because it computes with floats or draws a
/// random number.
#[derive(Debug, PartialEq)]
pub enum FloatTask {
    /// Apply the operator to two floats: a float for the arithmetic
    /// operators, a boolean for the comparisons.
    Binary { op: Operator, left: Float, right: Float },
    /// Add the floats from left to right: a float.
    Sum(Vec<Float>),
    /// Truncate the float towards zero: an integer.
    Truncate(Float),
    /// Whether the float differs from zero: a boolean.
    Truth(Float),
    /// The decimal text of the float: a text.
    Format(Float),
    /// The float nearest to the integer: a float.
    FromInteger(i64),
    /// The float that the text denotes: a float, or no value.
    Parse(String),
    /// A float drawn uniformly from the unit interval: a float.
    Random,
}

pub enum FloatTaskView {
    Binary { op: Operator, left: Float, right: Float },
    Sum(Seq<Float>),
    Truncate(Float),
    Truth(Float),
    Format(Float),
    FromInteger(i64),
    Parse(Seq<char>),
    Random,
}

/// What the host found for a task.
#[derive(Debug, PartialEq)]
pub enum Answer {
    Value(Value),
    /// The task has no result (a text that denotes no float).
    Invalid,
}

pub enum AnswerView {
    Value(ValueView),
    Invalid,
}

/// The result of an operation: a value, or a task for the host.
#[derive(Debug, PartialEq)]
pub enum Outcome {
    Value(Value),
    Host(FloatTask),
}

pub enum OutcomeView {
    Value(ValueView),
    Host(FloatTaskView),
}

/// Why an operation or an instruction could not be carried out.
#[derive(Debug, PartialEq)]
pub enum Fault {
    /// The operator is not defined on this pair of operands.
    InvalidOperands { op: Operator, left: Value, right: Value },
    /// The value cannot be converted to the type.
    ConversionFailure { to: ValueType, value: Value },
    /// The integer result does not fit in 64 bits.
    Overflow { op: Operator, former: i64, latter: i64 },
    /// An integer was divided by zero.
    DivisionByZero { dividend: i64 },
    /// No mark of this name exists in the program.
    UndefinedMark(String),
    /// No variable of this name is bound.
    UndefinedVariable(String),
    /// A variable of this name is bound already.
    DuplicateVariable(String),
    /// No procedure of this name is registered.
    UnknownProcedure(String),
    /// The procedure was called with a wrong number of operands.
    WrongArity { expected: usize, found: usize },
    /// The procedure cannot be executed.
    NotImplemented,
    /// The operand stack holds fewer values than the instruction pops.
    StackUnderflow,
    /// A procedure found an operand of a variant it does not take.
    InvalidArgument(Value),
    /// An array was indexed outside its bounds.
    IndexOutOfRange { index: i64, length: usize },
    /// The instruction lacks an operand that its opcode needs.
    MalformedOperation,
    /// The host's answer is not of the kind that the task asks for.
    RejectedAnswer,
    /// The host answered although the instruction asked nothing.
    UnexpectedAnswer,
}

pub enum FaultView {
    InvalidOperands { op: Operator, left: ValueView, right: ValueView },
    ConversionFailure { to: ValueType, value: ValueView },
    Overflow { op: Operator, former: i64, latter: i64 },
    DivisionByZero { dividend: i64 },
    UndefinedMark(Seq<char>),
    UndefinedVariable(Seq<char>),
    DuplicateVariable(Seq<char>),
    UnknownProcedure(Seq<char>),
    WrongArity { expected: usize, found: usize },
    NotImplemented,
    StackUnderflow,
    InvalidArgument(ValueView),
    IndexOutOfRange { index: i64, length: usize },
    MalformedOperation,
    RejectedAnswer,
    UnexpectedAnswer,
}

/// What a value is, mathematically: the same tree, with texts and arrays
/// as sequences.
pub open spec fn value_view(value: Value) -> ValueView
    decreases value,
{
    match value {
        Value::Integer(i) => ValueView::Integer(i),
        Value::Float(f) => ValueView::Float(f),
        Value::Boolean(b) => ValueView::Boolean(b),
        Value::String(s) => ValueView::String(s@),
        Value::Array(v) => ValueView::Array(
            Seq::new(
                v@.len(),
                |i: int|
                    if 0 <= i < v@.len() {
                        value_view(v@[i])
                    } else {
                        ValueView::Boolean(false)
                    },
            ),
        ),
    }
}

impl View for Value {
    type V = ValueView;

    open spec fn view(&self) -> ValueView {
        value_view(*self)
    }
}

/// The views of a sequence of values.
pub open spec fn views(items: Seq<Value>) -> Seq<ValueView> {
    Seq::new(items.len(), |i: int| items[i]@)
}

/// The view of an array is the array of its items' views.
pub proof fn lemma_array_view(value: Value)
    requires
        value is Array,
    ensures
        value@ == ValueView::Array(views(value->Array_0@)),
{
    let items = value->Array_0;
    assert(value@ is Array);
    assert(value@->Array_0.len() == items.len());
    assert(value@->Array_0 =~= views(items@));
}

impl View for FloatTask {
    type V = FloatTaskView;

    open spec fn view(&self) -> FloatTaskView {
        match self {
            FloatTask::Binary { op, left, right } => FloatTaskView::Binary {
                op: *op,
                left: *left,
                right: *right,
            },
            FloatTask::Sum(v) => FloatTaskView::Sum(v@),
            FloatTask::Truncate(f) => FloatTaskView::Truncate(*f),
            FloatTask::Truth(f) => FloatTaskView::Truth(*f),
            FloatTask::Format(f) => FloatTaskView::Format(*f),
            FloatTask::FromInteger(i) => FloatTaskView::FromInteger(*i),
            FloatTask::Parse(s) => FloatTaskView::Parse(s@),
            FloatTask::Random => FloatTaskView::Random,
        }
    }
}

impl View for Answer {
    type V = AnswerView;

    open spec fn view(&self) -> AnswerView {
        match self {
            Answer::Value(v) => AnswerView::Value(v@),
            Answer::Invalid => AnswerView::Invalid,
        }
    }
}

impl View for Outcome {
    type V = OutcomeView;

    open spec fn view(&self) -> OutcomeView {
        match self {
            Outcome::Value(v) => OutcomeView::Value(v@),
            Outcome::Host(t) => OutcomeView::Host(t@),
        }
    }
}

impl View for Fault {
    type V = FaultView;

    open spec fn view(&self) -> FaultView {
        match self {
            Fault::InvalidOperands { op, left, right } => FaultView::InvalidOperands {
                op: *op,
                left: left@,
                right: right@,
            },
            Fault::ConversionFailure { to, value } => FaultView::ConversionFailure {
                to: *to,
                value: value@,
            },
            Fault::Overflow { op, former, latter } => FaultView::Overflow {
                op: *op,
                former: *former,
                latter: *latter,
            },
            Fault::DivisionByZero { dividend } => FaultView::DivisionByZero { dividend: *dividend },
            Fault::UndefinedMark(s) => FaultView::UndefinedMark(s@),
            Fault::UndefinedVariable(s) => FaultView::UndefinedVariable(s@),
            Fault::DuplicateVariable(s) => FaultView::DuplicateVariable(s@),
            Fault::UnknownProcedure(s) => FaultView::UnknownProcedure(s@),
            Fault::WrongArity { expected, found } => FaultView::WrongArity {
                expected: *expected,
                found: *found,
            },
            Fault::NotImplemented => FaultView::NotImplemented,
            Fault::StackUnderflow => FaultView::StackUnderflow,
            Fault::InvalidArgument(v) => FaultView::InvalidArgument(v@),
            Fault::IndexOutOfRange { index, length } => FaultView::IndexOutOfRange {
                index: *index,
                length: *length,
            },
            Fault::MalformedOperation => FaultView::MalformedOperation,
            Fault::RejectedAnswer => FaultView::RejectedAnswer,
            Fault::UnexpectedAnswer => FaultView::UnexpectedAnswer,
        }
    }
}

/// The view of a result that carries an outcome or a fault.
pub open spec fn result_view(result: Result<Outcome, Fault>) -> Result<OutcomeView, FaultView> {
    match result {
        Ok(outcome) => Ok(outcome@),
        Err(fault) => Err(fault@),
    }
}

/// The view of a result that carries a value or a fault.
pub open spec fn value_result_view(result: Result<Value, Fault>) -> Result<ValueView, FaultView> {
    match result {
        Ok(value) => Ok(value@),
        Err(fault) => Err(fault@),
    }
}

impl Clone for Value {
    fn clone(&self) -> (copy: Self)
        ensures
            copy@ == self@,
        decreases self,
    {
        match self {
            Value::Integer(i) => Value::Integer(*i),
            Value::Float(f) => Value::Float(*f),
            Value::Boolean(b) => Value::Boolean(*b),
            Value::String(s) => Value::String(s.clone()),
            Value::Array(v) => {
                let mut items: Vec<Value> = Vec::new();
                let mut i: usize = 0;
                while i < v.len()
                    invariant
                        i <= v.len(),
                        self is Array,
                        self->Array_0 == *v,
                        items@.len() == i,
                        forall|k: int| 0 <= k < i ==> items@[k]@ == v@[k]@,
                    decreases v.len() - i,
                {
                    assert(decreases_to!(*self => self->Array_0));
                    assert(decreases_to!(*v => v[i as int]));
                    let item = v[i].clone();
                    items.push(item);
                    i += 1;
                }
                let copy = Value::Array(items);
                assert(copy@->Array_0 =~= self@->Array_0);
                copy
            },
        }
    }
}

/// The quotient of two integers, rounded towards zero.
pub open spec fn quotient(x: int, d: int) -> int {
    if x >= 0 && d > 0 {
        x / d
    } else if x < 0 && d < 0 {
        (-x) / (-d)
    } else if x < 0 {
        -((-x) / d)
    } else {
        -(x / (-d))
    }
}

/// An integer raised to a natural power.
pub open spec fn power_of(base: int, exponent: nat) -> int
    decreases exponent,
{
    if exponent == 0 {
        1
    } else {
        base * power_of(base, (exponent - 1) as nat)
    }
}

/// Whether an integer fits in 64 bits.
pub open spec fn fits(i: int) -> bool {
    i64::MIN <= i <= i64::MAX
}

/// The integer that the operator makes of two integers, where it is defined.
pub open spec fn integer_result(op: Operator, a: int, b: int) -> int {
    match op {
        Operator::Add => a + b,
        Operator::Subtract => a - b,
        Operator::Multiply => a * b,
        Operator::Divide => quotient(a, b),
        _ => power_of(a, b as nat),
    }
}

/// Whether the operator is one of the three comparisons.
pub open spec fn is_comparison(op: Operator) -> bool {
    op == Operator::More || op == Operator::Less || op == Operator::Equal
}

/// An operator applied to two integers.
pub open spec fn apply_integers(op: Operator, a: i64, b: i64) -> Result<OutcomeView, FaultView> {
    match op {
        Operator::More => Ok(OutcomeView::Value(ValueView::Boolean(a > b))),
        Operator::Less => Ok(OutcomeView::Value(ValueView::Boolean(a < b))),
        Operator::Equal => Ok(OutcomeView::Value(ValueView::Boolean(a == b))),
        _ => if op == Operator::Divide && b == 0 {
            Err(FaultView::DivisionByZero { dividend: a })
        } else if op == Operator::Power && b < 0 {
            Err(
                FaultView::InvalidOperands {
                    op,
                    left: ValueView::Integer(a),
                    right: ValueView::Integer(b),
                },
            )
        } else if fits(integer_result(op, a as int, b as int)) {
            Ok(OutcomeView::Value(ValueView::Integer(integer_result(op, a as int, b as int) as i64)))
        } else {
            Err(FaultView::Overflow { op, former: a, latter: b })
        },
    }
}

/// An operator applied to two booleans: `Add` is the logical or, `Multiply`
/// the logical and, and `false` comes before `true`.
pub open spec fn apply_booleans(op: Operator, a: bool, b: bool) -> Result<OutcomeView, FaultView> {
    match op {
        Operator::Add => Ok(OutcomeView::Value(ValueView::Boolean(a || b))),
        Operator::Multiply => Ok(OutcomeView::Value(ValueView::Boolean(a && b))),
        Operator::More => Ok(OutcomeView::Value(ValueView::Boolean(a && !b))),
        Operator::Less => Ok(OutcomeView::Value(ValueView::Boolean(!a && b))),
        Operator::Equal => Ok(OutcomeView::Value(ValueView::Boolean(a == b))),
        _ => Err(
            FaultView::InvalidOperands {
                op,
                left: ValueView::Boolean(a),
                right: ValueView::Boolean(b),
            },
        ),
    }
}

/// An operator applied to two texts: `Add` joins them, and the comparisons
/// go by the lexicographic order of the characters.
pub open spec fn apply_texts(op: Operator, a: Seq<char>, b: Seq<char>) -> Result<
    OutcomeView,
    FaultView,
> {
    match op {
        Operator::Add => Ok(OutcomeView::Value(ValueView::String(a + b))),
        Operator::More => Ok(OutcomeView::Value(ValueView::Boolean(text_precedes(b, a)))),
        Operator::Less => Ok(OutcomeView::Value(ValueView::Boolean(text_precedes(a, b)))),
        Operator::Equal => Ok(OutcomeView::Value(ValueView::Boolean(a == b))),
        _ => Err(
            FaultView::InvalidOperands {
                op,
                left: ValueView::String(a),
                right: ValueView::String(b),
            },
        ),
    }
}

/// The value algebra: what a binary operator makes of two operands.
///
/// Two integers, two booleans, two texts and two arrays are computed here;
/// two floats become a task for the host; any other pairing is the fault
/// `InvalidOperands`, which carries the operator and both operands.
pub open spec fn apply(op: Operator, left: ValueView, right: ValueView) -> Result<
    OutcomeView,
    FaultView,
> {
    match (left, right) {
        (ValueView::Integer(a), ValueView::Integer(b)) => apply_integers(op, a, b),
        (ValueView::Float(a), ValueView::Float(b)) => Ok(
            OutcomeView::Host(FloatTaskView::Binary { op, left: a, right: b }),
        ),
        (ValueView::Boolean(a), ValueView::Boolean(b)) => apply_booleans(op, a, b),
        (ValueView::String(a), ValueView::String(b)) => apply_texts(op, a, b),
        (ValueView::Array(a), ValueView::Array(b)) => if op == Operator::Add {
            Ok(OutcomeView::Value(ValueView::Array(a + b)))
        } else {
            Err(FaultView::InvalidOperands { op, left, right })
        },
        _ => Err(FaultView::InvalidOperands { op, left, right }),
    }
}

/// The magnitude of an integer.
pub open spec fn magnitude(i: int) -> int {
    if i < 0 {
        -i
    } else {
        i
    }
}

proof fn lemma_power_of_unit(base: int, exponent: nat)
    requires
        -1 <= base <= 1,
    ensures
        base == 0 ==> power_of(base, exponent) == (if exponent == 0 {
            1int
        } else {
            0int
        }),
        base == 1 ==> power_of(base, exponent) == 1,
        base == -1 ==> power_of(base, exponent) == (if exponent % 2 == 0 {
            1int
        } else {
            -1int
        }),
    decreases exponent,
{
    if exponent > 0 {
        lemma_power_of_unit(base, (exponent - 1) as nat);
    }
}

proof fn lemma_power_grows(base: int, low: nat, high: nat)
    requires
        magnitude(base) >= 2,
        low < high,
    ensures
        magnitude(power_of(base, low)) >= 1,
        magnitude(power_of(base, high)) >= 2 * magnitude(power_of(base, low)),
    decreases high,
{
    let below = power_of(base, (high - 1) as nat);
    assert(magnitude(base * below) == magnitude(base) * magnitude(below)) by (nonlinear_arith);
    if low == 0 {
        if high > 1 {
            lemma_power_grows(base, low, (high - 1) as nat);
        }
    } else {
        lemma_power_grows(base, (low - 1) as nat, (high - 1) as nat);
        let lower = power_of(base, (low - 1) as nat);
        assert(magnitude(base * lower) == magnitude(base) * magnitude(lower)) by (nonlinear_arith);
        assert(magnitude(base) * magnitude(lower) >= 1) by (nonlinear_arith)
            requires
                magnitude(base) >= 2,
                magnitude(lower) >= 1,
        ;
        assert(magnitude(base) * magnitude(below) >= magnitude(base) * (2 * magnitude(lower)))
            by (nonlinear_arith)
            requires
                magnitude(base) >= 2,
                magnitude(below) >= 2 * magnitude(lower),
        ;
        assert(magnitude(base) * (2 * magnitude(lower)) == 2 * (magnitude(base) * magnitude(lower)))
            by (nonlinear_arith);
    }
    assert(magnitude(base) * magnitude(below) >= 2 * magnitude(below)) by (nonlinear_arith)
        requires
            magnitude(base) >= 2,
            magnitude(below) >= 0,
    ;
}

/// An integer raised to a power that is not negative: `Some` of the result
/// exactly when it fits in 64 bits.
pub fn integer_power(base: i64, exponent: i64) -> (result: Option<i64>)
    requires
        exponent >= 0,
    ensures
        result == (if fits(power_of(base as int, exponent as nat)) {
            Some(power_of(base as int, exponent as nat) as i64)
        } else {
            None
        }),
{
    proof {
        if -1 <= base <= 1 {
            lemma_power_of_unit(base as int, exponent as nat);
        }
    }
    if base == 0 {
        return Some(if exponent == 0 {
            1
        } else {
            0
        });
    }
    if base == 1 {
        return Some(1);
    }
    if base == -1 {
        return Some(if exponent % 2 == 0 {
            1
        } else {
            -1
        });
    }
    let mut result: i64 = 1;
    let mut done: i64 = 0;
    while done < exponent
        invariant
            0 <= done <= exponent,
            magnitude(base as int) >= 2,
            result == power_of(base as int, done as nat),
        decreases exponent - done,
    {
        match result.checked_mul(base) {
            None => {
                proof {
                    let next = power_of(base as int, (done + 1) as nat);
                    assert(next == base * result);
                    assert(result * base == base * result) by (nonlinear_arith);
                    assert(!fits(next));
                    if done + 1 < exponent {
                        lemma_power_grows(base as int, (done + 1) as nat, exponent as nat);
                    }
                }
                return None;
            },
            Some(next) => {
                assert(result * base == base * result) by (nonlinear_arith);
                result = next;
                done += 1;
            },
        }
    }
    Some(result)
}

/// What converting a value to a type gives.
///
/// A float, or a conversion to a float, is a task for the host. A text
/// converts to an integer exactly when it is a numeral; an array converts to
/// nothing.
pub open spec fn convert(to: ValueType, value: ValueView) -> Result<OutcomeView, FaultView> {
    let same = Ok::<OutcomeView, FaultView>(OutcomeView::Value(value));
    let failure = Err::<OutcomeView, FaultView>(FaultView::ConversionFailure { to, value });
    match to {
        ValueType::Integer => match value {
            ValueView::Integer(_) => same,
            ValueView::Float(f) => Ok(OutcomeView::Host(FloatTaskView::Truncate(f))),
            ValueView::Boolean(b) => Ok(
                OutcomeView::Value(
                    ValueView::Integer(
                        if b {
                            1
                        } else {
                            0
                        },
                    ),
                ),
            ),
            ValueView::String(s) => match parse_integer(s) {
                Some(i) => Ok(OutcomeView::Value(ValueView::Integer(i))),
                None => failure,
            },
            ValueView::Array(_) => failure,
        },
        ValueType::Float => match value {
            ValueView::Integer(i) => Ok(OutcomeView::Host(FloatTaskView::FromInteger(i))),
            ValueView::Float(_) => same,
            ValueView::Boolean(b) => Ok(
                OutcomeView::Host(
                    FloatTaskView::FromInteger(
                        if b {
                            1
                        } else {
                            0
                        },
                    ),
                ),
            ),
            ValueView::String(s) => Ok(OutcomeView::Host(FloatTaskView::Parse(s))),
            ValueView::Array(_) => failure,
        },
        ValueType::Boolean => match value {
            ValueView::Integer(i) => Ok(OutcomeView::Value(ValueView::Boolean(i != 0))),
            ValueView::Float(f) => Ok(OutcomeView::Host(FloatTaskView::Truth(f))),
            ValueView::Boolean(_) => same,
            ValueView::String(s) => Ok(OutcomeView::Value(ValueView::Boolean(s.len() > 0))),
            ValueView::Array(_) => failure,
        },
        ValueType::String => match value {
            ValueView::Integer(i) => Ok(
                OutcomeView::Value(ValueView::String(decimal_text(i as int))),
            ),
            ValueView::Float(f) => Ok(OutcomeView::Host(FloatTaskView::Format(f))),
            ValueView::Boolean(b) => Ok(
                OutcomeView::Value(
                    ValueView::String(
                        if b {
                            "true"@
                        } else {
                            "false"@
                        },
                    ),
                ),
            ),
            ValueView::String(_) => same,
            ValueView::Array(_) => failure,
        },
        ValueType::Array => failure,
    }
}

/// The variant of a value.
pub open spec fn type_of(value: ValueView) -> ValueType {
    match value {
        ValueView::Integer(_) => ValueType::Integer,
        ValueView::Float(_) => ValueType::Float,
        ValueView::Boolean(_) => ValueType::Boolean,
        ValueView::String(_) => ValueType::String,
        ValueView::Array(_) => ValueType::Array,
    }
}

fn invalid_operands(op: Operator, left: &Value, right: &Value) -> (result: Result<Outcome, Fault>)
    ensures
        result_view(result) == Err::<OutcomeView, FaultView>(
            FaultView::InvalidOperands { op, left: left@, right: right@ },
        ),
{
    Err(Fault::InvalidOperands { op, left: left.clone(), right: right.clone() })
}

fn apply_to_integers(op: Operator, a: i64, b: i64) -> (result: Result<Outcome, Fault>)
    ensures
        result_view(result) == apply_integers(op, a, b),
{
    let computed = match op {
        Operator::More => {
            return Ok(Outcome::Value(Value::Boolean(a > b)));
        },
        Operator::Less => {
            return Ok(Outcome::Value(Value::Boolean(a < b)));
        },
        Operator::Equal => {
            return Ok(Outcome::Value(Value::Boolean(a == b)));
        },
        Operator::Add => a.checked_add(b),
        Operator::Subtract => a.checked_sub(b),
        Operator::Multiply => a.checked_mul(b),
        Operator::Divide => {
            if b == 0 {
                return Err(Fault::DivisionByZero { dividend: a });
            }
            assert((a as int) * -1 == -(a as int));
            assert((b as int) * -1 == -(b as int));
            a.checked_div(b)
        },
        Operator::Power => {
            if b < 0 {
                return Err(
                    Fault::InvalidOperands { op, left: Value::Integer(a), right: Value::Integer(b) },
                );
            }
            integer_power(a, b)
        },
    };
    match computed {
        Some(i) => Ok(Outcome::Value(Value::Integer(i))),
        None => Err(Fault::Overflow { op, former: a, latter: b }),
    }
}

fn apply_to_booleans(op: Operator, a: bool, b: bool) -> (result: Result<Outcome, Fault>)
    ensures
        result_view(result) == apply_booleans(op, a, b),
{
    match op {
        Operator::Add => Ok(Outcome::Value(Value::Boolean(a || b))),
        Operator::Multiply => Ok(Outcome::Value(Value::Boolean(a && b))),
        Operator::More => Ok(Outcome::Value(Value::Boolean(a && !b))),
        Operator::Less => Ok(Outcome::Value(Value::Boolean(!a && b))),
        Operator::Equal => Ok(Outcome::Value(Value::Boolean(a == b))),
        _ => Err(Fault::InvalidOperands { op, left: Value::Boolean(a), right: Value::Boolean(b) }),
    }
}

fn apply_to_texts(op: Operator, a: &String, b: &String) -> (result: Result<Outcome, Fault>)
    ensures
        result_view(result) == apply_texts(op, a@, b@),
{
    match op {
        Operator::Add => Ok(Outcome::Value(Value::String(joined(a.as_str(), b.as_str())))),
        Operator::More => Ok(Outcome::Value(Value::Boolean(precedes(b.as_str(), a.as_str())))),
        Operator::Less => Ok(Outcome::Value(Value::Boolean(precedes(a.as_str(), b.as_str())))),
        Operator::Equal => Ok(Outcome::Value(Value::Boolean(same_text(a.as_str(), b.as_str())))),
        _ => Err(
            Fault::InvalidOperands {
                op,
                left: Value::String(a.clone()),
                right: Value::String(b.clone()),
            },
        ),
    }
}

/// Copies of the values of two lists, one list after the other.
pub fn concatenated(first: &Vec<Value>, second: &Vec<Value>) -> (all: Vec<Value>)
    ensures
        views(all@) == views(first@) + views(second@),
{
    let mut all: Vec<Value> = Vec::new();
    let mut i: usize = 0;
    while i < first.len()
        invariant
            i <= first.len(),
            all@.len() == i,
            forall|k: int| 0 <= k < i ==> all@[k]@ == first@[k]@,
        decreases first.len() - i,
    {
        all.push(first[i].clone());
        i += 1;
    }
    let mut j: usize = 0;
    while j < second.len()
        invariant
            j <= second.len(),
            all@.len() == first.len() + j,
            forall|k: int| 0 <= k < first.len() ==> all@[k]@ == first@[k]@,
            forall|k: int| 0 <= k < j ==> all@[first.len() + k]@ == second@[k]@,
        decreases second.len() - j,
    {
        all.push(second[j].clone());
        j += 1;
    }
    assert(views(all@) =~= views(first@) + views(second@));
    all
}

impl Value {
    /// The variant of the value.
    pub fn value_type(&self) -> (kind: ValueType)
        ensures
            kind == type_of(self@),
    {
        match self {
            Value::Integer(_) => ValueType::Integer,
            Value::Float(_) => ValueType::Float,
            Value::Boolean(_) => ValueType::Boolean,
            Value::String(_) => ValueType::String,
            Value::Array(_) => ValueType::Array,
        }
    }

    /// Applies a binary operator to this value, on the left, and another.
    pub fn apply(&self, op: Operator, right: &Value) -> (result: Result<Outcome, Fault>)
        ensures
            result_view(result) == apply(op, self@, right@),
    {
        match self {
            Value::Integer(a) => match right {
                Value::Integer(b) => apply_to_integers(op, *a, *b),
                _ => invalid_operands(op, self, right),
            },
            Value::Float(a) => match right {
                Value::Float(b) => Ok(Outcome::Host(FloatTask::Binary { op, left: *a, right: *b })),
                _ => invalid_operands(op, self, right),
            },
            Value::Boolean(a) => match right {
                Value::Boolean(b) => apply_to_booleans(op, *a, *b),
                _ => invalid_operands(op, self, right),
            },
            Value::String(a) => match right {
                Value::String(b) => apply_to_texts(op, a, b),
                _ => invalid_operands(op, self, right),
            },
            Value::Array(a) => match right {
                Value::Array(b) => {
                    proof {
                        lemma_array_view(*self);
                        lemma_array_view(*right);
                    }
                    match op {
                        Operator::Add => {
                            let all = Value::Array(concatenated(a, b));
                            proof {
                                lemma_array_view(all);
                            }
                            Ok(Outcome::Value(all))
                        },
                        _ => invalid_operands(op, self, right),
                    }
                },
                _ => invalid_operands(op, self, right),
            },
        }
    }

    /// The sum of two integers, the logical or of two booleans, two texts or
    /// two arrays joined.
    pub fn add(&self, right: &Value) -> (result: Result<Outcome, Fault>)
        ensures
            result_view(result) == apply(Operator::Add, self@, right@),
    {
        self.apply(Operator::Add, right)
    }

    /// The difference of two integers.
    pub fn subtract(&self, right: &Value) -> (result: Result<Outcome, Fault>)
        ensures
            result_view(result) == apply(Operator::Subtract, self@, right@),
    {
        self.apply(Operator::Subtract, right)
    }

    /// The product of two integers, the logical and of two booleans.
    pub fn multiply(&self, right: &Value) -> (result: Result<Outcome, Fault>)
        ensures
            result_view(result) == apply(Operator::Multiply, self@, right@),
    {
        self.apply(Operator::Multiply, right)
    }

    /// The quotient of two integers, rounded towards zero.
    pub fn divide(&self, right: &Value) -> (result: Result<Outcome, Fault>)
        ensures
            result_view(result) == apply(Operator::Divide, self@, right@),
    {
        self.apply(Operator::Divide, right)
    }

    /// An integer raised to the power of another that is not negative.
    pub fn power(&self, right: &Value) -> (result: Result<Outcome, Fault>)
        ensures
            result_view(result) == apply(Operator::Power, self@, right@),
    {
        self.apply(Operator::Power, right)
    }

    /// Whether this value is greater than the other.
    pub fn more(&self, right: &Value) -> (result: Result<Outcome, Fault>)
        ensures
            result_view(result) == apply(Operator::More, self@, right@),
    {
        self.apply(Operator::More, right)
    }

    /// Whether this value is less than the other.
    pub fn less(&self, right: &Value) -> (result: Result<Outcome, Fault>)
        ensures
            result_view(result) == apply(Operator::Less, self@, right@),
    {
        self.apply(Operator::Less, right)
    }

    /// Whether the two values are equal.
    pub fn eq(&self, right: &Value) -> (result: Result<Outcome, Fault>)
        ensures
            result_view(result) == apply(Operator::Equal, self@, right@),
    {
        self.apply(Operator::Equal, right)
    }

    /// Converts the value to the given type.
    pub fn convert(&self, to: ValueType) -> (result: Result<Outcome, Fault>)
        ensures
            result_view(result) == convert(to, self@),
    {
        match to {
            ValueType::Integer => match self {
                Value::Float(f) => Ok(Outcome::Host(FloatTask::Truncate(*f))),
                Value::Boolean(b) => Ok(
                    Outcome::Value(
                        Value::Integer(
                            if *b {
                                1
                            } else {
                                0
                            },
                        ),
                    ),
                ),
                Value::String(s) => match read_integer(s.as_str()) {
                    Some(i) => Ok(Outcome::Value(Value::Integer(i))),
                    None => Err(Fault::ConversionFailure { to, value: self.clone() }),
                },
                Value::Array(_) => Err(Fault::ConversionFailure { to, value: self.clone() }),
                Value::Integer(_) => Ok(Outcome::Value(self.clone())),
            },
            ValueType::Float => match self {
                Value::Integer(i) => Ok(Outcome::Host(FloatTask::FromInteger(*i))),
                Value::Boolean(b) => Ok(
                    Outcome::Host(
                        FloatTask::FromInteger(
                            if *b {
                                1
                            } else {
                                0
                            },
                        ),
                    ),
                ),
                Value::String(s) => Ok(Outcome::Host(FloatTask::Parse(s.clone()))),
                Value::Array(_) => Err(Fault::ConversionFailure { to, value: self.clone() }),
                Value::Float(_) => Ok(Outcome::Value(self.clone())),
            },
            ValueType::Boolean => match self {
                Value::Integer(i) => Ok(Outcome::Value(Value::Boolean(*i != 0))),
                Value::Float(f) => Ok(Outcome::Host(FloatTask::Truth(*f))),
                Value::String(s) => Ok(
                    Outcome::Value(Value::Boolean(s.as_str().unicode_len() > 0)),
                ),
                Value::Array(_) => Err(Fault::ConversionFailure { to, value: self.clone() }),
                Value::Boolean(_) => Ok(Outcome::Value(self.clone())),
            },
            ValueType::String => match self {
                Value::Integer(i) => Ok(Outcome::Value(Value::String(integer_text(*i)))),
                Value::Float(f) => Ok(Outcome::Host(FloatTask::Format(*f))),
                Value::Boolean(b) => Ok(
                    Outcome::Value(
                        Value::String(
                            if *b {
                                "true".to_owned()
                            } else {
                                "false".to_owned()
                            },
                        ),
                    ),
                ),
                Value::Array(_) => Err(Fault::ConversionFailure { to, value: self.clone() }),
                Value::String(_) => Ok(Outcome::Value(self.clone())),
            },
            ValueType::Array => Err(Fault::ConversionFailure { to, value: self.clone() }),
        }
    }

    /// The value as an integer: a boolean as 0 or 1, a text as the numeral
    /// it holds.
    pub fn to_integer(&self) -> (result: Result<Outcome, Fault>)
        ensures
            result_view(result) == convert(ValueType::Integer, self@),
    {
        self.convert(ValueType::Integer)
    }

    /// The value as a float, which the host computes.
    pub fn to_float(&self) -> (result: Result<Outcome, Fault>)
        ensures
            result_view(result) == convert(ValueType::Float, self@),
    {
        self.convert(ValueType::Float)
    }

    /// The value as a boolean: an integer other than zero and a text that is
    /// not empty are true.
    pub fn to_bool(&self) -> (result: Result<Outcome, Fault>)
        ensures
            result_view(result) == convert(ValueType::Boolean, self@),
    {
        self.convert(ValueType::Boolean)
    }

    /// The value as a text: an integer in decimal, a boolean as `true` or
    /// `false`.
    pub fn to_string(&self) -> (result: Result<Outcome, Fault>)
        ensures
            result_view(result) == convert(ValueType::String, self@),
    {
        self.convert(ValueType::String)
    }
}

/// The text of a list of values up to the item of index `n`: the texts of
/// the items, separated by a comma and a space.
pub open spec fn raw_items(items: Seq<ValueView>, n: nat) -> Seq<char>
    decreases items, n,
{
    if n == 0 || n > items.len() {
        Seq::empty()
    } else {
        raw_items(items, (n - 1) as nat) + (if n > 1 {
            ", "@
        } else {
            Seq::empty()
        }) + raw_text(items[n - 1])
    }
}

/// The text of a value as listings show it: an integer in decimal, a boolean
/// as `true` or `false`, a text as it stands, an array as its items between
/// square brackets. A float shows as `float:` and its bit pattern in decimal,
/// since only the host can write it as a decimal fraction.
pub open spec fn raw_text(value: ValueView) -> Seq<char>
    decreases value, 0nat,
{
    match value {
        ValueView::Integer(i) => decimal_text(i as int),
        ValueView::Float(f) => "float:"@ + decimal(f.bits as nat),
        ValueView::Boolean(b) => if b {
            "true"@
        } else {
            "false"@
        },
        ValueView::String(s) => s,
        ValueView::Array(items) => "["@ + raw_items(items, items.len()) + "]"@,
    }
}

impl Value {
    /// The text of the value as listings show it.
    pub fn raw(&self) -> (text: String)
        ensures
            text@ == raw_text(self@),
        decreases self,
    {
        match self {
            Value::Integer(i) => integer_text(*i),
            Value::Float(f) => {
                let mut text = "float:".to_owned();
                append_decimal(&mut text, f.bits);
                text
            },
            Value::Boolean(b) => if *b {
                "true".to_owned()
            } else {
                "false".to_owned()
            },
            Value::String(s) => s.clone(),
            Value::Array(v) => {
                proof {
                    lemma_array_view(*self);
                }
                let ghost items = views(v@);
                let mut text = "[".to_owned();
                let mut i: usize = 0;
                while i < v.len()
                    invariant
                        i <= v.len(),
                        self is Array,
                        self->Array_0 == *v,
                        items == views(v@),
                        text@ == "["@ + raw_items(items, i as nat),
                    decreases v.len() - i,
                {
                    if i > 0 {
                        text.append(", ");
                    }
                    assert(decreases_to!(*self => self->Array_0));
                    assert(decreases_to!(*v => v[i as int]));
                    let item = v[i].raw();
                    text.append(item.as_str());
                    assert(items[i as int] == v@[i as int]@);
                    i += 1;
                    assert(text@ =~= "["@ + raw_items(items, i as nat));
                }
                text.append("]");
                text
            },
        }
    }
}

} // verus!
