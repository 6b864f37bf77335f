//! What the procedures do to the operand stack.
//!
//! An execution pops its operands from the top of the stack and pushes its
//! result. Where the result can only be had from the host, the execution
//! leaves the stack as it is and names the task; run again with the host's
//! answer, it completes. An execution that faults leaves the stack as it is.

use crate::procedure::{
    At, Call, Conversion, Expression, FillRandom, If, Print, Procedure, ProcedureKind, Rand,
    Return, Sum, TypeConverter, Var,
};
use crate::random::random_between;
use crate::value::{
    apply, concatenated, convert, is_comparison, lemma_array_view, views, Answer, AnswerView, Fault, FaultView,
    Float, FloatTask, FloatTaskView, Operator, Outcome, OutcomeView, Value, ValueType, ValueView,
};
use rand::rngs::SmallRng;
use vstd::prelude::*;

verus! {

/// What an execution asks of the host.
#[derive(Debug, PartialEq)]
pub enum Effect {
    /// Nothing.
    Done,
    /// To print the value.
    Print(Value),
    /// To carry out the task and to run the execution again with the answer.
    Compute(FloatTask),
}

pub enum EffectView {
    Done,
    Print(ValueView),
    Compute(FloatTaskView),
}

impl View for Effect {
    type V = EffectView;

    open spec fn view(&self) -> EffectView {
        match self {
            Effect::Done => EffectView::Done,
            Effect::Print(value) => EffectView::Print(value@),
            Effect::Compute(task) => EffectView::Compute(task@),
        }
    }
}

/// The stack after an execution and what it asks of the host, or a fault.
pub type Run = Result<(Seq<ValueView>, EffectView), FaultView>;

/// The value that the host's answer gives for a task: a float for
/// arithmetic, sums, conversions to a float and random draws; a boolean for
/// comparisons and truth; an integer for a truncation; a text for a format.
/// A text that denotes no float fails to convert. Any other answer is
/// rejected.
pub open spec fn accepted(task: FloatTaskView, answer: AnswerView) -> Result<ValueView, FaultView> {
    match (task, answer) {
        (FloatTaskView::Parse(text), AnswerView::Invalid) => Err(
            FaultView::ConversionFailure { to: ValueType::Float, value: ValueView::String(text) },
        ),
        (_, AnswerView::Invalid) => Err(FaultView::RejectedAnswer),
        (FloatTaskView::Binary { op, .. }, AnswerView::Value(value)) => if is_comparison(op) == (
        value is Boolean) && (value is Boolean || value is Float) {
            Ok(value)
        } else {
            Err(FaultView::RejectedAnswer)
        },
        (FloatTaskView::Truth(_), AnswerView::Value(value)) => if value is Boolean {
            Ok(value)
        } else {
            Err(FaultView::RejectedAnswer)
        },
        (FloatTaskView::Truncate(_), AnswerView::Value(value)) => if value is Integer {
            Ok(value)
        } else {
            Err(FaultView::RejectedAnswer)
        },
        (FloatTaskView::Format(_), AnswerView::Value(value)) => if value is String {
            Ok(value)
        } else {
            Err(FaultView::RejectedAnswer)
        },
        (_, AnswerView::Value(value)) => if value is Float {
            Ok(value)
        } else {
            Err(FaultView::RejectedAnswer)
        },
    }
}

/// An execution that needs the host for `task`: without an answer it names
/// the task and leaves the stack; with an answer it pushes the value that the
/// answer gives onto what is left of the stack.
pub open spec fn settled(
    task: FloatTaskView,
    answer: Option<AnswerView>,
    stack: Seq<ValueView>,
    rest: Seq<ValueView>,
) -> Run {
    match answer {
        None => Ok((stack, EffectView::Compute(task))),
        Some(answer) => match accepted(task, answer) {
            Ok(value) => Ok((rest.push(value), EffectView::Done)),
            Err(fault) => Err(fault),
        },
    }
}

/// An execution whose result is `outcome`: a value is pushed onto what is
/// left of the stack, a task goes to the host, and a fault is the fault. An
/// answer that nothing asked for is a fault.
pub open spec fn completed(
    outcome: Result<OutcomeView, FaultView>,
    answer: Option<AnswerView>,
    stack: Seq<ValueView>,
    rest: Seq<ValueView>,
) -> Run {
    match outcome {
        Err(fault) => Err(fault),
        Ok(OutcomeView::Value(value)) => if answer is Some {
            Err(FaultView::UnexpectedAnswer)
        } else {
            Ok((rest.push(value), EffectView::Done))
        },
        Ok(OutcomeView::Host(task)) => settled(task, answer, stack, rest),
    }
}

/// The stack without its top `n` values.
pub open spec fn below(stack: Seq<ValueView>, n: int) -> Seq<ValueView> {
    stack.take(stack.len() - n)
}

/// A binary operator: it pops the right operand, then the left one, and
/// pushes what the value algebra makes of them.
pub open spec fn run_binary(
    op: Operator,
    argc: usize,
    stack: Seq<ValueView>,
    answer: Option<AnswerView>,
) -> Run {
    if argc != 2 {
        Err(FaultView::WrongArity { expected: 2, found: argc })
    } else if stack.len() < 2 {
        Err(FaultView::StackUnderflow)
    } else {
        completed(
            apply(op, stack[stack.len() - 2], stack[stack.len() - 1]),
            answer,
            stack,
            below(stack, 2),
        )
    }
}

/// What a conversion makes of a value.
pub open spec fn converted(op: Conversion, value: ValueView) -> Result<OutcomeView, FaultView> {
    match op {
        Conversion::To(to) => convert(to, value),
        Conversion::Array => Ok(OutcomeView::Value(ValueView::Array(Seq::empty()))),
        Conversion::Void => Ok(OutcomeView::Value(ValueView::Integer(0))),
    }
}

/// A conversion: it pops one operand and pushes what it converts to.
pub open spec fn run_convert(
    op: Conversion,
    argc: usize,
    stack: Seq<ValueView>,
    answer: Option<AnswerView>,
) -> Run {
    if argc != 1 {
        Err(FaultView::WrongArity { expected: 1, found: argc })
    } else if stack.len() < 1 {
        Err(FaultView::StackUnderflow)
    } else {
        completed(converted(op, stack.last()), answer, stack, below(stack, 1))
    }
}

/// `PRINT`: it pops one operand and hands it to the host to print.
pub open spec fn run_print(argc: usize, stack: Seq<ValueView>, answer: Option<AnswerView>) -> Run {
    if argc != 1 {
        Err(FaultView::WrongArity { expected: 1, found: argc })
    } else if stack.len() < 1 {
        Err(FaultView::StackUnderflow)
    } else if answer is Some {
        Err(FaultView::UnexpectedAnswer)
    } else {
        Ok((below(stack, 1), EffectView::Print(stack.last())))
    }
}

/// `RAND`: it pushes the float that the host draws.
pub open spec fn run_rand(argc: usize, stack: Seq<ValueView>, answer: Option<AnswerView>) -> Run {
    if argc != 0 {
        Err(FaultView::WrongArity { expected: 0, found: argc })
    } else {
        settled(FloatTaskView::Random, answer, stack, stack)
    }
}

/// `AT`: it pops an index, then an array, and pushes the item of the array
/// at the index.
pub open spec fn run_at(argc: usize, stack: Seq<ValueView>, answer: Option<AnswerView>) -> Run {
    if argc != 2 {
        Err(FaultView::WrongArity { expected: 2, found: argc })
    } else if stack.len() < 2 {
        Err(FaultView::StackUnderflow)
    } else {
        match (stack[stack.len() - 2], stack[stack.len() - 1]) {
            (ValueView::Array(items), ValueView::Integer(index)) => if !(0 <= index
                < items.len()) {
                Err(FaultView::IndexOutOfRange { index, length: items.len() as usize })
            } else if answer is Some {
                Err(FaultView::UnexpectedAnswer)
            } else {
                Ok((below(stack, 2).push(items[index as int]), EffectView::Done))
            },
            (ValueView::Array(_), other) => Err(FaultView::InvalidArgument(other)),
            (other, _) => Err(FaultView::InvalidArgument(other)),
        }
    }
}

/// The floats at the head of the operands from index `i` on.
pub open spec fn leading_floats(operands: Seq<ValueView>, i: int) -> Seq<Float>
    decreases operands.len() - i,
{
    if 0 <= i < operands.len() && operands[i] is Float {
        seq![operands[i]->Float_0] + leading_floats(operands, i + 1)
    } else {
        Seq::empty()
    }
}

/// The sum of `acc` and the operands from index `i` on, added from left to
/// right, where no float is among them.
pub open spec fn sum_from(operands: Seq<ValueView>, i: int, acc: ValueView) -> Result<
    ValueView,
    FaultView,
>
    decreases operands.len() - i,
{
    if i < 0 || i >= operands.len() {
        Ok(acc)
    } else {
        match apply(Operator::Add, acc, operands[i]) {
            Ok(OutcomeView::Value(value)) => sum_from(operands, i + 1, value),
            Ok(OutcomeView::Host(_)) => Err(
                FaultView::InvalidOperands { op: Operator::Add, left: acc, right: operands[i] },
            ),
            Err(fault) => Err(fault),
        }
    }
}

/// `SUM`: it pops `argc` operands and pushes their sum, added from left to
/// right. Floats at the head of the operands are a task for the host, and a
/// value of another variant after them is a fault.
pub open spec fn run_sum(argc: usize, stack: Seq<ValueView>, answer: Option<AnswerView>) -> Run {
    let operands = stack.skip(stack.len() - argc);
    let rest = below(stack, argc as int);
    if argc == 0 {
        if answer is Some {
            Err(FaultView::UnexpectedAnswer)
        } else {
            Ok((stack, EffectView::Done))
        }
    } else if stack.len() < argc {
        Err(FaultView::StackUnderflow)
    } else if operands[0] is Float {
        let floats = leading_floats(operands, 0);
        if floats.len() < 2 {
            completed(sum_outcome(operands), answer, stack, rest)
        } else {
            match answer {
                None => Ok((stack, EffectView::Compute(FloatTaskView::Sum(floats)))),
                Some(answer) => match accepted(FloatTaskView::Sum(floats), answer) {
                    Err(fault) => Err(fault),
                    Ok(value) => if floats.len() == argc {
                        Ok((rest.push(value), EffectView::Done))
                    } else {
                        Err(
                            FaultView::InvalidOperands {
                                op: Operator::Add,
                                left: value,
                                right: operands[floats.len() as int],
                            },
                        )
                    },
                },
            }
        }
    } else {
        completed(sum_outcome(operands), answer, stack, rest)
    }
}

/// The sum of operands that need no host.
pub open spec fn sum_outcome(operands: Seq<ValueView>) -> Result<OutcomeView, FaultView> {
    match sum_from(operands, 1, operands[0]) {
        Ok(value) => Ok(OutcomeView::Value(value)),
        Err(fault) => Err(fault),
    }
}

/// The number of integers that `FILL_RANDOM` draws for a size.
pub open spec fn fill_count(size: i64) -> nat {
    if size < 0 {
        0
    } else {
        size as nat
    }
}

/// The integers as values.
pub open spec fn integers(drawn: Seq<i64>) -> Seq<ValueView> {
    Seq::new(drawn.len(), |i: int| ValueView::Integer(drawn[i]))
}

/// `FILL_RANDOM`, where `drawn` are the integers that its generator gave:
/// it pops a bound, `max`, then a bound, `min`, then a size, then an array,
/// and pushes the array with the integers after its items. A positive size
/// with no integer from `min` up to and without `max` is a fault.
pub open spec fn run_fill(
    argc: usize,
    stack: Seq<ValueView>,
    answer: Option<AnswerView>,
    drawn: Seq<i64>,
) -> Run {
    if argc != 4 {
        Err(FaultView::WrongArity { expected: 4, found: argc })
    } else if stack.len() < 4 {
        Err(FaultView::StackUnderflow)
    } else {
        let n = stack.len();
        match (stack[n - 4], stack[n - 3], stack[n - 2], stack[n - 1]) {
            (
                ValueView::Array(items),
                ValueView::Integer(size),
                ValueView::Integer(min),
                ValueView::Integer(max),
            ) => if size > 0 && min >= max {
                Err(FaultView::InvalidArgument(stack[n - 1]))
            } else if answer is Some {
                Err(FaultView::UnexpectedAnswer)
            } else if size <= 0 {
                Ok((below(stack, 4).push(stack[n - 4]), EffectView::Done))
            } else {
                Ok(
                    (
                        below(stack, 4).push(ValueView::Array(items + integers(drawn))),
                        EffectView::Done,
                    ),
                )
            },
            (_, ValueView::Integer(_), ValueView::Integer(_), ValueView::Integer(_)) => Err(
                FaultView::InvalidArgument(stack[n - 4]),
            ),
            (_, _, ValueView::Integer(_), ValueView::Integer(_)) => Err(
                FaultView::InvalidArgument(stack[n - 3]),
            ),
            (_, _, _, ValueView::Integer(_)) => Err(FaultView::InvalidArgument(stack[n - 2])),
            _ => Err(FaultView::InvalidArgument(stack[n - 1])),
        }
    }
}

/// Whether `drawn` can be what the generator of `FILL_RANDOM` gave: where
/// the procedure draws, as many integers as the size says, each at least
/// `min` and less than `max`.
pub open spec fn drawn_fits(
    argc: usize,
    stack: Seq<ValueView>,
    answer: Option<AnswerView>,
    drawn: Seq<i64>,
) -> bool {
    let n = stack.len();
    argc == 4 && n >= 4 && answer is None ==> match (
        stack[n - 4],
        stack[n - 3],
        stack[n - 2],
        stack[n - 1],
    ) {
        (
            ValueView::Array(_),
            ValueView::Integer(size),
            ValueView::Integer(min),
            ValueView::Integer(max),
        ) => size > 0 && min < max ==> drawn.len() == size && forall|i: int|
            0 <= i < drawn.len() ==> min <= #[trigger] drawn[i] < max,
        _ => true,
    }
}

/// What the procedure of a kind does to the stack, where `drawn` are the
/// integers that a generator gave. The procedures that only shape the
/// bytecode cannot be executed.
pub open spec fn run(
    kind: ProcedureKind,
    argc: usize,
    stack: Seq<ValueView>,
    answer: Option<AnswerView>,
    drawn: Seq<i64>,
) -> Run {
    match kind {
        ProcedureKind::Binary(op) => run_binary(op, argc, stack, answer),
        ProcedureKind::Convert(op) => run_convert(op, argc, stack, answer),
        ProcedureKind::Print => run_print(argc, stack, answer),
        ProcedureKind::Rand => run_rand(argc, stack, answer),
        ProcedureKind::Sum => run_sum(argc, stack, answer),
        ProcedureKind::At => run_at(argc, stack, answer),
        ProcedureKind::FillRandom => run_fill(argc, stack, answer, drawn),
        _ => Err(FaultView::NotImplemented),
    }
}

/// Whether `drawn` can be what a generator gave to the procedure of a kind.
pub open spec fn draws_fit(
    kind: ProcedureKind,
    argc: usize,
    stack: Seq<ValueView>,
    answer: Option<AnswerView>,
    drawn: Seq<i64>,
) -> bool {
    kind == ProcedureKind::FillRandom ==> drawn_fits(argc, stack, answer, drawn)
}

/// Whether an execution went as specified: on success the effect and the
/// stack are the specified ones, on a fault the fault is the specified one
/// and the stack is as it was.
pub open spec fn executed(
    result: Result<Effect, Fault>,
    before: Seq<Value>,
    after: Seq<Value>,
    expected: Run,
) -> bool {
    match expected {
        Ok((stack, effect)) => result is Ok && result.unwrap()@ == effect && views(after) == stack,
        Err(fault) => result is Err && result.unwrap_err()@ == fault && views(after) == views(
            before,
        ),
    }
}

/// The view of an answer that may be missing.
pub open spec fn answer_view(answer: Option<Answer>) -> Option<AnswerView> {
    match answer {
        Some(answer) => Some(answer@),
        None => None,
    }
}

impl FloatTask {
    /// The value that the host's answer gives for the task.
    pub fn accept(&self, answer: Answer) -> (value: Result<Value, Fault>)
        ensures
            match accepted(self@, answer@) {
                Ok(expected) => value is Ok && value.unwrap()@ == expected,
                Err(fault) => value is Err && value.unwrap_err()@ == fault,
            },
    {
        let value = match answer {
            Answer::Invalid => {
                return match self {
                    FloatTask::Parse(text) => Err(
                        Fault::ConversionFailure {
                            to: ValueType::Float,
                            value: Value::String(text.clone()),
                        },
                    ),
                    _ => Err(Fault::RejectedAnswer),
                };
            },
            Answer::Value(value) => value,
        };
        let fits = match self {
            FloatTask::Binary { op, left: _, right: _ } => {
                let comparison = match op {
                    Operator::More => true,
                    Operator::Less => true,
                    Operator::Equal => true,
                    _ => false,
                };
                match &value {
                    Value::Boolean(_) => comparison,
                    Value::Float(_) => !comparison,
                    _ => false,
                }
            },
            FloatTask::Truth(_) => match &value {
                Value::Boolean(_) => true,
                _ => false,
            },
            FloatTask::Truncate(_) => match &value {
                Value::Integer(_) => true,
                _ => false,
            },
            FloatTask::Format(_) => match &value {
                Value::String(_) => true,
                _ => false,
            },
            _ => match &value {
                Value::Float(_) => true,
                _ => false,
            },
        };
        if fits {
            Ok(value)
        } else {
            Err(Fault::RejectedAnswer)
        }
    }
}

/// Takes the top `n` values off the stack.
fn shorten(stack: &mut Vec<Value>, n: usize)
    requires
        n <= old(stack).len(),
    ensures
        views(final(stack)@) == below(views(old(stack)@), n as int),
        final(stack)@ == old(stack)@.take(old(stack).len() - n),
{
    let length = stack.len() - n;
    stack.truncate(length);
    assert(stack@ =~= old(stack)@.take(old(stack).len() - n));
    assert(views(stack@) =~= below(views(old(stack)@), n as int));
}

/// Puts a value on top of the stack.
fn put(stack: &mut Vec<Value>, value: Value)
    ensures
        views(final(stack)@) == views(old(stack)@).push(value@),
{
    stack.push(value);
    assert(views(stack@) =~= views(old(stack)@).push(value@));
}

/// Completes an execution that pops `n` operands and has the given outcome.
fn complete(
    outcome: Result<Outcome, Fault>,
    answer: Option<Answer>,
    stack: &mut Vec<Value>,
    n: usize,
) -> (result: Result<Effect, Fault>)
    requires
        n <= old(stack).len(),
    ensures
        executed(
            result,
            old(stack)@,
            final(stack)@,
            completed(
                crate::value::result_view(outcome),
                answer_view(answer),
                views(old(stack)@),
                below(views(old(stack)@), n as int),
            ),
        ),
{
    match outcome {
        Err(fault) => Err(fault),
        Ok(Outcome::Value(value)) => {
            if answer.is_some() {
                return Err(Fault::UnexpectedAnswer);
            }
            shorten(stack, n);
            put(stack, value);
            Ok(Effect::Done)
        },
        Ok(Outcome::Host(task)) => settle(task, answer, stack, n),
    }
}

/// Completes an execution that pops `n` operands and needs the host.
fn settle(task: FloatTask, answer: Option<Answer>, stack: &mut Vec<Value>, n: usize) -> (result:
    Result<Effect, Fault>)
    requires
        n <= old(stack).len(),
    ensures
        executed(
            result,
            old(stack)@,
            final(stack)@,
            settled(
                task@,
                answer_view(answer),
                views(old(stack)@),
                below(views(old(stack)@), n as int),
            ),
        ),
{
    match answer {
        None => Ok(Effect::Compute(task)),
        Some(answer) => match task.accept(answer) {
            Err(fault) => Err(fault),
            Ok(value) => {
                shorten(stack, n);
                put(stack, value);
                Ok(Effect::Done)
            },
        },
    }
}

impl Expression {
    /// Pops the right operand, then the left one, and pushes what the
    /// operator makes of them.
    pub fn execute(&self, argc: usize, stack: &mut Vec<Value>, answer: Option<Answer>) -> (result:
        Result<Effect, Fault>)
        ensures
            executed(
                result,
                old(stack)@,
                final(stack)@,
                run_binary(self.op, argc, views(old(stack)@), answer_view(answer)),
            ),
    {
        if argc != 2 {
            return Err(Fault::WrongArity { expected: 2, found: argc });
        }
        let n = stack.len();
        if n < 2 {
            return Err(Fault::StackUnderflow);
        }
        assert(views(stack@)[n - 2] == stack@[n - 2]@);
        assert(views(stack@)[n - 1] == stack@[n - 1]@);
        let outcome = stack[n - 2].apply(self.op, &stack[n - 1]);
        complete(outcome, answer, stack, 2)
    }
}

impl TypeConverter {
    /// Pops one operand and pushes what it converts to.
    pub fn execute(&self, argc: usize, stack: &mut Vec<Value>, answer: Option<Answer>) -> (result:
        Result<Effect, Fault>)
        ensures
            executed(
                result,
                old(stack)@,
                final(stack)@,
                run_convert(self.op, argc, views(old(stack)@), answer_view(answer)),
            ),
    {
        if argc != 1 {
            return Err(Fault::WrongArity { expected: 1, found: argc });
        }
        let n = stack.len();
        if n < 1 {
            return Err(Fault::StackUnderflow);
        }
        assert(views(stack@)[n - 1] == stack@[n - 1]@);
        let outcome = match self.op {
            Conversion::To(to) => stack[n - 1].convert(to),
            Conversion::Array => {
                let empty = Value::Array(Vec::new());
                proof {
                    lemma_array_view(empty);
                    assert(views(empty->Array_0@) =~= Seq::<ValueView>::empty());
                }
                Ok(Outcome::Value(empty))
            },
            Conversion::Void => Ok(Outcome::Value(Value::Integer(0))),
        };
        complete(outcome, answer, stack, 1)
    }
}

impl Print {
    /// Pops one operand and hands it to the host to print.
    pub fn execute(&self, argc: usize, stack: &mut Vec<Value>, answer: Option<Answer>) -> (result:
        Result<Effect, Fault>)
        ensures
            executed(
                result,
                old(stack)@,
                final(stack)@,
                run_print(argc, views(old(stack)@), answer_view(answer)),
            ),
    {
        if argc != 1 {
            return Err(Fault::WrongArity { expected: 1, found: argc });
        }
        let n = stack.len();
        if n < 1 {
            return Err(Fault::StackUnderflow);
        }
        if answer.is_some() {
            return Err(Fault::UnexpectedAnswer);
        }
        assert(views(stack@)[n - 1] == stack@[n - 1]@);
        let value = stack[n - 1].clone();
        shorten(stack, 1);
        Ok(Effect::Print(value))
    }
}

impl Rand {
    /// Pushes the float that the host draws.
    pub fn execute(&self, argc: usize, stack: &mut Vec<Value>, answer: Option<Answer>) -> (result:
        Result<Effect, Fault>)
        ensures
            executed(
                result,
                old(stack)@,
                final(stack)@,
                run_rand(argc, views(old(stack)@), answer_view(answer)),
            ),
    {
        if argc != 0 {
            return Err(Fault::WrongArity { expected: 0, found: argc });
        }
        assert(below(views(stack@), 0) =~= views(stack@));
        settle(FloatTask::Random, answer, stack, 0)
    }
}

impl At {
    /// Pops an index, then an array, and pushes the item of the array at
    /// the index.
    pub fn execute(&self, argc: usize, stack: &mut Vec<Value>, answer: Option<Answer>) -> (result:
        Result<Effect, Fault>)
        ensures
            executed(
                result,
                old(stack)@,
                final(stack)@,
                run_at(argc, views(old(stack)@), answer_view(answer)),
            ),
    {
        if argc != 2 {
            return Err(Fault::WrongArity { expected: 2, found: argc });
        }
        let n = stack.len();
        if n < 2 {
            return Err(Fault::StackUnderflow);
        }
        assert(views(stack@)[n - 2] == stack@[n - 2]@);
        assert(views(stack@)[n - 1] == stack@[n - 1]@);
        let item = match &stack[n - 2] {
            Value::Array(items) => {
                proof {
                    lemma_array_view(stack@[n - 2]);
                }
                match &stack[n - 1] {
                    Value::Integer(index) => {
                        if *index < 0 || (*index as u64) >= (items.len() as u64) {
                            return Err(
                                Fault::IndexOutOfRange { index: *index, length: items.len() },
                            );
                        }
                        if answer.is_some() {
                            return Err(Fault::UnexpectedAnswer);
                        }
                        assert(views(items@)[*index as int] == items@[*index as int]@);
                        items[*index as usize].clone()
                    },
                    other => {
                        return Err(Fault::InvalidArgument(other.clone()));
                    },
                }
            },
            other => {
                return Err(Fault::InvalidArgument(other.clone()));
            },
        };
        shorten(stack, 2);
        put(stack, item);
        Ok(Effect::Done)
    }
}

impl Call {
    /// `CALL` only shapes the bytecode: it cannot be executed.
    pub fn execute(&self, argc: usize, stack: &mut Vec<Value>, answer: Option<Answer>) -> (result:
        Result<Effect, Fault>)
        ensures
            executed(result, old(stack)@, final(stack)@, Err(FaultView::NotImplemented)),
    {
        Err(Fault::NotImplemented)
    }
}

impl If {
    /// `IF` only shapes the bytecode: it cannot be executed.
    pub fn execute(&self, argc: usize, stack: &mut Vec<Value>, answer: Option<Answer>) -> (result:
        Result<Effect, Fault>)
        ensures
            executed(result, old(stack)@, final(stack)@, Err(FaultView::NotImplemented)),
    {
        Err(Fault::NotImplemented)
    }
}

impl Var {
    /// `VAR` only shapes the bytecode: it cannot be executed.
    pub fn execute(&self, argc: usize, stack: &mut Vec<Value>, answer: Option<Answer>) -> (result:
        Result<Effect, Fault>)
        ensures
            executed(result, old(stack)@, final(stack)@, Err(FaultView::NotImplemented)),
    {
        Err(Fault::NotImplemented)
    }
}

impl Return {
    /// `RETURN` only shapes the bytecode: it cannot be executed.
    pub fn execute(&self, argc: usize, stack: &mut Vec<Value>, answer: Option<Answer>) -> (result:
        Result<Effect, Fault>)
        ensures
            executed(result, old(stack)@, final(stack)@, Err(FaultView::NotImplemented)),
    {
        Err(Fault::NotImplemented)
    }
}

/// The floats at the head of the values of the stack from index `from` on.
fn floats_from(stack: &Vec<Value>, from: usize) -> (floats: Vec<Float>)
    requires
        from <= stack.len(),
    ensures
        floats@ == leading_floats(views(stack@).skip(from as int), 0),
{
    let ghost operands = views(stack@).skip(from as int);
    let mut floats: Vec<Float> = Vec::new();
    let mut i: usize = from;
    while i < stack.len()
        invariant
            from <= i <= stack.len(),
            operands == views(stack@).skip(from as int),
            leading_floats(operands, 0) == floats@ + leading_floats(operands, i - from),
        decreases stack.len() - i,
    {
        assert(operands[i - from] == stack@[i as int]@);
        match &stack[i] {
            Value::Float(f) => {
                let ghost before = floats@;
                floats.push(*f);
                assert(floats@ + leading_floats(operands, i - from + 1) =~= before + (seq![*f]
                    + leading_floats(operands, i - from + 1)));
            },
            _ => {
                assert(floats@ + Seq::<Float>::empty() =~= floats@);
                return floats;
            },
        }
        i += 1;
    }
    assert(floats@ + Seq::<Float>::empty() =~= floats@);
    floats
}

impl Sum {
    /// Pops `argc` operands and pushes their sum, added from left to right.
    pub fn execute(&self, argc: usize, stack: &mut Vec<Value>, answer: Option<Answer>) -> (result:
        Result<Effect, Fault>)
        ensures
            executed(
                result,
                old(stack)@,
                final(stack)@,
                run_sum(argc, views(old(stack)@), answer_view(answer)),
            ),
    {
        if argc == 0 {
            if answer.is_some() {
                return Err(Fault::UnexpectedAnswer);
            }
            return Ok(Effect::Done);
        }
        let n = stack.len();
        if n < argc {
            return Err(Fault::StackUnderflow);
        }
        let base = n - argc;
        let ghost operands = views(stack@).skip(base as int);
        assert(operands.len() == argc);
        assert(operands[0] == stack@[base as int]@);
        let float_first = match &stack[base] {
            Value::Float(_) => true,
            _ => false,
        };
        if float_first {
            let floats = floats_from(stack, base);
            if floats.len() >= 2 {
                let count = floats.len();
                let task = FloatTask::Sum(floats);
                let answer = match answer {
                    None => {
                        return Ok(Effect::Compute(task));
                    },
                    Some(answer) => answer,
                };
                let value = match task.accept(answer) {
                    Err(fault) => {
                        return Err(fault);
                    },
                    Ok(value) => value,
                };
                if count == argc {
                    shorten(stack, argc);
                    put(stack, value);
                    return Ok(Effect::Done);
                }
                proof {
                    lemma_leading_floats(operands, 0);
                }
                assert(operands[count as int] == stack@[base + count]@);
                return Err(
                    Fault::InvalidOperands {
                        op: Operator::Add,
                        left: value,
                        right: stack[base + count].clone(),
                    },
                );
            }
        }
        let mut acc = stack[base].clone();
        let mut i: usize = 1;
        while i < argc
            invariant
                1 <= i <= argc,
                n == stack.len(),
                base == n - argc,
                stack@ == old(stack)@,
                operands == views(stack@).skip(base as int),
                operands.len() == argc,
                sum_from(operands, 1, operands[0]) == sum_from(operands, i as int, acc@),
                operands[0] is Float ==> leading_floats(operands, 0).len() < 2,
            decreases argc - i,
        {
            assert(operands[i as int] == stack@[base + i]@);
            match acc.apply(Operator::Add, &stack[base + i]) {
                Ok(Outcome::Value(value)) => {
                    acc = value;
                },
                Ok(Outcome::Host(_)) => {
                    return Err(
                        Fault::InvalidOperands {
                            op: Operator::Add,
                            left: acc,
                            right: stack[base + i].clone(),
                        },
                    );
                },
                Err(fault) => {
                    return Err(fault);
                },
            }
            i += 1;
        }
        complete(Ok(Outcome::Value(acc)), answer, stack, argc)
    }
}

/// The leading floats of operands are no more than the operands, and the
/// operand after them, if there is one, is no float.
pub proof fn lemma_leading_floats(operands: Seq<ValueView>, i: int)
    requires
        0 <= i <= operands.len(),
    ensures
        leading_floats(operands, i).len() <= operands.len() - i,
        i + leading_floats(operands, i).len() < operands.len() ==> !(operands[i + leading_floats(
            operands,
            i,
        ).len()] is Float),
    decreases operands.len() - i,
{
    if i < operands.len() && operands[i] is Float {
        lemma_leading_floats(operands, i + 1);
    }
}

/// Draws `size` integers, each at least `min` and less than `max`.
fn draw(rng: &mut SmallRng, size: i64, min: i64, max: i64) -> (drawn: Vec<Value>)
    requires
        min < max,
    ensures
        drawn@.len() == fill_count(size),
        forall|i: int|
            0 <= i < drawn@.len() ==> (#[trigger] drawn@[i]) is Integer && min
                <= drawn@[i]->Integer_0 < max,
{
    let mut drawn: Vec<Value> = Vec::new();
    let mut i: i64 = 0;
    while i < size
        invariant
            min < max,
            0 <= i,
            i <= size || i == 0,
            drawn@.len() == i,
            forall|k: int|
                0 <= k < drawn@.len() ==> (#[trigger] drawn@[k]) is Integer && min
                    <= drawn@[k]->Integer_0 < max,
        decreases size - i,
    {
        let next = random_between(rng, min, max);
        drawn.push(Value::Integer(next));
        i += 1;
    }
    drawn
}

/// The integers that a list of integer values holds.
pub open spec fn integers_of(values: Seq<Value>) -> Seq<i64> {
    Seq::new(values.len(), |i: int| values[i]->Integer_0)
}

/// `FILL_RANDOM` on a generator; the second result is what the generator
/// gave.
fn fill(rng: &mut SmallRng, argc: usize, stack: &mut Vec<Value>, answer: Option<Answer>) -> (result:
    (Result<Effect, Fault>, Ghost<Seq<i64>>))
    ensures
        drawn_fits(argc, views(old(stack)@), answer_view(answer), result.1@),
        executed(
            result.0,
            old(stack)@,
            final(stack)@,
            run_fill(argc, views(old(stack)@), answer_view(answer), result.1@),
        ),
{
    let ghost none: Seq<i64> = Seq::empty();
    if argc != 4 {
        return (Err(Fault::WrongArity { expected: 4, found: argc }), Ghost(none));
    }
    let n = stack.len();
    if n < 4 {
        return (Err(Fault::StackUnderflow), Ghost(none));
    }
    assert(views(stack@)[n - 4] == stack@[n - 4]@);
    assert(views(stack@)[n - 3] == stack@[n - 3]@);
    assert(views(stack@)[n - 2] == stack@[n - 2]@);
    assert(views(stack@)[n - 1] == stack@[n - 1]@);
    let max = match &stack[n - 1] {
        Value::Integer(i) => *i,
        other => {
            return (Err(Fault::InvalidArgument(other.clone())), Ghost(none));
        },
    };
    let min = match &stack[n - 2] {
        Value::Integer(i) => *i,
        other => {
            return (Err(Fault::InvalidArgument(other.clone())), Ghost(none));
        },
    };
    let size = match &stack[n - 3] {
        Value::Integer(i) => *i,
        other => {
            return (Err(Fault::InvalidArgument(other.clone())), Ghost(none));
        },
    };
    let filled = match &stack[n - 4] {
        Value::Array(items) => {
            proof {
                lemma_array_view(stack@[n - 4]);
            }
            if size > 0 && min >= max {
                return (Err(Fault::InvalidArgument(stack[n - 1].clone())), Ghost(none));
            }
            if answer.is_some() {
                return (Err(Fault::UnexpectedAnswer), Ghost(none));
            }
            if size <= 0 {
                let same = stack[n - 4].clone();
                shorten(stack, 4);
                put(stack, same);
                return (Ok(Effect::Done), Ghost(none));
            }
            let addition = draw(rng, size, min, max);
            let all = concatenated(items, &addition);
            let ghost drawn = integers_of(addition@);
            assert(views(addition@) =~= integers(drawn));
            let filled = Value::Array(all);
            proof {
                lemma_array_view(filled);
            }
            (filled, Ghost(drawn))
        },
        other => {
            return (Err(Fault::InvalidArgument(other.clone())), Ghost(none));
        },
    };
    shorten(stack, 4);
    put(stack, filled.0);
    (Ok(Effect::Done), filled.1)
}

impl FillRandom {
    /// Pops a bound, `max`, then a bound, `min`, then a size, then an
    /// array, and pushes the array with `size` random integers after its
    /// items, each at least `min` and less than `max`.
    pub fn execute(&mut self, argc: usize, stack: &mut Vec<Value>, answer: Option<Answer>) -> (result:
        Result<Effect, Fault>)
        ensures
            exists|drawn: Seq<i64>|
                drawn_fits(argc, views(old(stack)@), answer_view(answer), drawn)
                    && #[trigger] executed(
                    result,
                    old(stack)@,
                    final(stack)@,
                    run_fill(argc, views(old(stack)@), answer_view(answer), drawn),
                ),
    {
        let result = fill(&mut self.rng, argc, stack, answer);
        result.0
    }
}

impl Procedure {
    /// Executes the procedure on the stack.
    pub fn execute(&mut self, argc: usize, stack: &mut Vec<Value>, answer: Option<Answer>) -> (result:
        Result<Effect, Fault>)
        ensures
            final(self).kind_of() == old(self).kind_of(),
            exists|drawn: Seq<i64>|
                draws_fit(
                    old(self).kind_of(),
                    argc,
                    views(old(stack)@),
                    answer_view(answer),
                    drawn,
                )
                    && #[trigger] executed(
                    result,
                    old(stack)@,
                    final(stack)@,
                    run(
                        old(self).kind_of(),
                        argc,
                        views(old(stack)@),
                        answer_view(answer),
                        drawn,
                    ),
                ),
    {
        let ghost none: Seq<i64> = Seq::empty();
        let ghost kind = self.kind_of();
        let ghost before = stack@;
        let ghost given = answer_view(answer);
        match self {
            Procedure::FillRandom(procedure) => {
                let result = fill(&mut procedure.rng, argc, stack, answer);
                assert(executed(
                    result.0,
                    before,
                    stack@,
                    run(kind, argc, views(before), given, result.1@),
                ));
                result.0
            },
            Procedure::Call(procedure) => {
                let result = procedure.execute(argc, stack, answer);
                assert(executed(result, before, stack@, run(kind, argc, views(before), given, none)));
                result
            },
            Procedure::If(procedure) => {
                let result = procedure.execute(argc, stack, answer);
                assert(executed(result, before, stack@, run(kind, argc, views(before), given, none)));
                result
            },
            Procedure::Var(procedure) => {
                let result = procedure.execute(argc, stack, answer);
                assert(executed(result, before, stack@, run(kind, argc, views(before), given, none)));
                result
            },
            Procedure::Return(procedure) => {
                let result = procedure.execute(argc, stack, answer);
                assert(executed(result, before, stack@, run(kind, argc, views(before), given, none)));
                result
            },
            Procedure::Print(procedure) => {
                let result = procedure.execute(argc, stack, answer);
                assert(executed(result, before, stack@, run(kind, argc, views(before), given, none)));
                result
            },
            Procedure::Rand(procedure) => {
                let result = procedure.execute(argc, stack, answer);
                assert(executed(result, before, stack@, run(kind, argc, views(before), given, none)));
                result
            },
            Procedure::Sum(procedure) => {
                let result = procedure.execute(argc, stack, answer);
                assert(executed(result, before, stack@, run(kind, argc, views(before), given, none)));
                result
            },
            Procedure::At(procedure) => {
                let result = procedure.execute(argc, stack, answer);
                assert(executed(result, before, stack@, run(kind, argc, views(before), given, none)));
                result
            },
            Procedure::TypeConverter(procedure) => {
                let result = procedure.execute(argc, stack, answer);
                assert(executed(result, before, stack@, run(kind, argc, views(before), given, none)));
                result
            },
            Procedure::Expression(procedure) => {
                let result = procedure.execute(argc, stack, answer);
                assert(executed(result, before, stack@, run(kind, argc, views(before), given, none)));
                result
            },
        }
    }
}

} // verus!
