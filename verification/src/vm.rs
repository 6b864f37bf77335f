//! The machine that runs a program.
//!
//! A run has the cursor of its program, an operand stack and a table of
//! variables. One step moves the pointer on by one and carries out the
//! operation that it lands on. The machine itself prints nothing and
//! computes with no floats: a step that needs either says so, and the host
//! acts. A step that faults leaves the whole state as it was.

use crate::execute::{answer_view, completed, draws_fit, executed, run, Effect, EffectView};
use crate::procedure::{get_procedures, procedure_named};
use crate::program::{
    finished, mark_index, moved_by, OperationName, OperationView, Program, ProgramView,
};
use crate::text::{begins_with, same_text};
use crate::value::{
    convert, views, Answer, AnswerView, Fault, FaultView, FloatTask, FloatTaskView, Outcome,
    Value, ValueType, ValueView,
};
use vstd::prelude::*;

verus! {

/// A variable with its value.
pub struct Binding {
    pub name: String,
    pub value: Value,
}

/// The variables of a run. A variable is bound once and stays bound.
pub struct Memo {
    pub bindings: Vec<Binding>,
}

/// The table that the first `n` bindings make.
pub open spec fn bound(bindings: Seq<Binding>, n: nat) -> Map<Seq<char>, ValueView>
    decreases n,
{
    if n == 0 || n > bindings.len() {
        Map::empty()
    } else {
        bound(bindings, (n - 1) as nat).insert(bindings[n - 1].name@, bindings[n - 1].value@)
    }
}

impl View for Memo {
    type V = Map<Seq<char>, ValueView>;

    open spec fn view(&self) -> Map<Seq<char>, ValueView> {
        bound(self.bindings@, self.bindings@.len())
    }
}

impl Memo {
    /// A table without variables.
    pub fn new() -> (memo: Memo)
        ensures
            memo@ == Map::<Seq<char>, ValueView>::empty(),
    {
        Memo { bindings: Vec::new() }
    }

    /// The value of a variable, if it is bound.
    pub fn get(&self, name: &str) -> (value: Option<&Value>)
        ensures
            match value {
                Some(value) => self@.contains_key(name@) && self@[name@] == value@,
                None => !self@.contains_key(name@),
            },
    {
        let mut i: usize = self.bindings.len();
        while i > 0
            invariant
                i <= self.bindings.len(),
                self@.contains_key(name@) == bound(self.bindings@, i as nat).contains_key(name@),
                self@.contains_key(name@) ==> self@[name@] == bound(self.bindings@, i as nat)[name@],
            decreases i,
        {
            i -= 1;
            assert(bound(self.bindings@, (i + 1) as nat) == bound(self.bindings@, i as nat).insert(
                self.bindings@[i as int].name@,
                self.bindings@[i as int].value@,
            ));
            if same_text(self.bindings[i].name.as_str(), name) {
                return Some(&self.bindings[i].value);
            }
        }
        None
    }

    /// Binds a variable. A variable that is bound already stays as it is,
    /// and the fault names it.
    pub fn bind(&mut self, name: String, value: Value) -> (result: Result<(), Fault>)
        ensures
            match result {
                Ok(()) => !old(self)@.contains_key(name@) && final(self)@ == old(self)@.insert(
                    name@,
                    value@,
                ),
                Err(fault) => old(self)@.contains_key(name@) && fault@
                    == FaultView::DuplicateVariable(name@) && final(self)@ == old(self)@,
            },
    {
        if self.get(name.as_str()).is_some() {
            return Err(Fault::DuplicateVariable(name));
        }
        let ghost before = self.bindings@;
        self.bindings.push(Binding { name, value });
        proof {
            lemma_bound_prefix(before, self.bindings@, before.len());
        }
        Ok(())
    }
}

/// The table of the first bindings depends on those bindings only.
pub proof fn lemma_bound_prefix(first: Seq<Binding>, second: Seq<Binding>, n: nat)
    requires
        n <= first.len(),
        n <= second.len(),
        forall|i: int| 0 <= i < n ==> first[i] == second[i],
    ensures
        bound(first, n) == bound(second, n),
    decreases n,
{
    if n > 0 {
        lemma_bound_prefix(first, second, (n - 1) as nat);
    }
}

/// The operand stack and the variables of a run.
pub struct Machine {
    pub stack: Vec<Value>,
    pub memo: Memo,
}

/// The state of a run: the program with its cursor, the operand stack with
/// its top last, and the variables.
pub struct State {
    pub program: ProgramView,
    pub stack: Seq<ValueView>,
    pub memo: Map<Seq<char>, ValueView>,
}

/// What a step asks of the host.
#[derive(Debug, PartialEq)]
pub enum Action {
    /// To go on with the next step.
    Continue,
    /// To print the value, and to go on.
    Print(Value),
    /// To carry out the task, and to take the step again with the answer.
    Compute(FloatTask),
    /// Nothing more: the run is over.
    Halt,
}

pub enum ActionView {
    Continue,
    Print(ValueView),
    Compute(FloatTaskView),
    Halt,
}

impl View for Action {
    type V = ActionView;

    open spec fn view(&self) -> ActionView {
        match self {
            Action::Continue => ActionView::Continue,
            Action::Print(value) => ActionView::Print(value@),
            Action::Compute(task) => ActionView::Compute(task@),
            Action::Halt => ActionView::Halt,
        }
    }
}

/// The state after a step and what the step asks of the host, or a fault.
pub type Step = Result<(State, ActionView), FaultView>;

/// Whether the pointer has left the program or stands on a mark: either
/// way the flow under way is over.
pub open spec fn at_end(p: ProgramView) -> bool {
    p.op_idx >= p.ops.len() || p.ops[p.op_idx as int].name == OperationName::Mark
}

/// The cursor after the flows that are over have returned: the pointer
/// goes back along the trace until it stands on an operation that is no
/// mark; where the trace runs out first, it leaves the program.
pub open spec fn returned(p: ProgramView) -> ProgramView
    decreases p.trace.len(),
{
    if !at_end(p) {
        p
    } else if p.trace.len() == 0 {
        finished(p)
    } else {
        returned(finished(p))
    }
}

/// The cursor at the operation that the next step carries out: the pointer
/// moves on by one, and flows that are over return.
pub open spec fn landed(p: ProgramView) -> ProgramView {
    returned(ProgramView { op_idx: moved_by(p.op_idx, 1), ..p })
}

/// A step that needs no answer from the host: an answer is a fault.
pub open spec fn plain(answer: Option<AnswerView>, state: State, action: ActionView) -> Step {
    if answer is Some {
        Err(FaultView::UnexpectedAnswer)
    } else {
        Ok((state, action))
    }
}

/// Whether the operand of a `PUSH` names a variable.
pub open spec fn names_variable(value: ValueView) -> bool {
    value is String && "$"@.is_prefix_of(value->String_0)
}

/// What a `PUSH` pushes: the value of the variable that the operand names,
/// or else the operand itself.
pub open spec fn operand(value: ValueView, memo: Map<Seq<char>, ValueView>) -> Result<
    ValueView,
    FaultView,
> {
    if names_variable(value) {
        if memo.contains_key(value->String_0) {
            Ok(memo[value->String_0])
        } else {
            Err(FaultView::UndefinedVariable(value->String_0))
        }
    } else {
        Ok(value)
    }
}

/// `JMP name` at the pointer of `p`: the address after the pointer goes
/// onto the trace and the pointer to the mark of the name.
pub open spec fn step_jmp(s: State, p: ProgramView, op: OperationView, answer: Option<AnswerView>)
    -> Step {
    match op.word {
        None => Err(FaultView::MalformedOperation),
        Some(name) => match mark_index(p.ops, name) {
            None => Err(FaultView::UndefinedMark(name)),
            Some(mark) => plain(
                answer,
                State {
                    program: ProgramView {
                        op_idx: mark as usize,
                        trace: p.trace.push(moved_by(p.op_idx, 1)),
                        ..p
                    },
                    ..s
                },
                ActionView::Continue,
            ),
        },
    }
}

/// `PUSH operand` at the pointer of `p`.
pub open spec fn step_push(s: State, p: ProgramView, op: OperationView, answer: Option<AnswerView>)
    -> Step {
    match op.value {
        None => Err(FaultView::MalformedOperation),
        Some(value) => match operand(value, s.memo) {
            Err(fault) => Err(fault),
            Ok(pushed) => plain(
                answer,
                State { program: p, stack: s.stack.push(pushed), ..s },
                ActionView::Continue,
            ),
        },
    }
}

/// `VAR name` at the pointer of `p`: the top of the stack becomes the value
/// of the variable, which must not be bound yet.
pub open spec fn step_var(s: State, p: ProgramView, op: OperationView, answer: Option<AnswerView>)
    -> Step {
    match op.word {
        None => Err(FaultView::MalformedOperation),
        Some(name) => if s.stack.len() == 0 {
            Err(FaultView::StackUnderflow)
        } else if s.memo.contains_key(name) {
            Err(FaultView::DuplicateVariable(name))
        } else {
            plain(
                answer,
                State {
                    program: p,
                    stack: s.stack.drop_last(),
                    memo: s.memo.insert(name, s.stack.last()),
                },
                ActionView::Continue,
            )
        },
    }
}

/// `EXEC name argc` at the pointer of `p`: the procedure of the name works
/// on the stack. Where it needs the host, the cursor stays as it was before
/// the step.
pub open spec fn step_exec(
    s: State,
    p: ProgramView,
    op: OperationView,
    answer: Option<AnswerView>,
    drawn: Seq<i64>,
) -> Step {
    match (op.word, op.count) {
        (Some(name), Some(argc)) => match procedure_named(name) {
            None => Err(FaultView::UnknownProcedure(name)),
            Some(kind) => match run(kind, argc, s.stack, answer, drawn) {
                Err(fault) => Err(fault),
                Ok((stack, EffectView::Compute(task))) => Ok(
                    (State { stack, ..s }, ActionView::Compute(task)),
                ),
                Ok((stack, EffectView::Print(value))) => Ok(
                    (State { program: p, stack, ..s }, ActionView::Print(value)),
                ),
                Ok((stack, EffectView::Done)) => Ok(
                    (State { program: p, stack, ..s }, ActionView::Continue),
                ),
            },
        },
        _ => Err(FaultView::MalformedOperation),
    }
}

/// `SKIP n` at the pointer of `p`: the pointer moves on by `n`.
pub open spec fn step_skip(s: State, p: ProgramView, op: OperationView, answer: Option<AnswerView>)
    -> Step {
    match op.count {
        None => Err(FaultView::MalformedOperation),
        Some(n) => plain(
            answer,
            State { program: ProgramView { op_idx: moved_by(p.op_idx, n), ..p }, ..s },
            ActionView::Continue,
        ),
    }
}

/// `CSKIP n` at the pointer of `p`: the top of the stack is popped and made
/// a boolean; where that is true the pointer moves on by `n`. Where only
/// the host can tell, the state stays as it was before the step.
pub open spec fn step_cskip(
    s: State,
    p: ProgramView,
    op: OperationView,
    answer: Option<AnswerView>,
) -> Step {
    match op.count {
        None => Err(FaultView::MalformedOperation),
        Some(n) => if s.stack.len() == 0 {
            Err(FaultView::StackUnderflow)
        } else {
            match completed(
                convert(ValueType::Boolean, s.stack.last()),
                answer,
                s.stack,
                s.stack.drop_last(),
            ) {
                Err(fault) => Err(fault),
                Ok((_, EffectView::Compute(task))) => Ok((s, ActionView::Compute(task))),
                Ok((stack, _)) => Ok(
                    (
                        State {
                            program: if stack.last() == ValueView::Boolean(true) {
                                ProgramView { op_idx: moved_by(p.op_idx, n), ..p }
                            } else {
                                p
                            },
                            stack: s.stack.drop_last(),
                            ..s
                        },
                        ActionView::Continue,
                    ),
                ),
            }
        },
    }
}

/// One step of a run, where `drawn` are the integers that a generator gave
/// to the procedure, if it drew any.
pub open spec fn step(s: State, answer: Option<AnswerView>, drawn: Seq<i64>) -> Step {
    let p = landed(s.program);
    if p.op_idx >= p.ops.len() {
        plain(answer, State { program: p, ..s }, ActionView::Halt)
    } else {
        let op = p.ops[p.op_idx as int];
        match op.name {
            OperationName::Jmp => step_jmp(s, p, op, answer),
            OperationName::Push => step_push(s, p, op, answer),
            OperationName::Var => step_var(s, p, op, answer),
            OperationName::Exec => step_exec(s, p, op, answer, drawn),
            OperationName::Skip => step_skip(s, p, op, answer),
            OperationName::Cskip => step_cskip(s, p, op, answer),
            OperationName::Mark => Err(FaultView::MalformedOperation),
        }
    }
}

/// Whether `drawn` can be what a generator gave in the step from a state.
pub open spec fn draws_due(s: State, answer: Option<AnswerView>, drawn: Seq<i64>) -> bool {
    let p = landed(s.program);
    p.op_idx < p.ops.len() ==> {
        let op = p.ops[p.op_idx as int];
        op.name == OperationName::Exec && op.word is Some && op.count is Some && procedure_named(
            op.word.unwrap(),
        ) is Some ==> draws_fit(
            procedure_named(op.word.unwrap()).unwrap(),
            op.count.unwrap(),
            s.stack,
            answer,
            drawn,
        )
    }
}

/// Whether a step went as specified: on success the action and the state
/// are the specified ones, on a fault the fault is the specified one and
/// the state is as it was.
pub open spec fn stepped(result: Result<Action, Fault>, before: State, after: State, expected: Step)
    -> bool {
    match expected {
        Ok((state, action)) => result is Ok && result.unwrap()@ == action && after == state,
        Err(fault) => result is Err && result.unwrap_err()@ == fault && after == before,
    }
}

/// Returning moves the cursor and leaves the operations as they are.
pub proof fn lemma_same_operations(p: ProgramView)
    ensures
        returned(p).ops == p.ops,
        landed(p).ops == p.ops,
    decreases p.trace.len(),
{
    if at_end(p) && p.trace.len() > 0 {
        lemma_same_operations(finished(p));
    }
    let stepped = ProgramView { op_idx: moved_by(p.op_idx, 1), ..p };
    if at_end(stepped) && stepped.trace.len() > 0 {
        lemma_same_operations(finished(stepped));
    }
}

/// The pointer never lands on a mark.
pub proof fn lemma_returned(p: ProgramView)
    requires
        p.ops.len() <= usize::MAX,
    ensures
        returned(p).ops == p.ops,
        returned(p).op_idx < p.ops.len() ==> p.ops[returned(p).op_idx as int].name
            != OperationName::Mark,
    decreases p.trace.len(),
{
    if at_end(p) && p.trace.len() > 0 {
        lemma_returned(finished(p));
    }
}

/// Where the next step lands: the pointer, and how much of the trace is
/// left.
pub fn landing(pr: &Program) -> (place: (usize, usize))
    ensures
        place.1 <= pr@.trace.len(),
        landed(pr@) == (ProgramView {
            op_idx: place.0,
            trace: pr@.trace.take(place.1 as int),
            ..pr@
        }),
{
    let mut idx: usize = if pr.op_idx < usize::MAX {
        pr.op_idx + 1
    } else {
        pr.op_idx
    };
    let mut kept: usize = pr.trace.len();
    assert(pr@.trace.take(kept as int) =~= pr@.trace);
    assert(pr@.ops.len() == pr.ops.len());
    loop
        invariant
            kept <= pr.trace.len(),
            pr@.ops.len() == pr.ops.len(),
            landed(pr@) == returned(
                ProgramView { op_idx: idx, trace: pr@.trace.take(kept as int), ..pr@ },
            ),
        decreases kept + 1,
    {
        let ghost here = ProgramView { op_idx: idx, trace: pr@.trace.take(kept as int), ..pr@ };
        let over = if idx >= pr.ops.len() {
            true
        } else {
            assert(pr@.ops[idx as int] == pr.ops@[idx as int]@);
            pr.ops[idx].name == OperationName::Mark
        };
        if !over {
            return (idx, kept);
        }
        if kept == 0 {
            assert(pr@.trace.take(0) =~= Seq::<usize>::empty());
            return (pr.ops.len(), 0);
        }
        kept -= 1;
        idx = pr.trace[kept];
        assert(here.trace.drop_last() =~= pr@.trace.take(kept as int));
    }
}

/// The pointer moved by `num`, and no further than the greatest index.
fn moved(idx: usize, num: usize) -> (to: usize)
    ensures
        to == moved_by(idx, num),
{
    if num <= usize::MAX - idx {
        idx + num
    } else {
        usize::MAX
    }
}

/// Sets the cursor: the pointer, and how much of the trace is left.
fn place(pr: &mut Program, idx: usize, kept: usize)
    requires
        kept <= old(pr)@.trace.len(),
    ensures
        final(pr)@ == (ProgramView {
            op_idx: idx,
            trace: old(pr)@.trace.take(kept as int),
            ..old(pr)@
        }),
{
    pr.op_idx = idx;
    pr.trace.truncate(kept);
    assert(pr.trace@ =~= old(pr)@.trace.take(kept as int));
}

/// Whether the value is the boolean `true`.
fn is_true(value: &Value) -> (truth: bool)
    ensures
        truth == (value@ == ValueView::Boolean(true)),
{
    match value {
        Value::Boolean(b) => *b,
        _ => false,
    }
}

impl Machine {
    /// A machine with an empty stack and no variables.
    pub fn new() -> (machine: Machine)
        ensures
            machine.stack@.len() == 0,
            machine.memo@ == Map::<Seq<char>, ValueView>::empty(),
    {
        Machine { stack: Vec::new(), memo: Memo::new() }
    }

    /// The state of the run of a program on this machine.
    pub open spec fn with(&self, pr: &Program) -> State {
        State { program: pr@, stack: views(self.stack@), memo: self.memo@ }
    }

    fn jmp(&mut self, pr: &mut Program, idx: usize, kept: usize, answer: Option<Answer>) -> (result:
        Result<Action, Fault>)
        requires
            kept <= old(pr)@.trace.len(),
            idx < old(pr)@.ops.len(),
            landed(old(pr)@) == (ProgramView {
                op_idx: idx,
                trace: old(pr)@.trace.take(kept as int),
                ..old(pr)@
            }),
        ensures
            stepped(
                result,
                old(self).with(old(pr)),
                final(self).with(final(pr)),
                step_jmp(
                    old(self).with(old(pr)),
                    landed(old(pr)@),
                    old(pr)@.ops[idx as int],
                    answer_view(answer),
                ),
            ),
    {
        assert(pr@.ops[idx as int] == pr.ops@[idx as int]@);
        let mark = match &pr.ops[idx].word {
            None => {
                return Err(Fault::MalformedOperation);
            },
            Some(word) => match pr.find_mark(word.as_str()) {
                None => {
                    return Err(Fault::UndefinedMark(word.clone()));
                },
                Some(mark) => mark,
            },
        };
        if answer.is_some() {
            return Err(Fault::UnexpectedAnswer);
        }
        place(pr, mark, kept);
        pr.trace.push(moved(idx, 1));
        Ok(Action::Continue)
    }

    fn push(&mut self, pr: &mut Program, idx: usize, kept: usize, answer: Option<Answer>) -> (result:
        Result<Action, Fault>)
        requires
            kept <= old(pr)@.trace.len(),
            idx < old(pr)@.ops.len(),
            landed(old(pr)@) == (ProgramView {
                op_idx: idx,
                trace: old(pr)@.trace.take(kept as int),
                ..old(pr)@
            }),
        ensures
            stepped(
                result,
                old(self).with(old(pr)),
                final(self).with(final(pr)),
                step_push(
                    old(self).with(old(pr)),
                    landed(old(pr)@),
                    old(pr)@.ops[idx as int],
                    answer_view(answer),
                ),
            ),
    {
        assert(pr@.ops[idx as int] == pr.ops@[idx as int]@);
        let pushed = match &pr.ops[idx].value {
            None => {
                return Err(Fault::MalformedOperation);
            },
            Some(value) => {
                let variable = match value {
                    Value::String(name) => if begins_with(name.as_str(), "$") {
                        Some(name)
                    } else {
                        None
                    },
                    _ => None,
                };
                match variable {
                    None => value.clone(),
                    Some(name) => match self.memo.get(name.as_str()) {
                        None => {
                            return Err(Fault::UndefinedVariable(name.clone()));
                        },
                        Some(found) => found.clone(),
                    },
                }
            },
        };
        if answer.is_some() {
            return Err(Fault::UnexpectedAnswer);
        }
        place(pr, idx, kept);
        self.stack.push(pushed);
        assert(views(self.stack@) =~= views(old(self).stack@).push(pushed@));
        Ok(Action::Continue)
    }

    fn var(&mut self, pr: &mut Program, idx: usize, kept: usize, answer: Option<Answer>) -> (result:
        Result<Action, Fault>)
        requires
            kept <= old(pr)@.trace.len(),
            idx < old(pr)@.ops.len(),
            landed(old(pr)@) == (ProgramView {
                op_idx: idx,
                trace: old(pr)@.trace.take(kept as int),
                ..old(pr)@
            }),
        ensures
            stepped(
                result,
                old(self).with(old(pr)),
                final(self).with(final(pr)),
                step_var(
                    old(self).with(old(pr)),
                    landed(old(pr)@),
                    old(pr)@.ops[idx as int],
                    answer_view(answer),
                ),
            ),
    {
        assert(pr@.ops[idx as int] == pr.ops@[idx as int]@);
        let name = match &pr.ops[idx].word {
            None => {
                return Err(Fault::MalformedOperation);
            },
            Some(word) => word.clone(),
        };
        let n = self.stack.len();
        if n == 0 {
            return Err(Fault::StackUnderflow);
        }
        if self.memo.get(name.as_str()).is_some() {
            return Err(Fault::DuplicateVariable(name));
        }
        if answer.is_some() {
            return Err(Fault::UnexpectedAnswer);
        }
        assert(views(self.stack@).last() == self.stack@[n - 1]@);
        let value = match self.stack.pop() {
            Some(value) => value,
            None => {
                return Err(Fault::StackUnderflow);
            },
        };
        assert(views(self.stack@) =~= views(old(self).stack@).drop_last());
        match self.memo.bind(name, value) {
            Ok(()) => {},
            Err(fault) => {
                return Err(fault);
            },
        }
        place(pr, idx, kept);
        Ok(Action::Continue)
    }

    fn skip(&mut self, pr: &mut Program, idx: usize, kept: usize, answer: Option<Answer>) -> (result:
        Result<Action, Fault>)
        requires
            kept <= old(pr)@.trace.len(),
            idx < old(pr)@.ops.len(),
            landed(old(pr)@) == (ProgramView {
                op_idx: idx,
                trace: old(pr)@.trace.take(kept as int),
                ..old(pr)@
            }),
        ensures
            stepped(
                result,
                old(self).with(old(pr)),
                final(self).with(final(pr)),
                step_skip(
                    old(self).with(old(pr)),
                    landed(old(pr)@),
                    old(pr)@.ops[idx as int],
                    answer_view(answer),
                ),
            ),
    {
        assert(pr@.ops[idx as int] == pr.ops@[idx as int]@);
        let n = match pr.ops[idx].count {
            None => {
                return Err(Fault::MalformedOperation);
            },
            Some(n) => n,
        };
        if answer.is_some() {
            return Err(Fault::UnexpectedAnswer);
        }
        place(pr, moved(idx, n), kept);
        Ok(Action::Continue)
    }

    fn cskip(&mut self, pr: &mut Program, idx: usize, kept: usize, answer: Option<Answer>) -> (result:
        Result<Action, Fault>)
        requires
            kept <= old(pr)@.trace.len(),
            idx < old(pr)@.ops.len(),
            landed(old(pr)@) == (ProgramView {
                op_idx: idx,
                trace: old(pr)@.trace.take(kept as int),
                ..old(pr)@
            }),
        ensures
            stepped(
                result,
                old(self).with(old(pr)),
                final(self).with(final(pr)),
                step_cskip(
                    old(self).with(old(pr)),
                    landed(old(pr)@),
                    old(pr)@.ops[idx as int],
                    answer_view(answer),
                ),
            ),
    {
        assert(pr@.ops[idx as int] == pr.ops@[idx as int]@);
        let n = match pr.ops[idx].count {
            None => {
                return Err(Fault::MalformedOperation);
            },
            Some(n) => n,
        };
        let depth = self.stack.len();
        if depth == 0 {
            return Err(Fault::StackUnderflow);
        }
        assert(views(self.stack@).last() == self.stack@[depth - 1]@);
        let truth = match self.stack[depth - 1].convert(ValueType::Boolean) {
            Err(fault) => {
                return Err(fault);
            },
            Ok(Outcome::Value(value)) => {
                if answer.is_some() {
                    return Err(Fault::UnexpectedAnswer);
                }
                is_true(&value)
            },
            Ok(Outcome::Host(task)) => match answer {
                None => {
                    return Ok(Action::Compute(task));
                },
                Some(answer) => match task.accept(answer) {
                    Err(fault) => {
                        return Err(fault);
                    },
                    Ok(value) => is_true(&value),
                },
            },
        };
        self.stack.truncate(depth - 1);
        assert(views(self.stack@) =~= views(old(self).stack@).drop_last());
        if truth {
            place(pr, moved(idx, n), kept);
        } else {
            place(pr, idx, kept);
        }
        Ok(Action::Continue)
    }

    fn exec(&mut self, pr: &mut Program, idx: usize, kept: usize, answer: Option<Answer>) -> (result:
        (Result<Action, Fault>, Ghost<Seq<i64>>))
        requires
            kept <= old(pr)@.trace.len(),
            idx < old(pr)@.ops.len(),
            landed(old(pr)@) == (ProgramView {
                op_idx: idx,
                trace: old(pr)@.trace.take(kept as int),
                ..old(pr)@
            }),
        ensures
            ({
                let op = old(pr)@.ops[idx as int];
                op.word is Some && op.count is Some && procedure_named(op.word.unwrap()) is Some
                    ==> draws_fit(
                    procedure_named(op.word.unwrap()).unwrap(),
                    op.count.unwrap(),
                    views(old(self).stack@),
                    answer_view(answer),
                    result.1@,
                )
            }),
            stepped(
                result.0,
                old(self).with(old(pr)),
                final(self).with(final(pr)),
                step_exec(
                    old(self).with(old(pr)),
                    landed(old(pr)@),
                    old(pr)@.ops[idx as int],
                    answer_view(answer),
                    result.1@,
                ),
            ),
    {
        let ghost none: Seq<i64> = Seq::empty();
        assert(pr@.ops[idx as int] == pr.ops@[idx as int]@);
        let argc = match pr.ops[idx].count {
            None => {
                return (Err(Fault::MalformedOperation), Ghost(none));
            },
            Some(argc) => argc,
        };
        let mut procedure = match &pr.ops[idx].word {
            None => {
                return (Err(Fault::MalformedOperation), Ghost(none));
            },
            Some(name) => match get_procedures(name.as_str()) {
                None => {
                    return (Err(Fault::UnknownProcedure(name.clone())), Ghost(none));
                },
                Some(procedure) => procedure,
            },
        };
        let ghost kind = procedure.kind_of();
        let ghost before = self.stack@;
        let ghost given = answer_view(answer);
        let result = procedure.execute(argc, &mut self.stack, answer);
        let ghost drawn = choose|drawn: Seq<i64>|
            draws_fit(kind, argc, views(before), given, drawn) && #[trigger] executed(
                result,
                before,
                self.stack@,
                run(kind, argc, views(before), given, drawn),
            );
        match result {
            Err(fault) => (Err(fault), Ghost(drawn)),
            Ok(Effect::Compute(task)) => (Ok(Action::Compute(task)), Ghost(drawn)),
            Ok(Effect::Print(value)) => {
                place(pr, idx, kept);
                (Ok(Action::Print(value)), Ghost(drawn))
            },
            Ok(Effect::Done) => {
                place(pr, idx, kept);
                (Ok(Action::Continue), Ghost(drawn))
            },
        }
    }

    /// Takes one step, as `step` does; the second result is what a
    /// generator gave in it.
    pub(crate) fn step_with_draws(&mut self, pr: &mut Program, answer: Option<Answer>) -> (result: (
        Result<Action, Fault>,
        Ghost<Seq<i64>>,
    ))
        ensures
            draws_due(old(self).with(old(pr)), answer_view(answer), result.1@),
            stepped(
                result.0,
                old(self).with(old(pr)),
                final(self).with(final(pr)),
                step(old(self).with(old(pr)), answer_view(answer), result.1@),
            ),
    {
        let ghost none: Seq<i64> = Seq::empty();
        let (idx, kept) = landing(pr);
        assert(pr@.ops.len() == pr.ops.len());
        if idx >= pr.ops.len() {
            if answer.is_some() {
                return (Err(Fault::UnexpectedAnswer), Ghost(none));
            }
            place(pr, idx, kept);
            return (Ok(Action::Halt), Ghost(none));
        }
        assert(pr@.ops[idx as int] == pr.ops@[idx as int]@);
        match pr.ops[idx].name {
            OperationName::Jmp => (self.jmp(pr, idx, kept, answer), Ghost(none)),
            OperationName::Push => (self.push(pr, idx, kept, answer), Ghost(none)),
            OperationName::Var => (self.var(pr, idx, kept, answer), Ghost(none)),
            OperationName::Exec => self.exec(pr, idx, kept, answer),
            OperationName::Skip => (self.skip(pr, idx, kept, answer), Ghost(none)),
            OperationName::Cskip => (self.cskip(pr, idx, kept, answer), Ghost(none)),
            OperationName::Mark => (Err(Fault::MalformedOperation), Ghost(none)),
        }
    }

    /// Takes one step of the run of a program: the pointer moves on by one,
    /// flows that are over return, and the operation under the pointer is
    /// carried out. `answer` is what the host found where the step before
    /// asked it to compute.
    pub fn step(&mut self, pr: &mut Program, answer: Option<Answer>) -> (result: Result<
        Action,
        Fault,
    >)
        ensures
            exists|drawn: Seq<i64>|
                draws_due(old(self).with(old(pr)), answer_view(answer), drawn)
                    && #[trigger] stepped(
                    result,
                    old(self).with(old(pr)),
                    final(self).with(final(pr)),
                    step(old(self).with(old(pr)), answer_view(answer), drawn),
                ),
    {
        let result = self.step_with_draws(pr, answer);
        result.0
    }
}

} // verus!
