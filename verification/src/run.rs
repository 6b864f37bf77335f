//! Runs of many steps, and what holds of every run.

use crate::compiler::{
    compile_node, lemma_binary_compiles, lemma_if_compiles, structural, CompileError,
};
use crate::execute::{answer_view, below};
use crate::node::{NodeType, NodeView};
use crate::text::parse_integer;
use crate::procedure::{procedure_named, ProcedureKind};
use crate::program::{
    mark_index, with_count, with_value, with_word, with_word_count, OperationName, OperationView,
    Program, ProgramView,
};
use crate::value::{
    views, Answer, AnswerView, Fault, FaultView, Float, Operator, ValueView,
};
use crate::vm::{
    draws_due, landed, lemma_same_operations, step, stepped, Action, ActionView, Machine, State,
};
use vstd::prelude::*;

verus! {

/// The view of the result of a step.
pub open spec fn outcome_view(result: Result<Action, Fault>) -> Result<ActionView, FaultView> {
    match result {
        Ok(action) => Ok(action@),
        Err(fault) => Err(fault@),
    }
}

/// Whether a run of at most `fuel` steps from the state `before` can end
/// with `result` in the state `after`. The run goes on while its steps ask
/// nothing of the host; it ends with the first step that asks for something,
/// halts or faults, or with `Continue` where the fuel runs out. `answer` is
/// the host's answer for the first step.
pub open spec fn runs(
    before: State,
    answer: Option<AnswerView>,
    fuel: nat,
    result: Result<ActionView, FaultView>,
    after: State,
) -> bool
    decreases fuel,
{
    if fuel == 0 {
        result == Ok::<ActionView, FaultView>(ActionView::Continue) && after == before
    } else {
        exists|drawn: Seq<i64>| #[trigger]
            draws_due(before, answer, drawn) && match step(before, answer, drawn) {
                Ok((state, ActionView::Continue)) => runs(
                    state,
                    None,
                    (fuel - 1) as nat,
                    result,
                    after,
                ),
                Ok((state, action)) => result == Ok::<ActionView, FaultView>(action) && after
                    == state,
                Err(fault) => result == Err::<ActionView, FaultView>(fault) && after == before,
            }
    }
}

impl Machine {
    /// Goes on with the run of a program for at most `fuel` steps:
    /// until a step asks something of the host, halts or faults.
    pub fn resume(&mut self, pr: &mut Program, answer: Option<Answer>, fuel: usize) -> (result:
        Result<Action, Fault>)
        ensures
            runs(
                old(self).with(old(pr)),
                answer_view(answer),
                fuel as nat,
                outcome_view(result),
                final(self).with(final(pr)),
            ),
    {
        let ghost start = self.with(pr);
        let ghost given = answer_view(answer);
        let mut pending = answer;
        let mut left: usize = fuel;
        while left > 0
            invariant
                start == old(self).with(old(pr)),
                given == answer_view(answer),
                forall|r: Result<ActionView, FaultView>, a: State| #[trigger]
                    runs(self.with(pr), answer_view(pending), left as nat, r, a) ==> runs(
                        start,
                        given,
                        fuel as nat,
                        r,
                        a,
                    ),
            decreases left,
        {
            let ghost here = self.with(pr);
            let ghost asked = answer_view(pending);
            let result = self.step_with_draws(pr, pending);
            let ghost drawn = result.1@;
            assert(draws_due(here, asked, drawn));
            match result.0 {
                Ok(Action::Continue) => {
                    pending = None;
                    left -= 1;
                    assert forall|r: Result<ActionView, FaultView>, a: State| #[trigger]
                        runs(self.with(pr), None, left as nat, r, a) implies runs(
                        start,
                        given,
                        fuel as nat,
                        r,
                        a,
                    ) by {
                        assert(runs(here, asked, (left + 1) as nat, r, a));
                    }
                },
                other => {
                    assert(runs(here, asked, left as nat, outcome_view(other), self.with(pr)));
                    return other;
                },
            }
        }
        assert(runs(self.with(pr), answer_view(pending), 0, Ok(ActionView::Continue), self.with(pr)));
        Ok(Action::Continue)
    }
}

/// Starts a run of a program: on a new machine, with an empty trace, at the
/// mark of the main flow; and goes on for at most `fuel` steps. The host goes
/// on from there with `resume` on the machine that comes back. A program
/// without a main flow stays as it is.
pub fn execute(pr: &mut Program, fuel: usize) -> (result: (Machine, Result<Action, Fault>))
    ensures
        match mark_index(old(pr)@.ops, "#MAIN"@) {
            Some(i) => runs(
                State {
                    program: ProgramView {
                        op_idx: i as usize,
                        trace: Seq::empty(),
                        ..old(pr)@
                    },
                    stack: Seq::empty(),
                    memo: Map::empty(),
                },
                None,
                fuel as nat,
                outcome_view(result.1),
                result.0.with(final(pr)),
            ),
            None => result.1 is Err && result.1.unwrap_err()@ == FaultView::UndefinedMark(
                "#MAIN"@,
            ) && final(pr)@ == old(pr)@,
        },
{
    let mut machine = Machine::new();
    assert(views(machine.stack@) =~= Seq::<ValueView>::empty());
    match pr.jump_to_program_begin() {
        Err(fault) => (machine, Err(fault)),
        Ok(()) => {
            pr.trace.clear();
            assert(pr.trace@ =~= Seq::<usize>::empty());
            let result = machine.resume(pr, None, fuel);
            (machine, result)
        },
    }
}

/// The state after `n` steps, where each of them asks nothing of the host
/// and draws nothing.
pub open spec fn after_steps(s: State, n: nat) -> Option<State>
    decreases n,
{
    if n == 0 {
        Some(s)
    } else {
        match after_steps(s, (n - 1) as nat) {
            Some(t) => match step(t, None, Seq::empty()) {
                Ok((u, ActionView::Continue)) => Some(u),
                _ => None,
            },
            None => None,
        }
    }
}

/// The operations of an `IF` over the comparison of two integers: the two
/// integers, the comparison, and the branch table with the jump into the
/// second flow before the jump into the first.
pub open spec fn branch(
    comparison: Seq<char>,
    left: i64,
    right: i64,
    first: Seq<char>,
    second: Seq<char>,
) -> Seq<OperationView> {
    seq![
        with_value(OperationName::Push, ValueView::Integer(left)),
        with_value(OperationName::Push, ValueView::Integer(right)),
        with_word_count(OperationName::Exec, comparison, 2),
        with_count(OperationName::Cskip, 2),
        with_word(OperationName::Jmp, second),
        with_count(OperationName::Skip, 1),
        with_word(OperationName::Jmp, first),
    ]
}

/// An `IF` over the comparison of two integer literals compiles to the
/// operations of `branch`: the first link is the flow for a comparison
/// that holds, the second the flow for one that does not.
pub proof fn lemma_branch_compiles(
    node: NodeView,
    table: Seq<(Seq<char>, Float)>,
    left: i64,
    right: i64,
)
    requires
        node.node_type == NodeType::Operation,
        node.value == "IF"@,
        node.params.len() == 3,
        node.params[0].node_type == NodeType::Operation,
        node.params[0].params.len() == 2,
        node.params[0].params[0].node_type == NodeType::Integer,
        node.params[0].params[0].params.len() == 0,
        parse_integer(node.params[0].params[0].value) == Some(left),
        node.params[0].params[1].node_type == NodeType::Integer,
        node.params[0].params[1].params.len() == 0,
        parse_integer(node.params[0].params[1].value) == Some(right),
    ensures
        compile_node(node, table) == Ok::<Seq<OperationView>, CompileError>(
            branch(
                node.params[0].value,
                left,
                right,
                node.params[1].value,
                node.params[2].value,
            ),
        ),
{
    lemma_if_compiles(node, table);
    lemma_binary_compiles(node.params[0], table, left, right);
    let condition = structural(node.params[0], table)->Ok_0;
    let jumps = seq![
        with_count(OperationName::Cskip, 2),
        with_word(OperationName::Jmp, node.params[2].value),
        with_count(OperationName::Skip, 1),
        with_word(OperationName::Jmp, node.params[1].value),
    ];
    assert(condition + jumps =~= branch(
        node.params[0].value,
        left,
        right,
        node.params[1].value,
        node.params[2].value,
    ));
}

/// The state that a run is in after it has jumped from the operation at
/// index `from` to the mark at index `mark`.
pub open spec fn jumped(s: State, from: int, mark: int) -> State {
    State {
        program: ProgramView {
            op_idx: mark as usize,
            trace: s.program.trace.push((from + 1) as usize),
            ..s.program
        },
        ..s
    }
}

/// An `IF` over `left > right` (or, where `more` is false, over
/// `left < right`) enters the first flow whenever the comparison holds and
/// the second flow whenever it does not, whatever the integers, the stack
/// and the variables are: five steps from the operation before the `IF`
/// end at the mark of that flow, with the stack and the variables as they
/// were. Where the program has no such mark, the fifth step faults.
pub proof fn lemma_if_selects(
    s: State,
    at: int,
    more: bool,
    left: i64,
    right: i64,
    first: Seq<char>,
    second: Seq<char>,
)
    requires
        s.program.ops.len() <= usize::MAX,
        s.program.op_idx + 1 == at,
        at + 7 <= s.program.ops.len(),
        s.program.ops.subrange(at, at + 7) == branch(
            if more {
                ">"@
            } else {
                "<"@
            },
            left,
            right,
            first,
            second,
        ),
    ensures
        ({
            let holds = if more {
                left > right
            } else {
                left < right
            };
            let link = if holds {
                first
            } else {
                second
            };
            let from = if holds {
                at + 6
            } else {
                at + 4
            };
            match mark_index(s.program.ops, link) {
                Some(mark) => after_steps(s, 5) == Some(jumped(s, from, mark)),
                None => after_steps(s, 4) is Some && step(
                    after_steps(s, 4).unwrap(),
                    None,
                    Seq::empty(),
                ) == Err::<(State, ActionView), FaultView>(FaultView::UndefinedMark(link)),
            }
        }),
{
    let ops = s.program.ops;
    let table = ops.subrange(at, at + 7);
    let none: Seq<i64> = Seq::empty();
    let comparison = if more {
        ">"@
    } else {
        "<"@
    };
    assert(ops[at] == table[0] && ops[at + 1] == table[1] && ops[at + 2] == table[2] && ops[at
        + 3] == table[3] && ops[at + 4] == table[4] && ops[at + 5] == table[5] && ops[at + 6]
        == table[6]);
    lemma_comparison_named(more);
    let holds = if more {
        left > right
    } else {
        left < right
    };
    // The two integers go onto the stack.
    let s0 = s;
    assert(after_steps(s, 0) == Some(s0));
    let p1 = ProgramView { op_idx: at as usize, ..s.program };
    assert(landed(s0.program) == p1);
    let s1 = State { program: p1, stack: s.stack.push(ValueView::Integer(left)), ..s };
    assert(step(s0, None, none) == Ok::<(State, ActionView), FaultView>((s1, ActionView::Continue)));
    assert(after_steps(s, 1) == Some(s1));
    let p2 = ProgramView { op_idx: (at + 1) as usize, ..s.program };
    assert(landed(s1.program) == p2);
    let s2 = State { program: p2, stack: s1.stack.push(ValueView::Integer(right)), ..s };
    assert(step(s1, None, none) == Ok::<(State, ActionView), FaultView>((s2, ActionView::Continue)));
    assert(after_steps(s, 2) == Some(s2));
    // The comparison leaves its truth in their place.
    let p3 = ProgramView { op_idx: (at + 2) as usize, ..s.program };
    assert(landed(s2.program) == p3);
    assert(s2.stack[s2.stack.len() - 2] == ValueView::Integer(left));
    assert(s2.stack[s2.stack.len() - 1] == ValueView::Integer(right));
    assert(below(s2.stack, 2) =~= s.stack);
    let s3 = State { program: p3, stack: s.stack.push(ValueView::Boolean(holds)), ..s };
    assert(step(s2, None, none) == Ok::<(State, ActionView), FaultView>((s3, ActionView::Continue)));
    assert(after_steps(s, 3) == Some(s3));
    // The branch table takes the truth off the stack and picks the jump.
    let p4 = ProgramView { op_idx: (at + 3) as usize, ..s.program };
    assert(landed(s3.program) == p4);
    assert(s3.stack.last() == ValueView::Boolean(holds));
    assert(s3.stack.drop_last() =~= s.stack);
    let after4 = if holds {
        at + 5
    } else {
        at + 3
    };
    let s4 = State { program: ProgramView { op_idx: after4 as usize, ..s.program }, ..s };
    assert(step(s3, None, none) == Ok::<(State, ActionView), FaultView>((s4, ActionView::Continue)));
    assert(after_steps(s, 4) == Some(s4));
    let p5 = ProgramView { op_idx: (after4 + 1) as usize, ..s.program };
    assert(landed(s4.program) == p5);
}

/// `>` and `<` name the comparisons of the value algebra.
pub proof fn lemma_comparison_named(more: bool)
    ensures
        procedure_named(
            if more {
                ">"@
            } else {
                "<"@
            },
        ) == Some(
            ProcedureKind::Binary(
                if more {
                    Operator::More
                } else {
                    Operator::Less
                },
            ),
        ),
{
    reveal_strlit("CALL");
    reveal_strlit("IF");
    reveal_strlit("PRINT");
    reveal_strlit("RETURN");
    reveal_strlit("VAR");
    reveal_strlit("RAND");
    reveal_strlit("SUM");
    reveal_strlit("FILL_RANDOM");
    reveal_strlit("AT");
    reveal_strlit("BOOL");
    reveal_strlit("FLOAT");
    reveal_strlit("STRING");
    reveal_strlit("INT");
    reveal_strlit("ARRAY");
    reveal_strlit("VOID");
    reveal_strlit("+");
    reveal_strlit("-");
    reveal_strlit("/");
    reveal_strlit("*");
    reveal_strlit("^");
    reveal_strlit("=");
    reveal_strlit("<");
    reveal_strlit(">");
    let name = if more {
        ">"@
    } else {
        "<"@
    };
    assert(name.len() == 1);
    assert(name[0] != "+"@[0] && name[0] != "-"@[0] && name[0] != "/"@[0] && name[0] != "*"@[0]
        && name[0] != "^"@[0] && name[0] != "="@[0]);
    assert(">"@[0] != "<"@[0]);
}

/// A step that asks the host to compute leaves the state as it was, so
/// that the same step can be taken again with the answer.
pub proof fn lemma_asking_changes_nothing(s: State, answer: Option<AnswerView>, drawn: Seq<i64>)
    ensures
        match step(s, answer, drawn) {
            Ok((after, ActionView::Compute(_))) => after == s && answer is None,
            _ => true,
        },
{
}

/// Binding a variable that is bound already faults, whatever the value on
/// the stack and the value of the variable are.
pub proof fn lemma_rebinding_faults(
    s: State,
    answer: Option<AnswerView>,
    drawn: Seq<i64>,
    name: Seq<char>,
)
    requires
        landed(s.program).op_idx < s.program.ops.len(),
        s.program.ops[landed(s.program).op_idx as int] == with_word(
            OperationName::Var,
            name,
        ),
        s.stack.len() > 0,
        s.memo.contains_key(name),
    ensures
        step(s, answer, drawn) == Err::<(State, ActionView), FaultView>(
            FaultView::DuplicateVariable(name),
        ),
{
    lemma_same_operations(s.program);
}

/// A `VAR` that succeeds binds its variable to the top of the stack.
pub proof fn lemma_var_binds(s: State, drawn: Seq<i64>, name: Seq<char>)
    requires
        landed(s.program).op_idx < s.program.ops.len(),
        s.program.ops[landed(s.program).op_idx as int] == with_word(
            OperationName::Var,
            name,
        ),
        s.stack.len() > 0,
        !s.memo.contains_key(name),
    ensures
        step(s, None, drawn) is Ok,
        step(s, None, drawn)->Ok_0.0.memo.contains_key(name),
        step(s, None, drawn)->Ok_0.0.memo[name] == s.stack.last(),
{
    lemma_same_operations(s.program);
}

/// No step unbinds or rebinds a variable.
pub proof fn lemma_bindings_stay(
    s: State,
    answer: Option<AnswerView>,
    drawn: Seq<i64>,
    name: Seq<char>,
)
    requires
        s.memo.contains_key(name),
        step(s, answer, drawn) is Ok,
    ensures
        step(s, answer, drawn)->Ok_0.0.memo.contains_key(name),
        step(s, answer, drawn)->Ok_0.0.memo[name] == s.memo[name],
{
}

/// A variable that is bound at some point of a run is bound with the same
/// value at every later point of it: `states` are the states of the run,
/// one step apart.
pub proof fn lemma_bound_for_good(
    states: Seq<State>,
    answers: Seq<Option<AnswerView>>,
    draws: Seq<Seq<i64>>,
    name: Seq<char>,
    i: int,
    j: int,
)
    requires
        answers.len() == states.len(),
        draws.len() == states.len(),
        forall|k: int|
            0 <= k < states.len() - 1 ==> (#[trigger] step(states[k], answers[k], draws[k]))
                is Ok && step(states[k], answers[k], draws[k])->Ok_0.0 == states[k + 1],
        0 <= i <= j < states.len(),
        states[i].memo.contains_key(name),
    ensures
        states[j].memo.contains_key(name),
        states[j].memo[name] == states[i].memo[name],
    decreases j - i,
{
    if i < j {
        lemma_bound_for_good(states, answers, draws, name, i, j - 1);
        assert(step(states[j - 1], answers[j - 1], draws[j - 1]) is Ok);
        lemma_bindings_stay(states[j - 1], answers[j - 1], draws[j - 1], name);
    }
}

/// A jump to a mark that the program does not hold faults and names the
/// mark; the fault leaves the state, and so the pointer, as it was.
pub proof fn lemma_jump_to_missing_mark(
    s: State,
    answer: Option<AnswerView>,
    drawn: Seq<i64>,
    name: Seq<char>,
    result: Result<Action, Fault>,
    after: State,
)
    requires
        landed(s.program).op_idx < s.program.ops.len(),
        s.program.ops[landed(s.program).op_idx as int] == with_word(
            OperationName::Jmp,
            name,
        ),
        mark_index(s.program.ops, name) is None,
        stepped(result, s, after, step(s, answer, drawn)),
    ensures
        step(s, answer, drawn) == Err::<(State, ActionView), FaultView>(
            FaultView::UndefinedMark(name),
        ),
        result is Err,
        result.unwrap_err()@ == FaultView::UndefinedMark(name),
        after == s,
{
    lemma_same_operations(s.program);
}

} // verus!
