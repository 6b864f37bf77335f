//! The bytecode: a list of operations, and the cursor of a run over it.
//!
//! The list only grows while a program is compiled. A run moves the pointer
//! and the trace of return addresses; it never touches the list.

use crate::text::{append_decimal, decimal, same_text};
use crate::value::{raw_text, Fault, FaultView, Value, ValueView};
use vstd::prelude::*;

verus! {

/// The opcodes.
#[derive(Copy, Clone, PartialEq, Eq, Debug, Structural)]
pub enum OperationName {
    Mark,
    Push,
    Exec,
    Var,
    Jmp,
    Skip,
    Cskip,
}

/// One instruction: an opcode with its operands.
#[derive(Debug, PartialEq)]
pub struct Operation {
    pub name: OperationName,
    pub count: Option<usize>,
    pub word: Option<String>,
    pub value: Option<Value>,
}

/// What an operation is, mathematically.
pub struct OperationView {
    pub name: OperationName,
    pub count: Option<usize>,
    pub word: Option<Seq<char>>,
    pub value: Option<ValueView>,
}

impl View for Operation {
    type V = OperationView;

    open spec fn view(&self) -> OperationView {
        OperationView {
            name: self.name,
            count: self.count,
            word: match self.word {
                Some(word) => Some(word@),
                None => None,
            },
            value: match self.value {
                Some(value) => Some(value@),
                None => None,
            },
        }
    }
}

/// The views of a sequence of operations.
pub open spec fn operation_views(ops: Seq<Operation>) -> Seq<OperationView> {
    Seq::new(ops.len(), |i: int| ops[i]@)
}

/// An operation with a name operand.
pub open spec fn with_word(name: OperationName, word: Seq<char>) -> OperationView {
    OperationView { name, count: None, word: Some(word), value: None }
}

/// An operation with a value operand.
pub open spec fn with_value(name: OperationName, value: ValueView) -> OperationView {
    OperationView { name, count: None, word: None, value: Some(value) }
}

/// An operation with a count operand.
pub open spec fn with_count(name: OperationName, count: usize) -> OperationView {
    OperationView { name, count: Some(count), word: None, value: None }
}

/// An operation with a name operand and a count operand.
pub open spec fn with_word_count(name: OperationName, word: Seq<char>, count: usize)
    -> OperationView {
    OperationView { name, count: Some(count), word: Some(word), value: None }
}

/// The opcode as a text.
pub open spec fn opcode_text(name: OperationName) -> Seq<char> {
    match name {
        OperationName::Mark => "MARK"@,
        OperationName::Push => "PUSH"@,
        OperationName::Exec => "EXEC"@,
        OperationName::Var => "VAR"@,
        OperationName::Jmp => "JMP"@,
        OperationName::Skip => "SKIP"@,
        OperationName::Cskip => "CSKIP"@,
    }
}

/// The text of an operation: the opcode, then each operand that is there
/// after a space, the name first, then the value, then the count.
pub open spec fn operation_text(op: OperationView) -> Seq<char> {
    opcode_text(op.name) + (match op.word {
        Some(word) => " "@ + word,
        None => Seq::empty(),
    }) + (match op.value {
        Some(value) => " "@ + raw_text(value),
        None => Seq::empty(),
    }) + (match op.count {
        Some(count) => " "@ + decimal(count as nat),
        None => Seq::empty(),
    })
}

fn opcode_name(name: OperationName) -> (text: &'static str)
    ensures
        text@ == opcode_text(name),
{
    match name {
        OperationName::Mark => "MARK",
        OperationName::Push => "PUSH",
        OperationName::Exec => "EXEC",
        OperationName::Var => "VAR",
        OperationName::Jmp => "JMP",
        OperationName::Skip => "SKIP",
        OperationName::Cskip => "CSKIP",
    }
}

impl Clone for Operation {
    fn clone(&self) -> (copy: Self)
        ensures
            copy@ == self@,
    {
        Operation {
            name: self.name,
            count: self.count,
            word: match &self.word {
                Some(word) => Some(word.clone()),
                None => None,
            },
            value: match &self.value {
                Some(value) => Some(value.clone()),
                None => None,
            },
        }
    }
}

impl Operation {
    /// An operation with a value operand.
    pub fn new_value(name: OperationName, value: Value) -> (op: Self)
        ensures
            op@ == with_value(name, value@),
    {
        Self { name, value: Some(value), word: None, count: None }
    }

    /// An operation with a name operand.
    pub fn new_word(name: OperationName, word: String) -> (op: Self)
        ensures
            op@ == with_word(name, word@),
    {
        Self { name, word: Some(word), count: None, value: None }
    }

    /// An operation with a count operand.
    pub fn new_count(name: OperationName, count: usize) -> (op: Self)
        ensures
            op@ == with_count(name, count),
    {
        Self { name, count: Some(count), value: None, word: None }
    }

    /// An operation with a name operand and a count operand.
    pub fn new_word_count(name: OperationName, word: String, count: usize) -> (op: Self)
        ensures
            op@ == with_word_count(name, word@, count),
    {
        Self { name, word: Some(word), count: Some(count), value: None }
    }

    /// The text of the operation.
    pub fn to_string(&self) -> (text: String)
        ensures
            text@ == operation_text(self@),
    {
        let mut sb = opcode_name(self.name).to_owned();
        match &self.word {
            Some(word) => {
                sb.append(" ");
                sb.append(word.as_str());
            },
            None => {},
        }
        assert(sb@ =~= opcode_text(self@.name) + (match self@.word {
            Some(word) => " "@ + word,
            None => Seq::empty(),
        }));
        let ghost first = sb@;
        match &self.value {
            Some(value) => {
                sb.append(" ");
                let raw = value.raw();
                sb.append(raw.as_str());
            },
            None => {},
        }
        assert(sb@ =~= first + (match self@.value {
            Some(value) => " "@ + raw_text(value),
            None => Seq::empty(),
        }));
        let ghost second = sb@;
        match self.count {
            Some(count) => {
                sb.append(" ");
                append_decimal(&mut sb, count as u64);
            },
            None => {},
        }
        assert(sb@ =~= second + (match self@.count {
            Some(count) => " "@ + decimal(count as nat),
            None => Seq::empty(),
        }));
        sb
    }
}

/// A program with the cursor of a run: the operations, the trace of return
/// addresses, and the pointer.
pub struct Program {
    pub ops: Vec<Operation>,
    pub trace: Vec<usize>,
    pub op_idx: usize,
}

/// What a program with its cursor is, mathematically.
pub struct ProgramView {
    pub ops: Seq<OperationView>,
    pub trace: Seq<usize>,
    pub op_idx: usize,
}

impl View for Program {
    type V = ProgramView;

    open spec fn view(&self) -> ProgramView {
        ProgramView { ops: operation_views(self.ops@), trace: self.trace@, op_idx: self.op_idx }
    }
}

/// Whether the operation is the mark of the given name.
pub open spec fn is_mark(op: OperationView, name: Seq<char>) -> bool {
    op.name == OperationName::Mark && op.word == Some(name)
}

/// The index of the first mark of the given name from index `i` on.
pub open spec fn mark_from(ops: Seq<OperationView>, name: Seq<char>, i: int) -> Option<int>
    decreases ops.len() - i,
{
    if i < 0 || i >= ops.len() {
        None
    } else if is_mark(ops[i], name) {
        Some(i)
    } else {
        mark_from(ops, name, i + 1)
    }
}

/// The index of the first mark of the given name.
pub open spec fn mark_index(ops: Seq<OperationView>, name: Seq<char>) -> Option<int> {
    mark_from(ops, name, 0)
}

/// The first mark of a name, if there is one, is a mark of that name, and no
/// mark of that name stands before it.
pub proof fn lemma_mark_from(ops: Seq<OperationView>, name: Seq<char>, i: int)
    requires
        0 <= i,
    ensures
        match mark_from(ops, name, i) {
            Some(j) => i <= j < ops.len() && is_mark(ops[j], name) && forall|k: int|
                i <= k < j ==> !is_mark(#[trigger] ops[k], name),
            None => forall|k: int| i <= k < ops.len() ==> !is_mark(#[trigger] ops[k], name),
        },
    decreases ops.len() - i,
{
    if i < ops.len() && !is_mark(ops[i], name) {
        lemma_mark_from(ops, name, i + 1);
    }
}

/// The cursor after the end of a flow: at the return address on top of the
/// trace, or at the end of the program where the trace is empty.
pub open spec fn finished(p: ProgramView) -> ProgramView {
    if p.trace.len() > 0 {
        ProgramView { trace: p.trace.drop_last(), op_idx: p.trace.last(), ..p }
    } else {
        ProgramView { op_idx: p.ops.len() as usize, ..p }
    }
}

/// The pointer moved by `num`, and no further than the greatest index.
pub open spec fn moved_by(op_idx: usize, num: usize) -> usize {
    if op_idx + num <= usize::MAX {
        (op_idx + num) as usize
    } else {
        usize::MAX
    }
}

/// The cursor after one advance: the pointer moves on by one, and a pointer
/// that leaves the program returns as at the end of a flow.
pub open spec fn advanced(p: ProgramView) -> ProgramView {
    let stepped = ProgramView { op_idx: moved_by(p.op_idx, 1), ..p };
    if stepped.op_idx >= p.ops.len() {
        finished(stepped)
    } else {
        stepped
    }
}

impl Program {
    /// An empty program.
    pub fn new() -> (program: Self)
        ensures
            program@ == (ProgramView { ops: Seq::empty(), trace: Seq::empty(), op_idx: 0 }),
    {
        let program = Program { ops: Vec::new(), trace: Vec::new(), op_idx: 0 };
        assert(program@.ops =~= Seq::<OperationView>::empty());
        program
    }

    /// Appends the operations of another program.
    pub fn merge(&mut self, prog: Program)
        ensures
            final(self)@ == (ProgramView { ops: old(self)@.ops + prog@.ops, ..old(self)@ }),
    {
        let mut prog = prog;
        let ghost added = operation_views(prog.ops@);
        self.ops.append(&mut prog.ops);
        assert(operation_views(self.ops@) =~= old(self)@.ops + added);
    }

    fn add(&mut self, op: Operation)
        ensures
            final(self)@ == (ProgramView { ops: old(self)@.ops.push(op@), ..old(self)@ }),
    {
        self.ops.push(op);
        assert(operation_views(self.ops@) =~= old(self)@.ops.push(op@));
    }

    /// Appends `MARK name`.
    pub fn new_mark(&mut self, name: String)
        ensures
            final(self)@ == (ProgramView {
                ops: old(self)@.ops.push(with_word(OperationName::Mark, name@)),
                ..old(self)@
            }),
    {
        self.add(Operation::new_word(OperationName::Mark, name));
    }

    /// Appends `PUSH value`.
    pub fn new_push(&mut self, value: Value)
        ensures
            final(self)@ == (ProgramView {
                ops: old(self)@.ops.push(with_value(OperationName::Push, value@)),
                ..old(self)@
            }),
    {
        self.add(Operation::new_value(OperationName::Push, value));
    }

    /// Appends `VAR name`.
    pub fn new_var(&mut self, name: String)
        ensures
            final(self)@ == (ProgramView {
                ops: old(self)@.ops.push(with_word(OperationName::Var, name@)),
                ..old(self)@
            }),
    {
        self.add(Operation::new_word(OperationName::Var, name));
    }

    /// Appends `JMP name`.
    pub fn new_jmp(&mut self, name: String)
        ensures
            final(self)@ == (ProgramView {
                ops: old(self)@.ops.push(with_word(OperationName::Jmp, name@)),
                ..old(self)@
            }),
    {
        self.add(Operation::new_word(OperationName::Jmp, name));
    }

    /// Appends `CSKIP num`.
    pub fn new_cskip(&mut self, num: usize)
        ensures
            final(self)@ == (ProgramView {
                ops: old(self)@.ops.push(with_count(OperationName::Cskip, num)),
                ..old(self)@
            }),
    {
        self.add(Operation::new_count(OperationName::Cskip, num));
    }

    /// Appends `SKIP num`.
    pub fn new_skip(&mut self, num: usize)
        ensures
            final(self)@ == (ProgramView {
                ops: old(self)@.ops.push(with_count(OperationName::Skip, num)),
                ..old(self)@
            }),
    {
        self.add(Operation::new_count(OperationName::Skip, num));
    }

    /// Appends `EXEC name argc`.
    pub fn new_exec(&mut self, name: String, argc: usize)
        ensures
            final(self)@ == (ProgramView {
                ops: old(self)@.ops.push(with_word_count(OperationName::Exec, name@, argc)),
                ..old(self)@
            }),
    {
        self.add(Operation::new_word_count(OperationName::Exec, name, argc));
    }

    /// Whether the pointer has left the program.
    pub fn is_end(&self) -> (end: bool)
        ensures
            end == (self@.op_idx >= self@.ops.len()),
    {
        assert(self@.ops.len() == self.ops.len());
        self.op_idx >= self.ops.len()
    }

    /// Ends the flow under way: the pointer returns to the address on top of
    /// the trace, or leaves the program where the trace is empty.
    pub fn finish_block(&mut self)
        ensures
            final(self)@ == finished(old(self)@),
    {
        assert(self@.ops.len() == self.ops.len());
        self.op_idx = match self.trace.pop() {
            Some(idx) => idx,
            None => self.ops.len(),
        };
    }

    /// Moves the pointer to the next operation; a pointer that leaves the
    /// program returns as at the end of a flow.
    pub fn next(&mut self)
        ensures
            final(self)@ == advanced(old(self)@),
    {
        self.skip(1);
        if !self.is_end() {
            return ;
        }
        self.finish_block();
    }

    /// The operation under the pointer, if the pointer is in the program.
    pub fn current(&self) -> (op: Option<&Operation>)
        ensures
            match op {
                Some(op) => self@.op_idx < self@.ops.len() && op@ == self@.ops[self@.op_idx as int],
                None => self@.op_idx >= self@.ops.len(),
            },
    {
        if self.is_end() {
            return None;
        }
        let op = &self.ops[self.op_idx];
        assert(self@.ops[self.op_idx as int] == op@);
        Some(op)
    }

    /// Remembers the address after the pointer as the one to return to.
    pub fn trace_back(&mut self)
        ensures
            final(self)@ == (ProgramView {
                trace: old(self)@.trace.push(moved_by(old(self)@.op_idx, 1)),
                ..old(self)@
            }),
    {
        let address = if self.op_idx < usize::MAX {
            self.op_idx + 1
        } else {
            self.op_idx
        };
        self.trace.push(address);
    }

    /// Moves the pointer on by `num` operations.
    pub fn skip(&mut self, num: usize)
        ensures
            final(self)@ == (ProgramView {
                op_idx: moved_by(old(self)@.op_idx, num),
                ..old(self)@
            }),
    {
        self.op_idx = if num <= usize::MAX - self.op_idx {
            self.op_idx + num
        } else {
            usize::MAX
        };
    }

    /// The index of the first mark of the given name.
    pub fn find_mark(&self, name: &str) -> (found: Option<usize>)
        ensures
            match found {
                Some(i) => mark_index(self@.ops, name@) == Some(i as int),
                None => mark_index(self@.ops, name@) is None,
            },
    {
        let mut i: usize = 0;
        assert(self@.ops.len() == self.ops.len());
        while i < self.ops.len()
            invariant
                i <= self.ops.len(),
                self@.ops.len() == self.ops.len(),
                mark_index(self@.ops, name@) == mark_from(self@.ops, name@, i as int),
            decreases self.ops.len() - i,
        {
            let op = &self.ops[i];
            assert(self@.ops[i as int] == op@);
            if op.name == OperationName::Mark {
                match &op.word {
                    Some(word) => {
                        if same_text(word.as_str(), name) {
                            return Some(i);
                        }
                    },
                    None => {},
                }
            }
            i += 1;
        }
        None
    }

    /// Moves the pointer to the first mark of the given name. Where the
    /// program holds no such mark, the cursor stays as it is and the fault
    /// names the mark.
    pub fn jump_to_mark(&mut self, name: String) -> (result: Result<(), Fault>)
        ensures
            match mark_index(old(self)@.ops, name@) {
                Some(i) => result is Ok && final(self)@ == (ProgramView {
                    op_idx: i as usize,
                    ..old(self)@
                }),
                None => result is Err && result.unwrap_err()@ == FaultView::UndefinedMark(name@)
                    && final(self)@ == old(self)@,
            },
    {
        match self.find_mark(name.as_str()) {
            Some(i) => {
                self.op_idx = i;
                Ok(())
            },
            None => Err(Fault::UndefinedMark(name)),
        }
    }

    /// Moves the pointer to the mark of the main flow, `#MAIN`.
    pub fn jump_to_program_begin(&mut self) -> (result: Result<(), Fault>)
        ensures
            match mark_index(old(self)@.ops, "#MAIN"@) {
                Some(i) => result is Ok && final(self)@ == (ProgramView {
                    op_idx: i as usize,
                    ..old(self)@
                }),
                None => result is Err && result.unwrap_err()@ == FaultView::UndefinedMark(
                    "#MAIN"@,
                ) && final(self)@ == old(self)@,
            },
    {
        self.jump_to_mark("#MAIN".to_owned())
    }

    /// The listing of the program: one line for each operation, its index,
    /// a colon, a space and its text.
    pub fn to_string(&self) -> (text: String)
        ensures
            text@ == listing(self@.ops, self@.ops.len()),
    {
        let mut string = String::new();
        let mut i: usize = 0;
        assert(self@.ops.len() == self.ops.len());
        while i < self.ops.len()
            invariant
                i <= self.ops.len(),
                self@.ops.len() == self.ops.len(),
                string@ == listing(self@.ops, i as nat),
            decreases self.ops.len() - i,
        {
            let op = &self.ops[i];
            assert(self@.ops[i as int] == op@);
            append_decimal(&mut string, i as u64);
            string.append(": ");
            let line = op.to_string();
            string.append(line.as_str());
            string.append("\n");
            i += 1;
            assert(string@ =~= listing(self@.ops, i as nat));
        }
        string
    }
}

/// The listing of the first `n` operations.
pub open spec fn listing(ops: Seq<OperationView>, n: nat) -> Seq<char>
    decreases n,
{
    if n == 0 || n > ops.len() {
        Seq::empty()
    } else {
        listing(ops, (n - 1) as nat) + decimal((n - 1) as nat) + ": "@ + operation_text(ops[n - 1])
            + "\n"@
    }
}

} // verus!
