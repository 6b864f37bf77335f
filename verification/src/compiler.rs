//! The compiler: a syntax tree to bytecode.
//!
//! A node is compiled children first, then its own operation. An operation
//! node whose name is that of a procedure is compiled as the procedure says.
//! A flow declaration compiles to its mark, the binding of its parameters,
//! and its statements.
//!
//! The library does not compute with floats, so the float that a float
//! literal denotes comes from a table that the host fills beforehand.

use crate::node::{lemma_params_view, node_views, Node, NodeType, NodeView};
use crate::procedure::{
    lookup, procedure_named, Call, FillRandom, If, Procedure, ProcedureKind, Return, Var,
};
use crate::program::{
    operation_views, with_count, with_value, with_word, with_word_count, Operation,
    OperationName, OperationView, Program, ProgramView,
};
use crate::text::{parse_integer, read_integer, same_text};
use crate::value::{Float, Value, ValueView};
use vstd::prelude::*;

verus! {

/// What is wrong with a tree that does not compile.
#[derive(Copy, Clone, PartialEq, Eq, Debug, Structural)]
pub enum CompileErrorKind {
    /// A parameter of a flow is not an operation over one variable.
    MalformedFlowSignature,
    /// A statement lacks an operand that its procedure compiles.
    MalformedStatement,
    /// The text of an integer literal denotes no 64-bit integer.
    InvalidInteger,
    /// The table holds no float for the text of a float literal.
    UnresolvedFloat,
}

/// A compile error: what is wrong, and the offset of the node.
#[derive(Copy, Clone, PartialEq, Eq, Debug, Structural)]
pub struct CompileError {
    pub position: usize,
    pub kind: CompileErrorKind,
}

/// The float that the text of a float literal denotes.
#[derive(Debug, PartialEq)]
pub struct FloatLiteral {
    pub text: String,
    pub value: Float,
}

impl View for FloatLiteral {
    type V = (Seq<char>, Float);

    open spec fn view(&self) -> (Seq<char>, Float) {
        (self.text@, self.value)
    }
}

/// The views of a table of float literals.
pub open spec fn literal_views(table: Seq<FloatLiteral>) -> Seq<(Seq<char>, Float)> {
    Seq::new(table.len(), |i: int| table[i]@)
}

/// The compiler: the program compiled so far, and the table of float
/// literals.
pub struct Compiler {
    pub program: Program,
    pub floats: Vec<FloatLiteral>,
}

/// The float of the first entry for the text, from index `i` on.
pub open spec fn float_from(table: Seq<(Seq<char>, Float)>, text: Seq<char>, i: int) -> Option<
    Float,
>
    decreases table.len() - i,
{
    if i < 0 || i >= table.len() {
        None
    } else if table[i].0 == text {
        Some(table[i].1)
    } else {
        float_from(table, text, i + 1)
    }
}

/// One list of operations after another, or the first error.
pub open spec fn chained(
    first: Result<Seq<OperationView>, CompileError>,
    second: Result<Seq<OperationView>, CompileError>,
) -> Result<Seq<OperationView>, CompileError> {
    match first {
        Err(error) => Err(error),
        Ok(a) => match second {
            Err(error) => Err(error),
            Ok(b) => Ok(a + b),
        },
    }
}

/// An error of a kind at the node.
pub open spec fn refused(node: NodeView, kind: CompileErrorKind) -> Result<
    Seq<OperationView>,
    CompileError,
> {
    Err(CompileError { position: node.token_position, kind })
}

/// The operation that a node compiles to after its children: a variable, a
/// word and a text push their text, a number pushes the value it denotes, an
/// operation executes the procedure of its name on as many operands as it
/// has children, and any other node adds nothing.
pub open spec fn own_operation(node: NodeView, table: Seq<(Seq<char>, Float)>) -> Result<
    Seq<OperationView>,
    CompileError,
> {
    match node.node_type {
        NodeType::Variable | NodeType::Constant | NodeType::String => Ok(
            seq![with_value(OperationName::Push, ValueView::String(node.value))],
        ),
        NodeType::Operation => Ok(
            seq![with_word_count(OperationName::Exec, node.value, node.params.len() as usize)],
        ),
        NodeType::Float => match float_from(table, node.value, 0) {
            Some(float) => Ok(seq![with_value(OperationName::Push, ValueView::Float(float))]),
            None => refused(node, CompileErrorKind::UnresolvedFloat),
        },
        NodeType::Integer => match parse_integer(node.value) {
            Some(i) => Ok(seq![with_value(OperationName::Push, ValueView::Integer(i))]),
            None => refused(node, CompileErrorKind::InvalidInteger),
        },
        _ => Ok(Seq::empty()),
    }
}

/// The operations of the children `children[from..to]`, one child after the
/// other; `plain` children are compiled structurally, the others as their
/// procedures say.
pub open spec fn compile_range(
    children: Seq<NodeView>,
    from: int,
    to: int,
    table: Seq<(Seq<char>, Float)>,
    plain: bool,
) -> Result<Seq<OperationView>, CompileError>
    decreases children, to - from,
{
    if from < 0 || from >= to || to > children.len() {
        Ok(Seq::empty())
    } else {
        chained(
            if plain {
                structural(children[from], table)
            } else {
                compile_node(children[from], table)
            },
            compile_range(children, from + 1, to, table, plain),
        )
    }
}

/// The body of a flow from the child of index `i` on: each parameter, an
/// operation over one variable, executes the operation on one operand and
/// binds the variable; the first bare word ends the parameters; the
/// statements follow it.
pub open spec fn flow_body(children: Seq<NodeView>, i: int, table: Seq<(Seq<char>, Float)>)
    -> Result<Seq<OperationView>, CompileError>
    decreases children, children.len() - i,
{
    if i < 0 || i >= children.len() {
        Ok(Seq::empty())
    } else if children[i].node_type == NodeType::Constant {
        compile_range(children, i + 1, children.len() as int, table, false)
    } else if children[i].params.len() != 1 {
        refused(children[i], CompileErrorKind::MalformedFlowSignature)
    } else {
        chained(
            Ok(
                seq![
                    with_word_count(OperationName::Exec, children[i].value, 1),
                    with_word(OperationName::Var, children[i].params[0].value),
                ],
            ),
            flow_body(children, i + 1, table),
        )
    }
}

/// The structural compilation of a node: a flow declaration is its mark and
/// its body; any other node is its children, then its own operation.
pub open spec fn structural(node: NodeView, table: Seq<(Seq<char>, Float)>) -> Result<
    Seq<OperationView>,
    CompileError,
>
    decreases node, 0int,
{
    if node.node_type == NodeType::FlowDeclaration {
        chained(
            Ok(seq![with_word(OperationName::Mark, node.value)]),
            flow_body(node.params, 0, table),
        )
    } else {
        chained(
            compile_range(node.params, 0, node.params.len() as int, table, false),
            own_operation(node, table),
        )
    }
}

/// The operations of `CALL`: the arguments in order, a jump to the flow,
/// then the binding of the result. The node holds the link, the variable and
/// the arguments.
pub open spec fn call_operations(node: NodeView, table: Seq<(Seq<char>, Float)>) -> Result<
    Seq<OperationView>,
    CompileError,
>
    decreases node, 1int,
{
    if node.params.len() < 2 {
        refused(node, CompileErrorKind::MalformedStatement)
    } else {
        chained(
            compile_range(node.params, 2, node.params.len() as int, table, true),
            Ok(
                seq![
                    with_word(OperationName::Jmp, node.params[0].value),
                    with_word(OperationName::Var, node.params[1].value),
                ],
            ),
        )
    }
}

/// The operations of `IF`: the condition, then the branch table. A true
/// condition skips to the jump into the first flow; a false one falls
/// through to the jump into the second. The node holds the condition and the
/// two links.
pub open spec fn if_operations(node: NodeView, table: Seq<(Seq<char>, Float)>) -> Result<
    Seq<OperationView>,
    CompileError,
>
    decreases node, 1int,
{
    if node.params.len() < 3 {
        refused(node, CompileErrorKind::MalformedStatement)
    } else {
        chained(
            compile_range(node.params, 0, 1, table, true),
            Ok(
                seq![
                    with_count(OperationName::Cskip, 2),
                    with_word(OperationName::Jmp, node.params[2].value),
                    with_count(OperationName::Skip, 1),
                    with_word(OperationName::Jmp, node.params[1].value),
                ],
            ),
        )
    }
}

/// The operations of `VAR`: the expression, then the binding. The node holds
/// the variable and the expression.
pub open spec fn var_operations(node: NodeView, table: Seq<(Seq<char>, Float)>) -> Result<
    Seq<OperationView>,
    CompileError,
>
    decreases node, 1int,
{
    if node.params.len() < 2 {
        refused(node, CompileErrorKind::MalformedStatement)
    } else {
        chained(
            compile_range(node.params, 1, 2, table, true),
            Ok(seq![with_word(OperationName::Var, node.params[0].value)]),
        )
    }
}

/// The operations of `RETURN`: the expression, whose value stays on the
/// stack for the caller.
pub open spec fn return_operations(node: NodeView, table: Seq<(Seq<char>, Float)>) -> Result<
    Seq<OperationView>,
    CompileError,
>
    decreases node, 1int,
{
    if node.params.len() < 1 {
        refused(node, CompileErrorKind::MalformedStatement)
    } else {
        compile_range(node.params, 0, 1, table, true)
    }
}

/// The operations of `FILL_RANDOM`: the arguments, the execution on four
/// operands, then the binding of the result. The node holds the arguments
/// and, last, the variable.
pub open spec fn fill_operations(node: NodeView, table: Seq<(Seq<char>, Float)>) -> Result<
    Seq<OperationView>,
    CompileError,
>
    decreases node, 1int,
{
    if node.params.len() < 1 {
        refused(node, CompileErrorKind::MalformedStatement)
    } else {
        chained(
            compile_range(node.params, 0, node.params.len() - 1, table, true),
            Ok(
                seq![
                    with_word_count(OperationName::Exec, node.value, 4),
                    with_word(OperationName::Var, node.params.last().value),
                ],
            ),
        )
    }
}

/// The operations that a procedure makes of its node; a procedure without
/// operations of its own compiles structurally.
pub open spec fn procedure_operations(
    kind: ProcedureKind,
    node: NodeView,
    table: Seq<(Seq<char>, Float)>,
) -> Result<Seq<OperationView>, CompileError>
    decreases node, 2int,
{
    match kind {
        ProcedureKind::Call => call_operations(node, table),
        ProcedureKind::If => if_operations(node, table),
        ProcedureKind::Var => var_operations(node, table),
        ProcedureKind::Return => return_operations(node, table),
        ProcedureKind::FillRandom => fill_operations(node, table),
        _ => structural(node, table),
    }
}

/// The operations that a node compiles to: an operation named like a
/// procedure compiles as the procedure says, any other node structurally.
pub open spec fn compile_node(node: NodeView, table: Seq<(Seq<char>, Float)>) -> Result<
    Seq<OperationView>,
    CompileError,
>
    decreases node, 3int,
{
    if node.node_type == NodeType::Operation && procedure_named(node.value) is Some {
        procedure_operations(procedure_named(node.value).unwrap(), node, table)
    } else {
        structural(node, table)
    }
}

/// Whether emitting into a list went as expected: on success
/// the operations were appended, on an error the error is the specified one.
pub open spec fn emitted(
    result: Result<(), CompileError>,
    before: Seq<Operation>,
    after: Seq<Operation>,
    expected: Result<Seq<OperationView>, CompileError>,
) -> bool {
    match expected {
        Ok(ops) => result is Ok && operation_views(after) == operation_views(before) + ops,
        Err(error) => result == Err::<(), CompileError>(error),
    }
}

fn find_float(table: &Vec<FloatLiteral>, text: &str) -> (found: Option<Float>)
    ensures
        found == float_from(literal_views(table@), text@, 0),
{
    let mut i: usize = 0;
    while i < table.len()
        invariant
            i <= table.len(),
            float_from(literal_views(table@), text@, 0) == float_from(
                literal_views(table@),
                text@,
                i as int,
            ),
        decreases table.len() - i,
    {
        assert(literal_views(table@)[i as int] == table@[i as int]@);
        if same_text(table[i].text.as_str(), text) {
            return Some(table[i].value);
        }
        i += 1;
    }
    None
}

fn push_operation(out: &mut Vec<Operation>, op: Operation)
    ensures
        operation_views(final(out)@) == operation_views(old(out)@).push(op@),
{
    out.push(op);
    assert(operation_views(out@) =~= operation_views(old(out)@).push(op@));
}

fn refuse(node: &Node, kind: CompileErrorKind) -> (result: Result<(), CompileError>)
    ensures
        result == Err::<(), CompileError>(CompileError { position: node@.token_position, kind }),
{
    Err(CompileError { position: node.token_position, kind })
}

fn emit_own(node: &Node, table: &Vec<FloatLiteral>, out: &mut Vec<Operation>) -> (result: Result<
    (),
    CompileError,
>)
    ensures
        emitted(result, old(out)@, final(out)@, own_operation(node@, literal_views(table@))),
{
    let ghost before = operation_views(out@);
    proof {
        lemma_params_view(*node);
    }
    match node.node_type {
        NodeType::Variable | NodeType::Constant | NodeType::String => {
            push_operation(
                out,
                Operation::new_value(OperationName::Push, Value::String(node.value.clone())),
            );
        },
        NodeType::Operation => {
            push_operation(
                out,
                Operation::new_word_count(
                    OperationName::Exec,
                    node.value.clone(),
                    node.params.len(),
                ),
            );
        },
        NodeType::Float => match find_float(table, node.value.as_str()) {
            Some(float) => {
                push_operation(
                    out,
                    Operation::new_value(OperationName::Push, Value::Float(float)),
                );
            },
            None => {
                return refuse(node, CompileErrorKind::UnresolvedFloat);
            },
        },
        NodeType::Integer => match read_integer(node.value.as_str()) {
            Some(i) => {
                push_operation(out, Operation::new_value(OperationName::Push, Value::Integer(i)));
            },
            None => {
                return refuse(node, CompileErrorKind::InvalidInteger);
            },
        },
        _ => {
            assert(operation_views(out@) =~= before + Seq::<OperationView>::empty());
            return Ok(());
        },
    }
    assert(before.push(operation_views(out@).last()) =~= before + seq![
        operation_views(out@).last(),
    ]);
    Ok(())
}

#[verifier::loop_isolation(false)]
fn emit_range(
    children: &Vec<Node>,
    from: usize,
    to: usize,
    table: &Vec<FloatLiteral>,
    out: &mut Vec<Operation>,
    plain: bool,
) -> (result: Result<(), CompileError>)
    requires
        to <= children.len(),
    ensures
        emitted(
            result,
            old(out)@,
            final(out)@,
            compile_range(
                node_views(children@),
                from as int,
                to as int,
                literal_views(table@),
                plain,
            ),
        ),
    decreases children, to - from,
{
    let ghost views = node_views(children@);
    let ghost floats = literal_views(table@);
    let ghost before = operation_views(out@);
    let ghost mut done: Seq<OperationView> = Seq::empty();
    let mut i: usize = from;
    assert(before + done =~= before);
    while i < to
        invariant
            from <= i || from >= to,
            operation_views(out@) == before + done,
            compile_range(views, from as int, to as int, floats, plain) == chained(
                Ok(done),
                compile_range(views, i as int, to as int, floats, plain),
            ),
        decreases to - i,
    {
        let ghost here = operation_views(out@);
        assert(views[i as int] == children@[i as int]@);
        assert(decreases_to!(*children => children[i as int]));
        let child = &children[i];
        let step = if plain {
            emit_structural(child, table, out)
        } else {
            emit_node(child, table, out)
        };
        match step {
            Err(error) => {
                return Err(error);
            },
            Ok(()) => {},
        }
        proof {
            let item = if plain {
                structural(views[i as int], floats)
            } else {
                compile_node(views[i as int], floats)
            };
            let added = item.unwrap();
            match compile_range(views, i + 1, to as int, floats, plain) {
                Ok(rest) => {
                    assert(done + (added + rest) =~= (done + added) + rest);
                },
                Err(_) => {},
            }
            assert(before + (done + added) =~= (before + done) + added);
            done = done + added;
        }
        i += 1;
    }
    assert(done + Seq::<OperationView>::empty() =~= done);
    Ok(())
}

#[verifier::loop_isolation(false)]
fn emit_flow_body(children: &Vec<Node>, table: &Vec<FloatLiteral>, out: &mut Vec<Operation>) -> (result:
    Result<(), CompileError>)
    ensures
        emitted(
            result,
            old(out)@,
            final(out)@,
            flow_body(node_views(children@), 0, literal_views(table@)),
        ),
    decreases children, children.len() + 1,
{
    let ghost views = node_views(children@);
    let ghost floats = literal_views(table@);
    let ghost before = operation_views(out@);
    let ghost mut done: Seq<OperationView> = Seq::empty();
    let mut i: usize = 0;
    assert(before + done =~= before);
    while i < children.len()
        invariant
            i <= children.len(),
            operation_views(out@) == before + done,
            flow_body(views, 0, floats) == chained(Ok(done), flow_body(views, i as int, floats)),
        decreases children.len() - i,
    {
        assert(views[i as int] == children@[i as int]@);
        let child = &children[i];
        proof {
            lemma_params_view(*child);
        }
        if child.node_type == NodeType::Constant {
            let ghost here = operation_views(out@);
            let rest = emit_range(children, i + 1, children.len(), table, out, false);
            proof {
                match compile_range(views, i + 1, children.len() as int, floats, false) {
                    Ok(ops) => {
                        assert(before + (done + ops) =~= (before + done) + ops);
                    },
                    Err(_) => {},
                }
            }
            return rest;
        }
        if child.params.len() != 1 {
            return refuse(child, CompileErrorKind::MalformedFlowSignature);
        }
        assert(node_views(child.params@)[0] == child.params@[0]@);
        let execute = Operation::new_word_count(OperationName::Exec, child.value.clone(), 1);
        let bind = Operation::new_word(OperationName::Var, child.params[0].value.clone());
        let ghost added = seq![execute@, bind@];
        push_operation(out, execute);
        push_operation(out, bind);
        proof {
            assert(operation_views(out@) =~= (before + done) + added);
            match flow_body(views, i + 1, floats) {
                Ok(rest) => {
                    assert(done + (added + rest) =~= (done + added) + rest);
                },
                Err(_) => {},
            }
            assert(before + (done + added) =~= (before + done) + added);
            done = done + added;
        }
        i += 1;
    }
    assert(done + Seq::<OperationView>::empty() =~= done);
    Ok(())
}

fn emit_structural(node: &Node, table: &Vec<FloatLiteral>, out: &mut Vec<Operation>) -> (result:
    Result<(), CompileError>)
    ensures
        emitted(result, old(out)@, final(out)@, structural(node@, literal_views(table@))),
    decreases node, 0int,
{
    let ghost before = operation_views(out@);
    let ghost floats = literal_views(table@);
    proof {
        lemma_params_view(*node);
    }
    if node.node_type == NodeType::FlowDeclaration {
        let mark = Operation::new_word(OperationName::Mark, node.value.clone());
        let ghost first = seq![mark@];
        push_operation(out, mark);
        assert(operation_views(out@) =~= before + first);
        let body = emit_flow_body(&node.params, table, out);
        proof {
            match flow_body(node@.params, 0, floats) {
                Ok(ops) => {
                    assert(before + (first + ops) =~= (before + first) + ops);
                },
                Err(_) => {},
            }
        }
        return body;
    }
    match emit_range(&node.params, 0, node.params.len(), table, out, false) {
        Err(error) => {
            return Err(error);
        },
        Ok(()) => {},
    }
    let ghost middle = operation_views(out@);
    let own = emit_own(node, table, out);
    proof {
        let children = compile_range(
            node@.params,
            0,
            node@.params.len() as int,
            floats,
            false,
        ).unwrap();
        match own_operation(node@, floats) {
            Ok(ops) => {
                assert(before + (children + ops) =~= (before + children) + ops);
            },
            Err(_) => {},
        }
    }
    own
}

/// Emits a range of plain children followed by fixed operations.
fn emit_with_tail(
    node: &Node,
    from: usize,
    to: usize,
    table: &Vec<FloatLiteral>,
    out: &mut Vec<Operation>,
    tail: Vec<Operation>,
) -> (result: Result<(), CompileError>)
    requires
        to <= node.params.len(),
    ensures
        emitted(
            result,
            old(out)@,
            final(out)@,
            chained(
                compile_range(node@.params, from as int, to as int, literal_views(table@), true),
                Ok(operation_views(tail@)),
            ),
        ),
    decreases node, 1int,
{
    let ghost before = operation_views(out@);
    proof {
        lemma_params_view(*node);
    }
    match emit_range(&node.params, from, to, table, out, true) {
        Err(error) => {
            return Err(error);
        },
        Ok(()) => {},
    }
    let ghost first = compile_range(
        node@.params,
        from as int,
        to as int,
        literal_views(table@),
        true,
    ).unwrap();
    let ghost last = operation_views(tail@);
    let ghost middle = operation_views(out@);
    let mut tail = tail;
    out.append(&mut tail);
    assert(operation_views(out@) =~= middle + last);
    assert(operation_views(out@) =~= before + (first + last));
    Ok(())
}

fn name_of_child(node: &Node, i: usize) -> (name: String)
    requires
        i < node.params.len(),
    ensures
        name@ == node@.params[i as int].value,
{
    proof {
        lemma_params_view(*node);
    }
    assert(node_views(node.params@)[i as int] == node.params@[i as int]@);
    node.params[i].value.clone()
}

fn emit_procedure(
    kind: ProcedureKind,
    node: &Node,
    table: &Vec<FloatLiteral>,
    out: &mut Vec<Operation>,
) -> (result: Result<(), CompileError>)
    ensures
        emitted(
            result,
            old(out)@,
            final(out)@,
            procedure_operations(kind, node@, literal_views(table@)),
        ),
    decreases node, 2int,
{
    proof {
        lemma_params_view(*node);
    }
    let n = node.params.len();
    let mut tail: Vec<Operation> = Vec::new();
    match kind {
        ProcedureKind::Call => {
            if n < 2 {
                return refuse(node, CompileErrorKind::MalformedStatement);
            }
            let jump = Operation::new_word(OperationName::Jmp, name_of_child(node, 0));
            let bind = Operation::new_word(OperationName::Var, name_of_child(node, 1));
            let ghost ops = seq![jump@, bind@];
            tail.push(jump);
            tail.push(bind);
            assert(operation_views(tail@) =~= ops);
            emit_with_tail(node, 2, n, table, out, tail)
        },
        ProcedureKind::If => {
            if n < 3 {
                return refuse(node, CompileErrorKind::MalformedStatement);
            }
            let skip_two = Operation::new_count(OperationName::Cskip, 2);
            let otherwise = Operation::new_word(OperationName::Jmp, name_of_child(node, 2));
            let skip_one = Operation::new_count(OperationName::Skip, 1);
            let then_jump = Operation::new_word(OperationName::Jmp, name_of_child(node, 1));
            let ghost ops = seq![skip_two@, otherwise@, skip_one@, then_jump@];
            tail.push(skip_two);
            tail.push(otherwise);
            tail.push(skip_one);
            tail.push(then_jump);
            assert(operation_views(tail@) =~= ops);
            emit_with_tail(node, 0, 1, table, out, tail)
        },
        ProcedureKind::Var => {
            if n < 2 {
                return refuse(node, CompileErrorKind::MalformedStatement);
            }
            let bind = Operation::new_word(OperationName::Var, name_of_child(node, 0));
            let ghost ops = seq![bind@];
            tail.push(bind);
            assert(operation_views(tail@) =~= ops);
            emit_with_tail(node, 1, 2, table, out, tail)
        },
        ProcedureKind::Return => {
            if n < 1 {
                return refuse(node, CompileErrorKind::MalformedStatement);
            }
            assert(operation_views(tail@) =~= Seq::<OperationView>::empty());
            proof {
                match compile_range(node@.params, 0, 1, literal_views(table@), true) {
                    Ok(ops) => {
                        assert(ops + Seq::<OperationView>::empty() =~= ops);
                    },
                    Err(_) => {},
                }
            }
            emit_with_tail(node, 0, 1, table, out, tail)
        },
        ProcedureKind::FillRandom => {
            if n < 1 {
                return refuse(node, CompileErrorKind::MalformedStatement);
            }
            let execute = Operation::new_word_count(OperationName::Exec, node.value.clone(), 4);
            let bind = Operation::new_word(OperationName::Var, name_of_child(node, n - 1));
            let ghost ops = seq![execute@, bind@];
            tail.push(execute);
            tail.push(bind);
            assert(operation_views(tail@) =~= ops);
            emit_with_tail(node, 0, n - 1, table, out, tail)
        },
        _ => emit_structural(node, table, out),
    }
}

fn emit_node(node: &Node, table: &Vec<FloatLiteral>, out: &mut Vec<Operation>) -> (result: Result<
    (),
    CompileError,
>)
    ensures
        emitted(result, old(out)@, final(out)@, compile_node(node@, literal_views(table@))),
    decreases node, 3int,
{
    if node.node_type == NodeType::Operation {
        match lookup(node.value.as_str()) {
            Some(kind) => {
                return emit_procedure(kind, node, table, out);
            },
            None => {},
        }
    }
    emit_structural(node, table, out)
}

/// Whether a compilation went as expected: on success the
/// operations were appended to the program, on an error the program is as it
/// was.
pub open spec fn compiled(
    result: Result<(), CompileError>,
    before: ProgramView,
    after: ProgramView,
    expected: Result<Seq<OperationView>, CompileError>,
) -> bool {
    match expected {
        Ok(ops) => result is Ok && after == (ProgramView { ops: before.ops + ops, ..before }),
        Err(error) => result == Err::<(), CompileError>(error) && after == before,
    }
}

impl Compiler {
    /// A compiler with an empty program and no float literals.
    pub fn new() -> (compiler: Compiler)
        ensures
            compiler.program@ == (ProgramView {
                ops: Seq::empty(),
                trace: Seq::empty(),
                op_idx: 0,
            }),
            compiler.floats@.len() == 0,
    {
        Compiler { program: Program::new(), floats: Vec::new() }
    }

    /// A compiler with an empty program and the given float literals.
    pub fn with_floats(floats: Vec<FloatLiteral>) -> (compiler: Compiler)
        ensures
            compiler.program@ == (ProgramView {
                ops: Seq::empty(),
                trace: Seq::empty(),
                op_idx: 0,
            }),
            compiler.floats == floats,
    {
        Compiler { program: Program::new(), floats }
    }

    /// Appends operations to the program.
    pub fn append(&mut self, ops: Vec<Operation>)
        ensures
            final(self).floats == old(self).floats,
            final(self).program@ == (ProgramView {
                ops: old(self).program@.ops + operation_views(ops@),
                ..old(self).program@
            }),
    {
        let mut ops = ops;
        let ghost added = operation_views(ops@);
        self.program.ops.append(&mut ops);
        assert(operation_views(self.program.ops@) =~= old(self).program@.ops + added);
    }

    /// Compiles a node into the program: as its procedure says where it is
    /// an operation named like one, structurally otherwise.
    pub fn compile(&mut self, node: Node) -> (result: Result<(), CompileError>)
        ensures
            final(self).floats == old(self).floats,
            compiled(
                result,
                old(self).program@,
                final(self).program@,
                compile_node(node@, literal_views(old(self).floats@)),
            ),
    {
        let mut out: Vec<Operation> = Vec::new();
        assert(operation_views(out@) =~= Seq::<OperationView>::empty());
        match emit_node(&node, &self.floats, &mut out) {
            Err(error) => Err(error),
            Ok(()) => {
                assert(Seq::<OperationView>::empty() + operation_views(out@) =~= operation_views(
                    out@,
                ));
                self.append(out);
                Ok(())
            },
        }
    }

    /// Compiles a node into the program structurally: its children, then
    /// its own operation.
    pub fn sub_compile(&mut self, node: Node) -> (result: Result<(), CompileError>)
        ensures
            final(self).floats == old(self).floats,
            compiled(
                result,
                old(self).program@,
                final(self).program@,
                structural(node@, literal_views(old(self).floats@)),
            ),
    {
        let mut out: Vec<Operation> = Vec::new();
        assert(operation_views(out@) =~= Seq::<OperationView>::empty());
        match emit_structural(&node, &self.floats, &mut out) {
            Err(error) => Err(error),
            Ok(()) => {
                assert(Seq::<OperationView>::empty() + operation_views(out@) =~= operation_views(
                    out@,
                ));
                self.append(out);
                Ok(())
            },
        }
    }

    /// Compiles a node into the program as the procedure of the given kind
    /// says.
    pub fn compile_as(&mut self, kind: ProcedureKind, node: Node) -> (result: Result<
        (),
        CompileError,
    >)
        ensures
            final(self).floats == old(self).floats,
            compiled(
                result,
                old(self).program@,
                final(self).program@,
                procedure_operations(kind, node@, literal_views(old(self).floats@)),
            ),
    {
        let mut out: Vec<Operation> = Vec::new();
        assert(operation_views(out@) =~= Seq::<OperationView>::empty());
        match emit_procedure(kind, &node, &self.floats, &mut out) {
            Err(error) => Err(error),
            Ok(()) => {
                assert(Seq::<OperationView>::empty() + operation_views(out@) =~= operation_views(
                    out@,
                ));
                self.append(out);
                Ok(())
            },
        }
    }
}

impl Call {
    /// Compiles a `CALL`: the arguments in order, the jump, the binding.
    pub fn compile(&self, sc: &mut Compiler, node: Node) -> (result: Result<(), CompileError>)
        ensures
            final(sc).floats == old(sc).floats,
            compiled(
                result,
                old(sc).program@,
                final(sc).program@,
                call_operations(node@, literal_views(old(sc).floats@)),
            ),
    {
        sc.compile_as(ProcedureKind::Call, node)
    }
}

impl If {
    /// Compiles an `IF`: the condition, then the branch table.
    pub fn compile(&self, sc: &mut Compiler, node: Node) -> (result: Result<(), CompileError>)
        ensures
            final(sc).floats == old(sc).floats,
            compiled(
                result,
                old(sc).program@,
                final(sc).program@,
                if_operations(node@, literal_views(old(sc).floats@)),
            ),
    {
        sc.compile_as(ProcedureKind::If, node)
    }
}

impl Var {
    /// Compiles a `VAR`: the expression, then the binding.
    pub fn compile(&self, sc: &mut Compiler, node: Node) -> (result: Result<(), CompileError>)
        ensures
            final(sc).floats == old(sc).floats,
            compiled(
                result,
                old(sc).program@,
                final(sc).program@,
                var_operations(node@, literal_views(old(sc).floats@)),
            ),
    {
        sc.compile_as(ProcedureKind::Var, node)
    }
}

impl Return {
    /// Compiles a `RETURN`: the expression.
    pub fn compile(&self, sc: &mut Compiler, node: Node) -> (result: Result<(), CompileError>)
        ensures
            final(sc).floats == old(sc).floats,
            compiled(
                result,
                old(sc).program@,
                final(sc).program@,
                return_operations(node@, literal_views(old(sc).floats@)),
            ),
    {
        sc.compile_as(ProcedureKind::Return, node)
    }
}

impl FillRandom {
    /// Compiles a `FILL_RANDOM`: the arguments, the execution, the binding.
    pub fn compile(&self, sc: &mut Compiler, node: Node) -> (result: Result<(), CompileError>)
        ensures
            final(sc).floats == old(sc).floats,
            compiled(
                result,
                old(sc).program@,
                final(sc).program@,
                fill_operations(node@, literal_views(old(sc).floats@)),
            ),
    {
        sc.compile_as(ProcedureKind::FillRandom, node)
    }
}

impl Procedure {
    /// Compiles a node into the program of a compiler as this procedure
    /// says.
    pub fn compile(&self, sc: &mut Compiler, node: Node) -> (result: Result<(), CompileError>)
        ensures
            final(sc).floats == old(sc).floats,
            compiled(
                result,
                old(sc).program@,
                final(sc).program@,
                procedure_operations(self.kind_of(), node@, literal_views(old(sc).floats@)),
            ),
    {
        sc.compile_as(self.kind(), node)
    }
}

/// Nothing chained after operations leaves the operations.
pub proof fn lemma_chained_empty(first: Result<Seq<OperationView>, CompileError>)
    ensures
        chained(first, Ok(Seq::empty())) == first,
{
    if first is Ok {
        assert(first->Ok_0 + Seq::<OperationView>::empty() =~= first->Ok_0);
    }
}

/// An integer literal compiles to the push of its integer.
pub proof fn lemma_integer_compiles(node: NodeView, table: Seq<(Seq<char>, Float)>, value: i64)
    requires
        node.node_type == NodeType::Integer,
        node.params.len() == 0,
        parse_integer(node.value) == Some(value),
    ensures
        compile_node(node, table) == Ok::<Seq<OperationView>, CompileError>(
            seq![with_value(OperationName::Push, ValueView::Integer(value))],
        ),
{
    let own = seq![with_value(OperationName::Push, ValueView::Integer(value))];
    assert(compile_range(node.params, 0, 0, table, false) == Ok::<
        Seq<OperationView>,
        CompileError,
    >(Seq::empty()));
    assert(Seq::<OperationView>::empty() + own =~= own);
}

/// An operation over two integer literals compiles, structurally, to the
/// pushes of the two integers and the execution of the operation on two
/// operands.
pub proof fn lemma_binary_compiles(
    node: NodeView,
    table: Seq<(Seq<char>, Float)>,
    left: i64,
    right: i64,
)
    requires
        node.node_type == NodeType::Operation,
        node.params.len() == 2,
        node.params[0].node_type == NodeType::Integer,
        node.params[0].params.len() == 0,
        parse_integer(node.params[0].value) == Some(left),
        node.params[1].node_type == NodeType::Integer,
        node.params[1].params.len() == 0,
        parse_integer(node.params[1].value) == Some(right),
    ensures
        structural(node, table) == Ok::<Seq<OperationView>, CompileError>(
            seq![
                with_value(OperationName::Push, ValueView::Integer(left)),
                with_value(OperationName::Push, ValueView::Integer(right)),
                with_word_count(OperationName::Exec, node.value, 2),
            ],
        ),
{
    let first = seq![with_value(OperationName::Push, ValueView::Integer(left))];
    let second = seq![with_value(OperationName::Push, ValueView::Integer(right))];
    let own = seq![with_word_count(OperationName::Exec, node.value, 2)];
    lemma_integer_compiles(node.params[0], table, left);
    lemma_integer_compiles(node.params[1], table, right);
    assert(compile_range(node.params, 2, 2, table, false) == Ok::<
        Seq<OperationView>,
        CompileError,
    >(Seq::empty()));
    assert(second + Seq::<OperationView>::empty() =~= second);
    assert(compile_range(node.params, 1, 2, table, false) == Ok::<
        Seq<OperationView>,
        CompileError,
    >(second));
    assert(compile_range(node.params, 0, 2, table, false) == Ok::<
        Seq<OperationView>,
        CompileError,
    >(first + second));
    assert((first + second) + own =~= seq![
        with_value(OperationName::Push, ValueView::Integer(left)),
        with_value(OperationName::Push, ValueView::Integer(right)),
        with_word_count(OperationName::Exec, node.value, 2),
    ]);
}

/// An `IF` compiles to its condition and, after it, the branch table: a
/// conditional skip over two operations, the jump into the second flow, a
/// skip over one operation, and the jump into the first flow.
pub proof fn lemma_if_compiles(node: NodeView, table: Seq<(Seq<char>, Float)>)
    requires
        node.node_type == NodeType::Operation,
        node.value == "IF"@,
        node.params.len() == 3,
    ensures
        compile_node(node, table) == chained(
            structural(node.params[0], table),
            Ok(
                seq![
                    with_count(OperationName::Cskip, 2),
                    with_word(OperationName::Jmp, node.params[2].value),
                    with_count(OperationName::Skip, 1),
                    with_word(OperationName::Jmp, node.params[1].value),
                ],
            ),
        ),
{
    reveal_strlit("CALL");
    reveal_strlit("IF");
    assert(procedure_named(node.value) == Some(ProcedureKind::If));
    assert(compile_range(node.params, 1, 1, table, true) == Ok::<
        Seq<OperationView>,
        CompileError,
    >(Seq::empty()));
    lemma_chained_empty(structural(node.params[0], table));
    assert(compile_range(node.params, 0, 1, table, true) == structural(node.params[0], table));
    assert(compile_node(node, table) == procedure_operations(ProcedureKind::If, node, table));
    assert(procedure_operations(ProcedureKind::If, node, table) == if_operations(node, table));
}

} // verus!
