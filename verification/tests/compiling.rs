use flowlang::compiler::{CompileError, CompileErrorKind, Compiler, FloatLiteral};
use flowlang::lexer::TokenStream;
use flowlang::node::Node;
use flowlang::parser::Parser;
use flowlang::procedure::{get_procedures, ProcedureKind};
use flowlang::program::{Operation, OperationName, Program};
use flowlang::value::{Float, Value};

fn tree_of(input: &str) -> Node {
    Parser::new_from_stream(TokenStream::new(input.to_string()).unwrap())
        .parse_program()
        .unwrap()
}

fn compiled(input: &str) -> Program {
    let mut compiler = Compiler::new();
    compiler.compile(tree_of(input)).unwrap();
    compiler.program
}

fn listing(input: &str) -> Vec<String> {
    compiled(input).ops.iter().map(|op| op.to_string()).collect()
}

#[test]
fn a_binding_and_a_print() {
    let program = compiled("#main() void VAR (1 + 2) $X PRINT ($X)");
    assert_eq!(
        program.ops,
        vec![
            Operation::new_word(OperationName::Mark, "#MAIN".to_string()),
            Operation::new_value(OperationName::Push, Value::Integer(1)),
            Operation::new_value(OperationName::Push, Value::Integer(2)),
            Operation::new_word_count(OperationName::Exec, "+".to_string(), 2),
            Operation::new_word(OperationName::Var, "$X".to_string()),
            Operation::new_value(OperationName::Push, Value::String("$X".to_string())),
            Operation::new_word_count(OperationName::Exec, "PRINT".to_string(), 1),
        ]
    );
}

#[test]
fn the_listing_of_a_program() {
    let program = compiled("#main() void VAR (1 + 2) $X PRINT ($X)");
    assert_eq!(
        program.to_string(),
        "0: MARK #MAIN\n1: PUSH 1\n2: PUSH 2\n3: EXEC + 2\n4: VAR $X\n5: PUSH $X\n6: EXEC PRINT 1\n"
    );
}

#[test]
fn the_branch_table_of_an_if() {
    assert_eq!(
        listing("#main() void IF (1 > 0) (#a, #b)"),
        vec![
            "MARK #MAIN",
            "PUSH 1",
            "PUSH 0",
            "EXEC > 2",
            "CSKIP 2",
            "JMP #B",
            "SKIP 1",
            "JMP #A",
        ]
    );
}

#[test]
fn a_call_jumps_and_binds() {
    assert_eq!(
        listing("#main() void CALL #f (1, 2 * 3) $r"),
        vec![
            "MARK #MAIN",
            "PUSH 1",
            "PUSH 2",
            "PUSH 3",
            "EXEC * 2",
            "JMP #F",
            "VAR $R",
        ]
    );
}

#[test]
fn parameters_are_converted_and_bound() {
    assert_eq!(
        listing("#f(int($a), string($b)) int RETURN ($a)"),
        vec![
            "MARK #F",
            "EXEC INT 1",
            "VAR $A",
            "EXEC STRING 1",
            "VAR $B",
            "PUSH $A",
        ]
    );
}

#[test]
fn a_malformed_parameter_is_an_error() {
    let mut compiler = Compiler::new();
    let result = compiler.compile(tree_of("#f($a) int RETURN (1)"));
    assert_eq!(
        result,
        Err(CompileError { position: 3, kind: CompileErrorKind::MalformedFlowSignature })
    );
    assert!(compiler.program.ops.is_empty());
}

#[test]
fn nested_operations_come_children_first() {
    assert_eq!(
        listing("#main() void PRINT (sum(1, 2, int(\"3\")))"),
        vec![
            "MARK #MAIN",
            "PUSH 1",
            "PUSH 2",
            "PUSH \"3\"",
            "EXEC INT 1",
            "EXEC SUM 3",
            "EXEC PRINT 1",
        ]
    );
}

#[test]
fn fill_random_binds_its_result() {
    assert_eq!(
        listing("#main() void FILL_RANDOM ($a, 10, -100, 100) $b"),
        vec![
            "MARK #MAIN",
            "PUSH $A",
            "PUSH 10",
            "PUSH -100",
            "PUSH 100",
            "EXEC FILL_RANDOM 4",
            "VAR $B",
        ]
    );
}

#[test]
fn an_integer_out_of_range_is_an_error() {
    let mut compiler = Compiler::new();
    let result = compiler.compile(tree_of("#main() void PRINT (99999999999999999999)"));
    assert_eq!(
        result,
        Err(CompileError { position: 20, kind: CompileErrorKind::InvalidInteger })
    );
}

#[test]
fn a_float_literal_needs_its_value() {
    let mut compiler = Compiler::new();
    let result = compiler.compile(tree_of("#main() void PRINT (1.5)"));
    assert_eq!(
        result,
        Err(CompileError { position: 20, kind: CompileErrorKind::UnresolvedFloat })
    );
    let bits = 1.5f64.to_bits();
    let mut compiler = Compiler::with_floats(vec![FloatLiteral {
        text: "1.5".to_string(),
        value: Float { bits },
    }]);
    compiler.compile(tree_of("#main() void PRINT (1.5)")).unwrap();
    assert_eq!(
        compiler.program.ops[1],
        Operation::new_value(OperationName::Push, Value::Float(Float { bits }))
    );
}

#[test]
fn flows_follow_each_other() {
    assert_eq!(
        listing("#main() void PRINT (1) #a() void PRINT (2)"),
        vec!["MARK #MAIN", "PUSH 1", "EXEC PRINT 1", "MARK #A", "PUSH 2", "EXEC PRINT 1"]
    );
}

#[test]
fn sub_compiling_appends() {
    let mut compiler = Compiler::new();
    compiler.sub_compile(Node::new_number("1".to_string(), 0)).unwrap();
    compiler.sub_compile(Node::new_variable("$A".to_string(), 0)).unwrap();
    let texts: Vec<String> = compiler.program.ops.iter().map(|op| op.to_string()).collect();
    assert_eq!(texts, vec!["PUSH 1", "PUSH $A"]);
}

#[test]
fn a_procedure_compiles_its_node() {
    let tree = tree_of("#main() void IF (1 < 2) (#a, #b)");
    let statement = tree.params[0].params[1].clone();
    let procedure = get_procedures("IF").unwrap();
    assert_eq!(procedure.kind(), ProcedureKind::If);
    let mut compiler = Compiler::new();
    procedure.compile(&mut compiler, statement).unwrap();
    let texts: Vec<String> = compiler.program.ops.iter().map(|op| op.to_string()).collect();
    assert_eq!(
        texts,
        vec!["PUSH 1", "PUSH 2", "EXEC < 2", "CSKIP 2", "JMP #B", "SKIP 1", "JMP #A"]
    );
}

#[test]
fn programs_merge() {
    let mut first = Program::new();
    first.new_mark("#A".to_string());
    let mut second = Program::new();
    second.new_push(Value::Integer(1));
    second.new_skip(2);
    first.merge(second);
    let texts: Vec<String> = first.ops.iter().map(|op| op.to_string()).collect();
    assert_eq!(texts, vec!["MARK #A", "PUSH 1", "SKIP 2"]);
}

#[test]
fn operation_texts() {
    assert_eq!(Operation::new_count(OperationName::Cskip, 2).to_string(), "CSKIP 2");
    assert_eq!(Operation::new_word(OperationName::Jmp, "#A".to_string()).to_string(), "JMP #A");
    assert_eq!(
        Operation::new_word_count(OperationName::Exec, "SUM".to_string(), 12).to_string(),
        "EXEC SUM 12"
    );
    assert_eq!(
        Operation::new_value(OperationName::Push, Value::Boolean(true)).to_string(),
        "PUSH true"
    );
}

#[test]
fn procedures_are_found_by_their_upper_case_names() {
    assert_eq!(get_procedures("PRINT").map(|p| p.kind()), Some(ProcedureKind::Print));
    assert_eq!(get_procedures("FILL_RANDOM").map(|p| p.kind()), Some(ProcedureKind::FillRandom));
    assert!(get_procedures("print").is_none());
    assert!(get_procedures("LOG_2").is_none());
    assert!(get_procedures("").is_none());
}

#[test]
fn a_statement_without_its_operands_is_an_error() {
    for name in ["IF", "VAR", "CALL", "RETURN", "FILL_RANDOM"] {
        let mut compiler = Compiler::new();
        let result = compiler.compile(Node::new_operation(name.to_string(), vec![], 7));
        assert_eq!(
            result,
            Err(CompileError { position: 7, kind: CompileErrorKind::MalformedStatement })
        );
        assert!(compiler.program.ops.is_empty());
    }
}
