use flowlang::compiler::{Compiler, FloatLiteral};
use flowlang::execute::Effect;
use flowlang::lexer::TokenStream;
use flowlang::node::{Node, NodeType};
use flowlang::parser::Parser;
use flowlang::procedure::{
    get_procedures, At, Call, Conversion, Expression, FillRandom, If, Print, Rand, Return, Sum,
    TypeConverter, Var,
};
use flowlang::program::{Operation, OperationName, Program};
use flowlang::run::execute;
use flowlang::value::{Answer, Fault, Float, FloatTask, Operator, Value, ValueType};
use flowlang::vm::{landing, Action, Machine, Memo};

fn float(x: f64) -> Value {
    Value::Float(Float { bits: x.to_bits() })
}

fn number(f: &Float) -> f64 {
    f64::from_bits(f.bits)
}

fn answer(task: &FloatTask) -> Answer {
    match task {
        FloatTask::Binary { op, left, right } => {
            let (a, b) = (number(left), number(right));
            Answer::Value(match op {
                Operator::Add => float(a + b),
                Operator::Subtract => float(a - b),
                Operator::Multiply => float(a * b),
                Operator::Divide => float(a / b),
                Operator::Power => float(a.powf(b)),
                Operator::More => Value::Boolean(a > b),
                Operator::Less => Value::Boolean(a < b),
                Operator::Equal => Value::Boolean(a == b),
            })
        }
        FloatTask::Sum(floats) => Answer::Value(float(floats.iter().map(number).sum())),
        FloatTask::Truncate(f) => Answer::Value(Value::Integer(number(f) as i64)),
        FloatTask::Truth(f) => Answer::Value(Value::Boolean(number(f) != 0.0)),
        FloatTask::Format(f) => Answer::Value(Value::String(number(f).to_string())),
        FloatTask::FromInteger(i) => Answer::Value(float(*i as f64)),
        FloatTask::Parse(text) => match text.parse::<f64>() {
            Ok(x) => Answer::Value(float(x)),
            Err(_) => Answer::Invalid,
        },
        FloatTask::Random => Answer::Value(float(0.25)),
    }
}

fn literals(node: &Node, table: &mut Vec<FloatLiteral>) {
    if node.node_type == NodeType::Float {
        let x: f64 = node.value.parse().unwrap();
        table.push(FloatLiteral { text: node.value.clone(), value: Float { bits: x.to_bits() } });
    }
    for child in node.params.iter() {
        literals(child, table);
    }
}

fn compiled(input: &str) -> Program {
    let tree = Parser::new_from_stream(TokenStream::new(input.to_string()).unwrap())
        .parse_program()
        .unwrap();
    let mut table = Vec::new();
    literals(&tree, &mut table);
    let mut compiler = Compiler::with_floats(table);
    compiler.compile(tree).unwrap();
    compiler.program
}

fn run(program: &mut Program) -> (Vec<Value>, Result<Machine, Fault>) {
    let mut printed = Vec::new();
    let (mut machine, mut result) = execute(program, 50);
    for _ in 0..1000 {
        match result {
            Ok(Action::Halt) => return (printed, Ok(machine)),
            Ok(Action::Continue) => result = machine.resume(program, None, 50),
            Ok(Action::Print(value)) => {
                printed.push(value);
                result = machine.resume(program, None, 50);
            }
            Ok(Action::Compute(task)) => {
                result = machine.resume(program, Some(answer(&task)), 50);
            }
            Err(fault) => return (printed, Err(fault)),
        }
    }
    panic!("the run does not end");
}

fn printed_by(input: &str) -> Vec<Value> {
    let mut program = compiled(input);
    let (printed, result) = run(&mut program);
    assert!(result.is_ok(), "fault: {:?}", result.err());
    printed
}

fn fault_of(input: &str) -> Fault {
    let mut program = compiled(input);
    match run(&mut program).1 {
        Ok(_) => panic!("no fault"),
        Err(fault) => fault,
    }
}

#[test]
fn a_binding_and_a_print_run() {
    assert_eq!(printed_by("#main() void VAR (1 + 2) $X PRINT ($X)"), vec![Value::Integer(3)]);
}

#[test]
fn a_run_ends_with_the_stack_and_the_variables_it_made() {
    let mut program = compiled("#main() void VAR (1 + 2) $X VAR (\"a\") $Y");
    let (_, result) = run(&mut program);
    let machine = result.unwrap();
    assert!(machine.stack.is_empty());
    assert_eq!(machine.memo.get("$X"), Some(&Value::Integer(3)));
    assert_eq!(machine.memo.get("$Y"), Some(&Value::String("\"a\"".to_string())));
    assert_eq!(machine.memo.get("$Z"), None);
    assert!(program.is_end());
}

#[test]
fn if_enters_the_first_flow_when_the_condition_holds() {
    let source = "#main() void IF (1 > 0) (#a, #b) #a() void PRINT (\"a\") #b() void PRINT (\"b\")";
    assert_eq!(printed_by(source), vec![Value::String("\"a\"".to_string())]);
}

#[test]
fn if_enters_the_second_flow_when_the_condition_fails() {
    let source = "#main() void IF (1 < 0) (#a, #b) #a() void PRINT (\"a\") #b() void PRINT (\"b\")";
    assert_eq!(printed_by(source), vec![Value::String("\"b\"".to_string())]);
}

#[test]
fn if_goes_by_the_comparison_for_many_pairs() {
    for (left, right) in [(1, 0), (5, -5), (0, -1), (100, 99), (i64::MAX, i64::MIN)] {
        let source = format!(
            "#main() void IF ({} > {}) (#a, #b) PRINT (0) #a() void PRINT (1) #b() void PRINT (2)",
            left, right
        );
        assert_eq!(printed_by(&source), vec![Value::Integer(1), Value::Integer(0)]);
        let source = format!(
            "#main() void IF ({} < {}) (#a, #b) PRINT (0) #a() void PRINT (1) #b() void PRINT (2)",
            left, right
        );
        assert_eq!(printed_by(&source), vec![Value::Integer(2), Value::Integer(0)]);
    }
}

#[test]
fn if_with_equal_sides_enters_the_second_flow() {
    let source = "#main() void IF (3 > 3) (#a, #b) #a() void PRINT (1) #b() void PRINT (2)";
    assert_eq!(printed_by(source), vec![Value::Integer(2)]);
    let source = "#main() void IF (3 = 3) (#a, #b) #a() void PRINT (1) #b() void PRINT (2)";
    assert_eq!(printed_by(source), vec![Value::Integer(1)]);
}

#[test]
fn binding_twice_faults() {
    assert_eq!(
        fault_of("#main() void VAR (1) $X VAR (2) $X"),
        Fault::DuplicateVariable("$X".to_string())
    );
    assert_eq!(
        fault_of("#main() void VAR (1) $X VAR (\"two\") $X"),
        Fault::DuplicateVariable("$X".to_string())
    );
    assert_eq!(
        fault_of("#main() void VAR (array(0)) $X PRINT (1) VAR (1 > 2) $x"),
        Fault::DuplicateVariable("$X".to_string())
    );
}

#[test]
fn a_fault_leaves_the_state_as_it_was() {
    let mut program = compiled("#main() void VAR (1) $X VAR (2) $X");
    let (mut machine, result) = execute(&mut program, 3);
    assert_eq!(result, Ok(Action::Continue));
    assert_eq!(machine.stack, vec![Value::Integer(2)]);
    let pointer = program.op_idx;
    let result = machine.step(&mut program, None);
    assert_eq!(result, Err(Fault::DuplicateVariable("$X".to_string())));
    assert_eq!(program.op_idx, pointer);
    assert_eq!(machine.stack, vec![Value::Integer(2)]);
    assert_eq!(machine.memo.get("$X"), Some(&Value::Integer(1)));
}

#[test]
fn a_jump_to_a_missing_mark_faults_and_stays() {
    let mut program = Program::new();
    program.new_mark("#MAIN".to_string());
    program.new_push(Value::Integer(1));
    program.new_jmp("#NOWHERE".to_string());
    program.new_push(Value::Integer(2));
    let (mut machine, result) = execute(&mut program, 1);
    assert_eq!(result, Ok(Action::Continue));
    assert_eq!(program.op_idx, 1);
    let result = machine.step(&mut program, None);
    assert_eq!(result, Err(Fault::UndefinedMark("#NOWHERE".to_string())));
    assert_eq!(program.op_idx, 1);
    assert!(program.trace.is_empty());
    assert_eq!(machine.stack, vec![Value::Integer(1)]);
    let again = machine.step(&mut program, None);
    assert_eq!(again, Err(Fault::UndefinedMark("#NOWHERE".to_string())));
    assert_eq!(program.op_idx, 1);
}

#[test]
fn jump_to_mark_moves_or_stays() {
    let mut program = Program::new();
    program.new_push(Value::Integer(1));
    program.new_mark("#A".to_string());
    program.new_mark("#A".to_string());
    assert_eq!(program.find_mark("#A"), Some(1));
    assert_eq!(program.find_mark("#B"), None);
    assert_eq!(program.jump_to_mark("#A".to_string()), Ok(()));
    assert_eq!(program.op_idx, 1);
    assert_eq!(
        program.jump_to_mark("#B".to_string()),
        Err(Fault::UndefinedMark("#B".to_string()))
    );
    assert_eq!(program.op_idx, 1);
    assert_eq!(
        program.jump_to_program_begin(),
        Err(Fault::UndefinedMark("#MAIN".to_string()))
    );
}

#[test]
fn a_program_without_a_main_flow_does_not_start() {
    let mut program = compiled("#other() void PRINT (1)");
    let (_, result) = execute(&mut program, 10);
    assert_eq!(result, Err(Fault::UndefinedMark("#MAIN".to_string())));
    assert_eq!(program.op_idx, 0);
}

#[test]
fn an_unbound_variable_faults() {
    assert_eq!(
        fault_of("#main() void PRINT ($nothing)"),
        Fault::UndefinedVariable("$NOTHING".to_string())
    );
}

#[test]
fn an_unknown_procedure_faults() {
    assert_eq!(
        fault_of("#main() void PRINT (log_2(8))"),
        Fault::UnknownProcedure("LOG_2".to_string())
    );
}

#[test]
fn a_call_binds_what_the_flow_leaves() {
    let source = "#main() void CALL #double (21) $r PRINT ($r) \
                  #double(int($x)) int RETURN ($x + $x)";
    assert_eq!(printed_by(source), vec![Value::Integer(42)]);
}

#[test]
fn a_flow_in_the_middle_returns_at_the_next_mark() {
    let source = "#main() void CALL #one () $a PRINT ($a) CALL #two () $b PRINT ($b) \
                  #one() int RETURN (1) \
                  #two() int RETURN (2)";
    assert_eq!(printed_by(source), vec![Value::Integer(1), Value::Integer(2)]);
}

#[test]
fn parameters_are_converted() {
    let source = "#main() void CALL #show (\"12\") $r PRINT ($r) \
                  #show(string($x)) int RETURN ($x + $x)";
    assert_eq!(printed_by(source), vec![Value::String("\"12\"\"12\"".to_string())]);
}

#[test]
fn sums_fold_from_left_to_right() {
    assert_eq!(printed_by("#main() void PRINT (sum(1, 2, 3, 4))"), vec![Value::Integer(10)]);
    assert_eq!(
        printed_by("#main() void PRINT (sum(\"a\", \"b\", \"c\"))"),
        vec![Value::String("\"a\"\"b\"\"c\"".to_string())]
    );
    assert_eq!(printed_by("#main() void PRINT (sum(7))"), vec![Value::Integer(7)]);
    assert_eq!(
        printed_by("#main() void PRINT (sum(1.5, 2.25, 0.25))"),
        vec![float(4.0)]
    );
}

#[test]
fn a_sum_of_mixed_variants_faults() {
    assert_eq!(
        fault_of("#main() void PRINT (sum(1, \"a\"))"),
        Fault::InvalidOperands {
            op: Operator::Add,
            left: Value::Integer(1),
            right: Value::String("\"a\"".to_string()),
        }
    );
    assert_eq!(
        fault_of("#main() void PRINT (sum(1.5, 2.5, 3))"),
        Fault::InvalidOperands { op: Operator::Add, left: float(4.0), right: Value::Integer(3) }
    );
}

#[test]
fn floats_are_computed_by_the_host() {
    assert_eq!(printed_by("#main() void PRINT (1.5 + 2.25)"), vec![float(3.75)]);
    assert_eq!(printed_by("#main() void PRINT (1.5 > 2.25)"), vec![Value::Boolean(false)]);
    assert_eq!(printed_by("#main() void PRINT (int(2.75))"), vec![Value::Integer(2)]);
    assert_eq!(printed_by("#main() void PRINT (float(2))"), vec![float(2.0)]);
    assert_eq!(
        printed_by("#main() void PRINT (string(2.5))"),
        vec![Value::String("2.5".to_string())]
    );
}

#[test]
fn a_float_condition_is_decided_by_the_host() {
    let source = "#main() void IF (0.0) (#a, #b) #a() void PRINT (1) #b() void PRINT (2)";
    assert_eq!(printed_by(source), vec![Value::Integer(2)]);
    let source = "#main() void IF (0.5) (#a, #b) #a() void PRINT (1) #b() void PRINT (2)";
    assert_eq!(printed_by(source), vec![Value::Integer(1)]);
}

#[test]
fn a_step_that_asks_the_host_can_be_taken_again() {
    let mut program = compiled("#main() void PRINT (1.5 + 2.5)");
    let (mut machine, result) = execute(&mut program, 50);
    let task = match result {
        Ok(Action::Compute(task)) => task,
        other => panic!("no task: {:?}", other),
    };
    let pointer = program.op_idx;
    assert_eq!(machine.stack, vec![float(1.5), float(2.5)]);
    let again = machine.step(&mut program, None);
    assert_eq!(again, Ok(Action::Compute(task)));
    assert_eq!(program.op_idx, pointer);
    let done = machine.step(&mut program, Some(Answer::Value(float(4.0))));
    assert_eq!(done, Ok(Action::Continue));
    assert_eq!(machine.stack, vec![float(4.0)]);
    assert_eq!(program.op_idx, pointer + 1);
}

#[test]
fn answers_of_the_wrong_variant_are_rejected() {
    let mut program = compiled("#main() void PRINT (1.5 + 2.5)");
    let (mut machine, _) = execute(&mut program, 50);
    let result = machine.step(&mut program, Some(Answer::Value(Value::Integer(4))));
    assert_eq!(result, Err(Fault::RejectedAnswer));
    let result = machine.step(&mut program, Some(Answer::Invalid));
    assert_eq!(result, Err(Fault::RejectedAnswer));
    assert_eq!(machine.stack, vec![float(1.5), float(2.5)]);
}

#[test]
fn an_answer_that_nothing_asked_for_is_a_fault() {
    let mut program = compiled("#main() void PRINT (1 + 2)");
    let (mut machine, result) = execute(&mut program, 0);
    assert_eq!(result, Ok(Action::Continue));
    let result = machine.step(&mut program, Some(Answer::Value(Value::Integer(4))));
    assert_eq!(result, Err(Fault::UnexpectedAnswer));
    assert_eq!(program.op_idx, 0);
}

#[test]
fn a_text_that_is_no_float_fails_to_convert() {
    assert_eq!(
        fault_of("#main() void PRINT (float(\"x\"))"),
        Fault::ConversionFailure {
            to: ValueType::Float,
            value: Value::String("\"x\"".to_string()),
        }
    );
}

#[test]
fn rand_pushes_what_the_host_draws() {
    assert_eq!(printed_by("#main() void PRINT (rand())"), vec![float(0.25)]);
}

#[test]
fn conversions() {
    assert_eq!(printed_by("#main() void PRINT (bool(0))"), vec![Value::Boolean(false)]);
    assert_eq!(printed_by("#main() void PRINT (bool(7))"), vec![Value::Boolean(true)]);
    assert_eq!(
        printed_by("#main() void PRINT (string(12))"),
        vec![Value::String("12".to_string())]
    );
    assert_eq!(printed_by("#main() void PRINT (int(bool(3)))"), vec![Value::Integer(1)]);
    assert_eq!(printed_by("#main() void PRINT (array(1))"), vec![Value::Array(vec![])]);
    assert_eq!(printed_by("#main() void PRINT (void(\"x\"))"), vec![Value::Integer(0)]);
}

#[test]
fn fill_random_appends_integers_in_range() {
    let source = "#main() void VAR (array(0)) $a FILL_RANDOM ($a, 200, -3, 4) $b PRINT ($b) \
                  FILL_RANDOM ($b, 5, 10, 11) $c PRINT (at($c, 204))";
    let printed = printed_by(source);
    assert_eq!(printed.len(), 2);
    let items = match &printed[0] {
        Value::Array(items) => items,
        other => panic!("no array: {:?}", other),
    };
    assert_eq!(items.len(), 200);
    let mut seen = [false; 7];
    for item in items {
        match item {
            Value::Integer(i) => {
                assert!(-3 <= *i && *i < 4);
                seen[(*i + 3) as usize] = true;
            }
            other => panic!("no integer: {:?}", other),
        }
    }
    assert!(seen.iter().filter(|s| **s).count() > 1);
    assert_eq!(printed[1], Value::Integer(10));
}

#[test]
fn fill_random_with_an_empty_range_faults() {
    assert_eq!(
        fault_of("#main() void VAR (array(0)) $a FILL_RANDOM ($a, 1, 5, 5) $b"),
        Fault::InvalidArgument(Value::Integer(5))
    );
    assert_eq!(
        printed_by("#main() void VAR (array(0)) $a FILL_RANDOM ($a, 0, 5, 5) $b PRINT ($b)"),
        vec![Value::Array(vec![])]
    );
    assert_eq!(
        printed_by("#main() void VAR (array(0)) $a FILL_RANDOM ($a, -2, 1, 5) $b PRINT ($b)"),
        vec![Value::Array(vec![])]
    );
}

#[test]
fn fill_random_wants_an_array() {
    assert_eq!(
        fault_of("#main() void VAR (1) $a FILL_RANDOM ($a, 1, 0, 5) $b"),
        Fault::InvalidArgument(Value::Integer(1))
    );
}

#[test]
fn procedures_work_on_the_top_of_the_stack() {
    let mut stack = vec![Value::Integer(9), Value::Integer(7), Value::Integer(2)];
    let minus = Expression { op: Operator::Subtract };
    assert_eq!(minus.execute(2, &mut stack, None), Ok(Effect::Done));
    assert_eq!(stack, vec![Value::Integer(9), Value::Integer(5)]);
    let text = TypeConverter { op: Conversion::To(ValueType::String) };
    assert_eq!(text.execute(1, &mut stack, None), Ok(Effect::Done));
    assert_eq!(stack, vec![Value::Integer(9), Value::String("5".to_string())]);
    assert_eq!(
        (Print {}).execute(1, &mut stack, None),
        Ok(Effect::Print(Value::String("5".to_string())))
    );
    assert_eq!(stack, vec![Value::Integer(9)]);
    assert_eq!((Sum {}).execute(0, &mut stack, None), Ok(Effect::Done));
    assert_eq!(stack, vec![Value::Integer(9)]);
    assert_eq!(
        (Rand::new()).execute(0, &mut stack, None),
        Ok(Effect::Compute(FloatTask::Random))
    );
    assert_eq!(stack, vec![Value::Integer(9)]);
    assert_eq!((Rand::new()).execute(0, &mut stack, Some(Answer::Value(float(0.5)))), Ok(Effect::Done));
    assert_eq!(stack, vec![Value::Integer(9), float(0.5)]);
}

#[test]
fn wrong_arity_and_underflow_are_faults() {
    let mut stack = vec![Value::Integer(1)];
    let plus = Expression { op: Operator::Add };
    assert_eq!(
        plus.execute(3, &mut stack, None),
        Err(Fault::WrongArity { expected: 2, found: 3 })
    );
    assert_eq!(plus.execute(2, &mut stack, None), Err(Fault::StackUnderflow));
    assert_eq!(
        (Print {}).execute(0, &mut stack, None),
        Err(Fault::WrongArity { expected: 1, found: 0 })
    );
    assert_eq!(
        (Rand::new()).execute(1, &mut stack, None),
        Err(Fault::WrongArity { expected: 0, found: 1 })
    );
    assert_eq!(
        (At {}).execute(1, &mut stack, None),
        Err(Fault::WrongArity { expected: 2, found: 1 })
    );
    assert_eq!(
        (FillRandom::new()).execute(3, &mut stack, None),
        Err(Fault::WrongArity { expected: 4, found: 3 })
    );
    assert_eq!((FillRandom::new()).execute(4, &mut stack, None), Err(Fault::StackUnderflow));
    assert_eq!((Sum {}).execute(2, &mut stack, None), Err(Fault::StackUnderflow));
    let convert = TypeConverter { op: Conversion::Void };
    assert_eq!(
        convert.execute(2, &mut stack, None),
        Err(Fault::WrongArity { expected: 1, found: 2 })
    );
    assert_eq!(stack, vec![Value::Integer(1)]);
    let mut empty: Vec<Value> = Vec::new();
    assert_eq!(convert.execute(1, &mut empty, None), Err(Fault::StackUnderflow));
    assert_eq!((Print {}).execute(1, &mut empty, None), Err(Fault::StackUnderflow));
}

#[test]
fn shaping_procedures_cannot_be_executed() {
    let mut stack = vec![Value::Integer(1)];
    assert_eq!((Call {}).execute(0, &mut stack, None), Err(Fault::NotImplemented));
    assert_eq!((If {}).execute(0, &mut stack, None), Err(Fault::NotImplemented));
    assert_eq!((Var {}).execute(0, &mut stack, None), Err(Fault::NotImplemented));
    assert_eq!((Return {}).execute(0, &mut stack, None), Err(Fault::NotImplemented));
    let mut found = get_procedures("CALL").unwrap();
    assert_eq!(found.execute(0, &mut stack, None), Err(Fault::NotImplemented));
    assert_eq!(stack, vec![Value::Integer(1)]);
}

#[test]
fn at_reads_an_item() {
    let array = Value::Array(vec![Value::Integer(5), Value::Boolean(true)]);
    let mut stack = vec![array.clone(), Value::Integer(1)];
    assert_eq!((At {}).execute(2, &mut stack, None), Ok(Effect::Done));
    assert_eq!(stack, vec![Value::Boolean(true)]);
    let mut stack = vec![array.clone(), Value::Integer(2)];
    assert_eq!(
        (At {}).execute(2, &mut stack, None),
        Err(Fault::IndexOutOfRange { index: 2, length: 2 })
    );
    let mut stack = vec![array.clone(), Value::Integer(-1)];
    assert_eq!(
        (At {}).execute(2, &mut stack, None),
        Err(Fault::IndexOutOfRange { index: -1, length: 2 })
    );
    let mut stack = vec![Value::Integer(1), Value::Integer(0)];
    assert_eq!(
        (At {}).execute(2, &mut stack, None),
        Err(Fault::InvalidArgument(Value::Integer(1)))
    );
    let mut stack = vec![array.clone(), Value::Boolean(false)];
    assert_eq!(
        (At {}).execute(2, &mut stack, None),
        Err(Fault::InvalidArgument(Value::Boolean(false)))
    );
    assert_eq!(stack, vec![array, Value::Boolean(false)]);
}

#[test]
fn the_machine_checks_its_operations() {
    let mut program = Program::new();
    program.new_mark("#MAIN".to_string());
    program.new_var("$A".to_string());
    let (_, result) = execute(&mut program, 5);
    assert_eq!(result, Err(Fault::StackUnderflow));
    let mut program = Program::new();
    program.new_mark("#MAIN".to_string());
    program.new_cskip(1);
    let (_, result) = execute(&mut program, 5);
    assert_eq!(result, Err(Fault::StackUnderflow));
    let mut program = Program::new();
    program.new_mark("#MAIN".to_string());
    program.new_push(Value::Array(vec![]));
    program.new_cskip(1);
    let (_, result) = execute(&mut program, 5);
    assert_eq!(
        result,
        Err(Fault::ConversionFailure { to: ValueType::Boolean, value: Value::Array(vec![]) })
    );
}

#[test]
fn skips_move_the_pointer_on() {
    let mut program = Program::new();
    program.new_mark("#MAIN".to_string());
    program.new_skip(1);
    program.new_push(Value::Integer(1));
    program.new_push(Value::Integer(2));
    program.new_push(Value::Boolean(true));
    program.new_cskip(2);
    program.new_push(Value::Integer(3));
    program.new_push(Value::Integer(4));
    program.new_push(Value::Integer(5));
    let (machine, result) = execute(&mut program, 50);
    assert_eq!(result, Ok(Action::Halt));
    assert_eq!(machine.stack, vec![Value::Integer(2), Value::Integer(5)]);
}

#[test]
fn the_next_operation_can_be_foreseen() {
    let mut program = compiled("#main() void CALL #f () $r #f() int RETURN (1)");
    let (mut machine, result) = execute(&mut program, 0);
    assert_eq!(result, Ok(Action::Continue));
    assert_eq!(landing(&program), (1, 0));
    assert_eq!(machine.step(&mut program, None), Ok(Action::Continue));
    assert_eq!(program.op_idx, 3);
    assert_eq!(program.trace, vec![2]);
    assert_eq!(landing(&program), (4, 1));
    assert_eq!(machine.step(&mut program, None), Ok(Action::Continue));
    assert_eq!(landing(&program), (2, 0));
    assert_eq!(machine.step(&mut program, None), Ok(Action::Continue));
    assert_eq!(program.op_idx, 2);
    assert!(program.trace.is_empty());
    assert_eq!(landing(&program), (5, 0));
    assert_eq!(machine.step(&mut program, None), Ok(Action::Halt));
    assert_eq!(machine.step(&mut program, None), Ok(Action::Halt));
    assert_eq!(machine.memo.get("$R"), Some(&Value::Integer(1)));
}

#[test]
fn the_cursor_of_a_program() {
    let mut program = Program::new();
    program.new_mark("#MAIN".to_string());
    program.new_push(Value::Integer(1));
    assert!(!program.is_end());
    assert_eq!(program.current().map(|op| op.to_string()), Some("MARK #MAIN".to_string()));
    program.trace_back();
    assert_eq!(program.trace, vec![1]);
    program.skip(5);
    assert!(program.is_end());
    assert!(program.current().is_none());
    program.finish_block();
    assert_eq!(program.op_idx, 1);
    assert!(program.trace.is_empty());
    program.next();
    assert_eq!(program.op_idx, 2);
    assert!(program.is_end());
    program.finish_block();
    assert_eq!(program.op_idx, 2);
}

#[test]
fn variables_are_bound_once() {
    let mut memo = Memo::new();
    assert_eq!(memo.bind("$A".to_string(), Value::Integer(1)), Ok(()));
    assert_eq!(memo.bind("$B".to_string(), Value::Integer(2)), Ok(()));
    assert_eq!(
        memo.bind("$A".to_string(), Value::Boolean(true)),
        Err(Fault::DuplicateVariable("$A".to_string()))
    );
    assert_eq!(memo.get("$A"), Some(&Value::Integer(1)));
    assert_eq!(memo.get("$B"), Some(&Value::Integer(2)));
    assert_eq!(memo.get("$a"), None);
}

#[test]
fn a_program_runs_again_from_the_start() {
    let mut program = compiled("#main() void PRINT (2 * 3)");
    for _ in 0..3 {
        let (printed, result) = run(&mut program);
        assert!(result.is_ok());
        assert_eq!(printed, vec![Value::Integer(6)]);
    }
}

#[test]
fn a_run_starts_with_an_empty_trace() {
    let mut program = compiled("#main() void CALL #f () $r #f() int RETURN (1 + \"a\")");
    let (_, result) = execute(&mut program, 50);
    assert!(matches!(result, Err(Fault::InvalidOperands { .. })));
    assert_eq!(program.trace, vec![2]);
    let (_, result) = execute(&mut program, 0);
    assert_eq!(result, Ok(Action::Continue));
    assert!(program.trace.is_empty());
    assert_eq!(program.op_idx, 0);
}

#[test]
fn a_cycle_of_jumps_runs_as_long_as_the_fuel_lasts() {
    let mut program = compiled("#main() void CALL #main () $r");
    let (_, result) = execute(&mut program, 1000);
    assert_eq!(result, Ok(Action::Continue));
    assert_eq!(program.trace.len(), 1000);
}

#[test]
fn an_operation_without_its_operand_is_a_fault() {
    for operation in [
        Operation::new_count(OperationName::Jmp, 1),
        Operation::new_count(OperationName::Push, 1),
        Operation::new_count(OperationName::Var, 1),
        Operation::new_word(OperationName::Exec, "SUM".to_string()),
        Operation::new_word(OperationName::Skip, "x".to_string()),
        Operation::new_word(OperationName::Cskip, "x".to_string()),
    ] {
        let mut program = Program::new();
        program.new_mark("#MAIN".to_string());
        program.ops.push(operation);
        let (machine, result) = execute(&mut program, 5);
        assert_eq!(result, Err(Fault::MalformedOperation));
        assert_eq!(program.op_idx, 0);
        assert!(machine.stack.is_empty());
    }
}
