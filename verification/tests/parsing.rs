use flowlang::lexer::TokenStream;
use flowlang::node::{Node, NodeType};
use flowlang::parser::{ParseError, ParseErrorKind, Parser};
use flowlang::procedure::{Call, If, Print, Var};
use flowlang::reduce::{function_call, math_operations, prioritize_nodes};

fn show(node: &Node) -> String {
    let mut text = format!("{:?}:{}", node.node_type, node.value);
    if !node.params.is_empty() {
        let inner: Vec<String> = node.params.iter().map(show).collect();
        text = format!("{}[{}]", text, inner.join(","));
    }
    text
}

fn parser_of(input: &str) -> Parser {
    Parser::new_from_stream(TokenStream::new(input.to_string()).unwrap())
}

fn program_of(input: &str) -> Result<Node, ParseError> {
    parser_of(input).parse_program()
}

fn expression_parser(input: &str) -> Parser {
    let stream = TokenStream::new(input.to_string()).unwrap();
    let last = stream.len() - 1;
    Parser::new(stream, 0, last)
}

fn expressions_of(input: &str) -> Vec<String> {
    let nodes = expression_parser(input).subparse_expressions().unwrap();
    nodes.iter().map(show).collect()
}

#[test]
fn test_math_operation_replacer() {
    let list = vec![
        Node::new_number("1".to_string(), 0),
        Node::new_operation("+".to_string(), vec![], 1),
        Node::new_number("2".to_string(), 2),
    ];

    let new_list = math_operations(list.clone(), 1).unwrap();

    assert_eq!(new_list.len(), 1);
}

#[test]
fn a_math_fold_holds_both_operands() {
    let list = vec![
        Node::new_number("1".to_string(), 0),
        Node::new_operation("+".to_string(), vec![], 1),
        Node::new_number("2".to_string(), 2),
    ];
    let folded = math_operations(list, 1).unwrap();
    assert_eq!(show(&folded[0]), "Operation:+[Integer:1,Integer:2]");
    assert_eq!(folded[0].priority, 0);
    assert_eq!(folded[0].token_position, 1);
}

#[test]
fn a_math_fold_needs_an_operator_between_neighbours() {
    let list = vec![
        Node::new_number("1".to_string(), 0),
        Node::new_operation("+".to_string(), vec![], 1),
        Node::new_number("2".to_string(), 2),
    ];
    assert!(math_operations(list.clone(), 0).is_none());
    assert!(math_operations(list.clone(), 2).is_none());
    assert!(math_operations(list.clone(), 3).is_none());
    let words = vec![
        Node::new_number("1".to_string(), 0),
        Node::new_operation("f".to_string(), vec![], 1),
        Node::new_number("2".to_string(), 2),
    ];
    assert!(math_operations(words, 1).is_none());
}

#[test]
fn a_call_fold_names_the_method() {
    let list = vec![
        Node::new_variable("$A".to_string(), 0),
        Node::new_operation(".".to_string(), vec![], 2),
        Node::new_constant("size".to_string(), 3),
    ];
    assert!(math_operations(list.clone(), 1).is_none());
    let folded = function_call(list, 1).unwrap();
    assert_eq!(folded.len(), 1);
    assert_eq!(show(&folded[0]), "Operation:size[Variable:$A]");
}

#[test]
fn a_call_over_a_sum() {
    let nodes = expression_parser("log_2(45 + 5)").subparse_expressions().unwrap();
    assert_eq!(nodes.len(), 1);
    let call = &nodes[0];
    assert_eq!(call.node_type, NodeType::Operation);
    assert_eq!(call.value, "LOG_2");
    assert_eq!(call.params.len(), 1);
    let sum = &call.params[0];
    assert_eq!(sum.node_type, NodeType::Operation);
    assert_eq!(sum.value, "+");
    assert_eq!(sum.priority, 0);
    assert_eq!(show(sum), "Operation:+[Integer:45,Integer:5]");
}

#[test]
fn products_bind_before_sums() {
    assert_eq!(
        expressions_of("1 + 2 * 3"),
        vec!["Operation:+[Integer:1,Operation:*[Integer:2,Integer:3]]"]
    );
    assert_eq!(
        expressions_of("1 * 2 + 3"),
        vec!["Operation:+[Operation:*[Integer:1,Integer:2],Integer:3]"]
    );
}

#[test]
fn comparisons_bind_first() {
    assert_eq!(
        expressions_of("1 + 2 > 3"),
        vec!["Operation:+[Integer:1,Operation:>[Integer:2,Integer:3]]"]
    );
}

#[test]
fn equal_operators_bind_from_left_to_right() {
    assert_eq!(
        expressions_of("8 / 4 / 2"),
        vec!["Operation:/[Operation:/[Integer:8,Integer:4],Integer:2]"]
    );
}

#[test]
fn brackets_are_one_atom() {
    assert_eq!(
        expressions_of("2 * (3 + 4)"),
        vec!["Operation:*[Integer:2,Operation:+[Integer:3,Integer:4]]"]
    );
}

#[test]
fn commas_split_expressions() {
    assert_eq!(
        expressions_of("1 + 2, $a, #b, \"text\", 1.5"),
        vec![
            "Operation:+[Integer:1,Integer:2]",
            "Variable:$A",
            "FlowLink:#B",
            "String:\"text\"",
            "Float:1.5",
        ]
    );
}

#[test]
fn prioritizing_reduces_a_flat_list() {
    let list = vec![
        Node::new_number("1".to_string(), 0),
        Node::new_operation("+".to_string(), vec![], 2),
        Node::new_number("2".to_string(), 4),
        Node::new_operation("*".to_string(), vec![], 6),
        Node::new_number("3".to_string(), 8),
    ];
    let reduced = prioritize_nodes(list);
    assert_eq!(reduced.len(), 1);
    assert_eq!(show(&reduced[0]), "Operation:+[Integer:1,Operation:*[Integer:2,Integer:3]]");
}

#[test]
fn operator_ranks() {
    assert_eq!(Node::new_operation("+".to_string(), vec![], 0).get_priority(), 1);
    assert_eq!(Node::new_operation("-".to_string(), vec![], 0).get_priority(), 2);
    assert_eq!(Node::new_operation("*".to_string(), vec![], 0).get_priority(), 3);
    assert_eq!(Node::new_operation("/".to_string(), vec![], 0).get_priority(), 4);
    assert_eq!(Node::new_operation(">".to_string(), vec![], 0).get_priority(), 5);
    assert_eq!(Node::new_operation("<".to_string(), vec![], 0).get_priority(), 5);
    assert_eq!(Node::new_operation("=".to_string(), vec![], 0).get_priority(), 5);
    assert_eq!(Node::new_operation("^".to_string(), vec![], 0).get_priority(), 5);
    assert_eq!(Node::new_operation("PRINT".to_string(), vec![], 0).get_priority(), 4);
}

#[test]
fn a_program_of_two_flows() {
    let tree = program_of(
        "#main() void var (1 + 2) $x print ($x) #other(int($a), int($b)) int return ($a * $b)",
    )
    .unwrap();
    assert_eq!(
        show(&tree),
        "Program:root[\
         FlowDeclaration:#MAIN[Constant:void,\
         Operation:VAR[Variable:$X,Operation:+[Integer:1,Integer:2]],\
         Operation:PRINT[Variable:$X]],\
         FlowDeclaration:#OTHER[Operation:INT[Variable:$A],Operation:INT[Variable:$B],Constant:int,\
         Operation:RETURN[Operation:*[Variable:$A,Variable:$B]]]]"
    );
}

#[test]
fn expressions_end_with_the_stream() {
    assert_eq!(
        parser_of("1 + 2").subparse_expressions().err(),
        Some(ParseError { position: 4, kind: ParseErrorKind::EndOfTokens })
    );
}

#[test]
fn the_empty_program() {
    assert_eq!(show(&program_of("").unwrap()), "Program:root");
}

#[test]
fn statement_shapes() {
    let tree = program_of(
        "#main() void CALL #f (1, 2) $r IF ($r > 0) (#a, #b) FILL_RANDOM ($r, 10, -100, 100) $s",
    )
    .unwrap();
    assert_eq!(
        show(&tree),
        "Program:root[FlowDeclaration:#MAIN[Constant:void,\
         Operation:CALL[FlowLink:#F,Variable:$R,Integer:1,Integer:2],\
         Operation:IF[Operation:>[Variable:$R,Integer:0],FlowLink:#A,FlowLink:#B],\
         Operation:FILL_RANDOM[Variable:$R,Integer:10,Integer:-100,Integer:100,Variable:$S]]]"
    );
}

#[test]
fn procedures_parse_their_own_shapes() {
    let mut parser = parser_of("print (1 + 2)");
    let token = parser.stream.get(0).unwrap();
    assert_eq!(
        show(&Print::parse(token, &mut parser).unwrap()),
        "Operation:PRINT[Operation:+[Integer:1,Integer:2]]"
    );
    let mut parser = parser_of("var (7) $seven");
    let token = parser.stream.get(0).unwrap();
    assert_eq!(
        show(&Var::parse(token, &mut parser).unwrap()),
        "Operation:VAR[Variable:$SEVEN,Integer:7]"
    );
    let mut parser = parser_of("call #f () $r");
    let token = parser.stream.get(0).unwrap();
    assert_eq!(
        show(&Call::parse(token, &mut parser).unwrap()),
        "Operation:CALL[FlowLink:#F,Variable:$R]"
    );
    let mut parser = parser_of("if (1) (#a, #b)");
    let token = parser.stream.get(0).unwrap();
    assert_eq!(
        show(&If::parse(token, &mut parser).unwrap()),
        "Operation:IF[Integer:1,FlowLink:#A,FlowLink:#B]"
    );
}

#[test]
fn a_program_must_begin_with_a_flow() {
    assert_eq!(
        program_of("print (1)").err(),
        Some(ParseError { position: 0, kind: ParseErrorKind::ExpectedFlowDeclaration })
    );
}

#[test]
fn an_unknown_statement_is_an_error() {
    assert_eq!(
        program_of("#main() void frobnicate (1)").err(),
        Some(ParseError { position: 13, kind: ParseErrorKind::UnsupportedStatement })
    );
}

#[test]
fn a_statement_begins_with_a_word() {
    assert_eq!(
        program_of("#main() void 12").err(),
        Some(ParseError { position: 13, kind: ParseErrorKind::ExpectedStatement })
    );
}

#[test]
fn an_unclosed_bracket_is_an_error() {
    assert_eq!(
        program_of("#main() void print (1").err(),
        Some(ParseError { position: 19, kind: ParseErrorKind::MissingClosedBracer })
    );
}

#[test]
fn if_needs_two_flow_links() {
    assert_eq!(
        program_of("#main() void if (1) (#a, 2)").err(),
        Some(ParseError { position: 13, kind: ParseErrorKind::ExpectedFlowLinks })
    );
    assert_eq!(
        program_of("#main() void if (1) (#a)").err(),
        Some(ParseError {
            position: 18,
            kind: ParseErrorKind::WrongCount { expected: 2, found: 1 },
        })
    );
}

#[test]
fn var_needs_a_variable() {
    assert!(matches!(
        program_of("#main() void var (1) x").err(),
        Some(ParseError { kind: ParseErrorKind::ExpectedVariable, .. })
    ));
    assert!(matches!(
        program_of("#main() void var (1)").err(),
        Some(ParseError { kind: ParseErrorKind::MissingToken, .. })
    ));
}

#[test]
fn call_needs_a_flow_link() {
    assert!(matches!(
        program_of("#main() void call f () $r").err(),
        Some(ParseError { kind: ParseErrorKind::ExpectedFlowLink, .. })
    ));
}

#[test]
fn a_flow_needs_brackets_and_a_return_type() {
    assert!(matches!(
        program_of("#main void").err(),
        Some(ParseError { kind: ParseErrorKind::ExpectedBracket, .. })
    ));
    assert!(matches!(
        program_of("#main()").err(),
        Some(ParseError { kind: ParseErrorKind::MissingToken, .. })
    ));
    assert!(matches!(
        program_of("#main() (").err(),
        Some(ParseError { kind: ParseErrorKind::ExpectedWord, .. })
    ));
}

#[test]
fn fill_random_needs_a_variable_and_three_integers() {
    assert!(matches!(
        program_of("#main() void fill_random ($a, 1, 2, $b) $c").err(),
        Some(ParseError { kind: ParseErrorKind::ExpectedFillArguments, .. })
    ));
}

#[test]
fn node_predicates() {
    let plus = Node::new_operation("+".to_string(), vec![], 0);
    assert!(plus.is_mathematical_operation());
    assert!(plus.is_minus_or_plus());
    assert!(!plus.is_number());
    let call = Node::new_operation(".".to_string(), vec![], 0);
    assert!(call.is_call_operation());
    assert!(!call.is_not_call_operation());
    assert!(plus.is_not_call_operation());
    assert!(Node::new_number("1".to_string(), 0).is_number());
    assert!(Node::new_number("1.5".to_string(), 0).is_number());
    assert_eq!(Node::new_number("1.5".to_string(), 0).node_type, NodeType::Float);
    assert_eq!(Node::new_number("15".to_string(), 0).node_type, NodeType::Integer);
    assert!(Node::new_flow_link("#A".to_string(), 0).is_flow_link());
    assert!(!Node::new_variable("$A".to_string(), 0).is_flow_link());
}

#[test]
fn priorities_change_on_copies_only() {
    let node = Node::new_operation("*".to_string(), vec![], 3);
    assert_eq!(node.get_priority(), 3);
    let copy = node.clone().clone_with_priority(0);
    assert_eq!(copy.get_priority(), 0);
    assert_eq!(copy.value, "*");
    let mut marked = node.clone();
    marked.deprioritize();
    assert_eq!(marked.get_priority(), 0);
    assert_eq!(node.get_priority(), 3);
}

#[test]
fn children_can_be_replaced() {
    let mut node = Node::new_operation(
        "f".to_string(),
        vec![Node::new_number("1".to_string(), 0), Node::new_number("2".to_string(), 0)],
        0,
    );
    node.set_sub_node(1, Node::new_number("3".to_string(), 0));
    assert_eq!(show(&node), "Operation:f[Integer:1,Integer:3,Integer:2]");
    node.set_only_child(Node::new_number("4".to_string(), 0));
    assert_eq!(show(&node), "Operation:f[Integer:4]");
}

#[test]
fn a_tree_as_a_text() {
    let tree = Node::new_operation(
        "+".to_string(),
        vec![
            Node::new_number("1".to_string(), 0),
            Node::new_operation(
                "*".to_string(),
                vec![Node::new_number("2".to_string(), 0), Node::new_number("3".to_string(), 0)],
                0,
            ),
        ],
        0,
    );
    assert_eq!(tree.format(0), "+\n└── 1\n└── *\n    └── 2\n    └── 3\n");
    assert_eq!(tree.format(1), "+\n    └── 1\n    └── *\n        └── 2\n        └── 3\n");
    assert_eq!(Node::new_number("7".to_string(), 0).format(3), "7\n");
}

#[test]
fn a_statement_needs_its_brackets() {
    assert_eq!(
        program_of("#main() void print").err(),
        Some(ParseError { position: 13, kind: ParseErrorKind::ExpectedNextToken })
    );
    assert_eq!(
        program_of("#main() void print 1").err(),
        Some(ParseError { position: 13, kind: ParseErrorKind::ExpectedBracket })
    );
}

#[test]
fn an_expression_cannot_begin_the_stream_with_a_bracket() {
    assert_eq!(
        expression_parser("(1)").subparse_expressions().err(),
        Some(ParseError { position: 0, kind: ParseErrorKind::UnexpectedToken })
    );
}
