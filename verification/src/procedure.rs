//! The procedures: the named capabilities that statements and operators
//! stand for.
//!
//! A procedure decides how its statement is parsed, what bytecode the
//! statement compiles to, and what its instruction does to the operand stack.
//! Procedures are found by name; names are compared as they stand, so callers
//! pass them in upper case.

use crate::lexer::Token;
use crate::node::{node_views, Node, NodeType, NodeView};
use crate::parser::{
    call_shape, fill_shape, if_shape, name_text, node_result, one_shape, shape, var_shape,
    ParseError, ParseErrorKind, Parser,
};
use crate::random::{fresh_seed, generator, thread_generator};
use crate::text::same_text;
use crate::value::{Operator, ValueType};
use rand::rngs::SmallRng;
use vstd::prelude::*;

verus! {

/// What a conversion procedure makes of its operand.
#[derive(Copy, Clone, PartialEq, Eq, Debug, Structural)]
pub enum Conversion {
    /// The operand as a value of the type.
    To(ValueType),
    /// An empty array, whatever the operand.
    Array,
    /// The integer zero, whatever the operand.
    Void,
}

/// The procedures that exist.
#[derive(Copy, Clone, PartialEq, Eq, Debug, Structural)]
pub enum ProcedureKind {
    Call,
    If,
    Print,
    Return,
    Var,
    Rand,
    Sum,
    FillRandom,
    At,
    Convert(Conversion),
    Binary(Operator),
}

/// `CALL #link (args...) $result`: calls a flow and binds what it leaves.
pub struct Call {}

/// `IF (cond) (#then, #else)`: calls one of two flows.
pub struct If {}

/// `VAR (expr) $name`: binds a variable.
pub struct Var {}

/// `PRINT (expr)`: hands a value to the host to print.
pub struct Print {}

/// `RETURN (expr)`: leaves a value for the caller.
pub struct Return {}

/// `SUM`: adds any number of operands from left to right.
pub struct Sum {}

/// `AT`: the item of an array at an index.
pub struct At {}

/// The procedure of a name, if there is one.
pub open spec fn procedure_named(name: Seq<char>) -> Option<ProcedureKind> {
    if name == "CALL"@ {
        Some(ProcedureKind::Call)
    } else if name == "IF"@ {
        Some(ProcedureKind::If)
    } else if name == "PRINT"@ {
        Some(ProcedureKind::Print)
    } else if name == "RETURN"@ {
        Some(ProcedureKind::Return)
    } else if name == "VAR"@ {
        Some(ProcedureKind::Var)
    } else if name == "RAND"@ {
        Some(ProcedureKind::Rand)
    } else if name == "SUM"@ {
        Some(ProcedureKind::Sum)
    } else if name == "FILL_RANDOM"@ {
        Some(ProcedureKind::FillRandom)
    } else if name == "AT"@ {
        Some(ProcedureKind::At)
    } else if name == "BOOL"@ {
        Some(ProcedureKind::Convert(Conversion::To(ValueType::Boolean)))
    } else if name == "FLOAT"@ {
        Some(ProcedureKind::Convert(Conversion::To(ValueType::Float)))
    } else if name == "STRING"@ {
        Some(ProcedureKind::Convert(Conversion::To(ValueType::String)))
    } else if name == "INT"@ {
        Some(ProcedureKind::Convert(Conversion::To(ValueType::Integer)))
    } else if name == "ARRAY"@ {
        Some(ProcedureKind::Convert(Conversion::Array))
    } else if name == "VOID"@ {
        Some(ProcedureKind::Convert(Conversion::Void))
    } else if name == "+"@ {
        Some(ProcedureKind::Binary(Operator::Add))
    } else if name == "-"@ {
        Some(ProcedureKind::Binary(Operator::Subtract))
    } else if name == "/"@ {
        Some(ProcedureKind::Binary(Operator::Divide))
    } else if name == "*"@ {
        Some(ProcedureKind::Binary(Operator::Multiply))
    } else if name == "^"@ {
        Some(ProcedureKind::Binary(Operator::Power))
    } else if name == "="@ {
        Some(ProcedureKind::Binary(Operator::Equal))
    } else if name == "<"@ {
        Some(ProcedureKind::Binary(Operator::Less))
    } else if name == ">"@ {
        Some(ProcedureKind::Binary(Operator::More))
    } else {
        None
    }
}

/// Finds the procedure of a name.
pub fn lookup(name: &str) -> (kind: Option<ProcedureKind>)
    ensures
        kind == procedure_named(name@),
{
    if same_text(name, "CALL") {
        Some(ProcedureKind::Call)
    } else if same_text(name, "IF") {
        Some(ProcedureKind::If)
    } else if same_text(name, "PRINT") {
        Some(ProcedureKind::Print)
    } else if same_text(name, "RETURN") {
        Some(ProcedureKind::Return)
    } else if same_text(name, "VAR") {
        Some(ProcedureKind::Var)
    } else if same_text(name, "RAND") {
        Some(ProcedureKind::Rand)
    } else if same_text(name, "SUM") {
        Some(ProcedureKind::Sum)
    } else if same_text(name, "FILL_RANDOM") {
        Some(ProcedureKind::FillRandom)
    } else if same_text(name, "AT") {
        Some(ProcedureKind::At)
    } else if same_text(name, "BOOL") {
        Some(ProcedureKind::Convert(Conversion::To(ValueType::Boolean)))
    } else if same_text(name, "FLOAT") {
        Some(ProcedureKind::Convert(Conversion::To(ValueType::Float)))
    } else if same_text(name, "STRING") {
        Some(ProcedureKind::Convert(Conversion::To(ValueType::String)))
    } else if same_text(name, "INT") {
        Some(ProcedureKind::Convert(Conversion::To(ValueType::Integer)))
    } else if same_text(name, "ARRAY") {
        Some(ProcedureKind::Convert(Conversion::Array))
    } else if same_text(name, "VOID") {
        Some(ProcedureKind::Convert(Conversion::Void))
    } else if same_text(name, "+") {
        Some(ProcedureKind::Binary(Operator::Add))
    } else if same_text(name, "-") {
        Some(ProcedureKind::Binary(Operator::Subtract))
    } else if same_text(name, "/") {
        Some(ProcedureKind::Binary(Operator::Divide))
    } else if same_text(name, "*") {
        Some(ProcedureKind::Binary(Operator::Multiply))
    } else if same_text(name, "^") {
        Some(ProcedureKind::Binary(Operator::Power))
    } else if same_text(name, "=") {
        Some(ProcedureKind::Binary(Operator::Equal))
    } else if same_text(name, "<") {
        Some(ProcedureKind::Binary(Operator::Less))
    } else if same_text(name, ">") {
        Some(ProcedureKind::Binary(Operator::More))
    } else {
        None
    }
}

impl Call {
    /// Parses `#link (args...) $result` after the name of the procedure:
    /// an operation over the link, the variable and the arguments.
    pub fn parse(token: Token, parser: &mut Parser) -> (node: Result<Node, ParseError>)
        ensures
            node_result(node) == call_shape(
                token@,
                old(parser).stream@,
                old(parser).current_position as int,
            ).0,
            final(parser).moved(
                old(parser),
                call_shape(token@, old(parser).stream@, old(parser).current_position as int).1,
            ),
    {
        let link = match parser.subparse_flow_link() {
            Ok(l) => l,
            Err(e) => {
                return Err(e);
            },
        };
        let args = match parser.subparse_list_in_bracers(None) {
            Ok(l) => l,
            Err(e) => {
                return Err(e);
            },
        };
        let variable = match parser.subparse_variable_name() {
            Ok(l) => l,
            Err(e) => {
                return Err(e);
            },
        };
        let ghost rest = node_views(args@);
        let mut params: Vec<Node> = Vec::new();
        params.push(link);
        params.push(variable);
        let mut args = args;
        params.append(&mut args);
        assert(node_views(params@) =~= seq![link@, variable@] + rest);
        Ok(Node::new_operation(name_text(&token), params, token.at))
    }
}

impl If {
    /// Parses `(cond) (#then, #else)` after the name of the procedure: an
    /// operation over the condition and the two links.
    pub fn parse(token: Token, parser: &mut Parser) -> (node: Result<Node, ParseError>)
        ensures
            node_result(node) == if_shape(
                token@,
                old(parser).stream@,
                old(parser).current_position as int,
            ).0,
            final(parser).moved(
                old(parser),
                if_shape(token@, old(parser).stream@, old(parser).current_position as int).1,
            ),
    {
        let expr = match parser.subparse_one_in_bracers() {
            Ok(l) => l,
            Err(e) => {
                return Err(e);
            },
        };
        let hash_links = match parser.subparse_list_in_bracers(Some(2)) {
            Ok(l) => l,
            Err(e) => {
                return Err(e);
            },
        };
        let ghost links = node_views(hash_links@);
        assert(links[0] == hash_links@[0]@);
        assert(links[1] == hash_links@[1]@);
        if !(hash_links[0].is_flow_link() && hash_links[1].is_flow_link()) {
            return Err(
                ParseError { position: token.at, kind: ParseErrorKind::ExpectedFlowLinks },
            );
        }
        let mut params: Vec<Node> = Vec::new();
        params.push(expr);
        let mut hash_links = hash_links;
        params.append(&mut hash_links);
        assert(node_views(params@) =~= seq![expr@] + links);
        Ok(Node::new_operation(name_text(&token), params, token.at))
    }
}

impl Var {
    /// Parses `(expr) $name` after the name of the procedure: an operation
    /// over the variable and the expression.
    pub fn parse(token: Token, parser: &mut Parser) -> (node: Result<Node, ParseError>)
        ensures
            node_result(node) == var_shape(
                token@,
                old(parser).stream@,
                old(parser).current_position as int,
            ).0,
            final(parser).moved(
                old(parser),
                var_shape(token@, old(parser).stream@, old(parser).current_position as int).1,
            ),
    {
        let expr = match parser.subparse_one_in_bracers() {
            Ok(l) => l,
            Err(e) => {
                return Err(e);
            },
        };
        let variable_name = match parser.subparse_variable_name() {
            Ok(l) => l,
            Err(e) => {
                return Err(e);
            },
        };
        let mut params: Vec<Node> = Vec::new();
        params.push(variable_name);
        params.push(expr);
        assert(node_views(params@) =~= seq![variable_name@, expr@]);
        Ok(Node::new_operation(name_text(&token), params, token.at))
    }
}

fn parse_one(token: Token, parser: &mut Parser) -> (node: Result<Node, ParseError>)
    ensures
        node_result(node) == one_shape(
            token@,
            old(parser).stream@,
            old(parser).current_position as int,
        ).0,
        final(parser).moved(
            old(parser),
            one_shape(token@, old(parser).stream@, old(parser).current_position as int).1,
        ),
{
    let expr = match parser.subparse_one_in_bracers() {
        Ok(l) => l,
        Err(e) => {
            return Err(e);
        },
    };
    let mut params: Vec<Node> = Vec::new();
    params.push(expr);
    assert(node_views(params@) =~= seq![expr@]);
    Ok(Node::new_operation(name_text(&token), params, token.at))
}

impl Print {
    /// Parses `(expr)` after the name of the procedure: an operation over
    /// the expression.
    pub fn parse(token: Token, parser: &mut Parser) -> (node: Result<Node, ParseError>)
        ensures
            node_result(node) == one_shape(
                token@,
                old(parser).stream@,
                old(parser).current_position as int,
            ).0,
            final(parser).moved(
                old(parser),
                one_shape(token@, old(parser).stream@, old(parser).current_position as int).1,
            ),
    {
        parse_one(token, parser)
    }
}

impl Return {
    /// Parses `(expr)` after the name of the procedure: an operation over
    /// the expression.
    pub fn parse(token: Token, parser: &mut Parser) -> (node: Result<Node, ParseError>)
        ensures
            node_result(node) == one_shape(
                token@,
                old(parser).stream@,
                old(parser).current_position as int,
            ).0,
            final(parser).moved(
                old(parser),
                one_shape(token@, old(parser).stream@, old(parser).current_position as int).1,
            ),
    {
        parse_one(token, parser)
    }
}

/// `FILL_RANDOM ($array, size, min, max) $result`: appends random integers
/// to an array. It draws them from a generator of its own.
pub struct FillRandom {
    pub rng: SmallRng,
}

/// A binary operator of the value algebra as a procedure.
pub struct Expression {
    pub op: Operator,
}

/// A conversion as a procedure.
pub struct TypeConverter {
    pub op: Conversion,
}

/// `RAND`: a random float, which the host draws.
pub struct Rand {}

/// A procedure.
pub enum Procedure {
    Call(Call),
    If(If),
    Print(Print),
    Return(Return),
    Var(Var),
    Rand(Rand),
    Sum(Sum),
    FillRandom(FillRandom),
    At(At),
    TypeConverter(TypeConverter),
    Expression(Expression),
}

impl Procedure {
    /// Which of the procedures this is.
    pub open spec fn kind_of(&self) -> ProcedureKind {
        match self {
            Procedure::Call(_) => ProcedureKind::Call,
            Procedure::If(_) => ProcedureKind::If,
            Procedure::Print(_) => ProcedureKind::Print,
            Procedure::Return(_) => ProcedureKind::Return,
            Procedure::Var(_) => ProcedureKind::Var,
            Procedure::Rand(_) => ProcedureKind::Rand,
            Procedure::Sum(_) => ProcedureKind::Sum,
            Procedure::FillRandom(_) => ProcedureKind::FillRandom,
            Procedure::At(_) => ProcedureKind::At,
            Procedure::TypeConverter(converter) => ProcedureKind::Convert(converter.op),
            Procedure::Expression(expression) => ProcedureKind::Binary(expression.op),
        }
    }

    /// Which of the procedures this is.
    pub fn kind(&self) -> (kind: ProcedureKind)
        ensures
            kind == self.kind_of(),
    {
        match self {
            Procedure::Call(_) => ProcedureKind::Call,
            Procedure::If(_) => ProcedureKind::If,
            Procedure::Print(_) => ProcedureKind::Print,
            Procedure::Return(_) => ProcedureKind::Return,
            Procedure::Var(_) => ProcedureKind::Var,
            Procedure::Rand(_) => ProcedureKind::Rand,
            Procedure::Sum(_) => ProcedureKind::Sum,
            Procedure::FillRandom(_) => ProcedureKind::FillRandom,
            Procedure::At(_) => ProcedureKind::At,
            Procedure::TypeConverter(converter) => ProcedureKind::Convert(converter.op),
            Procedure::Expression(expression) => ProcedureKind::Binary(expression.op),
        }
    }
}

impl Rand {
    /// The procedure `RAND`.
    pub fn new() -> Rand {
        Rand {  }
    }
}

impl FillRandom {
    /// The procedure `FILL_RANDOM`, with a generator seeded afresh.
    pub fn new() -> FillRandom {
        let mut source = thread_generator();
        FillRandom { rng: generator(fresh_seed(&mut source)) }
    }
}

/// The procedure of a name, if there is one. The name is compared as it
/// stands.
pub fn get_procedures(name: &str) -> (procedure: Option<Procedure>)
    ensures
        match procedure_named(name@) {
            Some(kind) => procedure is Some && procedure.unwrap().kind_of() == kind,
            None => procedure is None,
        },
{
    match lookup(name) {
        None => None,
        Some(kind) => Some(
            match kind {
                ProcedureKind::Call => Procedure::Call(Call {  }),
                ProcedureKind::If => Procedure::If(If {  }),
                ProcedureKind::Print => Procedure::Print(Print {  }),
                ProcedureKind::Return => Procedure::Return(Return {  }),
                ProcedureKind::Var => Procedure::Var(Var {  }),
                ProcedureKind::Rand => Procedure::Rand(Rand::new()),
                ProcedureKind::Sum => Procedure::Sum(Sum {  }),
                ProcedureKind::FillRandom => Procedure::FillRandom(FillRandom::new()),
                ProcedureKind::At => Procedure::At(At {  }),
                ProcedureKind::Convert(op) => Procedure::TypeConverter(TypeConverter { op }),
                ProcedureKind::Binary(op) => Procedure::Expression(Expression { op }),
            },
        ),
    }
}

impl FillRandom {
    /// Parses `($array, size, min, max) $result` after the name of the
    /// procedure: an operation over the four arguments and the variable.
    pub fn parse(token: Token, parser: &mut Parser) -> (node: Result<Node, ParseError>)
        ensures
            node_result(node) == fill_shape(
                token@,
                old(parser).stream@,
                old(parser).current_position as int,
            ).0,
            final(parser).moved(
                old(parser),
                fill_shape(token@, old(parser).stream@, old(parser).current_position as int).1,
            ),
    {
        let mut exprs = match parser.subparse_list_in_bracers(Some(4)) {
            Ok(l) => l,
            Err(e) => {
                return Err(e);
            },
        };
        let ghost args = node_views(exprs@);
        assert(args[0] == exprs@[0]@ && args[1] == exprs@[1]@ && args[2] == exprs@[2]@ && args[3]
            == exprs@[3]@);
        if !(exprs[0].node_type == NodeType::Variable && exprs[1].node_type == NodeType::Integer
            && exprs[2].node_type == NodeType::Integer && exprs[3].node_type
            == NodeType::Integer) {
            return Err(
                ParseError { position: token.at, kind: ParseErrorKind::ExpectedFillArguments },
            );
        }
        let variable_name = match parser.subparse_variable_name() {
            Ok(l) => l,
            Err(e) => {
                return Err(e);
            },
        };
        exprs.push(variable_name);
        assert(node_views(exprs@) =~= args.push(variable_name@));
        Ok(Node::new_operation(name_text(&token), exprs, token.at))
    }
}

/// Parses what follows the name of a procedure of the given kind; `token`
/// is the name, which the parser stands on.
pub fn parse_as(kind: ProcedureKind, token: Token, parser: &mut Parser) -> (node: Result<
    Node,
    ParseError,
>)
    ensures
        node_result(node) == shape(
            kind,
            token@,
            old(parser).stream@,
            old(parser).current_position as int,
        ).0,
        final(parser).moved(
            old(parser),
            shape(kind, token@, old(parser).stream@, old(parser).current_position as int).1,
        ),
{
    match kind {
        ProcedureKind::Call => Call::parse(token, parser),
        ProcedureKind::If => If::parse(token, parser),
        ProcedureKind::Var => Var::parse(token, parser),
        ProcedureKind::Print => Print::parse(token, parser),
        ProcedureKind::Return => Return::parse(token, parser),
        ProcedureKind::FillRandom => FillRandom::parse(token, parser),
        _ => {
            let empty: Vec<Node> = Vec::new();
            assert(node_views(empty@) =~= Seq::<NodeView>::empty());
            Ok(Node::new_operation(name_text(&token), empty, token.at))
        },
    }
}

impl Procedure {
    /// Parses what follows the name of the procedure; `token` is the name,
    /// which the parser stands on.
    pub fn parse(&self, token: Token, parser: &mut Parser) -> (node: Result<Node, ParseError>)
        ensures
            node_result(node) == shape(
                self.kind_of(),
                token@,
                old(parser).stream@,
                old(parser).current_position as int,
            ).0,
            final(parser).moved(
                old(parser),
                shape(
                    self.kind_of(),
                    token@,
                    old(parser).stream@,
                    old(parser).current_position as int,
                ).1,
            ),
    {
        parse_as(self.kind(), token, parser)
    }
}

} // verus!
