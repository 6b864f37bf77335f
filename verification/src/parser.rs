//! The parser: a token stream to the syntax tree of a program.
//!
//! A program is a list of flow declarations. A declaration is a word that
//! begins with `#`, a bracketed list of parameters, a word for the return
//! type, and statements up to the next declaration. A statement begins with
//! the name of a procedure, which decides the shape of what follows.
//!
//! What each step parses is given by a function on the sequence of tokens and
//! a position; it answers with a result and the position at which the parser
//! stands afterwards.

use crate::lexer::{closing_index, Token, TokenName, TokenStream, TokenView};
use crate::node::{
    leaf, lemma_params_view, node_views, number, operation, Node, NodeType, NodeView,
    DEFAULT_PRIORITY,
};
use crate::procedure::{lookup, parse_as, procedure_named, ProcedureKind};
use crate::reduce::{prioritize, prioritize_nodes};
use crate::text::{to_uppercase, uppercase_of};
use vstd::prelude::*;

verus! {

/// What the parser expected and did not find.
#[derive(Copy, Clone, PartialEq, Eq, Debug, Structural)]
pub enum ParseErrorKind {
    /// The stream holds no token at the position.
    MissingToken,
    /// A flow link must be a word that begins with `#`.
    ExpectedFlowLink,
    /// A variable must be a word that begins with `$`.
    ExpectedVariable,
    /// A flow declaration must be a word that begins with `#`.
    ExpectedFlowDeclaration,
    /// An opening bracket must follow.
    ExpectedBracket,
    /// A word must follow.
    ExpectedWord,
    /// A statement must begin with the name of a procedure.
    ExpectedStatement,
    /// No procedure has the name that the statement begins with.
    UnsupportedStatement,
    /// The stream ends where a bracket must follow.
    ExpectedNextToken,
    /// The opening bracket is never closed.
    MissingClosedBracer,
    /// The brackets hold another number of expressions than the procedure
    /// takes.
    WrongCount { expected: usize, found: usize },
    /// The stream ends inside an expression.
    EndOfTokens,
    /// The token cannot stand in an expression.
    UnexpectedToken,
    /// Both branches of an `IF` must be flow links.
    ExpectedFlowLinks,
    /// The arguments of `FILL_RANDOM` must be a variable and three integers.
    ExpectedFillArguments,
}

/// A parse error: what was expected, and where.
#[derive(Copy, Clone, PartialEq, Eq, Debug, Structural)]
pub struct ParseError {
    pub position: usize,
    pub kind: ParseErrorKind,
}

/// A parser over a token stream, standing at a position.
pub struct Parser {
    pub first_position: usize,
    pub last_position: usize,
    pub current_position: usize,
    pub stream: TokenStream,
}

/// An error of a kind at a position.
pub open spec fn failure<T>(position: int, kind: ParseErrorKind) -> Result<T, ParseError> {
    Err(ParseError { position: position as usize, kind })
}

/// The position after `p`; the greatest position is its own successor.
pub open spec fn bump(p: int) -> int {
    if p < usize::MAX {
        p + 1
    } else {
        p
    }
}

/// Whether the stream holds a token at the position.
pub open spec fn has_token(tokens: Seq<TokenView>, p: int) -> bool {
    0 <= p < tokens.len()
}

/// The name that a word stands for: its text in upper case.
pub open spec fn name_of(token: TokenView) -> Seq<char> {
    uppercase_of(token.value)
}

/// Whether the token is a word that begins with the sigil.
pub open spec fn has_sigil(token: TokenView, sigil: Seq<char>) -> bool {
    token.name == TokenName::Word && sigil.is_prefix_of(token.value)
}

/// The position at which the item after one that began at `from` and ended
/// at `end` begins. An item ends on a token of the stream and not before it
/// begins, so this is `end + 1`.
pub open spec fn following(tokens: Seq<TokenView>, end: int, from: int) -> int {
    if from <= end < tokens.len() {
        end + 1
    } else {
        from + 1
    }
}

/// A word with a sigil, read from the token after `pos`.
pub open spec fn sigil_word(
    tokens: Seq<TokenView>,
    pos: int,
    sigil: Seq<char>,
    node_type: NodeType,
    kind: ParseErrorKind,
) -> (Result<NodeView, ParseError>, int) {
    let p = bump(pos);
    if !has_token(tokens, p) {
        (failure(p, ParseErrorKind::MissingToken), p)
    } else if !has_sigil(tokens[p], sigil) {
        (failure(p, kind), p)
    } else {
        (Ok(leaf(node_type, name_of(tokens[p]), tokens[p].at)), p)
    }
}

/// A flow link, read from the token after `pos`.
pub open spec fn flow_link(tokens: Seq<TokenView>, pos: int) -> (Result<NodeView, ParseError>, int) {
    sigil_word(tokens, pos, "#"@, NodeType::FlowLink, ParseErrorKind::ExpectedFlowLink)
}

/// The name of a variable, read from the token after `pos`.
pub open spec fn variable_name(tokens: Seq<TokenView>, pos: int) -> (
    Result<NodeView, ParseError>,
    int,
) {
    sigil_word(tokens, pos, "$"@, NodeType::Variable, ParseErrorKind::ExpectedVariable)
}

/// A bare word, read from the token after `pos`.
pub open spec fn word(tokens: Seq<TokenView>, pos: int) -> (Result<NodeView, ParseError>, int) {
    let p = bump(pos);
    if !has_token(tokens, p) {
        (failure(p, ParseErrorKind::MissingToken), p)
    } else if tokens[p].name != TokenName::Word {
        (failure(p, ParseErrorKind::ExpectedWord), p)
    } else {
        (Ok(leaf(NodeType::Constant, tokens[p].value, p as usize)), p)
    }
}

/// The expressions between the bracket at `q` and the bracket that closes
/// it; `start_at` is the offset of the token before the bracket, where errors
/// are reported. Where `length` is given, the brackets must hold so many
/// expressions. The position afterwards is that of the closing bracket.
pub open spec fn group(tokens: Seq<TokenView>, q: int, start_at: usize, length: Option<usize>) -> (
    Result<Seq<NodeView>, ParseError>,
    int,
)
    decreases tokens.len() - q, 1int,
{
    if !has_token(tokens, q) {
        (failure(start_at as int, ParseErrorKind::ExpectedNextToken), q)
    } else if tokens[q].name != TokenName::Bracket {
        (failure(start_at as int, ParseErrorKind::ExpectedBracket), q)
    } else {
        match closing_index(tokens, q) {
            None => (failure(tokens[q].at as int, ParseErrorKind::MissingClosedBracer), q),
            Some(end) => {
                let inner = if q == end - 1 {
                    Ok(Seq::empty())
                } else {
                    expressions(tokens, q + 1, end - 1, Seq::empty()).0
                };
                match inner {
                    Err(error) => (Err(error), q),
                    Ok(nodes) => if length is Some && nodes.len() != length.unwrap() {
                        (
                            failure(
                                start_at as int,
                                ParseErrorKind::WrongCount {
                                    expected: length.unwrap(),
                                    found: nodes.len() as usize,
                                },
                            ),
                            q,
                        )
                    } else {
                        (Ok(nodes), end)
                    },
                }
            },
        }
    }
}

/// The one item of an expression that begins with the token at `pos`, which
/// is no comma, and the position of the item's last token.
///
/// A word with a sigil is a flow link or a variable; any other word is an
/// operation over the bracketed list that follows it. A bracket opens a
/// nested expression, which counts as one item of priority zero. An operator
/// is an operation without operands as long as the list is flat.
pub open spec fn item(tokens: Seq<TokenView>, pos: int) -> (Result<NodeView, ParseError>, int)
    decreases tokens.len() - pos, 2int,
{
    if !has_token(tokens, pos) {
        (failure(0, ParseErrorKind::EndOfTokens), pos)
    } else {
        let token = tokens[pos];
        match token.name {
            TokenName::Word => if "#"@.is_prefix_of(token.value) {
                (Ok(leaf(NodeType::FlowLink, name_of(token), token.at)), pos)
            } else if "$"@.is_prefix_of(token.value) {
                (Ok(leaf(NodeType::Variable, name_of(token), token.at)), pos)
            } else {
                match group(tokens, pos + 1, token.at, None) {
                    (Ok(nodes), end) => (Ok(operation(name_of(token), nodes, token.at)), end),
                    (Err(error), p) => (Err(error), p),
                }
            },
            TokenName::Bracket => if pos == 0 {
                (failure(token.at as int, ParseErrorKind::UnexpectedToken), pos)
            } else {
                match group(tokens, pos, tokens[pos - 1].at, Some(1)) {
                    (Ok(nodes), end) => (Ok(NodeView { priority: 0, ..nodes[0] }), end),
                    (Err(error), p) => (Err(error), p),
                }
            },
            TokenName::Operator => (Ok(operation(token.value, Seq::empty(), token.at)), pos),
            TokenName::Number => (Ok(number(token.value, token.at)), pos),
            TokenName::String => (Ok(leaf(NodeType::String, token.value, token.at)), pos),
            _ => (failure(token.at as int, ParseErrorKind::UnexpectedToken), pos),
        }
    }
}

/// The expressions read from `pos` up to the token at `last`, after the
/// items `acc` of the expression under way.
///
/// The items of one expression are collected in a flat list and then reduced.
/// A comma ends the expression: what follows it is read as expressions of
/// their own, each reduced by itself.
pub open spec fn expressions(tokens: Seq<TokenView>, pos: int, last: int, acc: Seq<NodeView>) -> (
    Result<Seq<NodeView>, ParseError>,
    int,
)
    decreases tokens.len() - pos, 3int,
{
    if !has_token(tokens, pos) {
        (
            failure(
                if has_token(tokens, pos - 1) {
                    tokens[pos - 1].at as int
                } else {
                    0
                },
                ParseErrorKind::EndOfTokens,
            ),
            pos,
        )
    } else if tokens[pos].name == TokenName::Comma {
        match expressions(tokens, pos + 1, last, Seq::empty()).0 {
            Err(error) => (Err(error), pos),
            Ok(right) => (Ok(prioritize(acc) + right), pos),
        }
    } else {
        match item(tokens, pos) {
            (Err(error), p) => (Err(error), p),
            (Ok(node), p) => if p == last {
                (Ok(prioritize(acc.push(node))), p)
            } else {
                expressions(tokens, following(tokens, p, pos), last, acc.push(node))
            },
        }
    }
}

/// The bracketed list that follows the token at `pos`.
pub open spec fn list_in_bracers(tokens: Seq<TokenView>, pos: int, length: Option<usize>) -> (
    Result<Seq<NodeView>, ParseError>,
    int,
) {
    if !has_token(tokens, pos) {
        (failure(pos, ParseErrorKind::MissingToken), pos)
    } else {
        group(tokens, pos + 1, tokens[pos].at, length)
    }
}

/// The one expression in the brackets that follow the token at `pos`.
pub open spec fn one_in_bracers(tokens: Seq<TokenView>, pos: int) -> (
    Result<NodeView, ParseError>,
    int,
) {
    match list_in_bracers(tokens, pos, Some(1)) {
        (Ok(nodes), end) => (Ok(nodes[0]), end),
        (Err(error), p) => (Err(error), p),
    }
}

/// `CALL #link (args...) $result`: the link, the variable, then the
/// arguments.
pub open spec fn call_shape(token: TokenView, tokens: Seq<TokenView>, pos: int) -> (
    Result<NodeView, ParseError>,
    int,
) {
    match flow_link(tokens, pos) {
        (Err(error), p) => (Err(error), p),
        (Ok(link), p1) => match list_in_bracers(tokens, p1, None) {
            (Err(error), p) => (Err(error), p),
            (Ok(args), p2) => match variable_name(tokens, p2) {
                (Err(error), p) => (Err(error), p),
                (Ok(variable), p3) => (
                    Ok(operation(name_of(token), seq![link, variable] + args, token.at)),
                    p3,
                ),
            },
        },
    }
}

/// `IF (cond) (#then, #else)`: the condition, then the two links.
pub open spec fn if_shape(token: TokenView, tokens: Seq<TokenView>, pos: int) -> (
    Result<NodeView, ParseError>,
    int,
) {
    match one_in_bracers(tokens, pos) {
        (Err(error), p) => (Err(error), p),
        (Ok(condition), p1) => match list_in_bracers(tokens, p1, Some(2)) {
            (Err(error), p) => (Err(error), p),
            (Ok(links), p2) => if links[0].node_type == NodeType::FlowLink && links[1].node_type
                == NodeType::FlowLink {
                (Ok(operation(name_of(token), seq![condition] + links, token.at)), p2)
            } else {
                (failure(token.at as int, ParseErrorKind::ExpectedFlowLinks), p2)
            },
        },
    }
}

/// `VAR (expr) $name`: the variable, then the expression.
pub open spec fn var_shape(token: TokenView, tokens: Seq<TokenView>, pos: int) -> (
    Result<NodeView, ParseError>,
    int,
) {
    match one_in_bracers(tokens, pos) {
        (Err(error), p) => (Err(error), p),
        (Ok(expression), p1) => match variable_name(tokens, p1) {
            (Err(error), p) => (Err(error), p),
            (Ok(variable), p2) => (
                Ok(operation(name_of(token), seq![variable, expression], token.at)),
                p2,
            ),
        },
    }
}

/// `PRINT (expr)` and `RETURN (expr)`: the expression.
pub open spec fn one_shape(token: TokenView, tokens: Seq<TokenView>, pos: int) -> (
    Result<NodeView, ParseError>,
    int,
) {
    match one_in_bracers(tokens, pos) {
        (Err(error), p) => (Err(error), p),
        (Ok(expression), p1) => (Ok(operation(name_of(token), seq![expression], token.at)), p1),
    }
}

/// `FILL_RANDOM ($array, size, min, max) $result`: the four arguments, a
/// variable and three integers, then the variable of the result.
pub open spec fn fill_shape(token: TokenView, tokens: Seq<TokenView>, pos: int) -> (
    Result<NodeView, ParseError>,
    int,
) {
    match list_in_bracers(tokens, pos, Some(4)) {
        (Err(error), p) => (Err(error), p),
        (Ok(args), p1) => if !(args[0].node_type == NodeType::Variable && args[1].node_type
            == NodeType::Integer && args[2].node_type == NodeType::Integer && args[3].node_type
            == NodeType::Integer) {
            (failure(token.at as int, ParseErrorKind::ExpectedFillArguments), p1)
        } else {
            match variable_name(tokens, p1) {
                (Err(error), p) => (Err(error), p),
                (Ok(variable), p2) => (
                    Ok(operation(name_of(token), args.push(variable), token.at)),
                    p2,
                ),
            }
        },
    }
}

/// What follows the name of a procedure, which is the token at `pos`: each
/// procedure has its shape, and a procedure without one is an operation
/// without operands.
pub open spec fn shape(kind: ProcedureKind, token: TokenView, tokens: Seq<TokenView>, pos: int) -> (
    Result<NodeView, ParseError>,
    int,
) {
    match kind {
        ProcedureKind::Call => call_shape(token, tokens, pos),
        ProcedureKind::If => if_shape(token, tokens, pos),
        ProcedureKind::Var => var_shape(token, tokens, pos),
        ProcedureKind::Print => one_shape(token, tokens, pos),
        ProcedureKind::Return => one_shape(token, tokens, pos),
        ProcedureKind::FillRandom => fill_shape(token, tokens, pos),
        _ => (Ok(operation(name_of(token), Seq::empty(), token.at)), pos),
    }
}

/// The statement that begins with the token after `pos`.
pub open spec fn statement(tokens: Seq<TokenView>, pos: int) -> (Result<NodeView, ParseError>, int) {
    let p = bump(pos);
    if !has_token(tokens, p) {
        (failure(p, ParseErrorKind::MissingToken), p)
    } else if tokens[p].name != TokenName::Word {
        (failure(tokens[p].at as int, ParseErrorKind::ExpectedStatement), p)
    } else {
        match procedure_named(name_of(tokens[p])) {
            None => (failure(tokens[p].at as int, ParseErrorKind::UnsupportedStatement), p),
            Some(kind) => shape(kind, tokens[p], tokens, p),
        }
    }
}

/// The statements of a flow, read after the token at `pos` up to the next
/// declaration or the end of the stream, after the children `acc`.
pub open spec fn statements(tokens: Seq<TokenView>, pos: int, acc: Seq<NodeView>) -> (
    Result<Seq<NodeView>, ParseError>,
    int,
)
    decreases tokens.len() - pos,
{
    if pos < 0 || !has_token(tokens, pos + 1) || "#"@.is_prefix_of(tokens[pos + 1].value) {
        (Ok(acc), pos)
    } else {
        match statement(tokens, pos) {
            (Err(error), p) => (Err(error), p),
            (Ok(node), p) => statements(
                tokens,
                if pos < p < tokens.len() {
                    p
                } else {
                    pos + 1
                },
                acc.push(node),
            ),
        }
    }
}

/// The declaration of a flow that begins with the token at `pos`.
pub open spec fn flow_declaration(tokens: Seq<TokenView>, pos: int) -> (
    Result<NodeView, ParseError>,
    int,
) {
    if !has_token(tokens, pos) {
        (failure(pos, ParseErrorKind::MissingToken), pos)
    } else if !has_sigil(tokens[pos], "#"@) {
        (failure(pos, ParseErrorKind::ExpectedFlowDeclaration), pos)
    } else if !has_token(tokens, pos + 1) {
        (failure(pos + 1, ParseErrorKind::MissingToken), pos)
    } else if tokens[pos + 1].name != TokenName::Bracket {
        (failure(tokens[pos + 1].at as int, ParseErrorKind::ExpectedBracket), pos)
    } else {
        match list_in_bracers(tokens, pos, None) {
            (Err(error), p) => (Err(error), p),
            (Ok(parameters), p1) => match word(tokens, p1) {
                (Err(error), p) => (Err(error), p),
                (Ok(return_type), p2) => match statements(
                    tokens,
                    p2,
                    parameters.push(return_type),
                ) {
                    (Err(error), p) => (Err(error), p),
                    (Ok(children), p3) => (
                        Ok(
                            NodeView {
                                node_type: NodeType::FlowDeclaration,
                                value: name_of(tokens[pos]),
                                params: children,
                                priority: DEFAULT_PRIORITY,
                                token_position: tokens[pos].at,
                            },
                        ),
                        p3,
                    ),
                },
            },
        }
    }
}

/// The program whose declarations are read from `pos` on, after the
/// declarations `acc`.
pub open spec fn program(tokens: Seq<TokenView>, pos: int, acc: Seq<NodeView>) -> (
    Result<NodeView, ParseError>,
    int,
)
    decreases tokens.len() - pos,
{
    if !has_token(tokens, pos) {
        (
            Ok(
                NodeView {
                    node_type: NodeType::Program,
                    value: "root"@,
                    params: acc,
                    priority: DEFAULT_PRIORITY,
                    token_position: 0,
                },
            ),
            pos,
        )
    } else {
        match flow_declaration(tokens, pos) {
            (Err(error), p) => (Err(error), p),
            (Ok(declaration), p) => program(
                tokens,
                following(tokens, p, pos),
                acc.push(declaration),
            ),
        }
    }
}

/// The view of a result that carries a list of nodes.
pub open spec fn nodes_result(result: Result<Vec<Node>, ParseError>) -> Result<
    Seq<NodeView>,
    ParseError,
> {
    match result {
        Ok(nodes) => Ok(node_views(nodes@)),
        Err(error) => Err(error),
    }
}

/// The view of a result that carries a node.
pub open spec fn node_result(result: Result<Node, ParseError>) -> Result<NodeView, ParseError> {
    match result {
        Ok(node) => Ok(node@),
        Err(error) => Err(error),
    }
}

fn fail<T>(position: usize, kind: ParseErrorKind) -> (result: Result<T, ParseError>)
    ensures
        result == failure::<T>(position as int, kind),
{
    Err(ParseError { position, kind })
}

fn next_position(p: usize) -> (q: usize)
    ensures
        q == bump(p as int),
{
    if p < usize::MAX {
        p + 1
    } else {
        p
    }
}

/// The name that a token stands for, in upper case.
pub(crate) fn name_text(token: &Token) -> (name: String)
    ensures
        name@ == name_of(token@),
{
    to_uppercase(token.value.as_str())
}

fn parse_sigil_word(
    stream: &TokenStream,
    pos: usize,
    sigil: &str,
    node_type: NodeType,
    kind: ParseErrorKind,
) -> (parsed: (Result<Node, ParseError>, usize))
    ensures
        (node_result(parsed.0), parsed.1 as int) == sigil_word(
            stream@,
            pos as int,
            sigil@,
            node_type,
            kind,
        ),
{
    let p = next_position(pos);
    assert(stream@.len() == stream.tokens.len());
    if p >= stream.tokens.len() {
        return (fail(p, ParseErrorKind::MissingToken), p);
    }
    let token = &stream.tokens[p];
    assert(stream@[p as int] == token@);
    if token.name != TokenName::Word || !token.starts_with(sigil) {
        return (fail(p, kind), p);
    }
    let node = Node {
        node_type,
        value: name_text(token),
        params: Vec::new(),
        priority: DEFAULT_PRIORITY,
        token_position: token.at,
    };
    proof {
        lemma_params_view(node);
        assert(node@.params =~= Seq::<NodeView>::empty());
    }
    (Ok(node), p)
}

fn parse_group(stream: &TokenStream, q: usize, start_at: usize, length: Option<usize>) -> (parsed: (
    Result<Vec<Node>, ParseError>,
    usize,
))
    requires
        q >= 1,
    ensures
        (nodes_result(parsed.0), parsed.1 as int) == group(stream@, q as int, start_at, length),
        parsed.0 is Ok ==> q <= parsed.1 < stream@.len(),
        parsed.0 is Ok && length is Some ==> parsed.0.unwrap()@.len() == length.unwrap(),
    decreases stream@.len() - q, 1int,
{
    assert(stream@.len() == stream.tokens.len());
    if q >= stream.tokens.len() {
        return (fail(start_at, ParseErrorKind::ExpectedNextToken), q);
    }
    let open = &stream.tokens[q];
    assert(stream@[q as int] == open@);
    if open.name != TokenName::Bracket {
        return (fail(start_at, ParseErrorKind::ExpectedBracket), q);
    }
    let end = match stream.search_idx_of_closed_bracer(q) {
        None => {
            return (fail(open.at, ParseErrorKind::MissingClosedBracer), q);
        },
        Some(end) => end,
    };
    let nodes = if q == end - 1 {
        let nodes: Vec<Node> = Vec::new();
        assert(node_views(nodes@) =~= Seq::<NodeView>::empty());
        nodes
    } else {
        let list: Vec<Node> = Vec::new();
        assert(node_views(list@) =~= Seq::<NodeView>::empty());
        match parse_expressions(stream, q + 1, end - 1, list).0 {
            Err(error) => {
                return (Err(error), q);
            },
            Ok(nodes) => nodes,
        }
    };
    if let Some(expected) = length {
        if nodes.len() != expected {
            return (
                fail(start_at, ParseErrorKind::WrongCount { expected, found: nodes.len() }),
                q,
            );
        }
    }
    (Ok(nodes), end)
}

fn parse_item(stream: &TokenStream, pos: usize) -> (parsed: (Result<Node, ParseError>, usize))
    requires
        pos < stream@.len(),
    ensures
        (node_result(parsed.0), parsed.1 as int) == item(stream@, pos as int),
        parsed.0 is Ok ==> pos <= parsed.1 < stream@.len(),
    decreases stream@.len() - pos, 2int,
{
    assert(stream@.len() == stream.tokens.len());
    let token = &stream.tokens[pos];
    assert(stream@[pos as int] == token@);
    let empty: Vec<Node> = Vec::new();
    assert(node_views(empty@) =~= Seq::<NodeView>::empty());
    match token.name {
        TokenName::Word => {
            if token.starts_with("#") {
                (Ok(Node::new_flow_link(name_text(token), token.at)), pos)
            } else if token.starts_with("$") {
                (Ok(Node::new_variable(name_text(token), token.at)), pos)
            } else {
                match parse_group(stream, pos + 1, token.at, None) {
                    (Ok(nodes), end) => (
                        Ok(Node::new_operation(name_text(token), nodes, token.at)),
                        end,
                    ),
                    (Err(error), p) => (Err(error), p),
                }
            }
        },
        TokenName::Bracket => {
            if pos == 0 {
                return (fail(token.at, ParseErrorKind::UnexpectedToken), pos);
            }
            let before = &stream.tokens[pos - 1];
            assert(stream@[pos - 1] == before@);
            match parse_group(stream, pos, before.at, Some(1)) {
                (Ok(nodes), end) => {
                    let mut nodes = nodes;
                    let ghost views = node_views(nodes@);
                    assert(views[0] == nodes@[0]@);
                    let node = nodes.pop().unwrap();
                    (Ok(node.clone_with_priority(0)), end)
                },
                (Err(error), p) => (Err(error), p),
            }
        },
        TokenName::Operator => (
            Ok(Node::new_operation(token.value.clone(), empty, token.at)),
            pos,
        ),
        TokenName::Number => (Ok(Node::new_number(token.value.clone(), token.at)), pos),
        TokenName::String => (Ok(Node::new_string(token.value.clone(), token.at)), pos),
        _ => (fail(token.at, ParseErrorKind::UnexpectedToken), pos),
    }
}

#[verifier::loop_isolation(false)]
fn parse_expressions(stream: &TokenStream, first: usize, last: usize, list: Vec<Node>) -> (parsed: (
    Result<Vec<Node>, ParseError>,
    usize,
))
    ensures
        (nodes_result(parsed.0), parsed.1 as int) == expressions(
            stream@,
            first as int,
            last as int,
            node_views(list@),
        ),
    decreases stream@.len() - first, 3int,
{
    let ghost initial = node_views(list@);
    let mut list = list;
    let mut pos = first;
    assert(stream@.len() == stream.tokens.len());
    loop
        invariant
            first <= pos,
            expressions(stream@, first as int, last as int, initial) == expressions(
                stream@,
                pos as int,
                last as int,
                node_views(list@),
            ),
        decreases stream@.len() - pos,
    {
        if pos >= stream.tokens.len() {
            let at = if pos >= 1 && pos - 1 < stream.tokens.len() {
                assert(stream@[pos - 1] == stream.tokens@[pos - 1]@);
                stream.tokens[pos - 1].at
            } else {
                0
            };
            return (fail(at, ParseErrorKind::EndOfTokens), pos);
        }
        let token = &stream.tokens[pos];
        assert(stream@[pos as int] == token@);
        if token.name == TokenName::Comma {
            let fresh: Vec<Node> = Vec::new();
            assert(node_views(fresh@) =~= Seq::<NodeView>::empty());
            let right = match parse_expressions(stream, pos + 1, last, fresh).0 {
                Err(error) => {
                    return (Err(error), pos);
                },
                Ok(right) => right,
            };
            let ghost left = node_views(list@);
            let mut all = prioritize_nodes(list);
            let ghost reduced = node_views(all@);
            let mut right = right;
            let ghost others = node_views(right@);
            all.append(&mut right);
            assert(node_views(all@) =~= reduced + others);
            return (Ok(all), pos);
        }
        match parse_item(stream, pos) {
            (Err(error), p) => {
                return (Err(error), p);
            },
            (Ok(node), p) => {
                let ghost before = node_views(list@);
                list.push(node);
                assert(node_views(list@) =~= before.push(node@));
                if p == last {
                    return (Ok(prioritize_nodes(list)), p);
                }
                pos = p + 1;
            },
        }
    }
}

impl Parser {
    /// A parser over the tokens from `first_position` to `last_position`.
    pub fn new(stream: TokenStream, first_position: usize, last_position: usize) -> (parser: Self)
        ensures
            parser.stream == stream,
            parser.first_position == first_position,
            parser.last_position == last_position,
            parser.current_position == first_position,
    {
        Parser { stream, first_position, last_position, current_position: first_position }
    }

    /// A parser over a whole stream.
    pub fn new_from_stream(stream: TokenStream) -> (parser: Self)
        ensures
            parser.stream == stream,
            parser.first_position == 0,
            parser.last_position == usize::MAX,
            parser.current_position == 0,
    {
        Self::new(stream, 0, usize::MAX)
    }

    /// Whether this is the parser `before` moved to `position`.
    pub open spec fn moved(&self, before: &Parser, position: int) -> bool {
        &&& self.stream == before.stream
        &&& self.first_position == before.first_position
        &&& self.last_position == before.last_position
        &&& self.current_position == position
    }

    /// An error of the given kind at the given position.
    pub fn error(&self, position: usize, kind: ParseErrorKind) -> (error: ParseError)
        ensures
            error == (ParseError { position, kind }),
    {
        ParseError { position, kind }
    }

    /// Reduces a flat list of nodes by the passes of all priorities.
    pub fn prioritize(&self, input_list: Vec<Node>) -> (list: Vec<Node>)
        ensures
            node_views(list@) == prioritize(node_views(input_list@)),
    {
        prioritize_nodes(input_list)
    }

    /// Reads a flow link from the next token.
    pub fn subparse_flow_link(&mut self) -> (node: Result<Node, ParseError>)
        ensures
            node_result(node) == flow_link(old(self).stream@, old(self).current_position as int).0,
            final(self).moved(
                old(self),
                flow_link(old(self).stream@, old(self).current_position as int).1,
            ),
    {
        let (node, position) = parse_sigil_word(
            &self.stream,
            self.current_position,
            "#",
            NodeType::FlowLink,
            ParseErrorKind::ExpectedFlowLink,
        );
        self.current_position = position;
        node
    }

    /// Reads the name of a variable from the next token.
    pub fn subparse_variable_name(&mut self) -> (node: Result<Node, ParseError>)
        ensures
            node_result(node) == variable_name(
                old(self).stream@,
                old(self).current_position as int,
            ).0,
            final(self).moved(
                old(self),
                variable_name(old(self).stream@, old(self).current_position as int).1,
            ),
    {
        let (node, position) = parse_sigil_word(
            &self.stream,
            self.current_position,
            "$",
            NodeType::Variable,
            ParseErrorKind::ExpectedVariable,
        );
        self.current_position = position;
        node
    }

    /// Reads a bare word from the next token.
    pub fn subparse_word(&mut self) -> (node: Result<Node, ParseError>)
        ensures
            node_result(node) == word(old(self).stream@, old(self).current_position as int).0,
            final(self).moved(
                old(self),
                word(old(self).stream@, old(self).current_position as int).1,
            ),
    {
        let p = next_position(self.current_position);
        self.current_position = p;
        assert(self.stream@.len() == self.stream.tokens.len());
        if p >= self.stream.tokens.len() {
            return fail(p, ParseErrorKind::MissingToken);
        }
        let token = &self.stream.tokens[p];
        assert(self.stream@[p as int] == token@);
        if token.name != TokenName::Word {
            return fail(p, ParseErrorKind::ExpectedWord);
        }
        Ok(Node::new_constant(token.value.clone(), p))
    }

    /// Reads the bracketed list that follows the current token. Where
    /// `length` is given, the list must hold so many expressions.
    pub fn subparse_list_in_bracers(&mut self, length: Option<usize>) -> (nodes: Result<
        Vec<Node>,
        ParseError,
    >)
        ensures
            nodes_result(nodes) == list_in_bracers(
                old(self).stream@,
                old(self).current_position as int,
                length,
            ).0,
            final(self).moved(
                old(self),
                list_in_bracers(old(self).stream@, old(self).current_position as int, length).1,
            ),
    {
        let pos = self.current_position;
        assert(self.stream@.len() == self.stream.tokens.len());
        if pos >= self.stream.tokens.len() {
            return fail(pos, ParseErrorKind::MissingToken);
        }
        let start_token = &self.stream.tokens[pos];
        assert(self.stream@[pos as int] == start_token@);
        let (nodes, position) = parse_group(&self.stream, pos + 1, start_token.at, length);
        self.current_position = position;
        nodes
    }

    /// Reads the one expression in the brackets that follow the current
    /// token.
    pub fn subparse_one_in_bracers(&mut self) -> (node: Result<Node, ParseError>)
        ensures
            node_result(node) == one_in_bracers(
                old(self).stream@,
                old(self).current_position as int,
            ).0,
            final(self).moved(
                old(self),
                one_in_bracers(old(self).stream@, old(self).current_position as int).1,
            ),
    {
        match self.subparse_list_in_bracers(Some(1)) {
            Err(error) => Err(error),
            Ok(nodes) => {
                let mut nodes = nodes;
                assert(node_views(nodes@)[0] == nodes@[0]@);
                Ok(nodes.pop().unwrap())
            },
        }
    }

    /// Reads expressions from the current token up to the last position.
    pub fn subparse_expressions(&mut self) -> (nodes: Result<Vec<Node>, ParseError>)
        ensures
            nodes_result(nodes) == expressions(
                old(self).stream@,
                old(self).current_position as int,
                old(self).last_position as int,
                Seq::empty(),
            ).0,
            final(self).moved(
                old(self),
                expressions(
                    old(self).stream@,
                    old(self).current_position as int,
                    old(self).last_position as int,
                    Seq::empty(),
                ).1,
            ),
    {
        let list: Vec<Node> = Vec::new();
        assert(node_views(list@) =~= Seq::<NodeView>::empty());
        let (nodes, position) = parse_expressions(
            &self.stream,
            self.current_position,
            self.last_position,
            list,
        );
        self.current_position = position;
        nodes
    }

    /// Reads the statement that begins with the next token.
    pub fn subparse_node(&mut self) -> (node: Result<Node, ParseError>)
        ensures
            node_result(node) == statement(old(self).stream@, old(self).current_position as int).0,
            final(self).moved(
                old(self),
                statement(old(self).stream@, old(self).current_position as int).1,
            ),
    {
        let p = next_position(self.current_position);
        self.current_position = p;
        assert(self.stream@.len() == self.stream.tokens.len());
        if p >= self.stream.tokens.len() {
            return fail(p, ParseErrorKind::MissingToken);
        }
        let token = self.stream.tokens[p].clone();
        assert(self.stream@[p as int] == token@);
        if token.name != TokenName::Word {
            return fail(token.at, ParseErrorKind::ExpectedStatement);
        }
        let name = name_text(&token);
        match lookup(name.as_str()) {
            None => fail(token.at, ParseErrorKind::UnsupportedStatement),
            Some(kind) => parse_as(kind, token, self),
        }
    }

    /// Reads the declaration of a flow, which begins with the current token.
    #[verifier::loop_isolation(false)]
    pub fn subparse_flow_declaration(&mut self) -> (node: Result<Node, ParseError>)
        ensures
            node_result(node) == flow_declaration(
                old(self).stream@,
                old(self).current_position as int,
            ).0,
            final(self).moved(
                old(self),
                flow_declaration(old(self).stream@, old(self).current_position as int).1,
            ),
            node is Ok ==> final(self).current_position >= old(self).current_position,
            node is Ok ==> final(self).current_position < old(self).stream@.len(),
    {
        let pos = self.current_position;
        let ghost tokens = self.stream@;
        assert(tokens.len() == self.stream.tokens.len());
        if pos >= self.stream.tokens.len() {
            return fail(pos, ParseErrorKind::MissingToken);
        }
        let token = self.stream.tokens[pos].clone();
        assert(tokens[pos as int] == token@);
        if token.name != TokenName::Word || !token.starts_with("#") {
            return fail(pos, ParseErrorKind::ExpectedFlowDeclaration);
        }
        if pos + 1 >= self.stream.tokens.len() {
            return fail(pos + 1, ParseErrorKind::MissingToken);
        }
        let next_token = &self.stream.tokens[pos + 1];
        assert(tokens[pos + 1] == next_token@);
        if next_token.name != TokenName::Bracket {
            return fail(next_token.at, ParseErrorKind::ExpectedBracket);
        }
        let mut list = match self.subparse_list_in_bracers(None) {
            Err(error) => {
                return Err(error);
            },
            Ok(parameters) => parameters,
        };
        let ghost parameters = node_views(list@);
        let ghost p1 = self.current_position;
        proof {
            lemma_group_advances(tokens, pos + 1, tokens[pos as int].at, None);
        }
        let return_type = match self.subparse_word() {
            Err(error) => {
                return Err(error);
            },
            Ok(node) => node,
        };
        list.push(return_type);
        assert(node_views(list@) =~= parameters.push(return_type@));
        let ghost p2 = self.current_position;
        let ghost children = node_views(list@);
        loop
            invariant
                self.moved(old(self), self.current_position as int),
                tokens == old(self).stream@,
                pos <= self.current_position < tokens.len(),
                statements(tokens, p2 as int, children) == statements(
                    tokens,
                    self.current_position as int,
                    node_views(list@),
                ),
            decreases tokens.len() - self.current_position,
        {
            let here = self.current_position;
            if here + 1 >= self.stream.tokens.len() {
                break ;
            }
            let next_token = &self.stream.tokens[here + 1];
            assert(tokens[here + 1] == next_token@);
            if next_token.starts_with("#") {
                break ;
            }
            let ghost before = node_views(list@);
            match self.subparse_node() {
                Err(error) => {
                    return Err(error);
                },
                Ok(node) => {
                    list.push(node);
                    assert(node_views(list@) =~= before.push(node@));
                    proof {
                        lemma_statement_advances(tokens, here as int);
                    }
                },
            }
        }
        Ok(Node::new_flow_declaration(name_text(&token), list, token.at))
    }

    /// Reads a program: flow declarations up to the end of the stream.
    #[verifier::loop_isolation(false)]
    pub fn parse_program(&mut self) -> (node: Result<Node, ParseError>)
        ensures
            node_result(node) == program(
                old(self).stream@,
                old(self).current_position as int,
                Seq::empty(),
            ).0,
            final(self).moved(
                old(self),
                program(old(self).stream@, old(self).current_position as int, Seq::empty()).1,
            ),
    {
        let mut list: Vec<Node> = Vec::new();
        let ghost tokens = self.stream@;
        let ghost start = self.current_position;
        assert(tokens.len() == self.stream.tokens.len());
        assert(node_views(list@) =~= Seq::<NodeView>::empty());
        loop
            invariant
                self.moved(old(self), self.current_position as int),
                tokens == old(self).stream@,
                program(tokens, start as int, Seq::empty()) == program(
                    tokens,
                    self.current_position as int,
                    node_views(list@),
                ),
            decreases tokens.len() - self.current_position,
        {
            if self.current_position >= self.stream.tokens.len() {
                break ;
            }
            let ghost before = node_views(list@);
            match self.subparse_flow_declaration() {
                Err(error) => {
                    return Err(error);
                },
                Ok(node) => {
                    list.push(node);
                    assert(node_views(list@) =~= before.push(node@));
                },
            }
            self.current_position += 1;
        }
        Ok(Node::new_program(list))
    }
}

/// A bracketed list that parses ends at or after its opening bracket, on a
/// token of the stream.
pub proof fn lemma_group_advances(
    tokens: Seq<TokenView>,
    q: int,
    start_at: usize,
    length: Option<usize>,
)
    ensures
        group(tokens, q, start_at, length).0 is Ok ==> q <= group(tokens, q, start_at, length).1
            < tokens.len(),
{
    if has_token(tokens, q) && tokens[q].name == TokenName::Bracket {
        crate::lexer::lemma_closing_from(tokens, q, q);
    }
}

/// A word with a sigil that parses stands on the token after the position.
pub proof fn lemma_sigil_word_advances(
    tokens: Seq<TokenView>,
    pos: int,
    sigil: Seq<char>,
    node_type: NodeType,
    kind: ParseErrorKind,
)
    requires
        0 <= pos,
        tokens.len() <= usize::MAX,
    ensures
        sigil_word(tokens, pos, sigil, node_type, kind).0 is Ok ==> pos < sigil_word(
            tokens,
            pos,
            sigil,
            node_type,
            kind,
        ).1 < tokens.len(),
{
}

/// A statement that parses ends after the position it was read from, on a
/// token of the stream.
pub proof fn lemma_statement_advances(tokens: Seq<TokenView>, pos: int)
    requires
        0 <= pos,
        tokens.len() <= usize::MAX,
    ensures
        statement(tokens, pos).0 is Ok ==> pos < statement(tokens, pos).1 < tokens.len(),
{
    let p = bump(pos);
    if has_token(tokens, p) && tokens[p].name == TokenName::Word {
        let token = tokens[p];
        match procedure_named(name_of(token)) {
            None => {},
            Some(kind) => {
                lemma_sigil_word_advances(
                    tokens,
                    p,
                    "#"@,
                    NodeType::FlowLink,
                    ParseErrorKind::ExpectedFlowLink,
                );
                let p1 = flow_link(tokens, p).1;
                lemma_group_advances(tokens, p1 + 1, tokens[p1].at, None);
                let p2 = list_in_bracers(tokens, p1, None).1;
                lemma_sigil_word_advances(
                    tokens,
                    p2,
                    "$"@,
                    NodeType::Variable,
                    ParseErrorKind::ExpectedVariable,
                );
                lemma_group_advances(tokens, p + 1, tokens[p].at, Some(1));
                let q1 = one_in_bracers(tokens, p).1;
                lemma_group_advances(tokens, q1 + 1, tokens[q1].at, Some(2));
                lemma_sigil_word_advances(
                    tokens,
                    q1,
                    "$"@,
                    NodeType::Variable,
                    ParseErrorKind::ExpectedVariable,
                );
                lemma_group_advances(tokens, p + 1, tokens[p].at, Some(4));
                let r1 = list_in_bracers(tokens, p, Some(4)).1;
                lemma_sigil_word_advances(
                    tokens,
                    r1,
                    "$"@,
                    NodeType::Variable,
                    ParseErrorKind::ExpectedVariable,
                );
            },
        }
    }
}

} // verus!
