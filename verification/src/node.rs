//! The nodes of the syntax tree.
//!
//! A node holds its kind, a text (an operator symbol, a name or the text of a
//! literal), its children in order, the offset of the token it came from, and
//! a priority that only the reduction of expressions reads.

use crate::text::{characters, joined, same_text};
use vstd::prelude::*;

verus! {

/// The kinds of node.
#[derive(PartialEq, Eq, Clone, Copy, Debug, Structural)]
pub enum NodeType {
    Operation,
    Constant,
    String,
    Float,
    Integer,
    Variable,
    FlowLink,
    FlowDeclaration,
    Program,
}

/// A node of the syntax tree.
#[derive(Debug, PartialEq)]
pub struct Node {
    pub node_type: NodeType,
    pub value: String,
    pub params: Vec<Node>,
    pub priority: usize,
    pub token_position: usize,
}

/// What a node is, mathematically.
pub struct NodeView {
    pub node_type: NodeType,
    pub value: Seq<char>,
    pub params: Seq<NodeView>,
    pub priority: usize,
    pub token_position: usize,
}

/// The priority of every node that is not a mathematical operator.
pub const DEFAULT_PRIORITY: usize = 4;

/// The highest priority that a node is created with.
pub const HIGHEST_PRIORITY: usize = 5;

/// What a node is, mathematically: the same tree, with texts and lists as
/// sequences.
pub open spec fn node_view(node: Node) -> NodeView
    decreases node,
{
    NodeView {
        node_type: node.node_type,
        value: node.value@,
        params: Seq::new(
            node.params@.len(),
            |i: int|
                if 0 <= i < node.params@.len() {
                    node_view(node.params@[i])
                } else {
                    arbitrary()
                },
        ),
        priority: node.priority,
        token_position: node.token_position,
    }
}

impl View for Node {
    type V = NodeView;

    open spec fn view(&self) -> NodeView {
        node_view(*self)
    }
}

/// The views of a sequence of nodes.
pub open spec fn node_views(nodes: Seq<Node>) -> Seq<NodeView> {
    Seq::new(nodes.len(), |i: int| nodes[i]@)
}

/// The children of a node's view are the views of its children.
pub proof fn lemma_params_view(node: Node)
    ensures
        node@.params == node_views(node.params@),
{
    assert(node@.params =~= node_views(node.params@));
}

/// Whether the text is one of the symbols `+ - * / > < = ^`.
pub open spec fn is_math_symbol(name: Seq<char>) -> bool {
    name == "+"@ || name == "-"@ || name == "*"@ || name == "/"@ || name == ">"@ || name == "<"@
        || name == "="@ || name == "^"@
}

/// The priority that an operation of this name is created with: `+` has 1,
/// `-` 2, `*` 3, `/` 4, the symbols `> < = ^` have 5, and every other name
/// has the default.
pub open spec fn rank_of(name: Seq<char>) -> usize {
    if name == "+"@ {
        1
    } else if name == "-"@ {
        2
    } else if name == "*"@ {
        3
    } else if name == "/"@ {
        4
    } else if is_math_symbol(name) {
        5
    } else {
        DEFAULT_PRIORITY
    }
}

/// A node without children and with the default priority.
pub open spec fn leaf(node_type: NodeType, value: Seq<char>, token_position: usize) -> NodeView {
    NodeView {
        node_type,
        value,
        params: Seq::empty(),
        priority: DEFAULT_PRIORITY,
        token_position,
    }
}

/// An operation node as it is created: its priority is the rank of its name.
pub open spec fn operation(name: Seq<char>, params: Seq<NodeView>, token_position: usize)
    -> NodeView {
    NodeView {
        node_type: NodeType::Operation,
        value: name,
        params,
        priority: rank_of(name),
        token_position,
    }
}

/// The node of a number literal: a float where the text holds a dot, an
/// integer where it holds none.
pub open spec fn number(value: Seq<char>, token_position: usize) -> NodeView {
    leaf(
        if value.contains('.') {
            NodeType::Float
        } else {
            NodeType::Integer
        },
        value,
        token_position,
    )
}

/// Whether the node is an operation named by one of the mathematical symbols.
pub open spec fn is_math(node: NodeView) -> bool {
    node.node_type == NodeType::Operation && is_math_symbol(node.value)
}

/// Whether the node is the call operator, an operation named `.`.
pub open spec fn is_call(node: NodeView) -> bool {
    node.node_type == NodeType::Operation && node.value == "."@
}

/// The priority of the operation named `name`.
fn rank(name: &str) -> (priority: usize)
    ensures
        priority == rank_of(name@),
{
    if same_text(name, "+") {
        1
    } else if same_text(name, "-") {
        2
    } else if same_text(name, "*") {
        3
    } else if same_text(name, "/") {
        4
    } else if same_text(name, ">") || same_text(name, "<") || same_text(name, "=") || same_text(
        name,
        "^",
    ) {
        5
    } else {
        DEFAULT_PRIORITY
    }
}

/// Copies of the nodes of a list.
pub fn copied(list: &Vec<Node>) -> (copies: Vec<Node>)
    ensures
        node_views(copies@) == node_views(list@),
{
    let mut copies: Vec<Node> = Vec::new();
    let mut i: usize = 0;
    while i < list.len()
        invariant
            i <= list.len(),
            copies@.len() == i,
            forall|k: int| 0 <= k < i ==> copies@[k]@ == list@[k]@,
        decreases list.len() - i,
    {
        copies.push(list[i].clone());
        i += 1;
    }
    assert(node_views(copies@) =~= node_views(list@));
    copies
}

impl Clone for Node {
    fn clone(&self) -> (copy: Self)
        ensures
            copy@ == self@,
        decreases self,
    {
        let mut params: Vec<Node> = Vec::new();
        let mut i: usize = 0;
        while i < self.params.len()
            invariant
                i <= self.params.len(),
                params@.len() == i,
                forall|k: int| 0 <= k < i ==> params@[k]@ == self.params@[k]@,
            decreases self.params.len() - i,
        {
            assert(decreases_to!(*self => self.params));
            assert(decreases_to!(self.params => self.params[i as int]));
            let child = self.params[i].clone();
            params.push(child);
            i += 1;
        }
        let copy = Node {
            node_type: self.node_type,
            value: self.value.clone(),
            params,
            priority: self.priority,
            token_position: self.token_position,
        };
        assert(copy@.params =~= self@.params);
        copy
    }
}

impl Node {
    /// The root of a program, over its flow declarations.
    pub fn new_program(params: Vec<Node>) -> (node: Node)
        ensures
            node@ == (NodeView {
                node_type: NodeType::Program,
                value: "root"@,
                params: node_views(params@),
                priority: DEFAULT_PRIORITY,
                token_position: 0,
            }),
    {
        let node = Node {
            node_type: NodeType::Program,
            value: "root".to_owned(),
            params,
            priority: DEFAULT_PRIORITY,
            token_position: 0,
        };
        proof {
            lemma_params_view(node);
        }
        node
    }

    /// A bare word.
    pub fn new_constant(value: String, token_position: usize) -> (node: Node)
        ensures
            node@ == leaf(NodeType::Constant, value@, token_position),
    {
        Node::new_leaf(NodeType::Constant, value, token_position)
    }

    /// An operation over its operands. A mathematical operator gets the
    /// priority of its symbol, any other operation the default.
    pub fn new_operation(operation: String, params: Vec<Node>, token_position: usize) -> (node:
        Node)
        ensures
            node@ == self::operation(operation@, node_views(params@), token_position),
    {
        let priority = rank(operation.as_str());
        let node = Node {
            node_type: NodeType::Operation,
            value: operation,
            params,
            priority,
            token_position,
        };
        proof {
            lemma_params_view(node);
        }
        node
    }

    /// A number literal: a float where the text holds a dot, an integer
    /// where it holds none.
    pub fn new_number(value: String, token_position: usize) -> (node: Node)
        ensures
            node@ == number(value@, token_position),
    {
        let chars = characters(value.as_str());
        let mut dotted = false;
        let mut i: usize = 0;
        while i < chars.len()
            invariant
                i <= chars.len(),
                chars@ == value@,
                dotted <==> exists|k: int| 0 <= k < i && chars@[k] == '.',
            decreases chars.len() - i,
        {
            if chars[i] == '.' {
                dotted = true;
            }
            i += 1;
        }
        Node::new_leaf(
            if dotted {
                NodeType::Float
            } else {
                NodeType::Integer
            },
            value,
            token_position,
        )
    }

    /// A text literal.
    pub fn new_string(value: String, token_position: usize) -> (node: Node)
        ensures
            node@ == leaf(NodeType::String, value@, token_position),
    {
        Node::new_leaf(NodeType::String, value, token_position)
    }

    /// The declaration of a flow: its parameters, the word for its return
    /// type, then its statements.
    pub fn new_flow_declaration(value: String, params: Vec<Node>, token_position: usize) -> (node:
        Node)
        ensures
            node@ == (NodeView {
                node_type: NodeType::FlowDeclaration,
                value: value@,
                params: node_views(params@),
                priority: DEFAULT_PRIORITY,
                token_position,
            }),
    {
        let node = Node {
            node_type: NodeType::FlowDeclaration,
            value,
            params,
            priority: DEFAULT_PRIORITY,
            token_position,
        };
        proof {
            lemma_params_view(node);
        }
        node
    }

    /// A reference to a flow.
    pub fn new_flow_link(value: String, token_position: usize) -> (node: Node)
        ensures
            node@ == leaf(NodeType::FlowLink, value@, token_position),
    {
        Node::new_leaf(NodeType::FlowLink, value, token_position)
    }

    /// A reference to a variable.
    pub fn new_variable(value: String, token_position: usize) -> (node: Node)
        ensures
            node@ == leaf(NodeType::Variable, value@, token_position),
    {
        Node::new_leaf(NodeType::Variable, value, token_position)
    }

    fn new_leaf(node_type: NodeType, value: String, token_position: usize) -> (node: Node)
        ensures
            node@ == leaf(node_type, value@, token_position),
    {
        let node = Node {
            node_type,
            value,
            params: Vec::new(),
            priority: DEFAULT_PRIORITY,
            token_position,
        };
        proof {
            lemma_params_view(node);
            assert(node_views(node.params@) =~= Seq::<NodeView>::empty());
        }
        node
    }

    /// The same node with another priority.
    pub fn clone_with_priority(self, priority: usize) -> (node: Node)
        ensures
            node@ == (NodeView { priority, ..self@ }),
    {
        let node = Node {
            node_type: self.node_type,
            value: self.value,
            params: self.params,
            priority,
            token_position: self.token_position,
        };
        proof {
            lemma_params_view(node);
            lemma_params_view(self);
        }
        node
    }

    /// The priority of the node.
    pub fn get_priority(&self) -> (priority: usize)
        ensures
            priority == self@.priority,
    {
        self.priority
    }

    /// Puts a node among the children, before the child of index `offset`.
    pub fn set_sub_node(&mut self, offset: usize, node: Node)
        requires
            offset <= old(self)@.params.len(),
        ensures
            final(self)@ == (NodeView {
                params: old(self)@.params.insert(offset as int, node@),
                ..old(self)@
            }),
    {
        proof {
            lemma_params_view(*self);
        }
        self.params.insert(offset, node);
        proof {
            lemma_params_view(*self);
            assert(node_views(self.params@) =~= node_views(old(self).params@).insert(
                offset as int,
                node@,
            ));
        }
    }

    /// Makes a node the only child.
    pub fn set_only_child(&mut self, node: Node)
        ensures
            final(self)@ == (NodeView { params: seq![node@], ..old(self)@ }),
    {
        let mut params: Vec<Node> = Vec::new();
        params.push(node);
        self.params = params;
        proof {
            lemma_params_view(*self);
            assert(node_views(self.params@) =~= seq![node@]);
        }
    }

    /// Sets the priority to zero, so that no later pass reduces the node.
    pub fn deprioritize(&mut self)
        ensures
            final(self)@ == (NodeView { priority: 0, ..old(self)@ }),
    {
        proof {
            lemma_params_view(*self);
        }
        self.priority = 0;
        proof {
            lemma_params_view(*self);
        }
    }

    /// Whether the node is an operation named by one of the symbols
    /// `+ - * / > < = ^`.
    pub fn is_mathematical_operation(&self) -> (answer: bool)
        ensures
            answer == is_math(self@),
    {
        if self.node_type != NodeType::Operation {
            return false;
        }
        let name = self.value.as_str();
        same_text(name, "+") || same_text(name, "-") || same_text(name, "*") || same_text(name, "/")
            || same_text(name, ">") || same_text(name, "<") || same_text(name, "=") || same_text(
            name,
            "^",
        )
    }

    /// Whether the node is not the call operator.
    pub fn is_not_call_operation(&self) -> (answer: bool)
        ensures
            answer == !is_call(self@),
    {
        !self.is_call_operation()
    }

    /// Whether the node is the call operator, an operation named `.`.
    pub fn is_call_operation(&self) -> (answer: bool)
        ensures
            answer == is_call(self@),
    {
        if self.node_type != NodeType::Operation {
            return false;
        }
        same_text(self.value.as_str(), ".")
    }

    /// Whether the node can take a sign: a function or a number.
    pub fn is_negatable(&self) -> (answer: bool)
        ensures
            answer == ((self@.node_type == NodeType::Operation && !is_math(self@) && !is_call(
                self@,
            )) || self@.node_type == NodeType::Integer || self@.node_type == NodeType::Float),
    {
        self.is_function() || self.is_number()
    }

    /// Whether the node is an operation that is neither a mathematical
    /// operator nor the call operator.
    pub fn is_function(&self) -> (answer: bool)
        ensures
            answer == (self@.node_type == NodeType::Operation && !is_math(self@) && !is_call(self@)),
    {
        self.node_type == NodeType::Operation && !self.is_mathematical_operation()
            && !self.is_call_operation()
    }

    /// Whether the node is a number literal.
    pub fn is_number(&self) -> (answer: bool)
        ensures
            answer == (self@.node_type == NodeType::Integer || self@.node_type == NodeType::Float),
    {
        self.node_type == NodeType::Integer || self.node_type == NodeType::Float
    }

    /// Whether the node is the operation `+` or the operation `-`.
    pub fn is_minus_or_plus(&self) -> (answer: bool)
        ensures
            answer == (self@.node_type == NodeType::Operation && (self@.value == "+"@
                || self@.value == "-"@)),
    {
        self.node_type == NodeType::Operation && (same_text(self.value.as_str(), "+") || same_text(
            self.value.as_str(),
            "-",
        ))
    }

    /// Whether the node refers to a flow.
    pub fn is_flow_link(&self) -> (answer: bool)
        ensures
            answer == (self@.node_type == NodeType::FlowLink),
    {
        self.node_type == NodeType::FlowLink
    }
}

/// The indentation of a line at depth `indent`: four spaces for each level.
pub open spec fn indentation(indent: nat) -> Seq<char>
    decreases indent,
{
    if indent == 0 {
        Seq::empty()
    } else {
        indentation((indent - 1) as nat) + "    "@
    }
}

/// The lines of the first `n` children, each child after `prefix` and a
/// branch sign, its own children one level deeper.
pub open spec fn branches(children: Seq<NodeView>, prefix: Seq<char>, n: nat) -> Seq<char>
    decreases children, n,
{
    if n == 0 || n > children.len() {
        Seq::empty()
    } else {
        branches(children, prefix, (n - 1) as nat) + prefix + "└── "@ + formatted(
            children[n - 1],
            prefix + "    "@,
        )
    }
}

/// The tree of a node as a text: the value of the node on a line, then the
/// lines of its children, indented by `prefix`.
pub open spec fn formatted(node: NodeView, prefix: Seq<char>) -> Seq<char>
    decreases node, 0nat,
{
    node.value + "\n"@ + branches(node.params, prefix, node.params.len())
}

impl Node {
    fn format_under(&self, prefix: &str) -> (text: String)
        ensures
            text@ == formatted(self@, prefix@),
        decreases self,
    {
        let mut text = self.value.clone();
        text.append("\n");
        let deeper = joined(prefix, "    ");
        let mut i: usize = 0;
        proof {
            lemma_params_view(*self);
        }
        while i < self.params.len()
            invariant
                i <= self.params.len(),
                self@.params == node_views(self.params@),
                deeper@ == prefix@ + "    "@,
                text@ == self@.value + "\n"@ + branches(self@.params, prefix@, i as nat),
            decreases self.params.len() - i,
        {
            assert(decreases_to!(*self => self.params));
            assert(decreases_to!(self.params => self.params[i as int]));
            let below = self.params[i].format_under(deeper.as_str());
            assert(self@.params[i as int] == self.params@[i as int]@);
            text.append(prefix);
            text.append("└── ");
            text.append(below.as_str());
            i += 1;
            assert(text@ =~= self@.value + "\n"@ + branches(self@.params, prefix@, i as nat));
        }
        text
    }

    /// The tree of the node as a text, for a node at depth `indent`.
    pub fn format(&self, indent: usize) -> (text: String)
        ensures
            text@ == formatted(self@, indentation(indent as nat)),
    {
        let mut prefix = String::new();
        let mut i: usize = 0;
        while i < indent
            invariant
                i <= indent,
                prefix@ == indentation(i as nat),
            decreases indent - i,
        {
            prefix.append("    ");
            i += 1;
        }
        self.format_under(prefix.as_str())
    }
}

} // verus!
