//! The reduction of a flat list of nodes to expression trees.
//!
//! The list is scanned from left to right once for each priority, from the
//! highest down. A node of the priority of the pass loses its priority and,
//! if it is an operator between two neighbours, is folded with them into one
//! operation node. A node of priority zero is never reduced.

use crate::node::{
    is_call, is_math, node_views, lemma_params_view, Node, NodeType, NodeView, HIGHEST_PRIORITY,
};
use vstd::prelude::*;

verus! {

/// The node with its priority set to zero.
pub open spec fn deprioritized(node: NodeView) -> NodeView {
    NodeView { priority: 0, ..node }
}

/// Whether the node of index `i` has a neighbour on each side.
pub open spec fn has_window(list: Seq<NodeView>, i: int) -> bool {
    1 <= i && i + 1 < list.len()
}

/// The list with the three nodes around index `i` replaced by one node.
pub open spec fn spliced(list: Seq<NodeView>, i: int, node: NodeView) -> Seq<NodeView> {
    list.subrange(0, i - 1).push(node) + list.subrange(i + 2, list.len() as int)
}

/// The operation that a mathematical operator makes of its neighbours: it is
/// named by the operator's symbol and holds the left and the right operand.
pub open spec fn math_node(list: Seq<NodeView>, i: int) -> NodeView {
    NodeView {
        node_type: NodeType::Operation,
        value: list[i].value,
        params: seq![list[i - 1], list[i + 1]],
        priority: 0,
        token_position: list[i].token_position,
    }
}

/// The operation that the call operator makes of its neighbours: it is named
/// by the method on its right and holds the receiver on its left.
pub open spec fn call_node(list: Seq<NodeView>, i: int) -> NodeView {
    NodeView {
        node_type: NodeType::Operation,
        value: list[i + 1].value,
        params: seq![list[i - 1]],
        priority: 0,
        token_position: list[i].token_position,
    }
}

/// The fold of a mathematical operator at index `i`, where there is one
/// between two neighbours.
pub open spec fn math_fold(list: Seq<NodeView>, i: int) -> Option<Seq<NodeView>> {
    if has_window(list, i) && is_math(list[i]) {
        Some(spliced(list, i, math_node(list, i)))
    } else {
        None
    }
}

/// The fold of the call operator at index `i`, where there is one between
/// two neighbours.
pub open spec fn call_fold(list: Seq<NodeView>, i: int) -> Option<Seq<NodeView>> {
    if has_window(list, i) && is_call(list[i]) {
        Some(spliced(list, i, call_node(list, i)))
    } else {
        None
    }
}

/// The first fold that applies at index `i`: the mathematical one, else the
/// call.
pub open spec fn fold_at(list: Seq<NodeView>, i: int) -> Option<Seq<NodeView>> {
    match math_fold(list, i) {
        Some(shorter) => Some(shorter),
        None => call_fold(list, i),
    }
}

/// The passes for the priorities from `target` down, the pass for `target`
/// taken up at index `i`.
///
/// After a fold the scan goes on with the node that followed the folded
/// three, so operators of one priority bind from left to right.
pub open spec fn pass(list: Seq<NodeView>, target: int, i: int) -> Seq<NodeView>
    decreases target, list.len() - i,
{
    if target <= 0 {
        list
    } else if i < 0 || i >= list.len() {
        pass(list, target - 1, 0)
    } else if list[i].priority != target {
        pass(list, target, i + 1)
    } else {
        let marked = list.update(i, deprioritized(list[i]));
        match fold_at(marked, i) {
            Some(shorter) => pass(shorter, target, i),
            None => pass(marked, target, i + 1),
        }
    }
}

/// The list reduced by the passes of all priorities.
pub open spec fn prioritize(list: Seq<NodeView>) -> Seq<NodeView> {
    pass(list, HIGHEST_PRIORITY as int, 0)
}

/// Folds the three nodes around index `pointer` into one operation.
fn splice(list: &mut Vec<Node>, pointer: usize, call: bool)
    requires
        has_window(node_views(old(list)@), pointer as int),
    ensures
        node_views(final(list)@) == spliced(
            node_views(old(list)@),
            pointer as int,
            if call {
                call_node(node_views(old(list)@), pointer as int)
            } else {
                math_node(node_views(old(list)@), pointer as int)
            },
        ),
{
    let ghost before = node_views(list@);
    assert(before.len() == list.len());
    let right = list.remove(pointer + 1);
    let operator = list.remove(pointer);
    let left = list.remove(pointer - 1);
    let mut params: Vec<Node> = Vec::new();
    params.push(left);
    let value = if call {
        right.value
    } else {
        params.push(right);
        operator.value
    };
    let node = Node {
        node_type: NodeType::Operation,
        value,
        params,
        priority: 0,
        token_position: operator.token_position,
    };
    proof {
        lemma_params_view(node);
        assert(node@.params =~= if call {
            seq![before[pointer - 1]]
        } else {
            seq![before[pointer - 1], before[pointer + 1]]
        });
    }
    list.insert(pointer - 1, node);
    assert(node_views(list@) =~= spliced(before, pointer as int, node@));
}

/// Folds the mathematical operator at index `pointer` with its neighbours:
/// the three nodes become one operation, named by the operator's symbol, over
/// the left and the right operand. Where the list holds no mathematical
/// operator between two neighbours there, the answer is `None`.
pub fn math_operations(list: Vec<Node>, pointer: usize) -> (folded: Option<Vec<Node>>)
    ensures
        match math_fold(node_views(list@), pointer as int) {
            Some(shorter) => folded is Some && node_views(folded.unwrap()@) == shorter,
            None => folded is None,
        },
{
    if pointer < 1 || list.len() < 2 || pointer > list.len() - 2 {
        return None;
    }
    assert(node_views(list@)[pointer as int] == list@[pointer as int]@);
    if !list[pointer].is_mathematical_operation() {
        return None;
    }
    let mut list = list;
    splice(&mut list, pointer, false);
    Some(list)
}

/// Folds the call operator at index `pointer` with its neighbours: the three
/// nodes become one operation, named by the method on the right, over the
/// receiver on the left. Where the list holds no call operator between two
/// neighbours there, the answer is `None`.
pub fn function_call(list: Vec<Node>, pointer: usize) -> (folded: Option<Vec<Node>>)
    ensures
        match call_fold(node_views(list@), pointer as int) {
            Some(shorter) => folded is Some && node_views(folded.unwrap()@) == shorter,
            None => folded is None,
        },
{
    if pointer < 1 || list.len() < 2 || pointer > list.len() - 2 {
        return None;
    }
    assert(node_views(list@)[pointer as int] == list@[pointer as int]@);
    if !list[pointer].is_call_operation() {
        return None;
    }
    let mut list = list;
    splice(&mut list, pointer, true);
    Some(list)
}

/// Reduces a flat list of nodes by the passes of all priorities.
pub fn prioritize_nodes(input_list: Vec<Node>) -> (list: Vec<Node>)
    ensures
        node_views(list@) == prioritize(node_views(input_list@)),
{
    let mut list = input_list;
    let mut target_priority: usize = HIGHEST_PRIORITY;
    let mut pointer: usize = 0;
    while target_priority > 0
        invariant
            prioritize(node_views(input_list@)) == pass(
                node_views(list@),
                target_priority as int,
                pointer as int,
            ),
        decreases target_priority, list.len() - pointer,
    {
        if pointer >= list.len() {
            pointer = 0;
            target_priority -= 1;
            continue ;
        }
        let ghost before = node_views(list@);
        assert(before[pointer as int] == list@[pointer as int]@);
        if list[pointer].get_priority() != target_priority {
            pointer += 1;
            continue ;
        }
        let mut current = list.remove(pointer);
        current.deprioritize();
        let math = current.is_mathematical_operation();
        let call = current.is_call_operation();
        list.insert(pointer, current);
        assert(node_views(list@) =~= before.update(
            pointer as int,
            deprioritized(before[pointer as int]),
        ));
        if pointer >= 1 && list.len() >= 2 && pointer <= list.len() - 2 && (math || call) {
            let ghost longer = node_views(list@);
            assert(longer.len() == list@.len());
            splice(&mut list, pointer, !math);
            assert(node_views(list@).len() == list@.len());
            assert(node_views(list@).len() == longer.len() - 2);
        } else {
            pointer += 1;
        }
    }
    list
}

} // verus!
