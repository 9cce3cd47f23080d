//! What holds of every overlay, proved from the definitions.

use crate::field::{BasicView, LeafView, NodeView};
use crate::merkle_tree_overlay::{length_basic, spec_replace_index, BasicType, Overlay};
use crate::ident::decimal;
use crate::tree_arithmetic::zeroed::{
    lemma_depth_monotonic, lemma_depth_unique, lemma_subtree_bounds, lemma_subtree_index_to_general,
    spec_depth, spec_general_index_to_subtree, spec_relative_depth, spec_root_from_depth,
    spec_subtree_index_to_general,
};
use crate::tree_arithmetic::{lemma_pow2_monotonic, spec_next_power_of_two};
use crate::BYTES_PER_CHUNK;
use vstd::arithmetic::power2::{lemma2_to64, lemma_pow2_pos, lemma_pow2_unfold, pow2};
use vstd::prelude::*;

verus! {

/// Every index that `node` carries is `index`.
pub open spec fn carries_index(node: NodeView, index: nat) -> bool {
    match node {
        NodeView::Composite(c) => c.index == index,
        NodeView::Intermediate(i) => i == index,
        NodeView::Leaf(LeafView::Basic(items)) => forall|i: int|
            0 <= i < items.len() ==> (#[trigger] items[i]).index == index,
        NodeView::Leaf(LeafView::Length(b)) => b.index == index,
        NodeView::Leaf(LeafView::Padding) => true,
        NodeView::Unattached(i) => i == index,
    }
}

impl Overlay {
    /// The largest index at which the type has a node: for a list, the
    /// length leaf, or what lies deepest below its last data leaf.
    pub open spec fn spec_deepest_index(&self) -> nat
        decreases self,
    {
        match self {
            Overlay::Basic(_) => 0,
            Overlay::VariableList { element, capacity } => {
                let below_last_leaf = spec_subtree_index_to_general(
                    self.spec_last_leaf(),
                    element.spec_deepest_index(),
                );
                if below_last_leaf < 2 {
                    2
                } else {
                    below_last_leaf
                }
            },
        }
    }
}

/// A scalar is a tree of one leaf: its height is zero, its only leaf is its
/// root, where one descriptor gives its byte width at offset zero, and no
/// other index has a node.
pub proof fn lemma_basic_overlay(basic: BasicType, index: nat)
    ensures
        Overlay::Basic(basic).spec_height() == 0,
        Overlay::Basic(basic).spec_first_leaf() == 0,
        Overlay::Basic(basic).spec_last_leaf() == 0,
        Overlay::Basic(basic).spec_get_node(0) == NodeView::Leaf(
            LeafView::Basic(
                seq![
                    BasicView { ident: ""@, index: 0, size: basic.spec_bit_width() / 8, offset: 0 },
                ],
            ),
        ),
        index != 0 ==> Overlay::Basic(basic).spec_get_node(index) == NodeView::Unattached(index),
{
}

/// The root of every type is either one scalar leaf or the root of a list:
/// what a list needs to know of its element to describe its own leaves.
pub proof fn lemma_root_node(overlay: Overlay)
    ensures
        match overlay {
            Overlay::Basic(basic) => overlay.spec_get_node(0) matches NodeView::Leaf(
                LeafView::Basic(items),
            ) && items.len() == 1 && items[0].size == basic.spec_byte_width(),
            Overlay::VariableList { .. } => overlay.spec_get_node(0) matches NodeView::Composite(c)
                && c.height == overlay.spec_height(),
        },
{
}

/// The leaves of a list lie side by side on the lowest level of its tree, and
/// there are as many of them as the capacity rounded up to a power of two.
pub proof fn lemma_leaf_range(list: Overlay)
    requires
        list is VariableList,
    ensures
        list.spec_first_leaf() <= list.spec_last_leaf(),
        list.spec_last_leaf() - list.spec_first_leaf() + 1 == spec_next_power_of_two(
            list->capacity as nat,
        ),
        spec_depth(list.spec_first_leaf()) == list.spec_height(),
        spec_depth(list.spec_last_leaf()) == list.spec_height(),
        list.spec_first_leaf() >= 1,
{
    let h = list.spec_height();
    lemma_pow2_unfold(h);
    lemma_pow2_pos((h - 1) as nat);
    lemma_depth_unique(list.spec_first_leaf(), h);
    lemma_depth_unique(list.spec_last_leaf(), h);
}

/// The shape of a list depends on nothing but its capacity.
pub proof fn lemma_shape_depends_on_capacity(a: Overlay, b: Overlay)
    requires
        a is VariableList,
        b is VariableList,
        a->capacity == b->capacity,
    ensures
        a.spec_height() == b.spec_height(),
        a.spec_first_leaf() == b.spec_first_leaf(),
        a.spec_last_leaf() == b.spec_last_leaf(),
{
}

/// A leaf of a list of two or more scalars holds as many of them as fit into
/// one chunk, one after the other, so the leaves together have room for that
/// many times the rounded capacity.
pub proof fn lemma_packed_leaf(list: Overlay, index: nat)
    requires
        list matches Overlay::VariableList { element, capacity } && *element is Basic && capacity
            >= 2,
        list.spec_first_leaf() <= index <= list.spec_last_leaf(),
    ensures
        list.spec_get_node(index) matches NodeView::Leaf(LeafView::Basic(items)) && {
            let size = list->element->Basic_0.spec_byte_width();
            let items_per_chunk = BYTES_PER_CHUNK as nat / size;
            &&& items.len() == items_per_chunk
            &&& items_per_chunk * size == BYTES_PER_CHUNK
            &&& forall|i: int|
                0 <= i < items_per_chunk ==> {
                    &&& (#[trigger] items[i]).ident == decimal(
                        ((index - list.spec_first_leaf()) * items_per_chunk + i) as nat,
                    )
                    &&& items[i].index == index
                    &&& items[i].size == size
                    &&& items[i].offset == i * size
                }
        },
{
    lemma_pow2_unfold(list.spec_height());
    lemma_pow2_unfold((list.spec_height() - 1) as nat);
    lemma_pow2_pos((list.spec_height() - 2) as nat);
    list->element->Basic_0.lemma_byte_width_divides_chunk();
}

/// `a` and `b` are nodes of the same kind that agree in all but the indices
/// they carry: in name, height, size, offset and the number of scalars.
pub open spec fn same_but_for_index(a: NodeView, b: NodeView) -> bool {
    match (a, b) {
        (NodeView::Composite(x), NodeView::Composite(y)) => x.ident == y.ident && x.height
            == y.height,
        (NodeView::Intermediate(_), NodeView::Intermediate(_)) => true,
        (NodeView::Leaf(LeafView::Basic(xs)), NodeView::Leaf(LeafView::Basic(ys))) => {
            &&& xs.len() == ys.len()
            &&& forall|i: int|
                0 <= i < xs.len() ==> {
                    &&& (#[trigger] xs[i]).ident == ys[i].ident
                    &&& xs[i].size == ys[i].size
                    &&& xs[i].offset == ys[i].offset
                }
        },
        (NodeView::Leaf(LeafView::Length(x)), NodeView::Leaf(LeafView::Length(y))) => {
            &&& x.ident == y.ident
            &&& x.size == y.size
            &&& x.offset == y.offset
        },
        (NodeView::Leaf(LeafView::Padding), NodeView::Leaf(LeafView::Padding)) => true,
        (NodeView::Unattached(_), NodeView::Unattached(_)) => true,
        _ => false,
    }
}

/// Changing the index of a node gives a node that carries the new index.
pub proof fn lemma_replace_index_carries(node: NodeView, index: nat)
    ensures
        carries_index(spec_replace_index(node, index), index),
        node is Unattached <==> spec_replace_index(node, index) is Unattached,
{
}

/// Changing the index of a node changes nothing else: the result is a node
/// of the same kind with the same names, heights, sizes and offsets, and a
/// node that carries the index already comes back as it was.
pub proof fn lemma_replace_index_changes_only_index(node: NodeView, index: nat)
    ensures
        same_but_for_index(node, spec_replace_index(node, index)),
        carries_index(node, index) ==> spec_replace_index(node, index) == node,
{
    if carries_index(node, index) {
        if let NodeView::Leaf(LeafView::Basic(items)) = node {
            assert(spec_replace_index(node, index)->Leaf_0->Basic_0 =~= items);
        }
    }
}

/// The node found at an index carries that index, however many lists the
/// index was re-based through on the way.
pub proof fn lemma_node_carries_index(overlay: Overlay, index: nat)
    ensures
        carries_index(overlay.spec_get_node(index), index),
    decreases overlay,
{
    match overlay {
        Overlay::Basic(_) => {},
        Overlay::VariableList { element, capacity } => {
            let first_leaf = overlay.spec_first_leaf();
            let subtree_root = spec_root_from_depth(index, spec_relative_depth(first_leaf, index));
            lemma_replace_index_carries(
                element.spec_get_node(spec_general_index_to_subtree(subtree_root, index)),
                index,
            );
        },
    }
}

/// Index `2` of a list is its length leaf, whatever the list holds.
pub proof fn lemma_length_leaf(list: Overlay)
    requires
        list is VariableList,
    ensures
        list.spec_get_node(2) == NodeView::Leaf(LeafView::Length(length_basic(2))),
{
}

/// A data leaf is the root of its element's tree: re-basing the leaf's own
/// index gives the element's root, and the element's root maps back to the
/// leaf.
pub proof fn lemma_leaf_is_element_root(leaf: nat)
    ensures
        spec_general_index_to_subtree(leaf, leaf) == 0,
        spec_subtree_index_to_general(leaf, 0) == leaf,
{
    lemma2_to64();
    assert(leaf * 1 == leaf) by (nonlinear_arith);
}

/// Below a data leaf a list shows its element's tree: the node that has index
/// `local` in the element is found at the matching index of the list, and
/// differs only in the index it carries.
pub proof fn lemma_element_subtree(list: Overlay, leaf: nat, local: nat)
    requires
        list is VariableList,
        list.spec_first_leaf() <= leaf <= list.spec_last_leaf(),
        local >= 1,
    ensures
        list.spec_get_node(spec_subtree_index_to_general(leaf, local)) == spec_replace_index(
            list->element.spec_get_node(local),
            spec_subtree_index_to_general(leaf, local),
        ),
{
    let index = spec_subtree_index_to_general(leaf, local);
    lemma_leaf_range(list);
    lemma_subtree_index_to_general(leaf, local);
    lemma_depth_monotonic(list.spec_first_leaf(), leaf);
    lemma_depth_monotonic(leaf, list.spec_last_leaf());
    if index <= list.spec_last_leaf() {
        lemma_depth_monotonic(index, list.spec_last_leaf());
    }
}

/// Below each data leaf of a list of lists, at the right child of the leaf,
/// lies the length leaf of the list that the leaf stands for.
pub proof fn lemma_nested_length_leaf(list: Overlay, leaf: nat)
    requires
        list matches Overlay::VariableList { element, .. } && *element is VariableList,
        list.spec_first_leaf() <= leaf <= list.spec_last_leaf(),
    ensures
        list.spec_get_node(2 * leaf + 2) == NodeView::Leaf(
            LeafView::Length(length_basic(2 * leaf + 2)),
        ),
{
    assert(spec_depth(2) == 1) by {
        reveal_with_fuel(spec_depth, 3);
    }
    assert(leaf * pow2(1) == 2 * leaf) by {
        lemma2_to64();
    }
    lemma_element_subtree(list, leaf, 2);
}

/// No node lies beyond the deepest one: every larger index is unattached.
pub proof fn lemma_beyond_deepest_is_unattached(overlay: Overlay, index: nat)
    requires
        index > overlay.spec_deepest_index(),
    ensures
        overlay.spec_get_node(index) == NodeView::Unattached(index),
    decreases overlay,
{
    match overlay {
        Overlay::Basic(_) => {},
        Overlay::VariableList { element, capacity } => {
            let first_leaf = overlay.spec_first_leaf();
            let last_leaf = overlay.spec_last_leaf();
            let deepest = element.spec_deepest_index();
            lemma_leaf_range(overlay);
            lemma_pow2_pos(spec_depth(deepest));
            assert(last_leaf * pow2(spec_depth(deepest)) >= last_leaf) by (nonlinear_arith)
                requires
                    pow2(spec_depth(deepest)) >= 1,
            ;
            lemma_depth_monotonic(first_leaf, index);
            let levels = spec_relative_depth(first_leaf, index);
            let subtree_root = spec_root_from_depth(index, levels);
            if first_leaf <= subtree_root <= last_leaf {
                let local = spec_general_index_to_subtree(subtree_root, index);
                lemma_depth_monotonic(first_leaf, subtree_root);
                lemma_depth_monotonic(subtree_root, last_leaf);
                lemma_subtree_bounds(subtree_root, index);
                if local <= deepest {
                    lemma_depth_monotonic(local, deepest);
                    lemma_pow2_monotonic(spec_depth(local), spec_depth(deepest));
                    assert(subtree_root * pow2(spec_depth(local)) <= last_leaf * pow2(
                        spec_depth(deepest),
                    )) by (nonlinear_arith)
                        requires
                            subtree_root <= last_leaf,
                            pow2(spec_depth(local)) <= pow2(spec_depth(deepest)),
                    ;
                    assert(false);
                }
                lemma_beyond_deepest_is_unattached(*element, local);
            }
        },
    }
}

/// The deepest index is not beyond the type's nodes: a node lies there.
pub proof fn lemma_deepest_is_attached(overlay: Overlay)
    ensures
        !(overlay.spec_get_node(overlay.spec_deepest_index()) is Unattached),
    decreases overlay,
{
    match overlay {
        Overlay::Basic(_) => {},
        Overlay::VariableList { element, capacity } => {
            let last_leaf = overlay.spec_last_leaf();
            let deepest = element.spec_deepest_index();
            lemma_leaf_range(overlay);
            lemma_deepest_is_attached(*element);
            if deepest == 0 {
                lemma_leaf_is_element_root(last_leaf);
            } else {
                lemma_element_subtree(overlay, last_leaf, deepest);
                lemma_replace_index_carries(
                    element.spec_get_node(deepest),
                    spec_subtree_index_to_general(last_leaf, deepest),
                );
                lemma_subtree_index_to_general(last_leaf, deepest);
            }
        },
    }
}

} // verus!
