//! The overlay of a type: the shape of its merkle tree and the node at each
//! generalized index.

pub mod laws;

use crate::field::{
    basics_view, Basic, BasicView, Composite, CompositeView, Leaf, LeafView, Node, NodeView,
};
use crate::ident::{decimal, to_decimal};
use crate::tree_arithmetic::zeroed::{
    general_index_to_subtree, lemma_depth_monotonic, relative_depth, root_from_depth,
    spec_general_index_to_subtree, spec_relative_depth, spec_root_from_depth,
};
use crate::tree_arithmetic::{
    ceil_log_two, lemma_ceil_log_two_is_least, lemma_pow2_injective, lemma_pow2_monotonic,
    log_base_two, next_power_of_two, power_of_two, MAX_ROUNDABLE,
};
use crate::{NodeIndex, BYTES_PER_CHUNK};
use vstd::arithmetic::power2::{lemma2_to64_rest, lemma_pow2_pos, lemma_pow2_unfold, pow2};
use vstd::prelude::*;

verus! {

/// The largest capacity of a list whose leaves all have a `u64` index.
pub const MAX_CAPACITY: u64 = 0x4000_0000_0000_0000;

/// A fixed-width scalar type.
#[derive(Clone, Copy, Debug, PartialEq, Eq)]
pub enum BasicType {
    Bool,
    U8,
    U16,
    U32,
    U64,
    U128,
    U256,
    /// The machine's word-sized counter.
    Usize,
}

/// A type, described as far as its merkle tree depends on it.
#[derive(Debug, PartialEq, Eq)]
pub enum Overlay {
    /// A scalar: a tree of one leaf.
    Basic(BasicType),
    /// A list of up to `capacity` elements of one type.
    VariableList { element: Box<Overlay>, capacity: u64 },
}

/// The descriptor of a list's length, for the leaf at `index`.
pub open spec fn length_basic(index: nat) -> BasicView {
    BasicView { ident: "len"@, index, size: 32, offset: 0 }
}

/// The scalars of `size` bytes that share the leaf at `index`, which is leaf
/// number `position` of its list: as many as fit into one chunk, each named
/// by its position in the list.
pub open spec fn packed_basics(index: nat, position: nat, size: nat) -> Seq<BasicView> {
    let items_per_chunk = BYTES_PER_CHUNK as nat / size;
    Seq::new(
        items_per_chunk,
        |i: int|
            BasicView {
                ident: decimal((position * items_per_chunk + i) as nat),
                index,
                size,
                offset: (i * size) as nat,
            },
    )
}

/// `node` with the index it carries changed to `index`.
pub open spec fn spec_replace_index(node: NodeView, index: nat) -> NodeView {
    match node {
        NodeView::Composite(c) => NodeView::Composite(
            CompositeView { ident: c.ident, index, height: c.height },
        ),
        NodeView::Leaf(LeafView::Basic(items)) => NodeView::Leaf(
            LeafView::Basic(
                Seq::new(
                    items.len(),
                    |i: int|
                        BasicView {
                            ident: items[i].ident,
                            index,
                            size: items[i].size,
                            offset: items[i].offset,
                        },
                ),
            ),
        ),
        NodeView::Leaf(LeafView::Length(b)) => NodeView::Leaf(
            LeafView::Length(
                BasicView { ident: b.ident, index, size: b.size, offset: b.offset },
            ),
        ),
        NodeView::Leaf(LeafView::Padding) => NodeView::Leaf(LeafView::Padding),
        NodeView::Unattached(_) => NodeView::Unattached(index),
        NodeView::Intermediate(_) => NodeView::Intermediate(index),
    }
}

impl BasicType {
    /// The width of a value in bits; a boolean takes a whole byte.
    pub open spec fn spec_bit_width(&self) -> nat {
        match self {
            BasicType::Bool => 8,
            BasicType::U8 => 8,
            BasicType::U16 => 16,
            BasicType::U32 => 32,
            BasicType::U64 => 64,
            BasicType::U128 => 128,
            BasicType::U256 => 256,
            BasicType::Usize => usize::BITS as nat,
        }
    }

    /// The width of a value in bytes.
    pub open spec fn spec_byte_width(&self) -> nat {
        self.spec_bit_width() / 8
    }

    /// The width of a value in bits.
    pub fn bit_width(&self) -> (bits: u32)
        ensures
            bits == self.spec_bit_width(),
    {
        match self {
            BasicType::Bool => 8,
            BasicType::U8 => 8,
            BasicType::U16 => 16,
            BasicType::U32 => 32,
            BasicType::U64 => 64,
            BasicType::U128 => 128,
            BasicType::U256 => 256,
            BasicType::Usize => usize::BITS,
        }
    }

    /// The byte width of every scalar type divides the chunk size.
    pub proof fn lemma_byte_width_divides_chunk(&self)
        ensures
            ({
                let bytes = self.spec_byte_width();
                bytes == 1 || bytes == 2 || bytes == 4 || bytes == 8 || bytes == 16 || bytes == 32
            }),
    {
    }

    /// The width of a value in bytes: a divisor of the chunk size.
    pub fn byte_width(&self) -> (bytes: u8)
        ensures
            bytes == self.spec_byte_width(),
            bytes == 1 || bytes == 2 || bytes == 4 || bytes == 8 || bytes == 16 || bytes == 32,
    {
        (self.bit_width() / 8) as u8
    }
}

/// Returns `node` with the index it carries changed to `index`.
pub fn replace_index(node: Node, index: NodeIndex) -> (replaced: Node)
    ensures
        replaced@ == spec_replace_index(node@, index as nat),
{
    match node {
        Node::Composite(c) => Node::Composite(
            Composite { ident: c.ident, index: index, height: c.height },
        ),
        Node::Leaf(Leaf::Basic(b)) => {
            let mut items: Vec<Basic> = Vec::new();
            let mut i: usize = 0;
            while i < b.len()
                invariant
                    i <= b.len(),
                    items.len() == i,
                    forall|j: int|
                        0 <= j < i ==> #[trigger] items[j]@ == (BasicView {
                            ident: b[j]@.ident,
                            index: index as nat,
                            size: b[j]@.size,
                            offset: b[j]@.offset,
                        }),
                decreases b.len() - i,
            {
                items.push(
                    Basic {
                        ident: b[i].ident.clone(),
                        index: index,
                        size: b[i].size,
                        offset: b[i].offset,
                    },
                );
                i = i + 1;
            }
            assert(basics_view(items@) =~= spec_replace_index(
                NodeView::Leaf(LeafView::Basic(basics_view(b@))),
                index as nat,
            )->Leaf_0->Basic_0);
            Node::Leaf(Leaf::Basic(items))
        },
        Node::Leaf(Leaf::Length(b)) => Node::Leaf(
            Leaf::Length(Basic { ident: b.ident, index: index, size: b.size, offset: b.offset }),
        ),
        Node::Leaf(Leaf::Padding()) => Node::Leaf(Leaf::Padding()),
        Node::Unattached(_) => Node::Unattached(index),
        Node::Intermediate(_) => Node::Intermediate(index),
    }
}

/// The descriptors of the scalars of `size` bytes that share the leaf at
/// `index`, which is leaf number `position` of its list.
fn pack_basics(index: NodeIndex, position: u64, size: u8) -> (items: Vec<Basic>)
    requires
        size == 1 || size == 2 || size == 4 || size == 8 || size == 16 || size == 32,
    ensures
        basics_view(items@) == packed_basics(index as nat, position as nat, size as nat),
{
    let items_per_chunk: u8 = BYTES_PER_CHUNK as u8 / size;
    assert(position * items_per_chunk <= 32 * u64::MAX) by (nonlinear_arith)
        requires
            items_per_chunk <= 32,
    ;
    let first: u128 = position as u128 * items_per_chunk as u128;
    let mut items: Vec<Basic> = Vec::new();
    let mut i: u8 = 0;
    while i < items_per_chunk
        invariant
            size == 1 || size == 2 || size == 4 || size == 8 || size == 16 || size == 32,
            items_per_chunk == 32u8 / size,
            first == position * items_per_chunk,
            first <= 32 * u64::MAX,
            i <= items_per_chunk,
            items.len() == i,
            forall|j: int|
                0 <= j < i ==> #[trigger] items[j]@ == (BasicView {
                    ident: decimal((position * items_per_chunk + j) as nat),
                    index: index as nat,
                    size: size as nat,
                    offset: (j * size) as nat,
                }),
        decreases items_per_chunk - i,
    {
        items.push(
            Basic {
                ident: to_decimal(first + i as u128),
                index: index,
                size: size,
                offset: i * size,
            },
        );
        i = i + 1;
    }
    items
}

impl Clone for Overlay {
    fn clone(&self) -> (copy: Self)
        ensures
            copy == *self,
        decreases self,
    {
        match self {
            Overlay::Basic(basic) => Overlay::Basic(*basic),
            Overlay::VariableList { element, capacity } => {
                let inner: &Overlay = &**element;
                Overlay::VariableList { element: Box::new(inner.clone()), capacity: *capacity }
            },
        }
    }
}

impl Overlay {
    /// Every capacity in the description is small enough for the leaves of
    /// its list to have a `u64` index.
    pub open spec fn wf(&self) -> bool
        decreases self,
    {
        match self {
            Overlay::Basic(_) => true,
            Overlay::VariableList { element, capacity } => {
                *capacity <= MAX_CAPACITY && element.wf()
            },
        }
    }

    /// The capacity of the type itself is small enough to be rounded up to a
    /// power of two within a `u64`: what its height needs, and no more.
    pub open spec fn roundable(&self) -> bool {
        match self {
            Overlay::Basic(_) => true,
            Overlay::VariableList { element, capacity } => *capacity <= MAX_ROUNDABLE,
        }
    }

    /// The number of tree levels below the root: none for a scalar; for a
    /// list, the levels of its data tree and one more for the branch into
    /// data and length.
    pub open spec fn spec_height(&self) -> nat {
        match self {
            Overlay::Basic(_) => 0,
            Overlay::VariableList { element, capacity } => ceil_log_two(*capacity as nat) + 1,
        }
    }

    /// The index of the first data leaf: the first index of the lowest level.
    pub open spec fn spec_first_leaf(&self) -> nat {
        match self {
            Overlay::Basic(_) => 0,
            Overlay::VariableList { .. } => (pow2(self.spec_height()) - 1) as nat,
        }
    }

    /// The index of the last data leaf: the data fills the left half of the
    /// lowest level.
    pub open spec fn spec_last_leaf(&self) -> nat {
        match self {
            Overlay::Basic(_) => 0,
            Overlay::VariableList { .. } => (pow2(self.spec_height()) + pow2(
                (self.spec_height() - 1) as nat,
            ) - 2) as nat,
        }
    }

    /// The node of the type's tree at `index`.
    pub open spec fn spec_get_node(&self, index: nat) -> NodeView
        decreases self,
    {
        match self {
            Overlay::Basic(basic) => {
                if index == 0 {
                    NodeView::Leaf(
                        LeafView::Basic(
                            seq![
                                BasicView {
                                    ident: ""@,
                                    index: 0,
                                    size: basic.spec_byte_width(),
                                    offset: 0,
                                },
                            ],
                        ),
                    )
                } else {
                    NodeView::Unattached(index)
                }
            },
            Overlay::VariableList { element, capacity } => {
                let first_leaf = self.spec_first_leaf();
                let last_leaf = self.spec_last_leaf();
                if index == 0 {
                    NodeView::Composite(
                        CompositeView { ident: ""@, index: 0, height: self.spec_height() },
                    )
                } else if index == 1 {
                    NodeView::Intermediate(1)
                } else if index == 2 {
                    NodeView::Leaf(LeafView::Length(length_basic(2)))
                } else if 3 <= index <= pow2(self.spec_height()) - 2 {
                    NodeView::Intermediate(index)
                } else if first_leaf <= index <= last_leaf {
                    match **element {
                        Overlay::Basic(basic) => NodeView::Leaf(
                            LeafView::Basic(
                                packed_basics(
                                    index,
                                    (index - first_leaf) as nat,
                                    basic.spec_byte_width(),
                                ),
                            ),
                        ),
                        Overlay::VariableList { .. } => NodeView::Composite(
                            CompositeView {
                                ident: decimal((index - first_leaf) as nat),
                                index,
                                height: element.spec_height(),
                            },
                        ),
                    }
                } else {
                    let levels = spec_relative_depth(first_leaf, index);
                    let subtree_root = spec_root_from_depth(index, levels);
                    if first_leaf <= subtree_root <= last_leaf {
                        spec_replace_index(
                            element.spec_get_node(
                                spec_general_index_to_subtree(subtree_root, index),
                            ),
                            index,
                        )
                    } else {
                        NodeView::Unattached(index)
                    }
                }
            },
        }
    }

    /// A list of up to `capacity` elements, each described by `element`.
    pub fn variable_list(element: Overlay, capacity: u64) -> (list: Overlay)
        ensures
            list matches Overlay::VariableList { element: e, capacity: c } && *e == element && c
                == capacity,
            list.wf() <==> element.wf() && capacity <= MAX_CAPACITY,
    {
        Overlay::VariableList { element: Box::new(element), capacity }
    }

    /// Tells whether every capacity in the description is within bounds.
    pub fn is_well_formed(&self) -> (ok: bool)
        ensures
            ok == self.wf(),
        decreases self,
    {
        match self {
            Overlay::Basic(_) => true,
            Overlay::VariableList { element, capacity } => {
                *capacity <= MAX_CAPACITY && element.is_well_formed()
            },
        }
    }

    /// Tells whether the capacity of the type itself can be rounded up.
    pub fn is_roundable(&self) -> (ok: bool)
        ensures
            ok == self.roundable(),
    {
        match self {
            Overlay::Basic(_) => true,
            Overlay::VariableList { element, capacity } => *capacity <= MAX_ROUNDABLE,
        }
    }

    /// The height of a well-formed description fits into a shift of a `u64`.
    pub proof fn lemma_height_bound(&self)
        requires
            self.wf(),
        ensures
            self.roundable(),
            self.spec_height() <= 63,
            self is VariableList ==> self.spec_height() >= 1,
    {
        match self {
            Overlay::Basic(_) => {},
            Overlay::VariableList { element, capacity } => {
                lemma2_to64_rest();
                lemma_ceil_log_two_is_least(*capacity as nat, 62);
            },
        }
    }

    /// The number of tree levels below the root.
    ///
    /// The height depends on the capacity of the type itself alone, so it is
    /// known wherever that capacity can be rounded up to a power of two.
    pub fn height(&self) -> (height: u8)
        requires
            self.roundable(),
        ensures
            height == self.spec_height(),
            height <= 64,
            self.wf() ==> height <= 63,
    {
        match self {
            Overlay::Basic(_) => 0,
            Overlay::VariableList { element, capacity } => {
                let num_leaves = next_power_of_two(*capacity);
                let data_tree_height = log_base_two(num_leaves);
                proof {
                    lemma_pow2_injective(data_tree_height as nat, ceil_log_two(*capacity as nat));
                    if self.wf() {
                        self.lemma_height_bound();
                    }
                }
                // One more level for the data root and the length of the list.
                (data_tree_height as u8) + 1
            },
        }
    }

    /// The index of the first data leaf.
    pub fn first_leaf(&self) -> (first: NodeIndex)
        requires
            self.wf(),
        ensures
            first == self.spec_first_leaf(),
    {
        match self {
            Overlay::Basic(_) => 0,
            Overlay::VariableList { .. } => {
                proof {
                    lemma_pow2_pos(self.spec_height());
                }
                power_of_two(self.height()) - 1
            },
        }
    }

    /// The index of the last data leaf.
    pub fn last_leaf(&self) -> (last: NodeIndex)
        requires
            self.wf(),
        ensures
            last == self.spec_last_leaf(),
    {
        match self {
            Overlay::Basic(_) => 0,
            Overlay::VariableList { .. } => {
                let height = self.height();
                proof {
                    lemma_pow2_unfold(height as nat);
                    lemma_pow2_pos((height - 1) as nat);
                    lemma2_to64_rest();
                    lemma_pow2_monotonic(height as nat, 63);
                }
                power_of_two(height) + power_of_two(height - 1) - 2
            },
        }
    }

    /// The node of the type's tree at `index`.
    ///
    /// An index either names a node of the type's own tree, from the root down
    /// to the data leaves, or lies below one of the data leaves: then the
    /// element type is asked, with the index re-based to that leaf.
    pub fn get_node(&self, index: NodeIndex) -> (node: Node)
        requires
            self.wf(),
        ensures
            node@ == self.spec_get_node(index as nat),
        decreases self,
    {
        match self {
            Overlay::Basic(basic) => {
                if index == 0 {
                    let items = vec![
                        Basic {
                            ident: "".to_owned(),
                            index: index,
                            size: basic.byte_width(),
                            offset: 0,
                        },
                    ];
                    assert(basics_view(items@) =~= seq![
                        BasicView {
                            ident: ""@,
                            index: 0,
                            size: basic.spec_byte_width(),
                            offset: 0,
                        },
                    ]);
                    Node::Leaf(Leaf::Basic(items))
                } else {
                    Node::Unattached(index)
                }
            },
            Overlay::VariableList { element, capacity } => {
                let height = self.height();
                let first_leaf = self.first_leaf();
                let first_internal: u64 = 3;
                proof {
                    lemma_pow2_unfold(height as nat);
                    lemma_pow2_pos((height - 1) as nat);
                }
                let last_internal = power_of_two(height) - 2;
                let last_leaf = self.last_leaf();

                if index == 0 {
                    Node::Composite(Composite { ident: "".to_owned(), index: 0, height: height })
                } else if index == 1 {
                    Node::Intermediate(index)
                } else if index == 2 {
                    Node::Leaf(
                        Leaf::Length(
                            Basic { ident: "len".to_owned(), index: index, size: 32, offset: 0 },
                        ),
                    )
                } else if first_internal <= index && index <= last_internal {
                    Node::Intermediate(index)
                } else if first_leaf <= index && index <= last_leaf {
                    match element.get_node(0) {
                        Node::Leaf(Leaf::Basic(items)) => {
                            proof {
                                assert(basics_view(items@).len() == 1);
                                assert(basics_view(items@)[0] == items[0]@);
                                element->Basic_0.lemma_byte_width_divides_chunk();
                            }
                            let item_size = items[0].size;
                            Node::Leaf(
                                Leaf::Basic(pack_basics(index, index - first_leaf, item_size)),
                            )
                        },
                        Node::Composite(c) => Node::Composite(
                            Composite {
                                ident: to_decimal((index - first_leaf) as u128),
                                index: index,
                                height: c.height,
                            },
                        ),
                        _ => vstd::pervasive::unreached(),
                    }
                } else {
                    // The node lies in the subtree of one of the leaves, or nowhere.
                    proof {
                        lemma_depth_monotonic(first_leaf as nat, index as nat);
                    }
                    let levels = relative_depth(first_leaf, index);
                    let subtree_root = root_from_depth(index, levels);
                    let subtree_index = general_index_to_subtree(subtree_root, index);

                    if first_leaf <= subtree_root && subtree_root <= last_leaf {
                        replace_index(element.get_node(subtree_index), index)
                    } else {
                        Node::Unattached(index)
                    }
                }
            },
        }
    }
}

} // verus!
