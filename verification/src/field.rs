//! What an overlay can find at a generalized index: the node model.

use crate::NodeIndex;
use vstd::prelude::*;

verus! {

/// The mathematical value of a [`Basic`].
pub struct BasicView {
    pub ident: Seq<char>,
    pub index: nat,
    pub size: nat,
    pub offset: nat,
}

/// The mathematical value of a [`Composite`].
pub struct CompositeView {
    pub ident: Seq<char>,
    pub index: nat,
    pub height: nat,
}

/// The mathematical value of a [`Leaf`].
pub enum LeafView {
    Basic(Seq<BasicView>),
    Length(BasicView),
    Padding,
}

/// The mathematical value of a [`Node`].
pub enum NodeView {
    Composite(CompositeView),
    Intermediate(nat),
    Leaf(LeafView),
    Unattached(nat),
}

/// The root of a container's subtree.
#[derive(Clone, Debug, Default, PartialEq)]
pub struct Composite {
    /// The container's name, or its position in the enclosing container.
    pub ident: String,
    /// The generalized index of the node.
    pub index: NodeIndex,
    /// The number of tree levels below the node.
    pub height: u8,
}

/// A scalar value packed into a leaf.
#[derive(Clone, Debug, Default, PartialEq)]
pub struct Basic {
    /// The value's name, or its position in the enclosing container.
    pub ident: String,
    /// The generalized index of the leaf that holds the value.
    pub index: NodeIndex,
    /// The width of the value in bytes.
    pub size: u8,
    /// The byte at which the value starts within its leaf.
    pub offset: u8,
}

/// A node that holds data.
#[derive(Clone, Debug, PartialEq)]
pub enum Leaf {
    /// One or more scalars that share a chunk.
    Basic(Vec<Basic>),
    /// The element count of a variable-length container.
    Length(Basic),
    /// An empty chunk.
    Padding(),
}

/// What an overlay finds at a generalized index.
#[derive(Clone, Debug, PartialEq)]
pub enum Node {
    /// The root of a container's subtree.
    Composite(Composite),
    /// A node that only hashes its two children.
    Intermediate(NodeIndex),
    /// A node that holds data.
    Leaf(Leaf),
    /// No node of the type lives at the index.
    Unattached(NodeIndex),
}

impl View for Composite {
    type V = CompositeView;

    open spec fn view(&self) -> CompositeView {
        CompositeView { ident: self.ident@, index: self.index as nat, height: self.height as nat }
    }
}

impl View for Basic {
    type V = BasicView;

    open spec fn view(&self) -> BasicView {
        BasicView {
            ident: self.ident@,
            index: self.index as nat,
            size: self.size as nat,
            offset: self.offset as nat,
        }
    }
}

/// The values of the descriptors in `items`, in order.
pub open spec fn basics_view(items: Seq<Basic>) -> Seq<BasicView> {
    Seq::new(items.len(), |i: int| items[i]@)
}

impl View for Leaf {
    type V = LeafView;

    open spec fn view(&self) -> LeafView {
        match self {
            Leaf::Basic(items) => LeafView::Basic(basics_view(items@)),
            Leaf::Length(length) => LeafView::Length(length@),
            Leaf::Padding() => LeafView::Padding,
        }
    }
}

impl View for Node {
    type V = NodeView;

    open spec fn view(&self) -> NodeView {
        match self {
            Node::Composite(composite) => NodeView::Composite(composite@),
            Node::Intermediate(index) => NodeView::Intermediate(*index as nat),
            Node::Leaf(leaf) => NodeView::Leaf(leaf@),
            Node::Unattached(index) => NodeView::Unattached(*index as nat),
        }
    }
}

} // verus!
