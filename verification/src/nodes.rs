//! Allow generic display of the structures using a tree representation.
//!
//! The builder exposes a tree-like structure with all the visible fields of the value being
//! built. This structure can be used for printing the state of the builder in a customized
//! manner.

use vstd::prelude::*;

verus! {

/// A `Node` of the tree, it represents an item that can be interacted with.
#[derive(Debug, PartialEq, Eq)]
pub enum Node {
    /// The `Node` is a leaf node of the tree, i.e. it doesn't contain subfields, just a value.
    Leaf(Field),
    /// The `Node` is actually composed by inner fields, for example a list is composed by
    /// items and a struct by fields. The first item is the name of the composite.
    Composite(String, Vec<FieldKind>),
}

/// A field of a composite structure. The field may be named (like in structs), or be unnamed
/// (like in lists).
#[derive(Debug, PartialEq, Eq)]
pub enum FieldKind {
    /// The field is named, the first item is the name of the field, the second is the inner
    /// node of it.
    Named(String, Node),
    /// The field does not have a name, the value is the inner node of the item.
    Unnamed(Node),
}

/// A leaf field of the tree structure.
#[derive(Debug, PartialEq, Eq)]
pub enum Field {
    /// The field is valid and the textual representation of it is provided.
    String(String),
    /// The field is not present yet.
    Missing,
}

/// The mathematical content of a [`Node`].
pub ghost enum NodeView {
    Leaf(FieldView),
    Composite(Seq<char>, Seq<FieldKindView>),
}

/// The mathematical content of a [`FieldKind`].
pub ghost enum FieldKindView {
    Named(Seq<char>, NodeView),
    Unnamed(NodeView),
}

/// The mathematical content of a [`Field`].
pub ghost enum FieldView {
    String(Seq<char>),
    Missing,
}

impl View for Field {
    type V = FieldView;

    open spec fn view(&self) -> FieldView {
        match self {
            Field::String(s) => FieldView::String(s@),
            Field::Missing => FieldView::Missing,
        }
    }
}

impl Node {
    /// The mathematical content of the node.
    pub open spec fn content(&self) -> NodeView
        decreases self,
    {
        match self {
            Node::Leaf(field) => NodeView::Leaf(field@),
            Node::Composite(name, fields) => NodeView::Composite(
                name@,
                Seq::new(
                    fields@.len(),
                    |i: int|
                        if 0 <= i < fields@.len() {
                            fields@[i].content()
                        } else {
                            FieldKindView::Unnamed(NodeView::Leaf(FieldView::Missing))
                        },
                ),
            ),
        }
    }
}

impl FieldKind {
    /// The mathematical content of the field.
    pub open spec fn content(&self) -> FieldKindView
        decreases self,
    {
        match self {
            FieldKind::Named(name, node) => FieldKindView::Named(name@, node.content()),
            FieldKind::Unnamed(node) => FieldKindView::Unnamed(node.content()),
        }
    }
}

impl View for Node {
    type V = NodeView;

    open spec fn view(&self) -> NodeView {
        self.content()
    }
}

impl View for FieldKind {
    type V = FieldKindView;

    open spec fn view(&self) -> FieldKindView {
        self.content()
    }
}

} // verus!
