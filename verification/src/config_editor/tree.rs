//! The tree of settings.

use std::rc::Rc;
use vstd::prelude::*;

verus! {

/// A node of a tree whose nodes are all of one kind.
pub trait Node: Sized {
    fn parent(&self) -> &Option<Rc<Self>>;

    fn children(&self) -> &Vec<Rc<Self>>;

    fn name(&self) -> &str;
}

pub struct SimpleNode {
    parent: Option<Rc<SimpleNode>>,
    children: Vec<Rc<SimpleNode>>,
    name: String,
}

impl SimpleNode {
    /// The text that names this node.
    pub closed spec fn label(&self) -> Seq<char> {
        self.name@
    }

    /// The children of this node, first to last.
    pub closed spec fn child_nodes(&self) -> Seq<Rc<SimpleNode>> {
        self.children@
    }

    /// The node above this one, if there is one.
    pub closed spec fn parent_node(&self) -> Option<Rc<SimpleNode>> {
        self.parent
    }

    /// A node without children.
    pub fn new(parent: Option<Rc<SimpleNode>>, name: String) -> (node: Self)
        ensures
            node.parent_node() == parent,
            node.label() == name@,
            node.child_nodes() == Seq::<Rc<SimpleNode>>::empty(),
    {
        Self { parent, children: Vec::new(), name }
    }

    /// This node with one more child, behind those it has.
    pub fn child(self, child: Rc<SimpleNode>) -> (node: Self)
        ensures
            node.parent_node() == self.parent_node(),
            node.label() == self.label(),
            node.child_nodes() == self.child_nodes().push(child),
    {
        let mut node = self;
        node.children.push(child);
        node
    }
}

impl Node for SimpleNode {
    fn parent(&self) -> (parent: &Option<Rc<SimpleNode>>)
        ensures
            *parent == self.parent_node(),
    {
        &self.parent
    }

    fn children(&self) -> (children: &Vec<Rc<SimpleNode>>)
        ensures
            children@ == self.child_nodes(),
    {
        &self.children
    }

    fn name(&self) -> (name: &str)
        ensures
            name@ == self.label(),
    {
        self.name.as_str()
    }
}

} // verus!
