//! Tree data for tree views: the trait a node type offers, a ready-made node
//! type, and the events a tree view reports.

use vstd::prelude::*;
use crate::text::owned;

verus! {

/// What a tree view reads of a node: its label, whether it is disabled,
/// whether it has children, its icon, and the same of each child in order.
pub struct NodeShape {
    pub label: Seq<char>,
    pub disabled: bool,
    pub has_children: bool,
    pub icon: Option<Seq<char>>,
    pub children: Seq<NodeShape>,
}

/// A node of a tree: its label, its children, and whether it can be chosen.
/// An implementation tells its shape, and each method gives what the shape
/// says.
pub trait TreeNode: Sized {
    /// What the methods below give of this node.
    spec fn shape(&self) -> NodeShape;

    /// The text shown for the node.
    fn label(&self) -> (s: String)
        ensures
            s@ == self.shape().label,
    ;

    /// The node's children, in order.
    fn children(&self) -> (v: Vec<Self>)
        ensures
            v@.len() == self.shape().children.len(),
            forall|i: int| 0 <= i < v@.len() ==> (#[trigger] v@[i]).shape() == self.shape().children[i],
    ;

    /// Whether the node has children.
    fn has_children(&self) -> (b: bool)
        ensures
            b == self.shape().has_children,
    ;

    /// Whether the node cannot be chosen.
    fn is_disabled(&self) -> (b: bool)
        ensures
            b == self.shape().disabled,
    ;

    /// The icon shown before the label, if any.
    fn icon(&self) -> (r: Option<String>)
        ensures
            match r {
                Some(i) => self.shape().icon == Some(i@),
                None => self.shape().icon.is_none(),
            },
    ;
}

/// The shape of a plain node and its descendants.
pub open spec fn simple_shape<T: Clone>(n: SimpleTreeNode<T>) -> NodeShape
    decreases n,
{
    NodeShape {
        label: n.label@,
        disabled: n.disabled,
        has_children: n.children@.len() > 0,
        icon: match n.icon {
            Some(i) => Some(i@),
            None => None,
        },
        children: Seq::new(
            n.children@.len(),
            |i: int|
                {
                    if 0 <= i < n.children@.len() {
                        simple_shape(n.children@[i])
                    } else {
                        NodeShape { label: Seq::empty(), disabled: false, has_children: false, icon: None, children: Seq::empty() }
                    }
                },
        ),
    }
}

/// A plain tree node: a value, a label, children, a disabled flag and an icon.
#[derive(Debug)]
pub struct SimpleTreeNode<T: Clone> {
    pub value: T,
    pub label: String,
    pub children: Vec<SimpleTreeNode<T>>,
    pub disabled: bool,
    pub icon: Option<String>,
}

impl<T: Clone> SimpleTreeNode<T> {
    /// A node without children.
    pub fn leaf(value: T, label: &str) -> (n: Self)
        ensures
            n.value == value,
            n.label@ == label@,
            n.children@.len() == 0,
            !n.disabled,
            n.icon.is_none(),
    {
        SimpleTreeNode { value, label: owned(label), children: Vec::new(), disabled: false, icon: None }
    }

    /// A node with the given children.
    pub fn branch(value: T, label: &str, children: Vec<Self>) -> (n: Self)
        ensures
            n.value == value,
            n.label@ == label@,
            n.children == children,
            !n.disabled,
            n.icon.is_none(),
    {
        SimpleTreeNode { value, label: owned(label), children, disabled: false, icon: None }
    }

    pub fn disabled(self, disabled: bool) -> (n: Self)
        ensures
            n.disabled == disabled,
            n.value == self.value && n.label == self.label && n.children == self.children && n.icon == self.icon,
    {
        SimpleTreeNode { disabled, ..self }
    }

    pub fn with_icon(self, icon: &str) -> (n: Self)
        ensures
            n.icon matches Some(i) && i@ == icon@,
            n.value == self.value && n.label == self.label && n.children == self.children,
            n.disabled == self.disabled,
    {
        SimpleTreeNode { icon: Some(owned(icon)), ..self }
    }
}

/// A copy of a node and all its descendants.
pub fn copy_node<T: Clone>(n: &SimpleTreeNode<T>) -> (c: SimpleTreeNode<T>)
    ensures
        c.label@ == n.label@,
        c.disabled == n.disabled,
        c.children@.len() == n.children@.len(),
        simple_shape(c) == simple_shape(*n),
    decreases n,
{
    let kids = copy_children(n);
    let icon = match &n.icon {
        Some(i) => Some(owned(i.as_str())),
        None => None,
    };
    let c = SimpleTreeNode { value: n.value.clone(), label: owned(n.label.as_str()), children: kids, disabled: n.disabled, icon };
    proof {
        assert(simple_shape(c).children =~= simple_shape(*n).children);
    }
    c
}

/// Copies of a node's children, in order.
pub fn copy_children<T: Clone>(n: &SimpleTreeNode<T>) -> (v: Vec<SimpleTreeNode<T>>)
    ensures
        v@.len() == n.children@.len(),
        forall|i: int| 0 <= i < v@.len() ==> simple_shape(#[trigger] v@[i]) == simple_shape(n.children@[i]),
    decreases n, 0nat,
{
    let mut v: Vec<SimpleTreeNode<T>> = Vec::new();
    let mut i: usize = 0;
    while i < n.children.len()
        invariant
            i <= n.children@.len(),
            v@.len() == i,
            forall|k: int| 0 <= k < i ==> simple_shape(#[trigger] v@[k]) == simple_shape(n.children@[k]),
        decreases n.children@.len() - i,
    {
        let c = copy_node(&n.children[i]);
        v.push(c);
        i = i + 1;
    }
    v
}

impl<T: Clone> Clone for SimpleTreeNode<T> {
    fn clone(&self) -> Self {
        copy_node(self)
    }
}

impl<T: Clone> TreeNode for SimpleTreeNode<T> {
    open spec fn shape(&self) -> NodeShape {
        simple_shape(*self)
    }

    fn label(&self) -> (s: String) {
        owned(self.label.as_str())
    }

    fn children(&self) -> (v: Vec<Self>) {
        let v = copy_children(self);
        proof {
            assert forall|i: int| 0 <= i < v@.len() implies (#[trigger] v@[i]).shape() == self.shape().children[i] by {
                assert(simple_shape(v@[i]) == simple_shape(self.children@[i]));
            }
        }
        v
    }

    fn has_children(&self) -> (b: bool) {
        self.children.len() > 0
    }

    fn is_disabled(&self) -> (b: bool) {
        self.disabled
    }

    fn icon(&self) -> (r: Option<String>) {
        match &self.icon {
            Some(i) => Some(owned(i.as_str())),
            None => None,
        }
    }
}

/// A chosen node: the node, its path from the roots, the paths of all expanded
/// nodes and the selected row.
#[derive(Debug, Clone)]
pub struct TreeSelectionEvent<T: TreeNode> {
    pub node: T,
    pub path: Vec<usize>,
    pub expanded_paths: Vec<Vec<usize>>,
    pub selected_index: Option<usize>,
}

/// A node expanded or collapsed: the node, its path, whether it is now
/// expanded, the paths of all expanded nodes and the selected row.
#[derive(Debug, Clone)]
pub struct TreeExpandEvent<T: TreeNode> {
    pub node: T,
    pub path: Vec<usize>,
    pub expanded: bool,
    pub expanded_paths: Vec<Vec<usize>>,
    pub selected_index: Option<usize>,
}

} // verus!
