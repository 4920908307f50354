pub mod formatter;
pub mod types;

use vstd::prelude::*;

use crate::node::types::{CommentNode, NodeType, NumberNode};
use crate::util::DocStr;

verus! {

/// One element of an example: a value, its indentation, and the comments
/// above it and to its right.
pub struct Node {
    pub ty: NodeType,
    pub tabs: usize,
    pub comments: Comments,
}

impl Node {
    pub fn new(ty: NodeType) -> (r: Self)
        ensures
            r.ty == ty,
            r.tabs == 0,
            r.comments.top is None,
            r.comments.right is None,
    {
        Node { ty, tabs: 0, comments: Comments::default() }
    }

    pub fn comment(comment: DocStr) -> (r: Self)
        ensures
            r.ty matches NodeType::Comment(c) && c.0@ == comment@,
            r.tabs == 0,
            r.comments.top is None,
            r.comments.right is None,
    {
        Node::new(NodeType::Comment(CommentNode::new(comment)))
    }

    pub fn integer(value: i64) -> (r: Self)
        ensures
            r.ty matches NodeType::Number(n) && n.ty == types::NumberType::Integer(value)
                && n.name is None,
            r.tabs == 0,
            r.comments.top is None,
            r.comments.right is None,
    {
        Node::new(NodeType::Number(NumberNode::integer(value)))
    }

    pub fn empty() -> (r: Self)
        ensures
            r.ty is Empty,
            r.tabs == 0,
            r.comments.top is None,
            r.comments.right is None,
    {
        Node::new(NodeType::Empty)
    }

    pub fn empty_multiline(amount: usize) -> (r: Self)
        ensures
            r.ty == NodeType::EmptyMultiline(amount),
            r.tabs == 0,
            r.comments.top is None,
            r.comments.right is None,
    {
        Node::new(NodeType::EmptyMultiline(amount))
    }

    pub fn with_tabs(self, tabs: usize) -> (r: Self)
        ensures
            r.ty == self.ty,
            r.tabs == tabs,
            r.comments == self.comments,
    {
        Node { ty: self.ty, tabs, comments: self.comments }
    }

    pub fn with_top_comment(self, comment: CommentNode) -> (r: Self)
        ensures
            r.ty == self.ty,
            r.tabs == self.tabs,
            r.comments.top == Some(comment),
            r.comments.right == self.comments.right,
    {
        Node {
            ty: self.ty,
            tabs: self.tabs,
            comments: Comments { top: Some(comment), right: self.comments.right },
        }
    }

    pub fn with_right_comment(self, comment: CommentNode) -> (r: Self)
        ensures
            r.ty == self.ty,
            r.tabs == self.tabs,
            r.comments.top == self.comments.top,
            r.comments.right == Some(comment),
    {
        Node {
            ty: self.ty,
            tabs: self.tabs,
            comments: Comments { top: self.comments.top, right: Some(comment) },
        }
    }
}

/// The comments attached to a node: above it and to its right.
pub struct Comments {
    pub top: Option<CommentNode>,
    pub right: Option<CommentNode>,
}

impl Default for Comments {
    fn default() -> (r: Self)
        ensures
            r.top is None,
            r.right is None,
    {
        Comments { top: None, right: None }
    }
}

} // verus!
