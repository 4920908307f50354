use vstd::prelude::*;

use crate::node::types::{number_text, CommentNode, NodeType, NumberNode};
use crate::node::Node;
use crate::util::{
    attach_spec, from_string_spec, indent_spec, merge_spec, prefix_lines, DocStr, DocView,
};

verus! {

/// A dialect of configuration text: how each kind of value is written.
///
/// The spec functions name what the dialect writes; each method returns
/// exactly that, and [`format_node`] composes the results the same way for
/// every dialect.
pub trait NodeFormatter {
    /// The text between a value's name and the value.
    spec fn separator() -> Seq<char>;

    /// The marker in front of every comment line.
    spec fn comment_marker() -> Seq<char>;

    /// The block for a blank line.
    spec fn empty_block() -> DocView;

    /// The block for a run of `amount` blank lines.
    spec fn empty_run(amount: nat) -> DocView;

    /// The block for a number.
    spec fn number_block(num: NumberNode) -> DocView;

    fn named_node_separator() -> (r: &'static str)
        ensures
            r@ == Self::separator(),
    ;

    /// Every line of the comment behind the dialect's comment marker.
    fn format_comment(comment: CommentNode) -> (r: DocStr)
        ensures
            r@ == prefix_lines(comment.0@, Self::comment_marker()),
    ;

    fn format_empty() -> (r: DocStr)
        ensures
            r@ == Self::empty_block(),
    ;

    fn format_empty_multiline(amount: usize) -> (r: DocStr)
        ensures
            r@ == Self::empty_run(amount as nat),
    ;

    fn format_number(num: NumberNode) -> (r: DocStr)
        ensures
            r@ == Self::number_block(num),
    ;
}

/// The block that a dialect writes for a value.
pub open spec fn value_block<F: NodeFormatter>(ty: NodeType) -> DocView {
    match ty {
        NodeType::Comment(c) => prefix_lines(c.0@, F::comment_marker()),
        NodeType::Empty => F::empty_block(),
        NodeType::EmptyMultiline(amount) => F::empty_run(amount as nat),
        NodeType::Number(num) => F::number_block(num),
    }
}

/// The block of a node: the top comment merged above the value, the right
/// comment attached to the result, and the indentation applied last.
pub open spec fn node_block<F: NodeFormatter>(node: Node) -> DocView {
    let v = value_block::<F>(node.ty);
    let with_top = match node.comments.top {
        Some(c) => merge_spec(c.0@, v),
        None => v,
    };
    let with_right = match node.comments.right {
        Some(c) => attach_spec(with_top, c.0@),
        None => with_top,
    };
    indent_spec(with_right, node.tabs as nat)
}

/// The block of a whole node: its value, the top comment above it, the
/// right comment attached to both, all of it indented.
pub fn format_node<F: NodeFormatter>(node: Node) -> (r: DocStr)
    ensures
        r@ == node_block::<F>(node),
        node.comments.top is None && node.comments.right is None && node.tabs == 0 ==> r@
            == value_block::<F>(node.ty),
{
    let Node { ty, tabs, comments } = node;
    let res = match ty {
        NodeType::Comment(comment) => F::format_comment(comment),
        NodeType::Empty => F::format_empty(),
        NodeType::EmptyMultiline(amount) => F::format_empty_multiline(amount),
        NodeType::Number(num) => F::format_number(num),
    };
    let top = comments.top;
    let right = comments.right;
    let with_top = match top {
        None => res,
        Some(CommentNode(top_str)) => top_str.merge(res),
    };
    let with_right = match right {
        None => with_top,
        Some(CommentNode(right_str)) => with_top.attach_right(right_str),
    };
    with_right.tabbed(tabs)
}

/// The usual block for a number: `name`, separator and value when it has a
/// name, else the value alone.
pub open spec fn named_number_block(separator: Seq<char>, num: NumberNode) -> DocView {
    match num.name {
        Some(name) => from_string_spec(name@ + separator + number_text(num.ty)),
        None => from_string_spec(number_text(num.ty)),
    }
}

/// Writes a number the usual way, with `separator` after its name.
pub fn format_named_number(num: NumberNode, separator: &str) -> (r: DocStr)
    ensures
        r@ == named_number_block(separator@, num),
{
    let value = num.ty.to_string();
    match num.name {
        Some(name) => {
            let mut text = name;
            text.append(separator);
            text.append(value.as_str());
            DocStr::line(text.as_str())
        },
        None => DocStr::line(value.as_str()),
    }
}

/// `name = value`, with `#` comments.
pub struct TomlNodeFormatter {}

impl NodeFormatter for TomlNodeFormatter {
    open spec fn separator() -> Seq<char> {
        " = "@
    }

    open spec fn comment_marker() -> Seq<char> {
        "# "@
    }

    open spec fn empty_block() -> DocView {
        DocView::Line(Seq::empty())
    }

    open spec fn empty_run(amount: nat) -> DocView {
        DocView::Lines(Seq::new(amount, |_i: int| Seq::<char>::empty()))
    }

    open spec fn number_block(num: NumberNode) -> DocView {
        named_number_block(Self::separator(), num)
    }

    fn named_node_separator() -> (r: &'static str) {
        " = "
    }

    fn format_comment(comment: CommentNode) -> (r: DocStr) {
        comment.0.prefixed("# ")
    }

    fn format_empty() -> (r: DocStr) {
        DocStr::empty()
    }

    fn format_empty_multiline(amount: usize) -> (r: DocStr) {
        DocStr::empty_lines(amount)
    }

    fn format_number(num: NumberNode) -> (r: DocStr) {
        format_named_number(num, Self::named_node_separator())
    }
}

/// `name: value`, with `#` comments.
pub struct YamlFormatter;

impl NodeFormatter for YamlFormatter {
    open spec fn separator() -> Seq<char> {
        ": "@
    }

    open spec fn comment_marker() -> Seq<char> {
        "# "@
    }

    open spec fn empty_block() -> DocView {
        DocView::Line(Seq::empty())
    }

    open spec fn empty_run(amount: nat) -> DocView {
        DocView::Lines(Seq::new(amount, |_i: int| Seq::<char>::empty()))
    }

    open spec fn number_block(num: NumberNode) -> DocView {
        named_number_block(Self::separator(), num)
    }

    fn named_node_separator() -> (r: &'static str) {
        ": "
    }

    fn format_comment(comment: CommentNode) -> (r: DocStr) {
        comment.0.prefixed("# ")
    }

    fn format_empty() -> (r: DocStr) {
        DocStr::empty()
    }

    fn format_empty_multiline(amount: usize) -> (r: DocStr) {
        DocStr::empty_lines(amount)
    }

    fn format_number(num: NumberNode) -> (r: DocStr) {
        format_named_number(num, Self::named_node_separator())
    }
}

} // verus!
