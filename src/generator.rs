use vstd::prelude::*;

use crate::node::formatter::{format_node, node_block, NodeFormatter};
use crate::node::types::{NodeType, NumberNode};
use crate::node::Node;
use crate::util::{merge_spec, text_of, DocStr, DocView};

verus! {

/// One example: nodes rendered one below the other, in order.
pub struct Example(pub Vec<Node>);

impl Example {
    pub fn from_nodes(nodes: Vec<Node>) -> (r: Self)
        ensures
            r.0@ == nodes@,
    {
        Example::from_nodes_iter(nodes)
    }

    pub fn from_nodes_iter(nodes: Vec<Node>) -> (r: Self)
        ensures
            r.0@ == nodes@,
    {
        Example(nodes)
    }

    /// The example with a comment node added at the end.
    pub fn add_comment(self, comment: DocStr) -> (r: Self)
        ensures
            r.0@.len() == self.0@.len() + 1,
            r.0@.drop_last() == self.0@,
            r.0@.last().ty matches NodeType::Comment(c) && c.0@ == comment@,
            r.0@.last().tabs == 0,
            r.0@.last().comments.top is None,
            r.0@.last().comments.right is None,
    {
        let mut nodes = self.0;
        nodes.push(Node::comment(comment));
        proof {
            assert(nodes@.drop_last() =~= self.0@);
        }
        Example(nodes)
    }

    /// The example with a number node added at the end.
    pub fn add_number(self, number: NumberNode) -> (r: Self)
        ensures
            r.0@.len() == self.0@.len() + 1,
            r.0@.drop_last() == self.0@,
            r.0@.last().ty == NodeType::Number(number),
            r.0@.last().tabs == 0,
            r.0@.last().comments.top is None,
            r.0@.last().comments.right is None,
    {
        let mut nodes = self.0;
        nodes.push(Node::new(NodeType::Number(number)));
        proof {
            assert(nodes@.drop_last() =~= self.0@);
        }
        Example(nodes)
    }
}

impl Default for Example {
    fn default() -> (r: Self)
        ensures
            r.0@.len() == 0,
    {
        Example(Vec::new())
    }
}

/// The examples to render.
pub trait NodeSchema {
    fn examples() -> Vec<Example>;
}

/// The blocks of the nodes merged one below the other; the block of the only
/// node when there is one.
pub open spec fn nodes_block<F: NodeFormatter>(nodes: Seq<Node>) -> DocView
    decreases nodes.len(),
{
    if nodes.len() <= 1 {
        node_block::<F>(nodes[0])
    } else {
        merge_spec(nodes_block::<F>(nodes.drop_last()), node_block::<F>(nodes.last()))
    }
}

/// The texts of the examples that have nodes, in order; an example without
/// nodes gives nothing.
pub open spec fn generated<F: NodeFormatter>(examples: Seq<Example>) -> Seq<Seq<char>>
    decreases examples.len(),
{
    if examples.len() == 0 {
        Seq::empty()
    } else {
        let before = generated::<F>(examples.drop_last());
        let nodes = examples.last().0@;
        if nodes.len() == 0 {
            before
        } else {
            before.push(text_of(nodes_block::<F>(nodes)))
        }
    }
}

/// How many of the examples have at least one node.
pub open spec fn rendered_count(examples: Seq<Example>) -> nat
    decreases examples.len(),
{
    if examples.len() == 0 {
        0
    } else if examples.last().0@.len() == 0 {
        rendered_count(examples.drop_last())
    } else {
        rendered_count(examples.drop_last()) + 1
    }
}

/// The output has one text for each example that has a node, and none for the
/// others.
pub proof fn lemma_generated_len<F: NodeFormatter>(examples: Seq<Example>)
    ensures
        generated::<F>(examples).len() == rendered_count(examples),
    decreases examples.len(),
{
    if examples.len() > 0 {
        lemma_generated_len::<F>(examples.drop_last());
    }
}

/// Renders examples through a dialect.
pub struct Generator;

impl Generator {
    /// The block of an example: its nodes' blocks merged in order; `None` for
    /// an example without nodes.
    pub fn render_example<F: NodeFormatter>(example: Example) -> (r: Option<DocStr>)
        ensures
            example.0@.len() == 0 ==> r is None,
            example.0@.len() > 0 ==> (r matches Some(b) && b@ == nodes_block::<F>(example.0@)),
    {
        let ghost all = example.0@;
        let mut nodes = example.0;
        if nodes.len() == 0 {
            return None;
        }
        let total = nodes.len();
        let first = nodes.remove(0);
        let mut acc = format_node::<F>(first);
        let mut i: usize = 1;
        assert(all.take(1) =~= seq![all[0]]);
        while nodes.len() > 0
            invariant
                1 <= i <= all.len(),
                all.len() == total,
                nodes@ == all.skip(i as int),
                nodes@.len() == all.len() - i,
                acc@ == nodes_block::<F>(all.take(i as int)),
            decreases nodes@.len(),
        {
            let node = nodes.remove(0);
            assert(all.take(i + 1).drop_last() =~= all.take(i as int));
            assert(nodes@ =~= all.skip(i + 1));
            acc = acc.merge(format_node::<F>(node));
            i = i + 1;
        }
        assert(all.take(i as int) =~= all);
        Some(acc)
    }

    /// The texts of the examples that have nodes, in order.
    pub fn generate_examples<F: NodeFormatter>(examples: Vec<Example>) -> (r: Vec<String>)
        ensures
            r@.map_values(|s: String| s@) == generated::<F>(examples@),
            r@.len() == rendered_count(examples@),
    {
        let ghost all = examples@;
        let mut rest = examples;
        let total = rest.len();
        let mut out: Vec<String> = Vec::new();
        let mut i: usize = 0;
        while rest.len() > 0
            invariant
                all.len() == total,
                i <= all.len(),
                rest@ == all.skip(i as int),
                rest@.len() == all.len() - i,
                out@.map_values(|s: String| s@) == generated::<F>(all.take(i as int)),
            decreases rest@.len(),
        {
            let example = rest.remove(0);
            assert(all.take(i + 1).drop_last() =~= all.take(i as int));
            assert(rest@ =~= all.skip(i + 1));
            let ghost prev = out@;
            match Generator::render_example::<F>(example) {
                Some(block) => {
                    out.push(block.to_string());
                    assert(out@.map_values(|s: String| s@) =~= prev.map_values(|s: String| s@).push(
                        out@.last()@,
                    ));
                },
                None => {},
            }
            i = i + 1;
        }
        assert(all.take(i as int) =~= all);
        proof {
            lemma_generated_len::<F>(all);
        }
        out
    }

    /// The texts of the schema's examples that have nodes, in order.
    pub fn generate<F: NodeFormatter, S: NodeSchema>() -> (r: Vec<String>)
        ensures
            exists|examples: Seq<Example>|
                r@.map_values(|s: String| s@) == #[trigger] generated::<F>(examples),
    {
        let examples = S::examples();
        let ghost es = examples@;
        let r = Generator::generate_examples::<F>(examples);
        assert(r@.map_values(|s: String| s@) == generated::<F>(es));
        r
    }
}

} // verus!
