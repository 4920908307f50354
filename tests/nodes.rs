use config_example::generator::{Example, Generator, NodeSchema};
use config_example::node::formatter::{
    format_named_number, format_node, NodeFormatter, TomlNodeFormatter, YamlFormatter,
};
use config_example::node::types::{CommentNode, NodeType, NumberNode, NumberType};
use config_example::node::Node;
use config_example::util::DocStr;

fn named_int() -> Node {
    Node::new(NodeType::Number(NumberNode::integer(5).with_name("test_int")))
}

#[test]
fn named_integer_in_each_dialect() {
    assert_eq!(format_node::<TomlNodeFormatter>(named_int()).to_string(), "test_int = 5");
    assert_eq!(format_node::<YamlFormatter>(named_int()).to_string(), "test_int: 5");
}

#[test]
fn comment_lines_get_marker() {
    let node = Node::comment(DocStr::multiline(vec!["a", "b"]));
    let r = format_node::<TomlNodeFormatter>(node);
    assert_eq!(r.into_lines(), vec!["# a", "# b"]);
    let node = Node::comment(DocStr::line("only"));
    assert_eq!(format_node::<YamlFormatter>(node).to_string(), "# only");
}

#[test]
fn bare_values_render_without_extra_space() {
    assert_eq!(format_node::<TomlNodeFormatter>(Node::integer(-42)).to_string(), "-42");
    assert_eq!(format_node::<YamlFormatter>(Node::integer(0)).to_string(), "0");
    assert_eq!(format_node::<TomlNodeFormatter>(Node::empty()).to_string(), "");
    let run = format_node::<TomlNodeFormatter>(Node::empty_multiline(2));
    assert_eq!(run.into_lines(), vec!["", ""]);
    let float = Node::new(NodeType::Number(NumberNode::new(NumberType::Float(String::from("4.6")))));
    assert_eq!(format_node::<YamlFormatter>(float).to_string(), "4.6");
}

#[test]
fn integer_text_at_the_limits() {
    assert_eq!(NumberType::integer(i64::MIN).to_string(), "-9223372036854775808");
    assert_eq!(NumberType::integer(i64::MAX).to_string(), "9223372036854775807");
    assert_eq!(NumberType::integer(1234567).to_string(), "1234567");
    assert_eq!(NumberType::integer(-7).to_string(), "-7");
}

#[test]
fn separators_of_the_dialects() {
    assert_eq!(TomlNodeFormatter::named_node_separator(), " = ");
    assert_eq!(YamlFormatter::named_node_separator(), ": ");
    let r = format_named_number(NumberNode::integer(3).with_name("n"), " := ");
    assert_eq!(r.to_string(), "n := 3");
    assert_eq!(format_named_number(NumberNode::integer(3), " := ").to_string(), "3");
}

#[test]
fn comments_and_indent_compose() {
    let node = Node::integer(1)
        .with_top_comment(CommentNode::new(DocStr::line("top")))
        .with_right_comment(CommentNode::new(DocStr::line("right")))
        .with_tabs(1);
    let r = format_node::<TomlNodeFormatter>(node);
    assert_eq!(r.into_lines(), vec!["\ttop right", "\t1"]);
}

#[test]
fn right_comment_stack_aligns_under_value() {
    let node = NumberNode::integer(8).with_name("listen");
    let node = Node::new(NodeType::Number(node))
        .with_right_comment(CommentNode::new(DocStr::multiline(vec!["# one", "# two"])));
    let r = format_node::<TomlNodeFormatter>(node);
    assert_eq!(r.into_lines(), vec!["listen = 8 # one", "           # two"]);
}

#[test]
fn top_comment_only() {
    let node = Node::empty().with_top_comment(CommentNode::new(DocStr::line("above")));
    let r = format_node::<YamlFormatter>(node);
    assert_eq!(r.into_lines(), vec!["above", ""]);
}

struct TestSchema {}

impl NodeSchema for TestSchema {
    fn examples() -> Vec<Example> {
        vec![Example::from_nodes(vec![
            Node::comment(DocStr::multiline(vec!["This", "is", "a", "multiline", "comment"])),
            Node::new(NodeType::Number(NumberNode::integer(5).with_name("test_int"))),
            Node::new(NodeType::Number(
                NumberNode::new(NumberType::Float(4.6f64.to_string())).with_name("test_float"),
            )),
        ])]
    }
}

#[test]
fn print_out_test_schema() {
    let generated_toml_str = Generator::generate::<TomlNodeFormatter, TestSchema>().join("\n");
    let generated_yaml_str = Generator::generate::<YamlFormatter, TestSchema>().join("\n");

    println!("Generated TOML example:\n{generated_toml_str}");
    println!();
    println!("Generated YAML example:\n{generated_yaml_str}");

    assert_eq!(
        generated_toml_str,
        "# This\n# is\n# a\n# multiline\n# comment\ntest_int = 5\ntest_float = 4.6"
    );
    assert_eq!(
        generated_yaml_str,
        "# This\n# is\n# a\n# multiline\n# comment\ntest_int: 5\ntest_float: 4.6"
    );
}

struct EmptySchema;

impl NodeSchema for EmptySchema {
    fn examples() -> Vec<Example> {
        Vec::new()
    }
}

#[test]
fn empty_schema_gives_nothing() {
    assert!(Generator::generate::<TomlNodeFormatter, EmptySchema>().is_empty());
    assert!(Generator::generate_examples::<YamlFormatter>(Vec::new()).is_empty());
}

#[test]
fn examples_without_nodes_are_dropped() {
    let examples = vec![
        Example::default(),
        Example::default().add_number(NumberNode::integer(2).with_name("x")),
        Example::from_nodes(Vec::new()),
        Example::from_nodes_iter(vec![Node::empty()]).add_comment(DocStr::line("end")),
    ];
    let out = Generator::generate_examples::<TomlNodeFormatter>(examples);
    assert_eq!(out, vec!["x = 2".to_string(), "\n# end".to_string()]);
}

#[test]
fn render_example_merges_nodes() {
    assert!(Generator::render_example::<TomlNodeFormatter>(Example::default()).is_none());
    let one = Example::from_nodes(vec![Node::integer(9)]);
    let r = Generator::render_example::<TomlNodeFormatter>(one).unwrap();
    assert!(matches!(r, DocStr::Line(_)));
    assert_eq!(r.to_string(), "9");
    let two = Example::from_nodes(vec![Node::integer(9), Node::integer(10)]);
    let r = Generator::render_example::<YamlFormatter>(two).unwrap();
    assert_eq!(r.into_lines(), vec!["9", "10"]);
}
