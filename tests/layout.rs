use config_example::util::DocStr;

fn lines(d: DocStr) -> Vec<String> {
    d.into_lines()
}

fn is_single(d: &DocStr) -> bool {
    matches!(d, DocStr::Line(_))
}

#[test]
fn line_without_break_round_trips() {
    for s in ["hello", "", "a b  c", "tab\there", "ends with cr\r"] {
        let d = DocStr::line(s);
        assert!(is_single(&d));
        assert_eq!(d.to_string(), s);
    }
}

#[test]
fn line_with_breaks_becomes_stack() {
    let d = DocStr::line("a\nb");
    assert!(!is_single(&d));
    assert_eq!(lines(d), vec!["a", "b"]);
    assert_eq!(lines(DocStr::line("a\r\nb\n")), vec!["a", "b"]);
    assert_eq!(lines(DocStr::line("a\n\nb")), vec!["a", "", "b"]);
    assert_eq!(lines(DocStr::line("\n")), vec![""]);
}

#[test]
fn merge_with_no_lines_keeps_lines() {
    let merged = DocStr::line("hello").merge(DocStr::empty_lines(0));
    assert!(!is_single(&merged));
    assert_eq!(lines(merged), vec!["hello"]);
}

#[test]
fn merge_stacks_lines() {
    let merged = DocStr::line("a").merge(DocStr::multiline(vec!["b", "c"]));
    assert_eq!(merged.to_string(), "a\nb\nc");
    let merged = DocStr::multiline(vec![]).merge(DocStr::line("x"));
    assert_eq!(lines(merged), vec!["x"]);
}

#[test]
fn empty_blocks() {
    let e = DocStr::empty();
    assert!(is_single(&e));
    assert_eq!(e.to_string(), "");
    let run = DocStr::empty_lines(3);
    assert_eq!(run.to_string(), "\n\n");
    assert_eq!(lines(run), vec!["", "", ""]);
    assert_eq!(DocStr::multiline(vec![]).to_string(), "");
}

#[test]
fn indent_twice_adds_levels() {
    let x = DocStr::multiline(vec!["a", "b"]);
    let y = DocStr::multiline(vec!["a", "b"]);
    let twice = x.tabbed(1).tabbed(2);
    let once = y.tabbed(3);
    assert_eq!(lines(twice), vec!["\t\t\ta", "\t\t\tb"]);
    assert_eq!(lines(once), vec!["\t\t\ta", "\t\t\tb"]);
    assert_eq!(DocStr::line("v").tabbed(0).to_string(), "v");
    assert_eq!(DocStr::line("v").tabbed(2).to_string(), "\t\tv");
}

#[test]
fn map_keeps_shape() {
    let m = DocStr::multiline(vec!["a", "b"]).map(|s| format!("<{s}>"));
    assert_eq!(lines(m), vec!["<a>", "<b>"]);
    let s = DocStr::line("a").map(|s| s.to_uppercase());
    assert!(is_single(&s));
    assert_eq!(s.to_string(), "A");
}

#[test]
fn prefixed_puts_text_before_every_line() {
    let p = DocStr::multiline(vec!["a", "b"]).prefixed("# ");
    assert_eq!(lines(p), vec!["# a", "# b"]);
}

#[test]
fn attach_right_is_not_commutative() {
    let ab = DocStr::line("a").attach_right(DocStr::line("b"));
    let ba = DocStr::line("b").attach_right(DocStr::line("a"));
    assert_eq!(ab.to_string(), "a b");
    assert_eq!(ba.to_string(), "b a");
    assert_ne!(ab.to_string(), ba.to_string());
}

#[test]
fn attach_single_to_stack_pads_continuation() {
    let r = DocStr::line("x").attach_right(DocStr::multiline(vec!["y", "z"]));
    assert!(!is_single(&r));
    assert_eq!(lines(r), vec!["x y", "  z"]);
    let r = DocStr::line("key").attach_right(DocStr::multiline(vec!["c1", "c2", "c3"]));
    assert_eq!(lines(r), vec!["key c1", "    c2", "    c3"]);
}

#[test]
fn attach_single_to_short_stacks() {
    let r = DocStr::line("x").attach_right(DocStr::multiline(vec![]));
    assert!(is_single(&r));
    assert_eq!(r.to_string(), "x");
    let r = DocStr::line("x").attach_right(DocStr::multiline(vec!["y"]));
    assert!(is_single(&r));
    assert_eq!(r.to_string(), "x y");
}

#[test]
fn attach_stack_to_single() {
    let r = DocStr::multiline(vec![]).attach_right(DocStr::line("r"));
    assert!(is_single(&r));
    assert_eq!(r.to_string(), "r");
    let r = DocStr::multiline(vec!["l"]).attach_right(DocStr::line("r"));
    assert!(is_single(&r));
    assert_eq!(r.to_string(), "l r");
    let r = DocStr::multiline(vec!["a", "b", "c"]).attach_right(DocStr::line("r"));
    assert_eq!(lines(r), vec!["a r", "b", "c"]);
}

#[test]
fn attach_stacks_of_equal_height() {
    let r = DocStr::multiline(vec!["a", "bb"]).attach_right(DocStr::multiline(vec!["1", "2"]));
    assert_eq!(lines(r), vec!["a 1", "bb 2"]);
    let r = DocStr::multiline(vec!["a"]).attach_right(DocStr::multiline(vec!["1"]));
    assert!(is_single(&r));
    assert_eq!(r.to_string(), "a 1");
}

#[test]
fn attach_taller_left_stack_leaves_rest_unpadded() {
    let r = DocStr::multiline(vec!["a", "b", "c"]).attach_right(DocStr::multiline(vec!["1"]));
    assert_eq!(lines(r), vec!["a 1", "b", "c"]);
}

#[test]
fn attach_taller_right_stack_pads_to_widest_left_line() {
    let r = DocStr::multiline(vec!["ab", "abcd"])
        .attach_right(DocStr::multiline(vec!["1", "2", "3", "4"]));
    assert_eq!(lines(r), vec!["ab 1", "abcd 2", "     3", "     4"]);
}

#[test]
fn attach_empty_stacks() {
    let r = DocStr::multiline(vec![]).attach_right(DocStr::multiline(vec![]));
    assert!(is_single(&r));
    assert_eq!(r.to_string(), "");
    let r = DocStr::multiline(vec![]).attach_right(DocStr::multiline(vec!["1", "2"]));
    assert_eq!(lines(r), vec!["1", "2"]);
    let r = DocStr::multiline(vec!["a", "b"]).attach_right(DocStr::multiline(vec![]));
    assert_eq!(lines(r), vec!["a", "b"]);
}

#[test]
fn multiline_iter_takes_owned_lines() {
    let d = DocStr::multiline_iter(vec![String::from("p"), String::from("q")]);
    assert_eq!(d.to_string(), "p\nq");
}

