use autofmt::writer::{fits, format_with, is_supported, write_node};
use autofmt::{
    fmt_block, write_ident, Attribute, Expression, Field, FieldContent, FormatError,
    FormatOptions, Node,
};

fn s(text: &str) -> String {
    text.to_string()
}

fn expr(text: &str) -> Expression {
    Expression { rendered: s(text) }
}

fn element(name: &str, key: Option<&str>, attributes: Vec<Attribute>, children: Vec<Node>) -> Node {
    Node::Element { name: s(name), key: key.map(s), attributes, children }
}

fn static_text(name: &str, value: &str) -> Attribute {
    Attribute::StaticText { name: s(name), value: s(value) }
}

fn written(node: &Node, indent: usize) -> String {
    let mut buf = String::new();
    write_ident(&mut buf, node, indent).unwrap();
    buf
}

#[test]
fn end_to_end_example() {
    let tree = vec![element(
        "div",
        None,
        vec![static_text("class", "box")],
        vec![Node::Text { value: s("hi") }],
    )];
    let expected = "div {\n    class: \"box\",\n    \"hi\"\n}\n";
    assert_eq!(fmt_block(&tree), Some(s(expected)));
    assert_eq!(autofmt::writer::format(&tree, 0), Ok(s(expected)));
}

#[test]
fn empty_element_is_two_lines() {
    let node = element("div", None, vec![], vec![]);
    assert_eq!(written(&node, 0), "div {\n}\n");
    assert_eq!(written(&node, 2), "        div {\n        }\n");
}

#[test]
fn empty_component_is_two_lines() {
    let node =
        Node::Component { name: s("Card"), fields: vec![], spread: None, children: vec![] };
    assert_eq!(written(&node, 0), "Card {\n}\n");
}

#[test]
fn key_comes_first_with_comma_when_attributes_follow() {
    let node = element("li", Some("item-1"), vec![static_text("class", "row")], vec![]);
    assert_eq!(written(&node, 0), "li {\n    key: \"item-1\",\n    class: \"row\",\n}\n");
}

#[test]
fn key_alone_has_no_comma() {
    let node = element("li", Some("item-1"), vec![], vec![]);
    assert_eq!(written(&node, 0), "li {\n    key: \"item-1\"\n}\n");
}

#[test]
fn key_alone_before_children_has_no_comma() {
    let node = element("li", Some("k"), vec![], vec![Node::Text { value: s("x") }]);
    assert_eq!(written(&node, 0), "li {\n    key: \"k\"\n    \"x\"\n}\n");
}

#[test]
fn key_before_an_annotation_has_a_comma() {
    let node = element("li", Some("k"), vec![Attribute::Meta { text: s("#[doc]") }], vec![]);
    assert_eq!(written(&node, 0), "li {\n    key: \"k\",\n}\n");
}

#[test]
fn attributes_keep_their_order() {
    let node = element(
        "a",
        None,
        vec![
            static_text("z", "1"),
            Attribute::DynamicExpression { name: s("a"), value: expr("x + 1") },
            static_text("m", "2"),
            static_text("z", "3"),
        ],
        vec![],
    );
    assert_eq!(
        written(&node, 0),
        "a {\n    z: \"1\",\n    a: x + 1,\n    m: \"2\",\n    z: \"3\",\n}\n"
    );
}

#[test]
fn children_keep_their_order_and_are_not_merged() {
    let node = element(
        "ul",
        None,
        vec![],
        vec![
            Node::Text { value: s("b") },
            Node::Text { value: s("a") },
            Node::Text { value: s("b") },
        ],
    );
    assert_eq!(written(&node, 0), "ul {\n    \"b\"\n    \"a\"\n    \"b\"\n}\n");
}

#[test]
fn multi_line_expression_is_moved_to_the_attribute_depth() {
    let node = element(
        "div",
        None,
        vec![Attribute::DynamicExpression { name: s("name"), value: expr("foo(\n  bar,\n)") }],
        vec![],
    );
    assert_eq!(written(&node, 0), "div {\n    name: foo(\n      bar,\n    ),\n}\n");
}

#[test]
fn event_handler_lines_follow_the_attribute() {
    let node = element(
        "button",
        None,
        vec![Attribute::EventHandler {
            name: s("onclick"),
            value: expr("move |_| {\n    count += 1;\n}"),
        }],
        vec![],
    );
    assert_eq!(
        written(&node, 1),
        "    button {\n        onclick: move |_| {\n            count += 1;\n        },\n    }\n"
    );
}

#[test]
fn single_line_event_handler_ends_with_a_comma() {
    let node = element(
        "button",
        None,
        vec![Attribute::EventHandler { name: s("onclick"), value: expr("handler") }],
        vec![],
    );
    assert_eq!(written(&node, 0), "button {\n    onclick: handler,\n}\n");
}

#[test]
fn annotation_among_attributes_writes_nothing() {
    let node = element(
        "div",
        None,
        vec![
            static_text("a", "1"),
            Attribute::Meta { text: s("#[allow(x)]") },
            static_text("b", "2"),
        ],
        vec![],
    );
    assert_eq!(written(&node, 0), "div {\n    a: \"1\",\n    b: \"2\",\n}\n");
}

#[test]
fn text_is_quoted_and_not_escaped() {
    assert_eq!(written(&Node::Text { value: s("say \"hi\"") }, 1), "    \"say \"hi\"\"\n");
}

#[test]
fn raw_expression_writes_nothing() {
    assert_eq!(written(&Node::RawExpression { value: expr("a + b") }, 3), "");
    let node = element("div", None, vec![], vec![Node::RawExpression { value: expr("x") }]);
    assert_eq!(written(&node, 0), "div {\n}\n");
}

#[test]
fn annotation_node_is_written_as_it_stands() {
    assert_eq!(written(&Node::Meta { text: s("#[doc = \"x\"]") }, 1), "    #[doc = \"x\"]\n");
}

#[test]
fn component_writes_fields_then_spread_then_children() {
    let node = Node::Component {
        name: s("ui :: Card"),
        fields: vec![
            Field { name: s("title"), content: FieldContent::FormattedLiteral(s("Hello")) },
            Field { name: s("count"), content: FieldContent::ExpressionValue(expr("n + 1")) },
            Field {
                name: s("onclose"),
                content: FieldContent::HandlerRaw(expr("move |_| {\n    close();\n}")),
            },
        ],
        spread: Some(expr("Props {\n    a: 1,\n}")),
        children: vec![Node::Text { value: s("body") }],
    };
    let expected = "ui :: Card {\n    title: \"Hello\",\n    count: n + 1,\n    onclose: move |_| {\n        close();\n    },\n    ..Props {\n        a: 1,\n    }\n    \"body\"\n}\n";
    assert_eq!(written(&node, 0), expected);
}

#[test]
fn formatted_literal_is_quoted_and_not_escaped() {
    let node = Node::Component {
        name: s("C"),
        fields: vec![Field { name: s("v"), content: FieldContent::FormattedLiteral(s("a \"b\"")) }],
        spread: None,
        children: vec![],
    };
    assert_eq!(written(&node, 0), "C {\n    v: \"a \"b\"\",\n}\n");
}

#[test]
fn single_line_spread_has_no_comma() {
    let node = Node::Component {
        name: s("C"),
        fields: vec![],
        spread: Some(expr("props")),
        children: vec![],
    };
    assert_eq!(written(&node, 1), "    C {\n        ..props\n    }\n");
}

#[test]
fn nested_blocks_go_one_level_deeper_each() {
    let node = element(
        "a",
        None,
        vec![],
        vec![element("b", None, vec![], vec![element("c", None, vec![static_text("x", "y")], vec![])])],
    );
    assert_eq!(
        written(&node, 0),
        "a {\n    b {\n        c {\n            x: \"y\",\n        }\n    }\n}\n"
    );
}

#[test]
fn custom_static_text_is_unsupported() {
    let node = element(
        "div",
        None,
        vec![static_text("a", "1"), Attribute::CustomStaticText { name: expr("\"data-x\""), value: s("1") }],
        vec![],
    );
    let mut buf = s("kept");
    assert_eq!(write_ident(&mut buf, &node, 0), Err(FormatError::UnsupportedConstruct));
    assert_eq!(buf, "kept");
    assert!(!is_supported(&node));
    assert_eq!(fmt_block(&vec![node]), None);
}

#[test]
fn custom_dynamic_expression_is_unsupported_at_any_depth() {
    let inner = element(
        "span",
        None,
        vec![Attribute::CustomDynamicExpression { name: expr("\"data-y\""), value: expr("v") }],
        vec![],
    );
    let node = Node::Component {
        name: s("Wrap"),
        fields: vec![],
        spread: None,
        children: vec![Node::Text { value: s("t") }, inner],
    };
    let roots = vec![Node::Text { value: s("first") }, node];
    assert_eq!(autofmt::writer::format(&roots, 0), Err(FormatError::UnsupportedConstruct));
}

#[test]
fn nesting_beyond_the_counter_is_a_write_failure() {
    let node = element("div", None, vec![], vec![]);
    let mut buf = s("kept");
    assert_eq!(write_ident(&mut buf, &node, usize::MAX), Err(FormatError::WriteFailure));
    assert_eq!(buf, "kept");
    assert!(!fits(&node, usize::MAX));
    assert!(fits(&node, usize::MAX - 1));
    let nested = element("a", None, vec![], vec![element("b", None, vec![], vec![])]);
    assert!(!fits(&nested, usize::MAX - 1));
    assert!(fits(&nested, usize::MAX - 2));
    assert!(fits(&Node::Text { value: s("t") }, usize::MAX));
}

#[test]
fn unsupported_is_reported_before_write_failure() {
    let node = element(
        "div",
        None,
        vec![Attribute::CustomStaticText { name: expr("n"), value: s("v") }],
        vec![],
    );
    let mut buf = String::new();
    assert_eq!(write_ident(&mut buf, &node, usize::MAX), Err(FormatError::UnsupportedConstruct));
}

#[test]
fn write_ident_appends_to_what_the_buffer_holds() {
    let mut buf = s("// head\n");
    write_ident(&mut buf, &Node::Text { value: s("a") }, 0).unwrap();
    write_ident(&mut buf, &Node::Text { value: s("b") }, 1).unwrap();
    assert_eq!(buf, "// head\n\"a\"\n    \"b\"\n");
}

#[test]
fn roots_are_written_one_after_the_other_at_the_base_indent() {
    let roots = vec![
        element("div", None, vec![], vec![]),
        Node::Text { value: s("t") },
        Node::RawExpression { value: expr("x") },
        Node::Meta { text: s("#[m]") },
    ];
    assert_eq!(
        autofmt::writer::format(&roots, 1),
        Ok(s("    div {\n    }\n    \"t\"\n    #[m]\n"))
    );
    assert_eq!(autofmt::writer::format(&vec![], 0), Ok(String::new()));
    assert_eq!(fmt_block(&vec![]), Some(String::new()));
}

#[test]
fn indent_width_can_be_chosen() {
    let node = element(
        "div",
        None,
        vec![Attribute::EventHandler { name: s("on"), value: expr("f(\n a,\n)") }],
        vec![Node::Text { value: s("t") }],
    );
    let two = FormatOptions { indent_width: 2 };
    assert_eq!(
        format_with(&vec![element("x", None, vec![], vec![node])], 0, &two),
        Ok(s("x {\n  div {\n    on: f(\n     a,\n    ),\n    \"t\"\n  }\n}\n"))
    );
    let node = element("p", None, vec![static_text("a", "b")], vec![]);
    let mut buf = String::new();
    write_node(&mut buf, &node, 1, &FormatOptions { indent_width: 0 }).unwrap();
    assert_eq!(buf, "p {\na: \"b\",\n}\n");
    assert_eq!(FormatOptions::default().indent_width, 4);
    assert_eq!(autofmt::indent::INDENT_WIDTH, 4);
}

#[test]
fn formatting_twice_gives_the_same_text() {
    let roots = vec![element(
        "div",
        Some("k"),
        vec![Attribute::EventHandler { name: s("onclick"), value: expr("move |_| {\n    go();\n}") }],
        vec![Node::Text { value: s("hi") }],
    )];
    assert_eq!(fmt_block(&roots), fmt_block(&roots));
}

#[test]
fn every_line_starts_at_its_depth_or_deeper() {
    let node = element(
        "div",
        Some("k"),
        vec![
            static_text("class", "box"),
            Attribute::EventHandler { name: s("onclick"), value: expr("move |_| {\n    go();\n}") },
        ],
        vec![
            Node::Text { value: s("hi") },
            Node::Component {
                name: s("Card"),
                fields: vec![Field { name: s("n"), content: FieldContent::ExpressionValue(expr("1")) }],
                spread: Some(expr("rest(\n)")),
                children: vec![Node::Meta { text: s("#[m]") }],
            },
        ],
    );
    let text = written(&node, 2);
    assert!(text.ends_with("        }\n"));
    let all: Vec<&str> = text.lines().collect();
    assert_eq!(all.first(), Some(&"        div {"));
    assert_eq!(all.last(), Some(&"        }"));
    for line in &all[1..all.len() - 1] {
        assert!(line.starts_with("            "), "{line:?}");
    }
    assert_eq!(all[1], "            key: \"k\",");
    assert_eq!(all[2], "            class: \"box\",");
    assert_eq!(all[4], "                go();");
    assert_eq!(all[5], "            },");
}
