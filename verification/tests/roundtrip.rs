use autofmt::{fmt_block, Attribute, Field, FieldContent, Node};
use dioxus_rsx::{BodyNode, CallBody, ContentField, ElementAttr, IfmtInput};
use quote::ToTokens;

fn s(text: &str) -> String {
    text.to_string()
}

fn literal(input: &IfmtInput) -> String {
    input.source.as_ref().map(|lit| lit.value()).unwrap_or_default()
}

// Reads back a tree of elements and components with literal values and text.
fn read(body: &BodyNode) -> Node {
    match body {
        BodyNode::Element(el) => Node::Element {
            name: el.name.to_string(),
            key: el.key.as_ref().map(literal),
            attributes: el
                .attributes
                .iter()
                .map(|named| match &named.attr {
                    ElementAttr::AttrText { name, value } => {
                        Attribute::StaticText { name: name.to_string(), value: literal(value) }
                    }
                    _ => panic!("only literal attributes are read back here"),
                })
                .collect(),
            children: el.children.iter().map(read).collect(),
        },
        BodyNode::Component(component) => Node::Component {
            name: component.name.to_token_stream().to_string(),
            fields: component
                .fields
                .iter()
                .map(|field| match &field.content {
                    ContentField::Formatted(value) => Field {
                        name: field.name.to_string(),
                        content: FieldContent::FormattedLiteral(literal(value)),
                    },
                    _ => panic!("only literal fields are read back here"),
                })
                .collect(),
            spread: None,
            children: component.children.iter().map(read).collect(),
        },
        BodyNode::Text(text) => Node::Text { value: literal(text) },
        _ => panic!("only elements, components and text are read back here"),
    }
}

fn parse(text: &str) -> Vec<Node> {
    let body: CallBody = syn::parse_str(text).expect("the text parses");
    body.roots.iter().map(read).collect()
}

#[test]
fn formatted_text_parses_back_to_the_same_tree_and_text() {
    let tree = vec![
        Node::Element {
            name: s("div"),
            key: Some(s("root")),
            attributes: vec![
                Attribute::StaticText { name: s("class"), value: s("box") },
                Attribute::StaticText { name: s("id"), value: s("main") },
            ],
            children: vec![
                Node::Text { value: s("hi") },
                Node::Element {
                    name: s("span"),
                    key: None,
                    attributes: vec![],
                    children: vec![Node::Text { value: s("there") }],
                },
            ],
        },
        Node::Element { name: s("p"), key: None, attributes: vec![], children: vec![] },
    ];
    let once = fmt_block(&tree).unwrap();
    let back = parse(&once);
    assert_eq!(back, tree);
    let twice = fmt_block(&back).unwrap();
    assert_eq!(twice, once);
}

#[test]
fn unformatted_text_settles_after_one_pass() {
    let loose = parse("div { class: \"a\", \"x\" span { \"y\" } }");
    let once = fmt_block(&loose).unwrap();
    assert_eq!(once, "div {\n    class: \"a\",\n    \"x\"\n    span {\n        \"y\"\n    }\n}\n");
    assert_eq!(fmt_block(&parse(&once)).unwrap(), once);
}

#[test]
fn component_with_a_literal_field_parses_back() {
    let tree = vec![Node::Component {
        name: s("Card"),
        fields: vec![Field { name: s("title"), content: FieldContent::FormattedLiteral(s("Hello {name}")) }],
        spread: None,
        children: vec![Node::Text { value: s("body") }],
    }];
    let once = fmt_block(&tree).unwrap();
    assert_eq!(once, "Card {\n    title: \"Hello {name}\",\n    \"body\"\n}\n");
    let back = parse(&once);
    assert_eq!(back, tree);
    assert_eq!(fmt_block(&back).unwrap(), once);
}
