//! What holds of the text of every tree.
use vstd::prelude::*;
use crate::error::FormatError;
use crate::indent::indentation;
use crate::layout::{
    indented, lemma_block_padded, lemma_indented_concat, lemma_indented_less,
    lemma_indented_line, lemma_lines_single, lemma_single_line_concat, padded, single_line,
};
use crate::render::{
    attribute_supported, attribute_text, attributes_text, closing_line, expression_line,
    field_text, fields_text, interior_text, key_line, key_text, literal_line, node_text,
    nodes_text, opening_line, spread_line, spread_text, supported, verdict,
};
use crate::text::{lemma_block_push, lines, reindented};
use crate::tree::{AttributeView, FieldContentView, FieldView, NodeView};

verus! {

/// The attributes are written in the order given: the text of a list is the
/// text of its front part, then the text of the rest.
pub proof fn law_attributes_in_order(
    front: Seq<AttributeView>,
    back: Seq<AttributeView>,
    depth: nat,
    width: nat,
)
    ensures
        attributes_text(front + back, depth, width) == attributes_text(front, depth, width)
            + attributes_text(back, depth, width),
    decreases back.len(),
{
    if back.len() == 0 {
        assert(front + back =~= front);
        assert(attributes_text(front, depth, width) + Seq::<char>::empty() =~= attributes_text(
            front,
            depth,
            width,
        ));
    } else {
        law_attributes_in_order(front, back.drop_last(), depth, width);
        assert((front + back).drop_last() =~= front + back.drop_last());
        assert((front + back).last() == back.last());
        assert(attributes_text(front + back, depth, width) =~= attributes_text(
            front,
            depth,
            width,
        ) + attributes_text(back, depth, width));
    }
}

/// Where each attribute stands: the text of the attribute at `i` lies in the
/// text of the list right behind the text of the attributes before it, so of
/// two attributes the earlier one is written, whole, before the later one.
pub proof fn law_attribute_position(
    attributes: Seq<AttributeView>,
    i: int,
    j: int,
    depth: nat,
    width: nat,
)
    requires
        0 <= i < j < attributes.len(),
    ensures
        ({
            let all = attributes_text(attributes, depth, width);
            let at_i = attributes_text(attributes.take(i), depth, width).len();
            let at_j = attributes_text(attributes.take(j), depth, width).len();
            let text_i = attribute_text(attributes[i], depth, width);
            let text_j = attribute_text(attributes[j], depth, width);
            &&& at_i + text_i.len() <= at_j
            &&& at_j + text_j.len() <= all.len()
            &&& all.subrange(at_i as int, (at_i + text_i.len()) as int) == text_i
            &&& all.subrange(at_j as int, (at_j + text_j.len()) as int) == text_j
        }),
{
    let all = attributes_text(attributes, depth, width);
    let upto_i = attributes_text(attributes.take(i), depth, width);
    let upto_j = attributes_text(attributes.take(j), depth, width);
    let text_i = attribute_text(attributes[i], depth, width);
    let text_j = attribute_text(attributes[j], depth, width);
    let one_i = seq![attributes[i]];
    let one_j = seq![attributes[j]];
    assert(attributes_text(one_i.drop_last(), depth, width) =~= Seq::<char>::empty());
    assert(attributes_text(one_j.drop_last(), depth, width) =~= Seq::<char>::empty());
    assert(one_i.last() == attributes[i] && one_j.last() == attributes[j]);
    assert(attributes_text(one_i, depth, width) =~= text_i);
    assert(attributes_text(one_j, depth, width) =~= text_j);
    // The list up to and with `i`, then the attributes between, make the list up to `j`.
    let between = attributes.subrange(i + 1, j);
    assert(attributes.take(j) =~= attributes.take(i) + one_i + between);
    law_attributes_in_order(attributes.take(i), one_i, depth, width);
    law_attributes_in_order(attributes.take(i) + one_i, between, depth, width);
    let rest = attributes.skip(j + 1);
    assert(attributes =~= attributes.take(j) + one_j + rest);
    law_attributes_in_order(attributes.take(j), one_j, depth, width);
    law_attributes_in_order(attributes.take(j) + one_j, rest, depth, width);
    let between_text = attributes_text(between, depth, width);
    let rest_text = attributes_text(rest, depth, width);
    assert(upto_j == upto_i + text_i + between_text);
    assert(all == upto_j + text_j + rest_text);
    assert(all.subrange(upto_i.len() as int, (upto_i.len() + text_i.len()) as int) =~= text_i);
    assert(all.subrange(upto_j.len() as int, (upto_j.len() + text_j.len()) as int) =~= text_j);
}

/// The fields are written in the order given.
pub proof fn law_fields_in_order(
    front: Seq<FieldView>,
    back: Seq<FieldView>,
    depth: nat,
    width: nat,
)
    ensures
        fields_text(front + back, depth, width) == fields_text(front, depth, width) + fields_text(
            back,
            depth,
            width,
        ),
    decreases back.len(),
{
    if back.len() == 0 {
        assert(front + back =~= front);
        assert(fields_text(front, depth, width) + Seq::<char>::empty() =~= fields_text(
            front,
            depth,
            width,
        ));
    } else {
        law_fields_in_order(front, back.drop_last(), depth, width);
        assert((front + back).drop_last() =~= front + back.drop_last());
        assert((front + back).last() == back.last());
        assert(fields_text(front + back, depth, width) =~= fields_text(front, depth, width)
            + fields_text(back, depth, width));
    }
}

/// Children and roots are written in the order given.
pub proof fn law_nodes_in_order(
    front: Seq<NodeView>,
    back: Seq<NodeView>,
    depth: nat,
    width: nat,
)
    ensures
        nodes_text(front + back, depth, width) == nodes_text(front, depth, width) + nodes_text(
            back,
            depth,
            width,
        ),
    decreases back.len(),
{
    if back.len() == 0 {
        assert(front + back =~= front);
        assert(nodes_text(front, depth, width) + Seq::<char>::empty() =~= nodes_text(
            front,
            depth,
            width,
        ));
    } else {
        law_nodes_in_order(front, back.drop_last(), depth, width);
        assert((front + back).drop_last() =~= front + back.drop_last());
        assert((front + back).last() == back.last());
        assert(nodes_text(front + back, depth, width) =~= nodes_text(front, depth, width)
            + nodes_text(back, depth, width));
    }
}

/// The key comes first: the text of an element with a key is its opening
/// line, then the key's line one level deeper, then everything else. The
/// key's line ends with a comma if and only if the element has attributes.
pub proof fn law_key_first(
    name: Seq<char>,
    key: Seq<char>,
    attributes: Seq<AttributeView>,
    children: Seq<NodeView>,
    depth: nat,
    width: nat,
)
    ensures
        ({
            let node = NodeView::Element { name, key: Some(key), attributes, children };
            let rest = attributes_text(attributes, depth + 1, width) + nodes_text(
                children,
                depth + 1,
                width,
            ) + closing_line(depth, width);
            node_text(node, depth, width) == opening_line(name, depth, width) + key_line(
                key,
                attributes.len() > 0,
                depth + 1,
                width,
            ) + rest
        }),
        key_line(key, attributes.len() > 0, depth + 1, width) == indentation(depth + 1, width)
            + "key: \""@ + key + "\""@ + if attributes.len() > 0 {
            ",\n"@
        } else {
            "\n"@
        },
{
    let node = NodeView::Element { name, key: Some(key), attributes, children };
    let first = opening_line(name, depth, width);
    let second = key_line(key, attributes.len() > 0, depth + 1, width);
    let third = attributes_text(attributes, depth + 1, width);
    let fourth = nodes_text(children, depth + 1, width);
    let last = closing_line(depth, width);
    assert(interior_text(node, depth + 1, width) == second + third + fourth);
    assert(node_text(node, depth, width) == first + (second + third + fourth) + last);
    assert(first + (second + third + fourth) + last =~= first + second + (third + fourth + last));
}

/// An element with no key, no attributes and no children is two lines: its
/// name with the opening brace, and the closing brace at the same depth.
pub proof fn law_empty_element(name: Seq<char>, depth: nat, width: nat)
    ensures
        node_text(
            NodeView::Element { name, key: None, attributes: Seq::empty(), children: Seq::empty() },
            depth,
            width,
        ) == indentation(depth, width) + name + " {\n"@ + (indentation(depth, width) + "}\n"@),
{
    let node = NodeView::Element {
        name,
        key: None,
        attributes: Seq::empty(),
        children: Seq::empty(),
    };
    assert(interior_text(node, depth + 1, width) =~= Seq::<char>::empty());
    assert(node_text(node, depth, width) =~= opening_line(name, depth, width) + closing_line(
        depth,
        width,
    ));
}

/// A component with no fields, no spread and no children is two lines too.
pub proof fn law_empty_component(name: Seq<char>, depth: nat, width: nat)
    ensures
        node_text(
            NodeView::Component { name, fields: Seq::empty(), spread: None, children: Seq::empty() },
            depth,
            width,
        ) == indentation(depth, width) + name + " {\n"@ + (indentation(depth, width) + "}\n"@),
{
    let node = NodeView::Component {
        name,
        fields: Seq::empty(),
        spread: None,
        children: Seq::empty(),
    };
    assert(interior_text(node, depth + 1, width) =~= Seq::<char>::empty());
    assert(node_text(node, depth, width) =~= opening_line(name, depth, width) + closing_line(
        depth,
        width,
    ));
}

/// An element that holds an attribute whose name is an expression is not
/// written, at any depth: the verdict on it is that it is not supported.
pub proof fn law_custom_attribute_unsupported(node: NodeView, i: int, depth: nat)
    requires
        node is Element,
        0 <= i < node->Element_attributes.len(),
        node->Element_attributes[i] is CustomStaticText
            || node->Element_attributes[i] is CustomDynamicExpression,
    ensures
        !supported(node),
        verdict(node, depth) == Err::<(), FormatError>(FormatError::UnsupportedConstruct),
{
    assert(!attribute_supported(node->Element_attributes[i]));
}

/// A node with a child that is not supported is not supported itself: one
/// unsupported attribute, however deep, fails the whole tree.
pub proof fn law_unsupported_child(node: NodeView, i: int, depth: nat)
    requires
        node is Element || node is Component,
        ({
            let children = if node is Element {
                node->Element_children
            } else {
                node->Component_children
            };
            0 <= i < children.len() && !supported(children[i])
        }),
    ensures
        !supported(node),
        verdict(node, depth) == Err::<(), FormatError>(FormatError::UnsupportedConstruct),
{
}

/// Whether the attribute's name and literal value hold no line feed. The
/// text of an expression may hold any.
pub open spec fn attribute_plain(attribute: AttributeView) -> bool {
    match attribute {
        AttributeView::StaticText { name, value } => single_line(name) && single_line(value),
        AttributeView::DynamicExpression { name, .. } => single_line(name),
        AttributeView::EventHandler { name, .. } => single_line(name),
        _ => true,
    }
}

/// Whether the field's name and literal value hold no line feed.
pub open spec fn field_plain(field: FieldView) -> bool {
    &&& single_line(field.name)
    &&& field.content matches FieldContentView::FormattedLiteral(value) ==> single_line(value)
}

/// Whether no name, key, literal or annotation in `node` holds a line feed.
/// Only the text of an expression may span lines.
pub open spec fn plain(node: NodeView) -> bool
    decreases node,
{
    match node {
        NodeView::Element { name, key, attributes, children } => {
            &&& single_line(name)
            &&& key matches Some(k) ==> single_line(k)
            &&& forall|i: int| 0 <= i < attributes.len() ==> attribute_plain(#[trigger] attributes[i])
            &&& forall|i: int| 0 <= i < children.len() ==> plain(#[trigger] children[i])
        },
        NodeView::Component { name, fields, children, .. } => {
            &&& single_line(name)
            &&& forall|i: int| 0 <= i < fields.len() ==> field_plain(#[trigger] fields[i])
            &&& forall|i: int| 0 <= i < children.len() ==> plain(#[trigger] children[i])
        },
        NodeView::Text { value } => single_line(value),
        NodeView::RawExpression { .. } => true,
        NodeView::Meta { text } => single_line(text),
    }
}

/// At the left margin nothing moves: where the indentation is empty, the text
/// of an expression is written as it stands.
pub proof fn law_reindented_at_margin(value: Seq<char>, depth: nat, width: nat)
    requires
        depth == 0 || width == 0,
    ensures
        reindented(value, depth, width) == value,
    decreases value.len(),
{
    let pad = indentation(depth, width);
    assert(depth * width == 0) by (nonlinear_arith)
        requires
            depth == 0 || width == 0,
    ;
    assert(pad =~= Seq::<char>::empty());
    if value.len() == 0 {
        assert(reindented(value, depth, width) =~= value);
    } else {
        let front = value.drop_last();
        law_reindented_at_margin(front, depth, width);
        assert(value =~= front.push(value.last()));
        lemma_block_push(front, value.last(), pad);
        assert(reindented(value, depth, width) =~= value);
    }
}

/// The text of an expression, moved to `depth`, has the indentation of
/// `depth` behind each of its line feeds.
pub proof fn lemma_reindented_padded(value: Seq<char>, depth: nat, width: nat)
    ensures
        padded(reindented(value, depth, width), depth * width),
{
    lemma_lines_single(value);
    lemma_block_padded(lines(value), depth, width);
}

proof fn lemma_literal_line_indented(name: Seq<char>, value: Seq<char>, depth: nat, width: nat)
    requires
        single_line(name),
        single_line(value),
    ensures
        indented(literal_line(name, value, depth, width), depth * width),
{
    reveal_strlit(": \"");
    reveal_strlit("\",\n");
    let middle = name + ": \""@ + value;
    lemma_single_line_concat(name, ": \""@);
    lemma_single_line_concat(name + ": \""@, value);
    lemma_indented_line(depth, width, middle, Seq::empty(), "\",\n"@);
    assert(literal_line(name, value, depth, width) =~= indentation(depth, width) + middle
        + Seq::<char>::empty() + "\",\n"@);
}

proof fn lemma_expression_line_indented(name: Seq<char>, value: Seq<char>, depth: nat, width: nat)
    requires
        single_line(name),
    ensures
        indented(expression_line(name, value, depth, width), depth * width),
{
    reveal_strlit(": ");
    reveal_strlit(",\n");
    let middle = name + ": "@;
    lemma_single_line_concat(name, ": "@);
    lemma_reindented_padded(value, depth, width);
    lemma_indented_line(depth, width, middle, reindented(value, depth, width), ",\n"@);
    assert(expression_line(name, value, depth, width) =~= indentation(depth, width) + middle
        + reindented(value, depth, width) + ",\n"@);
}

proof fn lemma_spread_line_indented(value: Seq<char>, depth: nat, width: nat)
    ensures
        indented(spread_line(value, depth, width), depth * width),
{
    reveal_strlit("..");
    reveal_strlit("\n");
    lemma_reindented_padded(value, depth, width);
    lemma_indented_line(depth, width, ".."@, reindented(value, depth, width), "\n"@);
}

proof fn lemma_key_line_indented(key: Seq<char>, more: bool, depth: nat, width: nat)
    requires
        single_line(key),
    ensures
        indented(key_line(key, more, depth, width), depth * width),
{
    reveal_strlit("key: \"");
    reveal_strlit("\"");
    reveal_strlit(",\n");
    reveal_strlit("\n");
    let middle = "key: \""@ + key + "\""@;
    lemma_single_line_concat("key: \""@, key);
    lemma_single_line_concat("key: \""@ + key, "\""@);
    let tail = if more {
        ",\n"@
    } else {
        "\n"@
    };
    lemma_indented_line(depth, width, middle, Seq::empty(), tail);
    assert(key_line(key, more, depth, width) =~= indentation(depth, width) + middle + Seq::<
        char,
    >::empty() + tail);
}

proof fn lemma_opening_line_indented(name: Seq<char>, depth: nat, width: nat)
    requires
        single_line(name),
    ensures
        indented(opening_line(name, depth, width), depth * width),
{
    reveal_strlit(" {\n");
    lemma_indented_line(depth, width, name, Seq::empty(), " {\n"@);
    assert(opening_line(name, depth, width) =~= indentation(depth, width) + name + Seq::<
        char,
    >::empty() + " {\n"@);
}

proof fn lemma_closing_line_indented(depth: nat, width: nat)
    ensures
        indented(closing_line(depth, width), depth * width),
{
    reveal_strlit("}\n");
    lemma_indented_line(depth, width, Seq::empty(), Seq::empty(), "}\n"@);
    assert(closing_line(depth, width) =~= indentation(depth, width) + Seq::<char>::empty() + Seq::<
        char,
    >::empty() + "}\n"@);
}

proof fn lemma_attributes_indented(attributes: Seq<AttributeView>, depth: nat, width: nat)
    requires
        forall|i: int| 0 <= i < attributes.len() ==> attribute_plain(#[trigger] attributes[i]),
    ensures
        indented(attributes_text(attributes, depth, width), depth * width),
    decreases attributes.len(),
{
    if attributes.len() > 0 {
        let front = attributes.drop_last();
        assert forall|i: int| 0 <= i < front.len() implies attribute_plain(#[trigger] front[i]) by {
            assert(front[i] == attributes[i]);
        }
        lemma_attributes_indented(front, depth, width);
        let last = attributes.last();
        assert(attribute_plain(attributes[attributes.len() - 1]));
        match last {
            AttributeView::StaticText { name, value } => {
                lemma_literal_line_indented(name, value, depth, width);
            },
            AttributeView::DynamicExpression { name, value } => {
                lemma_expression_line_indented(name, value, depth, width);
            },
            AttributeView::EventHandler { name, value } => {
                lemma_expression_line_indented(name, value, depth, width);
            },
            _ => {},
        }
        lemma_indented_concat(
            attributes_text(front, depth, width),
            attribute_text(last, depth, width),
            depth * width,
        );
    }
}

proof fn lemma_fields_indented(fields: Seq<FieldView>, depth: nat, width: nat)
    requires
        forall|i: int| 0 <= i < fields.len() ==> field_plain(#[trigger] fields[i]),
    ensures
        indented(fields_text(fields, depth, width), depth * width),
    decreases fields.len(),
{
    if fields.len() > 0 {
        let front = fields.drop_last();
        assert forall|i: int| 0 <= i < front.len() implies field_plain(#[trigger] front[i]) by {
            assert(front[i] == fields[i]);
        }
        lemma_fields_indented(front, depth, width);
        let last = fields.last();
        assert(field_plain(fields[fields.len() - 1]));
        match last.content {
            FieldContentView::ExpressionValue(value) => {
                lemma_expression_line_indented(last.name, value, depth, width);
            },
            FieldContentView::FormattedLiteral(value) => {
                lemma_literal_line_indented(last.name, value, depth, width);
            },
            FieldContentView::HandlerRaw(value) => {
                lemma_expression_line_indented(last.name, value, depth, width);
            },
        }
        lemma_indented_concat(
            fields_text(front, depth, width),
            field_text(last, depth, width),
            depth * width,
        );
    }
}

/// Every line of the texts of plain nodes at `depth` starts with the
/// indentation of `depth`.
pub proof fn law_nodes_indented(nodes: Seq<NodeView>, depth: nat, width: nat)
    requires
        forall|i: int| 0 <= i < nodes.len() ==> plain(#[trigger] nodes[i]),
    ensures
        indented(nodes_text(nodes, depth, width), depth * width),
    decreases nodes, 0nat,
{
    if nodes.len() > 0 {
        let front = nodes.drop_last();
        assert forall|i: int| 0 <= i < front.len() implies plain(#[trigger] front[i]) by {
            assert(front[i] == nodes[i]);
        }
        law_nodes_indented(front, depth, width);
        assert(plain(nodes[nodes.len() - 1]));
        law_lines_indented(nodes.last(), depth, width);
        lemma_indented_concat(
            nodes_text(front, depth, width),
            node_text(nodes.last(), depth, width),
            depth * width,
        );
    }
}

/// Depth in the text: where no name, key, literal or annotation of `node`
/// holds a line feed, the text of `node` at `depth` is made of whole lines
/// that each start with the indentation of `depth`; what stands between its
/// braces is made of whole lines that each start with the indentation of
/// `depth + 1`; and the text of an element or component is its opening
/// line, then those lines, then the closing brace on a line of its own at
/// exactly `depth`. A line may start with more spaces than its depth asks
/// for: the later lines of an expression keep the spaces they had.
pub proof fn law_lines_indented(node: NodeView, depth: nat, width: nat)
    requires
        plain(node),
    ensures
        indented(node_text(node, depth, width), depth * width),
        indented(interior_text(node, depth + 1, width), (depth + 1) * width),
        node is Element ==> node_text(node, depth, width) == opening_line(
            node->Element_name,
            depth,
            width,
        ) + interior_text(node, depth + 1, width) + (indentation(depth, width) + "}\n"@),
        node is Component ==> node_text(node, depth, width) == opening_line(
            node->Component_name,
            depth,
            width,
        ) + interior_text(node, depth + 1, width) + (indentation(depth, width) + "}\n"@),
    decreases node, 1nat,
{
    let n = depth * width;
    let deeper = (depth + 1) * width;
    assert(n <= deeper) by (nonlinear_arith)
        requires
            n == depth * width,
            deeper == (depth + 1) * width,
    ;
    match node {
        NodeView::Element { name, key, attributes, children } => {
            let key_part = key_text(key, attributes.len() > 0, depth + 1, width);
            let attributes_part = attributes_text(attributes, depth + 1, width);
            let children_part = nodes_text(children, depth + 1, width);
            match key {
                Some(k) => {
                    lemma_key_line_indented(k, attributes.len() > 0, depth + 1, width);
                },
                None => {},
            }
            lemma_attributes_indented(attributes, depth + 1, width);
            law_nodes_indented(children, depth + 1, width);
            lemma_indented_concat(key_part, attributes_part, deeper);
            lemma_indented_concat(key_part + attributes_part, children_part, deeper);
            let inside = interior_text(node, depth + 1, width);
            assert(inside == key_part + attributes_part + children_part);
            lemma_indented_less(inside, deeper, n);
            lemma_opening_line_indented(name, depth, width);
            lemma_closing_line_indented(depth, width);
            lemma_indented_concat(opening_line(name, depth, width), inside, n);
            lemma_indented_concat(
                opening_line(name, depth, width) + inside,
                closing_line(depth, width),
                n,
            );
        },
        NodeView::Component { name, fields, spread, children } => {
            let fields_part = fields_text(fields, depth + 1, width);
            let spread_part = spread_text(spread, depth + 1, width);
            let children_part = nodes_text(children, depth + 1, width);
            lemma_fields_indented(fields, depth + 1, width);
            match spread {
                Some(value) => {
                    lemma_spread_line_indented(value, depth + 1, width);
                },
                None => {},
            }
            law_nodes_indented(children, depth + 1, width);
            lemma_indented_concat(fields_part, spread_part, deeper);
            lemma_indented_concat(fields_part + spread_part, children_part, deeper);
            let inside = interior_text(node, depth + 1, width);
            assert(inside == fields_part + spread_part + children_part);
            lemma_indented_less(inside, deeper, n);
            lemma_opening_line_indented(name, depth, width);
            lemma_closing_line_indented(depth, width);
            lemma_indented_concat(opening_line(name, depth, width), inside, n);
            lemma_indented_concat(
                opening_line(name, depth, width) + inside,
                closing_line(depth, width),
                n,
            );
        },
        NodeView::Text { value } => {
            reveal_strlit("\"");
            reveal_strlit("\"\n");
            lemma_single_line_concat("\""@, value);
            lemma_indented_line(depth, width, "\""@ + value, Seq::empty(), "\"\n"@);
            assert(node_text(node, depth, width) =~= indentation(depth, width) + ("\""@ + value)
                + Seq::<char>::empty() + "\"\n"@);
        },
        NodeView::RawExpression { .. } => {},
        NodeView::Meta { text } => {
            reveal_strlit("\n");
            lemma_indented_line(depth, width, text, Seq::empty(), "\n"@);
            assert(node_text(node, depth, width) =~= indentation(depth, width) + text + Seq::<
                char,
            >::empty() + "\n"@);
        },
    }
}

} // verus!
