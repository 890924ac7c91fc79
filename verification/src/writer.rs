//! The writers: they append the text of a tree to a buffer.
use vstd::prelude::*;
use vstd::string::StringExecFns;
use crate::error::FormatError;
use crate::indent::{indentation, write_indent, INDENT_WIDTH};
use crate::options::FormatOptions;
use crate::render::{
    all_supported, attribute_supported, attribute_text, attributes_text, closing_line,
    expression_line, field_text, fields_text, forest_verdict, height, interior_text, key_line,
    key_text, lemma_max_height_covers, lemma_max_height_take, literal_line, max_height, node_text,
    nodes_text, opening_line, spread_line, spread_text, supported, verdict,
};
use crate::text::write_reindented;
use crate::tree::{
    attribute_views, field_views, lemma_children_view, node_views, Attribute, Field, FieldContent,
    Node, NodeView,
};

verus! {

/// Appends a name with a literal value in quotes.
fn write_literal_line(buf: &mut String, name: &str, value: &str, depth: usize, width: usize)
    ensures
        final(buf)@ == old(buf)@ + literal_line(name@, value@, depth as nat, width as nat),
{
    write_indent(buf, depth, width);
    buf.append(name);
    buf.append(": \"");
    buf.append(value);
    buf.append("\",\n");
    assert(buf@ =~= old(buf)@ + literal_line(name@, value@, depth as nat, width as nat));
}

/// Appends a name with the text of an expression, moved to `depth`.
fn write_expression_line(buf: &mut String, name: &str, value: &str, depth: usize, width: usize)
    ensures
        final(buf)@ == old(buf)@ + expression_line(name@, value@, depth as nat, width as nat),
{
    write_indent(buf, depth, width);
    buf.append(name);
    buf.append(": ");
    write_reindented(buf, value, depth, width);
    buf.append(",\n");
    assert(buf@ =~= old(buf)@ + expression_line(name@, value@, depth as nat, width as nat));
}

/// Appends the expression that supplies further properties.
fn write_spread_line(buf: &mut String, value: &str, depth: usize, width: usize)
    ensures
        final(buf)@ == old(buf)@ + spread_line(value@, depth as nat, width as nat),
{
    write_indent(buf, depth, width);
    buf.append("..");
    write_reindented(buf, value, depth, width);
    buf.append("\n");
    assert(buf@ =~= old(buf)@ + spread_line(value@, depth as nat, width as nat));
}

/// Appends the line of an element's key.
fn write_key_line(buf: &mut String, key: &str, more: bool, depth: usize, width: usize)
    ensures
        final(buf)@ == old(buf)@ + key_line(key@, more, depth as nat, width as nat),
{
    write_indent(buf, depth, width);
    buf.append("key: \"");
    buf.append(key);
    buf.append("\"");
    if more {
        buf.append(",\n");
    } else {
        buf.append("\n");
    }
    assert(buf@ =~= old(buf)@ + key_line(key@, more, depth as nat, width as nat));
}

/// Appends a name and an opening brace.
fn write_opening_line(buf: &mut String, name: &str, depth: usize, width: usize)
    ensures
        final(buf)@ == old(buf)@ + opening_line(name@, depth as nat, width as nat),
{
    write_indent(buf, depth, width);
    buf.append(name);
    buf.append(" {\n");
    assert(buf@ =~= old(buf)@ + opening_line(name@, depth as nat, width as nat));
}

/// Appends a closing brace.
fn write_closing_line(buf: &mut String, depth: usize, width: usize)
    ensures
        final(buf)@ == old(buf)@ + closing_line(depth as nat, width as nat),
{
    write_indent(buf, depth, width);
    buf.append("}\n");
    assert(buf@ =~= old(buf)@ + closing_line(depth as nat, width as nat));
}

/// Appends the text of one attribute.
fn write_attribute(buf: &mut String, attribute: &Attribute, depth: usize, width: usize)
    ensures
        final(buf)@ == old(buf)@ + attribute_text(attribute@, depth as nat, width as nat),
{
    match attribute {
        Attribute::StaticText { name, value } => {
            write_literal_line(buf, name.as_str(), value.as_str(), depth, width);
        },
        Attribute::DynamicExpression { name, value } => {
            write_expression_line(buf, name.as_str(), value.rendered.as_str(), depth, width);
        },
        Attribute::EventHandler { name, value } => {
            write_expression_line(buf, name.as_str(), value.rendered.as_str(), depth, width);
        },
        Attribute::CustomStaticText { .. } => {
            assert(buf@ =~= old(buf)@ + Seq::<char>::empty());
        },
        Attribute::CustomDynamicExpression { .. } => {
            assert(buf@ =~= old(buf)@ + Seq::<char>::empty());
        },
        Attribute::Meta { .. } => {
            assert(buf@ =~= old(buf)@ + Seq::<char>::empty());
        },
    }
}

/// Appends the texts of the attributes, in their order.
fn write_attributes(buf: &mut String, attributes: &Vec<Attribute>, depth: usize, width: usize)
    ensures
        final(buf)@ == old(buf)@ + attributes_text(
            attribute_views(attributes@),
            depth as nat,
            width as nat,
        ),
{
    let ghost all = attribute_views(attributes@);
    let mut i: usize = 0;
    assert(buf@ =~= old(buf)@ + attributes_text(all.take(0), depth as nat, width as nat));
    while i < attributes.len()
        invariant
            i <= attributes.len(),
            all == attribute_views(attributes@),
            buf@ == old(buf)@ + attributes_text(all.take(i as int), depth as nat, width as nat),
        decreases attributes.len() - i,
    {
        proof {
            let next = all.take(i + 1);
            assert(next.drop_last() =~= all.take(i as int));
            assert(next.last() == attributes@[i as int]@);
        }
        write_attribute(buf, &attributes[i], depth, width);
        assert(buf@ =~= old(buf)@ + attributes_text(all.take(i + 1), depth as nat, width as nat));
        i = i + 1;
    }
    assert(all.take(i as int) =~= all);
}

/// Appends the text of one field.
fn write_field(buf: &mut String, field: &Field, depth: usize, width: usize)
    ensures
        final(buf)@ == old(buf)@ + field_text(field@, depth as nat, width as nat),
{
    match &field.content {
        FieldContent::ExpressionValue(value) => {
            write_expression_line(buf, field.name.as_str(), value.rendered.as_str(), depth, width);
        },
        FieldContent::FormattedLiteral(value) => {
            write_literal_line(buf, field.name.as_str(), value.as_str(), depth, width);
        },
        FieldContent::HandlerRaw(value) => {
            write_expression_line(buf, field.name.as_str(), value.rendered.as_str(), depth, width);
        },
    }
}

/// Appends the texts of the fields, in their order.
fn write_fields(buf: &mut String, fields: &Vec<Field>, depth: usize, width: usize)
    ensures
        final(buf)@ == old(buf)@ + fields_text(field_views(fields@), depth as nat, width as nat),
{
    let ghost all = field_views(fields@);
    let mut i: usize = 0;
    assert(buf@ =~= old(buf)@ + fields_text(all.take(0), depth as nat, width as nat));
    while i < fields.len()
        invariant
            i <= fields.len(),
            all == field_views(fields@),
            buf@ == old(buf)@ + fields_text(all.take(i as int), depth as nat, width as nat),
        decreases fields.len() - i,
    {
        proof {
            let next = all.take(i + 1);
            assert(next.drop_last() =~= all.take(i as int));
            assert(next.last() == fields@[i as int]@);
        }
        write_field(buf, &fields[i], depth, width);
        assert(buf@ =~= old(buf)@ + fields_text(all.take(i + 1), depth as nat, width as nat));
        i = i + 1;
    }
    assert(all.take(i as int) =~= all);
}

/// Appends the texts of the nodes, in their order.
fn write_nodes(buf: &mut String, nodes: &Vec<Node>, depth: usize, width: usize)
    requires
        depth + max_height(node_views(nodes@)) <= usize::MAX,
    ensures
        final(buf)@ == old(buf)@ + nodes_text(node_views(nodes@), depth as nat, width as nat),
    decreases nodes, 0nat,
{
    let ghost all = node_views(nodes@);
    let mut i: usize = 0;
    assert(buf@ =~= old(buf)@ + nodes_text(all.take(0), depth as nat, width as nat));
    while i < nodes.len()
        invariant
            i <= nodes.len(),
            all == node_views(nodes@),
            depth + max_height(all) <= usize::MAX,
            buf@ == old(buf)@ + nodes_text(all.take(i as int), depth as nat, width as nat),
        decreases nodes.len() - i,
    {
        proof {
            let next = all.take(i + 1);
            assert(next.drop_last() =~= all.take(i as int));
            assert(next.last() == nodes@[i as int]@);
            lemma_max_height_covers(all, i as int);
        }
        write_tree(buf, &nodes[i], depth, width);
        assert(buf@ =~= old(buf)@ + nodes_text(all.take(i + 1), depth as nat, width as nat));
        i = i + 1;
    }
    assert(all.take(i as int) =~= all);
}

/// Appends what stands between the braces of `node`.
fn write_interior(buf: &mut String, node: &Node, depth: usize, width: usize)
    requires
        depth + height(node@) <= usize::MAX + 1,
    ensures
        final(buf)@ == old(buf)@ + interior_text(node@, depth as nat, width as nat),
    decreases node, 0nat,
{
    proof {
        lemma_children_view(*node);
    }
    match node {
        Node::Element { name, key, attributes, children } => {
            let ghost key_part = key_text(
                node@->Element_key,
                attributes.len() > 0,
                depth as nat,
                width as nat,
            );
            let ghost attributes_part = attributes_text(
                attribute_views(attributes@),
                depth as nat,
                width as nat,
            );
            let ghost children_part = nodes_text(
                node_views(children@),
                depth as nat,
                width as nat,
            );
            match key {
                Some(k) => {
                    write_key_line(buf, k.as_str(), attributes.len() > 0, depth, width);
                },
                None => {
                    assert(buf@ =~= old(buf)@ + key_part);
                },
            }
            assert(buf@ == old(buf)@ + key_part);
            write_attributes(buf, attributes, depth, width);
            assert(buf@ == old(buf)@ + key_part + attributes_part);
            write_nodes(buf, children, depth, width);
            assert(buf@ == old(buf)@ + key_part + attributes_part + children_part);
            assert(buf@ =~= old(buf)@ + (key_part + attributes_part + children_part));
        },
        Node::Component { name, fields, spread, children } => {
            let ghost fields_part = fields_text(field_views(fields@), depth as nat, width as nat);
            let ghost spread_part = spread_text(
                node@->Component_spread,
                depth as nat,
                width as nat,
            );
            let ghost children_part = nodes_text(
                node_views(children@),
                depth as nat,
                width as nat,
            );
            write_fields(buf, fields, depth, width);
            assert(buf@ == old(buf)@ + fields_part);
            match spread {
                Some(value) => {
                    write_spread_line(buf, value.rendered.as_str(), depth, width);
                },
                None => {
                    assert(buf@ =~= old(buf)@ + fields_part + spread_part);
                },
            }
            assert(buf@ == old(buf)@ + fields_part + spread_part);
            write_nodes(buf, children, depth, width);
            assert(buf@ == old(buf)@ + fields_part + spread_part + children_part);
            assert(buf@ =~= old(buf)@ + (fields_part + spread_part + children_part));
        },
        _ => {
            assert(buf@ =~= old(buf)@ + Seq::<char>::empty());
        },
    }
}

/// Appends the text of a node that can be written.
fn write_tree(buf: &mut String, node: &Node, depth: usize, width: usize)
    requires
        depth + height(node@) <= usize::MAX,
    ensures
        final(buf)@ == old(buf)@ + node_text(node@, depth as nat, width as nat),
    decreases node, 1nat,
{
    match node {
        Node::Element { name, .. } => {
            let ghost first = opening_line(name@, depth as nat, width as nat);
            let ghost middle = interior_text(node@, (depth + 1) as nat, width as nat);
            let ghost last = closing_line(depth as nat, width as nat);
            write_opening_line(buf, name.as_str(), depth, width);
            write_interior(buf, node, depth + 1, width);
            write_closing_line(buf, depth, width);
            assert(buf@ == old(buf)@ + first + middle + last);
            assert(buf@ =~= old(buf)@ + (first + middle + last));
        },
        Node::Component { name, .. } => {
            let ghost first = opening_line(name@, depth as nat, width as nat);
            let ghost middle = interior_text(node@, (depth + 1) as nat, width as nat);
            let ghost last = closing_line(depth as nat, width as nat);
            write_opening_line(buf, name.as_str(), depth, width);
            write_interior(buf, node, depth + 1, width);
            write_closing_line(buf, depth, width);
            assert(buf@ == old(buf)@ + first + middle + last);
            assert(buf@ =~= old(buf)@ + (first + middle + last));
        },
        Node::Text { value } => {
            write_indent(buf, depth, width);
            buf.append("\"");
            buf.append(value.as_str());
            buf.append("\"\n");
            assert(buf@ =~= old(buf)@ + node_text(node@, depth as nat, width as nat));
        },
        Node::RawExpression { .. } => {
            assert(buf@ =~= old(buf)@ + node_text(node@, depth as nat, width as nat));
        },
        Node::Meta { text } => {
            write_indent(buf, depth, width);
            buf.append(text.as_str());
            buf.append("\n");
            assert(buf@ =~= old(buf)@ + node_text(node@, depth as nat, width as nat));
        },
    }
}

/// Whether none of the attributes has an expression for its name.
fn attributes_supported(attributes: &Vec<Attribute>) -> (r: bool)
    ensures
        r == forall|i: int|
            0 <= i < attributes.len() ==> attribute_supported(
                #[trigger] attribute_views(attributes@)[i],
            ),
{
    let mut i: usize = 0;
    while i < attributes.len()
        invariant
            i <= attributes.len(),
            forall|j: int|
                0 <= j < i ==> attribute_supported(#[trigger] attribute_views(attributes@)[j]),
        decreases attributes.len() - i,
    {
        match &attributes[i] {
            Attribute::CustomStaticText { .. } => {
                assert(!attribute_supported(attribute_views(attributes@)[i as int]));
                return false;
            },
            Attribute::CustomDynamicExpression { .. } => {
                assert(!attribute_supported(attribute_views(attributes@)[i as int]));
                return false;
            },
            _ => {},
        }
        i = i + 1;
    }
    true
}

/// Whether every one of the nodes can be written.
fn nodes_supported(nodes: &Vec<Node>) -> (r: bool)
    ensures
        r == all_supported(node_views(nodes@)),
    decreases nodes, 0nat,
{
    let mut i: usize = 0;
    while i < nodes.len()
        invariant
            i <= nodes.len(),
            forall|j: int| 0 <= j < i ==> supported(#[trigger] node_views(nodes@)[j]),
        decreases nodes.len() - i,
    {
        if !is_supported(&nodes[i]) {
            assert(!supported(node_views(nodes@)[i as int]));
            return false;
        }
        i = i + 1;
    }
    true
}

/// Whether the formatter can write `node`: whether no element in it has an
/// attribute whose name is itself an expression.
pub fn is_supported(node: &Node) -> (r: bool)
    ensures
        r == supported(node@),
    decreases node, 1nat,
{
    proof {
        lemma_children_view(*node);
    }
    match node {
        Node::Element { attributes, children, .. } => {
            assert(node@->Element_attributes == attribute_views(attributes@));
            assert(node@->Element_children == node_views(children@));
            if !attributes_supported(attributes) {
                return false;
            }
            nodes_supported(children)
        },
        Node::Component { children, .. } => {
            assert(node@->Component_children == node_views(children@));
            nodes_supported(children)
        },
        _ => true,
    }
}

/// Whether the nesting of the nodes, written at `depth`, can be counted.
fn nodes_fit(nodes: &Vec<Node>, depth: usize) -> (r: bool)
    ensures
        r == (depth + max_height(node_views(nodes@)) <= usize::MAX),
    decreases nodes, 0nat,
{
    let ghost all = node_views(nodes@);
    let mut i: usize = 0;
    assert(all.take(0) =~= Seq::<NodeView>::empty());
    while i < nodes.len()
        invariant
            i <= nodes.len(),
            all == node_views(nodes@),
            depth + max_height(all.take(i as int)) <= usize::MAX,
        decreases nodes.len() - i,
    {
        proof {
            lemma_max_height_take(all, i as int);
            lemma_max_height_covers(all, i as int);
        }
        if !fits(&nodes[i], depth) {
            return false;
        }
        i = i + 1;
    }
    assert(all.take(i as int) =~= all);
    true
}

/// Whether the nesting of `node`, written at `depth`, stays within what the
/// machine can count.
pub fn fits(node: &Node, depth: usize) -> (r: bool)
    ensures
        r == (depth + height(node@) <= usize::MAX),
    decreases node, 1nat,
{
    proof {
        lemma_children_view(*node);
    }
    match node {
        Node::Element { children, .. } => depth < usize::MAX && nodes_fit(children, depth + 1),
        Node::Component { children, .. } => depth < usize::MAX && nodes_fit(children, depth + 1),
        _ => true,
    }
}

/// Appends the text of `node`, written at depth `indent` with the indentation
/// that `options` name, to `buf`. Where the node cannot be written the buffer
/// stays as it was, and the error says why.
pub fn write_node(buf: &mut String, node: &Node, indent: usize, options: &FormatOptions) -> (r:
    Result<(), FormatError>)
    ensures
        r == verdict(node@, indent as nat),
        r is Ok ==> final(buf)@ == old(buf)@ + node_text(
            node@,
            indent as nat,
            options.indent_width as nat,
        ),
        r is Err ==> final(buf)@ == old(buf)@,
{
    if !is_supported(node) {
        return Err(FormatError::UnsupportedConstruct);
    }
    if !fits(node, indent) {
        return Err(FormatError::WriteFailure);
    }
    write_tree(buf, node, indent, options.indent_width);
    Ok(())
}

/// Appends the text of `node`, written at depth `indent` with four spaces per
/// level, to `buf`. Where the node cannot be written the buffer stays as it
/// was, and the error says why.
pub fn write_ident(buf: &mut String, node: &Node, indent: usize) -> (r: Result<(), FormatError>)
    ensures
        r == verdict(node@, indent as nat),
        r is Ok ==> final(buf)@ == old(buf)@ + node_text(node@, indent as nat, 4),
        r is Err ==> final(buf)@ == old(buf)@,
{
    write_node(buf, node, indent, &FormatOptions { indent_width: INDENT_WIDTH })
}

/// The text of the roots `nodes`, one after the other, each written at depth
/// `base_indent` with the indentation that `options` name; or why there is
/// none.
pub fn format_with(nodes: &Vec<Node>, base_indent: usize, options: &FormatOptions) -> (r: Result<
    String,
    FormatError,
>)
    ensures
        match r {
            Ok(text) => forest_verdict(node_views(nodes@), base_indent as nat) is Ok && text@
                == nodes_text(
                node_views(nodes@),
                base_indent as nat,
                options.indent_width as nat,
            ),
            Err(e) => forest_verdict(node_views(nodes@), base_indent as nat) == Err::<
                (),
                FormatError,
            >(e),
        },
{
    if !nodes_supported(nodes) {
        return Err(FormatError::UnsupportedConstruct);
    }
    if !nodes_fit(nodes, base_indent) {
        return Err(FormatError::WriteFailure);
    }
    let mut buf = String::new();
    write_nodes(&mut buf, nodes, base_indent, options.indent_width);
    assert(buf@ =~= nodes_text(
        node_views(nodes@),
        base_indent as nat,
        options.indent_width as nat,
    ));
    Ok(buf)
}

/// The text of the roots `nodes`, one after the other, each written at depth
/// `base_indent` with four spaces per level; or why there is none.
pub fn format(nodes: &Vec<Node>, base_indent: usize) -> (r: Result<String, FormatError>)
    ensures
        match r {
            Ok(text) => forest_verdict(node_views(nodes@), base_indent as nat) is Ok && text@
                == nodes_text(node_views(nodes@), base_indent as nat, 4),
            Err(e) => forest_verdict(node_views(nodes@), base_indent as nat) == Err::<
                (),
                FormatError,
            >(e),
        },
{
    format_with(nodes, base_indent, &FormatOptions { indent_width: INDENT_WIDTH })
}

/// The text of a block whose roots are `roots`, written from the left margin
/// with four spaces per level; `None` where the formatter cannot write it.
pub fn fmt_block(roots: &Vec<Node>) -> (r: Option<String>)
    ensures
        match r {
            Some(text) => forest_verdict(node_views(roots@), 0) is Ok && text@ == nodes_text(
                node_views(roots@),
                0,
                4,
            ),
            None => forest_verdict(node_views(roots@), 0) is Err,
        },
{
    match format(roots, 0) {
        Ok(text) => Some(text),
        Err(_) => None,
    }
}

} // verus!
