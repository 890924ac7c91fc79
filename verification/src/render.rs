//! The text of a tree: what the formatter writes, as a function of the tree,
//! the depth at which it stands and the width of one level of indentation.
//!
//! Attributes, fields and children are written in the order in which the tree
//! holds them, each on lines of its own, one level deeper than the node that
//! owns them. Nothing is reordered, merged or left out, but for the two kinds
//! of node and attribute that have no text.
use vstd::prelude::*;
use crate::error::FormatError;
use crate::indent::indentation;
use crate::text::reindented;
use crate::tree::{AttributeView, FieldContentView, FieldView, NodeView};

verus! {

/// A name with a literal value in quotes, on one line, with a comma.
pub open spec fn literal_line(name: Seq<char>, value: Seq<char>, depth: nat, width: nat) -> Seq<
    char,
> {
    indentation(depth, width) + name + ": \""@ + value + "\",\n"@
}

/// A name with the text of an expression. The first line of the text follows
/// the name, the later lines start at `depth`, and a comma ends the last one.
pub open spec fn expression_line(
    name: Seq<char>,
    value: Seq<char>,
    depth: nat,
    width: nat,
) -> Seq<char> {
    indentation(depth, width) + name + ": "@ + reindented(value, depth, width) + ",\n"@
}

/// The expression that supplies further properties: two dots, then its text
/// with the later lines at `depth`, and no comma.
pub open spec fn spread_line(value: Seq<char>, depth: nat, width: nat) -> Seq<char> {
    indentation(depth, width) + ".."@ + reindented(value, depth, width) + "\n"@
}

/// The line of an element's key. A comma ends it if and only if `more`, that
/// is, if the element has attributes besides.
pub open spec fn key_line(key: Seq<char>, more: bool, depth: nat, width: nat) -> Seq<char> {
    indentation(depth, width) + "key: \""@ + key + "\""@ + if more {
        ",\n"@
    } else {
        "\n"@
    }
}

/// The first line of an element or component: its name and an opening brace.
pub open spec fn opening_line(name: Seq<char>, depth: nat, width: nat) -> Seq<char> {
    indentation(depth, width) + name + " {\n"@
}

/// The last line of an element or component: the closing brace, at the depth
/// of the first line.
pub open spec fn closing_line(depth: nat, width: nat) -> Seq<char> {
    indentation(depth, width) + "}\n"@
}

/// Whether the formatter can write the attribute: it cannot where the name
/// is itself an expression.
pub open spec fn attribute_supported(attribute: AttributeView) -> bool {
    !(attribute is CustomStaticText) && !(attribute is CustomDynamicExpression)
}

/// The text of one attribute at `depth`. An annotation has none, and neither
/// has an attribute that is not supported.
pub open spec fn attribute_text(attribute: AttributeView, depth: nat, width: nat) -> Seq<char> {
    match attribute {
        AttributeView::StaticText { name, value } => literal_line(name, value, depth, width),
        AttributeView::DynamicExpression { name, value } => expression_line(
            name,
            value,
            depth,
            width,
        ),
        AttributeView::EventHandler { name, value } => expression_line(name, value, depth, width),
        AttributeView::CustomStaticText { .. } => Seq::empty(),
        AttributeView::CustomDynamicExpression { .. } => Seq::empty(),
        AttributeView::Meta { .. } => Seq::empty(),
    }
}

/// The texts of the attributes, one after the other in the order given.
pub open spec fn attributes_text(attributes: Seq<AttributeView>, depth: nat, width: nat) -> Seq<
    char,
>
    decreases attributes.len(),
{
    if attributes.len() == 0 {
        Seq::empty()
    } else {
        attributes_text(attributes.drop_last(), depth, width) + attribute_text(
            attributes.last(),
            depth,
            width,
        )
    }
}

/// The text of one field of a component at `depth`.
pub open spec fn field_text(field: FieldView, depth: nat, width: nat) -> Seq<char> {
    match field.content {
        FieldContentView::ExpressionValue(value) => expression_line(
            field.name,
            value,
            depth,
            width,
        ),
        FieldContentView::FormattedLiteral(value) => literal_line(field.name, value, depth, width),
        FieldContentView::HandlerRaw(value) => expression_line(field.name, value, depth, width),
    }
}

/// The texts of the fields, one after the other in the order given.
pub open spec fn fields_text(fields: Seq<FieldView>, depth: nat, width: nat) -> Seq<char>
    decreases fields.len(),
{
    if fields.len() == 0 {
        Seq::empty()
    } else {
        fields_text(fields.drop_last(), depth, width) + field_text(fields.last(), depth, width)
    }
}

/// The key's line where there is a key, else nothing.
pub open spec fn key_text(key: Option<Seq<char>>, more: bool, depth: nat, width: nat) -> Seq<
    char,
> {
    match key {
        Some(k) => key_line(k, more, depth, width),
        None => Seq::empty(),
    }
}

/// The spread's lines where there is a spread, else nothing.
pub open spec fn spread_text(spread: Option<Seq<char>>, depth: nat, width: nat) -> Seq<char> {
    match spread {
        Some(value) => spread_line(value, depth, width),
        None => Seq::empty(),
    }
}

/// What stands between the braces of `node`, written at `depth`, one level
/// below the node: for an element the key, the attributes and the children;
/// for a component the fields, the spread and the children. Other nodes have
/// no braces and no interior.
pub open spec fn interior_text(node: NodeView, depth: nat, width: nat) -> Seq<char>
    decreases node, 0nat,
{
    match node {
        NodeView::Element { name, key, attributes, children } => key_text(
            key,
            attributes.len() > 0,
            depth,
            width,
        ) + attributes_text(attributes, depth, width) + nodes_text(children, depth, width),
        NodeView::Component { name, fields, spread, children } => fields_text(
            fields,
            depth,
            width,
        ) + spread_text(spread, depth, width) + nodes_text(children, depth, width),
        _ => Seq::empty(),
    }
}

/// The text of `node` at `depth`.
pub open spec fn node_text(node: NodeView, depth: nat, width: nat) -> Seq<char>
    decreases node, 1nat,
{
    match node {
        NodeView::Element { name, .. } => opening_line(name, depth, width) + interior_text(
            node,
            depth + 1,
            width,
        ) + closing_line(depth, width),
        NodeView::Component { name, .. } => opening_line(name, depth, width) + interior_text(
            node,
            depth + 1,
            width,
        ) + closing_line(depth, width),
        NodeView::Text { value } => indentation(depth, width) + "\""@ + value + "\"\n"@,
        NodeView::RawExpression { .. } => Seq::empty(),
        NodeView::Meta { text } => indentation(depth, width) + text + "\n"@,
    }
}

/// The texts of the nodes, one after the other in the order given.
pub open spec fn nodes_text(nodes: Seq<NodeView>, depth: nat, width: nat) -> Seq<char>
    decreases nodes, 2nat,
{
    if nodes.len() == 0 {
        Seq::empty()
    } else {
        nodes_text(nodes.drop_last(), depth, width) + node_text(nodes.last(), depth, width)
    }
}

/// Whether the formatter can write `node`: no element in it has an attribute
/// that is not supported.
pub open spec fn supported(node: NodeView) -> bool
    decreases node,
{
    match node {
        NodeView::Element { attributes, children, .. } => {
            &&& forall|i: int|
                0 <= i < attributes.len() ==> attribute_supported(#[trigger] attributes[i])
            &&& forall|i: int| 0 <= i < children.len() ==> supported(#[trigger] children[i])
        },
        NodeView::Component { children, .. } => forall|i: int|
            0 <= i < children.len() ==> supported(#[trigger] children[i]),
        _ => true,
    }
}

/// How many levels of braces `node` opens, one inside the other.
pub open spec fn height(node: NodeView) -> nat
    decreases node, 0nat,
{
    match node {
        NodeView::Element { children, .. } => 1 + max_height(children),
        NodeView::Component { children, .. } => 1 + max_height(children),
        _ => 0,
    }
}

/// The largest height among `nodes`, and 0 where there are none.
pub open spec fn max_height(nodes: Seq<NodeView>) -> nat
    decreases nodes, 1nat,
{
    if nodes.len() == 0 {
        0
    } else {
        let rest = max_height(nodes.drop_last());
        let last = height(nodes.last());
        if rest >= last {
            rest
        } else {
            last
        }
    }
}

/// No node is higher than the largest height among its siblings.
pub proof fn lemma_max_height_covers(nodes: Seq<NodeView>, i: int)
    requires
        0 <= i < nodes.len(),
    ensures
        height(nodes[i]) <= max_height(nodes),
    decreases nodes.len(),
{
    if i < nodes.len() - 1 {
        lemma_max_height_covers(nodes.drop_last(), i);
    }
}

/// One more node raises the largest height to its own, if that is larger.
pub proof fn lemma_max_height_take(nodes: Seq<NodeView>, i: int)
    requires
        0 <= i < nodes.len(),
    ensures
        max_height(nodes.take(i + 1)) == if max_height(nodes.take(i)) >= height(nodes[i]) {
            max_height(nodes.take(i))
        } else {
            height(nodes[i])
        },
{
    let next = nodes.take(i + 1);
    assert(next.drop_last() =~= nodes.take(i));
    assert(next.last() == nodes[i]);
}

/// Whether the formatter writes `node` at `depth`, and if not, why not: a
/// construct that is not supported is reported before a nesting too deep to
/// count.
pub open spec fn verdict(node: NodeView, depth: nat) -> Result<(), FormatError> {
    if !supported(node) {
        Err(FormatError::UnsupportedConstruct)
    } else if depth + height(node) > usize::MAX {
        Err(FormatError::WriteFailure)
    } else {
        Ok(())
    }
}

/// Whether every node among `nodes` can be written.
pub open spec fn all_supported(nodes: Seq<NodeView>) -> bool {
    forall|i: int| 0 <= i < nodes.len() ==> supported(#[trigger] nodes[i])
}

/// Whether the formatter writes all of `nodes` at `depth`, and if not, why not.
pub open spec fn forest_verdict(nodes: Seq<NodeView>, depth: nat) -> Result<(), FormatError> {
    if !all_supported(nodes) {
        Err(FormatError::UnsupportedConstruct)
    } else if depth + max_height(nodes) > usize::MAX {
        Err(FormatError::WriteFailure)
    } else {
        Ok(())
    }
}

} // verus!
