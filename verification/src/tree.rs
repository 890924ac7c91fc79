//! The syntax tree that the formatter reads, and its mathematical view.
//!
//! The tree is plain data. An embedded expression is kept as the text that an
//! expression renderer produced for it; the formatter never looks inside that
//! text, it only decides where each of its lines starts.
use vstd::prelude::*;

verus! {

/// An embedded expression, as the canonical text its renderer gave. The text
/// may span several lines, each indented relative to the expression's own
/// first column.
#[derive(Clone, Debug, PartialEq, Eq)]
pub struct Expression {
    pub rendered: String,
}

impl View for Expression {
    type V = Seq<char>;

    open spec fn view(&self) -> Seq<char> {
        self.rendered@
    }
}

/// One attribute of an element.
#[derive(Clone, Debug, PartialEq, Eq)]
#[allow(inconsistent_fields)]
pub enum Attribute {
    /// A name with a literal string value.
    StaticText { name: String, value: String },
    /// A name with an expression as its value.
    DynamicExpression { name: String, value: Expression },
    /// A name with a callback, whose text usually spans several lines.
    EventHandler { name: String, value: Expression },
    /// A literal string value under a name that is itself an expression.
    CustomStaticText { name: Expression, value: String },
    /// An expression under a name that is itself an expression.
    CustomDynamicExpression { name: Expression, value: Expression },
    /// An annotation; it adds nothing to the list of attributes.
    Meta { text: String },
}

/// What an [`Attribute`] holds, as sequences of characters.
#[allow(inconsistent_fields)]
pub enum AttributeView {
    StaticText { name: Seq<char>, value: Seq<char> },
    DynamicExpression { name: Seq<char>, value: Seq<char> },
    EventHandler { name: Seq<char>, value: Seq<char> },
    CustomStaticText { name: Seq<char>, value: Seq<char> },
    CustomDynamicExpression { name: Seq<char>, value: Seq<char> },
    Meta { text: Seq<char> },
}

impl View for Attribute {
    type V = AttributeView;

    open spec fn view(&self) -> AttributeView {
        match self {
            Attribute::StaticText { name, value } => AttributeView::StaticText {
                name: name@,
                value: value@,
            },
            Attribute::DynamicExpression { name, value } => AttributeView::DynamicExpression {
                name: name@,
                value: value@,
            },
            Attribute::EventHandler { name, value } => AttributeView::EventHandler {
                name: name@,
                value: value@,
            },
            Attribute::CustomStaticText { name, value } => AttributeView::CustomStaticText {
                name: name@,
                value: value@,
            },
            Attribute::CustomDynamicExpression { name, value } => {
                AttributeView::CustomDynamicExpression { name: name@, value: value@ }
            },
            Attribute::Meta { text } => AttributeView::Meta { text: text@ },
        }
    }
}

/// The value of a component's field.
#[derive(Clone, Debug, PartialEq, Eq)]
pub enum FieldContent {
    /// An expression.
    ExpressionValue(Expression),
    /// A literal string, written in quotes as it stands.
    FormattedLiteral(String),
    /// A handler body, whose text usually spans several lines.
    HandlerRaw(Expression),
}

/// What a [`FieldContent`] holds, as sequences of characters.
pub enum FieldContentView {
    ExpressionValue(Seq<char>),
    FormattedLiteral(Seq<char>),
    HandlerRaw(Seq<char>),
}

impl View for FieldContent {
    type V = FieldContentView;

    open spec fn view(&self) -> FieldContentView {
        match self {
            FieldContent::ExpressionValue(e) => FieldContentView::ExpressionValue(e@),
            FieldContent::FormattedLiteral(s) => FieldContentView::FormattedLiteral(s@),
            FieldContent::HandlerRaw(e) => FieldContentView::HandlerRaw(e@),
        }
    }
}

/// One named field of a component.
#[derive(Clone, Debug, PartialEq, Eq)]
pub struct Field {
    pub name: String,
    pub content: FieldContent,
}

/// What a [`Field`] holds, as sequences of characters.
pub struct FieldView {
    pub name: Seq<char>,
    pub content: FieldContentView,
}

impl View for Field {
    type V = FieldView;

    open spec fn view(&self) -> FieldView {
        FieldView { name: self.name@, content: self.content@ }
    }
}

/// One unit of the syntax tree.
#[derive(Debug, PartialEq, Eq)]
#[allow(inconsistent_fields)]
pub enum Node {
    /// A markup tag with an optional key, attributes and children.
    Element { name: String, key: Option<String>, attributes: Vec<Attribute>, children: Vec<Node> },
    /// A component, named by a path, with fields, an optional expression that
    /// supplies further properties, and children.
    Component { name: String, fields: Vec<Field>, spread: Option<Expression>, children: Vec<Node> },
    /// A literal string.
    Text { value: String },
    /// An expression standing where a node is expected. The formatter writes
    /// nothing for it.
    RawExpression { value: Expression },
    /// An annotation, kept in its literal written form.
    Meta { text: String },
}

/// What a [`Node`] holds: the same tree over sequences.
#[allow(inconsistent_fields)]
pub enum NodeView {
    Element {
        name: Seq<char>,
        key: Option<Seq<char>>,
        attributes: Seq<AttributeView>,
        children: Seq<NodeView>,
    },
    Component {
        name: Seq<char>,
        fields: Seq<FieldView>,
        spread: Option<Seq<char>>,
        children: Seq<NodeView>,
    },
    Text { value: Seq<char> },
    RawExpression { value: Seq<char> },
    Meta { text: Seq<char> },
}

/// The view of an optional string.
pub open spec fn text_view(s: Option<String>) -> Option<Seq<char>> {
    match s {
        Some(t) => Some(t@),
        None => None,
    }
}

/// The view of an optional expression.
pub open spec fn expression_view(e: Option<Expression>) -> Option<Seq<char>> {
    match e {
        Some(x) => Some(x@),
        None => None,
    }
}

/// The views of the attributes, in their order.
pub open spec fn attribute_views(attributes: Seq<Attribute>) -> Seq<AttributeView> {
    Seq::new(attributes.len(), |i: int| attributes[i]@)
}

/// The views of the fields, in their order.
pub open spec fn field_views(fields: Seq<Field>) -> Seq<FieldView> {
    Seq::new(fields.len(), |i: int| fields[i]@)
}

/// The tree that `node` stands for.
pub open spec fn view_of(node: Node) -> NodeView
    decreases node,
{
    match node {
        Node::Element { name, key, attributes, children } => NodeView::Element {
            name: name@,
            key: text_view(key),
            attributes: attribute_views(attributes@),
            children: Seq::new(
                children@.len(),
                |i: int|
                    if 0 <= i < children@.len() {
                        view_of(children@[i])
                    } else {
                        NodeView::Text { value: Seq::empty() }
                    },
            ),
        },
        Node::Component { name, fields, spread, children } => NodeView::Component {
            name: name@,
            fields: field_views(fields@),
            spread: expression_view(spread),
            children: Seq::new(
                children@.len(),
                |i: int|
                    if 0 <= i < children@.len() {
                        view_of(children@[i])
                    } else {
                        NodeView::Text { value: Seq::empty() }
                    },
            ),
        },
        Node::Text { value } => NodeView::Text { value: value@ },
        Node::RawExpression { value } => NodeView::RawExpression { value: value@ },
        Node::Meta { text } => NodeView::Meta { text: text@ },
    }
}

impl View for Node {
    type V = NodeView;

    open spec fn view(&self) -> NodeView {
        view_of(*self)
    }
}

/// The views of the nodes, in their order.
pub open spec fn node_views(nodes: Seq<Node>) -> Seq<NodeView> {
    Seq::new(nodes.len(), |i: int| nodes[i]@)
}

/// The children in a node's view are the views of its children.
pub proof fn lemma_children_view(node: Node)
    ensures
        match node {
            Node::Element { children, .. } => node@ is Element && node@->Element_children
                == node_views(children@),
            Node::Component { children, .. } => node@ is Component && node@->Component_children
                == node_views(children@),
            _ => true,
        },
{
    match node {
        Node::Element { children, .. } => {
            assert(node@->Element_children =~= node_views(children@));
        },
        Node::Component { children, .. } => {
            assert(node@->Component_children =~= node_views(children@));
        },
        _ => {},
    }
}

} // verus!
