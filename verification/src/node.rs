//! The node taxonomy of the tree, its mathematical shape, and the error type
//! of the builder.

use vstd::prelude::*;

verus! {

/// Owning handle to a node. Every child is held through exactly one such
/// handle, so a tree is a strict forest: destroying a node destroys its
/// whole subtree, and no subtree is ever shared.
pub type AstNode = Box<InnerNode>;

/// The closed set of node variants. `operator` fields hold the operator
/// token verbatim and are not validated here: this is a representation,
/// not a checker. `Number` holds the numeral exactly as it stands in the
/// document, so that no precision is decided at this layer; a consumer
/// converts the text to whatever numeric type it needs.
#[derive(Debug, PartialEq)]
pub enum InnerNode {
    Program(Vec<AstNode>),
    Func { name: String, parameters: Vec<String>, body: AstNode },
    Var { name: String, initializer: Option<AstNode> },
    Const { name: String, initializer: AstNode },
    Block(Vec<AstNode>),
    If { condition: AstNode, then_branch: AstNode, else_branch: Option<AstNode> },
    While { condition: AstNode, body: AstNode },
    Return { value: Option<AstNode> },
    Exprstmt(AstNode),
    Assign { name: String, value: AstNode },
    Binary { left: AstNode, operator: String, right: AstNode },
    Logical { left: AstNode, operator: String, right: AstNode },
    Call { callee: AstNode, arguments: Vec<AstNode> },
    Grouping(AstNode),
    Unary { operator: String, right: AstNode },
    Variable { name: String },
    Number(String),
    String(String),
    Literal(String),
}

/// The mathematical shape of a tree: strings become character sequences and
/// lists become `Seq`, variant by variant and field by field. Two trees are
/// structurally equal exactly when their shapes are equal.
pub enum NodeV {
    Program(Seq<NodeV>),
    Func { name: Seq<char>, parameters: Seq<Seq<char>>, body: Box<NodeV> },
    Var { name: Seq<char>, initializer: Option<Box<NodeV>> },
    Const { name: Seq<char>, initializer: Box<NodeV> },
    Block(Seq<NodeV>),
    If { condition: Box<NodeV>, then_branch: Box<NodeV>, else_branch: Option<Box<NodeV>> },
    While { condition: Box<NodeV>, body: Box<NodeV> },
    Return { value: Option<Box<NodeV>> },
    Exprstmt(Box<NodeV>),
    Assign { name: Seq<char>, value: Box<NodeV> },
    Binary { left: Box<NodeV>, operator: Seq<char>, right: Box<NodeV> },
    Logical { left: Box<NodeV>, operator: Seq<char>, right: Box<NodeV> },
    Call { callee: Box<NodeV>, arguments: Seq<NodeV> },
    Grouping(Box<NodeV>),
    Unary { operator: Seq<char>, right: Box<NodeV> },
    Variable { name: Seq<char> },
    Number(Seq<char>),
    String(Seq<char>),
    Literal(Seq<char>),
}

/// Shape of an optional child.
pub open spec fn opt_shape(o: Option<AstNode>) -> Option<Box<NodeV>>
    decreases o,
{
    match o {
        Option::None => Option::None,
        Option::Some(n) => Option::Some(Box::new(node_shape(*n))),
    }
}

/// Shape of a list of children.
pub open spec fn list_shape(v: Vec<AstNode>) -> Seq<NodeV>
    decreases v,
{
    Seq::new(v@.len(), |k: int| if 0 <= k < v@.len() { node_shape(*v@[k]) } else { arbitrary() })
}

/// Shape of a list of names.
pub open spec fn names_shape(v: Vec<String>) -> Seq<Seq<char>> {
    Seq::new(v@.len(), |k: int| v@[k]@)
}

/// The shape of a node, defined structurally over the whole subtree.
pub open spec fn node_shape(n: InnerNode) -> NodeV
    decreases n,
{
    match n {
        InnerNode::Program(stmts) => NodeV::Program(list_shape(stmts)),
        InnerNode::Func { name, parameters, body } => NodeV::Func {
            name: name@,
            parameters: names_shape(parameters),
            body: Box::new(node_shape(*body)),
        },
        InnerNode::Var { name, initializer } => NodeV::Var {
            name: name@,
            initializer: opt_shape(initializer),
        },
        InnerNode::Const { name, initializer } => NodeV::Const {
            name: name@,
            initializer: Box::new(node_shape(*initializer)),
        },
        InnerNode::Block(stmts) => NodeV::Block(list_shape(stmts)),
        InnerNode::If { condition, then_branch, else_branch } => NodeV::If {
            condition: Box::new(node_shape(*condition)),
            then_branch: Box::new(node_shape(*then_branch)),
            else_branch: opt_shape(else_branch),
        },
        InnerNode::While { condition, body } => NodeV::While {
            condition: Box::new(node_shape(*condition)),
            body: Box::new(node_shape(*body)),
        },
        InnerNode::Return { value } => NodeV::Return { value: opt_shape(value) },
        InnerNode::Exprstmt(inner) => NodeV::Exprstmt(Box::new(node_shape(*inner))),
        InnerNode::Assign { name, value } => NodeV::Assign {
            name: name@,
            value: Box::new(node_shape(*value)),
        },
        InnerNode::Binary { left, operator, right } => NodeV::Binary {
            left: Box::new(node_shape(*left)),
            operator: operator@,
            right: Box::new(node_shape(*right)),
        },
        InnerNode::Logical { left, operator, right } => NodeV::Logical {
            left: Box::new(node_shape(*left)),
            operator: operator@,
            right: Box::new(node_shape(*right)),
        },
        InnerNode::Call { callee, arguments } => NodeV::Call {
            callee: Box::new(node_shape(*callee)),
            arguments: list_shape(arguments),
        },
        InnerNode::Grouping(inner) => NodeV::Grouping(Box::new(node_shape(*inner))),
        InnerNode::Unary { operator, right } => NodeV::Unary {
            operator: operator@,
            right: Box::new(node_shape(*right)),
        },
        InnerNode::Variable { name } => NodeV::Variable { name: name@ },
        InnerNode::Number(text) => NodeV::Number(text@),
        InnerNode::String(text) => NodeV::String(text@),
        InnerNode::Literal(text) => NodeV::Literal(text@),
    }
}

impl View for InnerNode {
    type V = NodeV;

    open spec fn view(&self) -> NodeV {
        node_shape(*self)
    }
}

/// Why a document yields no tree. Every failure of the builder falls in one
/// of these; a malformed document yields no tree at all, never a partial one.
#[derive(Debug, PartialEq)]
pub enum BuildError {
    /// The document text is not well-formed as a structured document.
    Malformed,
    /// A node carries a variant tag outside the taxonomy; the tag is kept.
    UnknownTag(String),
    /// The named required attribute of a matched variant is absent.
    MissingAttribute(String),
    /// The named attribute, or the body of the named variant, has the wrong
    /// shape for its place in the schema.
    WrongType(String),
    /// The named attribute is bound more than once in one node.
    DuplicateAttribute(String),
}

/// The mathematical shape of a builder error.
pub enum ErrV {
    Malformed,
    UnknownTag(Seq<char>),
    MissingAttribute(Seq<char>),
    WrongType(Seq<char>),
    DuplicateAttribute(Seq<char>),
}

impl View for BuildError {
    type V = ErrV;

    open spec fn view(&self) -> ErrV {
        match self {
            BuildError::Malformed => ErrV::Malformed,
            BuildError::UnknownTag(t) => ErrV::UnknownTag(t@),
            BuildError::MissingAttribute(a) => ErrV::MissingAttribute(a@),
            BuildError::WrongType(a) => ErrV::WrongType(a@),
            BuildError::DuplicateAttribute(a) => ErrV::DuplicateAttribute(a@),
        }
    }
}

} // verus!
