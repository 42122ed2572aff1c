//! The abstract syntax tree of the language.
use vstd::prelude::*;
use crate::error::SourceLocation;

verus! {

/// A literal value.
///
/// A number with a fractional part (or one too large to be held exactly by a
/// 64-bit float) is carried as the decimal text it was written with.
#[derive(Debug, Clone, PartialEq)]
pub enum Literal {
    /// Nil.
    Nil,
    /// A boolean.
    Bool(bool),
    /// An integer.
    Int(i64),
    /// A float, by its decimal text.
    Float(String),
    /// A string.
    String(String),
}

/// A type written in a signature.
#[derive(Debug, PartialEq)]
pub enum Type {
    /// A named type.
    Basic(String),
    /// A function type.
    Function {
        /// Parameter types.
        parameters: Vec<Type>,
        /// Return type.
        return_type: Box<Type>,
    },
    /// A type annotated with the capabilities it needs.
    CapabilityType {
        /// The annotated type.
        base_type: Box<Type>,
        /// The capabilities.
        capabilities: Vec<String>,
    },
    /// A type variable.
    Variable(String),
}

/// A node of the syntax tree.
#[derive(Debug, PartialEq)]
#[allow(inconsistent_fields)]
pub enum AstNode {
    /// A literal.
    Literal(Literal),
    /// A quoted symbol or an operator name.
    Symbol(String),
    /// A variable reference.
    Variable(String),
    /// A call.
    Call {
        /// The function called.
        function: Box<AstNode>,
        /// The arguments.
        arguments: Vec<AstNode>,
        /// Where.
        location: SourceLocation,
    },
    /// A lambda.
    Lambda {
        /// Parameter names.
        parameters: Vec<String>,
        /// The body.
        body: Box<AstNode>,
        /// Where.
        location: SourceLocation,
    },
    /// A let binding.
    Let {
        /// Bound names with their values.
        bindings: Vec<(String, AstNode)>,
        /// The body.
        body: Box<AstNode>,
        /// Where.
        location: SourceLocation,
    },
    /// A conditional.
    If {
        /// The condition.
        condition: Box<AstNode>,
        /// Taken when the condition holds.
        then_branch: Box<AstNode>,
        /// Taken otherwise.
        else_branch: Box<AstNode>,
        /// Where.
        location: SourceLocation,
    },
    /// A trust tier annotation such as `(:formal e)`.
    TrustTier {
        /// The tier, as written (with its colon).
        tier: String,
        /// The annotated expression.
        expression: Box<AstNode>,
        /// Where.
        location: SourceLocation,
    },
    /// `(require-capability c)`.
    RequireCapability {
        /// The capability, as written.
        capability: String,
        /// Where.
        location: SourceLocation,
    },
    /// `(has-capability? c)`.
    HasCapability {
        /// The capability, as written.
        capability: String,
        /// Where.
        location: SourceLocation,
    },
    /// A type signature.
    TypeSignature {
        /// The function named.
        name: String,
        /// Parameter types.
        parameters: Vec<Type>,
        /// Return type.
        return_type: Box<Type>,
        /// Required capabilities.
        capabilities: Vec<String>,
        /// Where.
        location: SourceLocation,
    },
    /// A macro definition.
    MacroDefinition {
        /// Macro name.
        name: String,
        /// Parameter names.
        parameters: Vec<String>,
        /// The body.
        body: Box<AstNode>,
        /// Required capabilities.
        capabilities: Vec<String>,
        /// Declared trust tier.
        tier: String,
        /// Where.
        location: SourceLocation,
    },
    /// A macro use.
    MacroExpansion {
        /// Macro name.
        name: String,
        /// Arguments.
        arguments: Vec<AstNode>,
        /// Where.
        location: SourceLocation,
    },
    /// A call of a foreign (host) function.
    FfiCall {
        /// Function name.
        function: String,
        /// Arguments.
        arguments: Vec<AstNode>,
        /// Where.
        location: SourceLocation,
    },
    /// A list.
    List {
        /// Elements.
        elements: Vec<AstNode>,
        /// Where.
        location: SourceLocation,
    },
    /// A pair.
    Cons {
        /// First element.
        car: Box<AstNode>,
        /// Second element.
        cdr: Box<AstNode>,
        /// Where.
        location: SourceLocation,
    },
    /// A top-level definition.
    Define {
        /// The defined name.
        name: String,
        /// Its value.
        value: Box<AstNode>,
        /// Where.
        location: SourceLocation,
    },
    /// A recursive let: the names are visible in the values too.
    Letrec {
        /// Bound names with their values.
        bindings: Vec<(String, AstNode)>,
        /// The body.
        body: Box<AstNode>,
        /// Where.
        location: SourceLocation,
    },
}

} // verus!

verus! {

impl Literal {
    /// An equal copy.
    pub fn deep_clone(&self) -> (r: Literal)
        ensures
            r == *self,
    {
        match self {
            Literal::Nil => Literal::Nil,
            Literal::Bool(b) => Literal::Bool(*b),
            Literal::Int(i) => Literal::Int(*i),
            Literal::Float(t) => Literal::Float(t.clone()),
            Literal::String(s) => Literal::String(s.clone()),
        }
    }
}

/// An equal copy of a list of strings.
pub fn clone_strings(v: &Vec<String>) -> (r: Vec<String>)
    ensures
        r@ == v@,
{
    let mut r: Vec<String> = Vec::new();
    let mut i: usize = 0;
    while i < v.len()
        invariant
            i <= v@.len(),
            r@ == v@.take(i as int),
        decreases v@.len() - i,
    {
        r.push(v[i].clone());
        i = i + 1;
        assert(r@ =~= v@.take(i as int));
    }
    assert(v@.take(v@.len() as int) =~= v@);
    r
}

} // verus!

verus! {

/// The number of nodes of a tree, counting every kind of child. Functions
/// that walk whole trees recurse on smaller sizes.
pub open spec fn tree_size(n: AstNode) -> nat
    decreases n, 0int,
{
    1 + match n {
        AstNode::Call { function, arguments, .. } => tree_size(*function) + trees_size(
            arguments,
            arguments.len() as int,
        ),
        AstNode::Lambda { body, .. } => tree_size(*body),
        AstNode::Let { bindings, body, .. } => bound_trees_size(bindings, bindings.len() as int)
            + tree_size(*body),
        AstNode::Letrec { bindings, body, .. } => bound_trees_size(bindings, bindings.len() as int)
            + tree_size(*body),
        AstNode::Define { value, .. } => tree_size(*value),
        AstNode::TrustTier { expression, .. } => tree_size(*expression),
        AstNode::If { condition, then_branch, else_branch, .. } => tree_size(*condition)
            + tree_size(*then_branch) + tree_size(*else_branch),
        AstNode::FfiCall { arguments, .. } => trees_size(arguments, arguments.len() as int),
        AstNode::MacroDefinition { body, .. } => tree_size(*body),
        AstNode::MacroExpansion { arguments, .. } => trees_size(arguments, arguments.len() as int),
        AstNode::List { elements, .. } => trees_size(elements, elements.len() as int),
        AstNode::Cons { car, cdr, .. } => tree_size(*car) + tree_size(*cdr),
        _ => 0,
    }
}

/// The summed size of the first `k` trees of `v`.
pub open spec fn trees_size(v: Vec<AstNode>, k: int) -> nat
    decreases v, k,
{
    if k <= 0 || k > v.len() {
        0
    } else {
        trees_size(v, k - 1) + tree_size(v[k - 1])
    }
}

/// The summed size of the values of the first `k` bindings of `v`.
pub open spec fn bound_trees_size(v: Vec<(String, AstNode)>, k: int) -> nat
    decreases v, k,
{
    if k <= 0 || k > v.len() {
        0
    } else {
        bound_trees_size(v, k - 1) + tree_size(v[k - 1].1)
    }
}

/// The first `j` trees are no larger than the first `k`, and each of them
/// is no larger than all of them together.
pub proof fn lemma_trees_size(v: Vec<AstNode>, j: int, k: int)
    requires
        0 <= j < k <= v.len(),
    ensures
        tree_size(v[j]) <= trees_size(v, k),
        trees_size(v, j) + tree_size(v[j]) <= trees_size(v, k),
    decreases k,
{
    if j < k - 1 {
        lemma_trees_size(v, j, k - 1);
    }
}

/// Each bound value is no larger than all of them together.
pub proof fn lemma_bound_trees_size(v: Vec<(String, AstNode)>, j: int, k: int)
    requires
        0 <= j < k <= v.len(),
    ensures
        tree_size(v[j].1) <= bound_trees_size(v, k),
        bound_trees_size(v, j) + tree_size(v[j].1) <= bound_trees_size(v, k),
    decreases k,
{
    if j < k - 1 {
        lemma_bound_trees_size(v, j, k - 1);
    }
}

/// Writes a node with its derived `Debug` formatting (`format!("{:?}", n)`);
/// the text is not restated.
#[verifier::external_body]
pub(crate) fn debug_node(n: &AstNode) -> (r: String) {
    format!("{:?}", n)
}

} // verus!
