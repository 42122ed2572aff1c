//! The abstract value of a syntax tree: the same shape, with every string
//! and list taken by its contents. Two trees with equal views are copies of
//! one another; transformations of trees are stated over views.
use vstd::prelude::*;
use crate::ast::{AstNode, Literal, Type, tree_size, trees_size, bound_trees_size,
    lemma_trees_size, lemma_bound_trees_size, clone_strings};
use crate::error::SourceLocation;

verus! {

/// The abstract value of a literal.
pub enum LiteralView {
    /// Nil.
    Nil,
    /// A boolean.
    Bool(bool),
    /// An integer.
    Int(i64),
    /// A float, by its decimal text.
    Float(Seq<char>),
    /// A string.
    Str(Seq<char>),
}

/// The abstract value of a type.
pub enum TypeView {
    /// A named type.
    Basic(Seq<char>),
    /// A function type.
    Function { parameters: Seq<TypeView>, return_type: Box<TypeView> },
    /// A type with capabilities.
    CapabilityType { base_type: Box<TypeView>, capabilities: Seq<Seq<char>> },
    /// A type variable.
    Variable(Seq<char>),
}

/// The abstract value of a tree node.
pub enum NodeView {
    Literal(LiteralView),
    Symbol(Seq<char>),
    Variable(Seq<char>),
    Call { function: Box<NodeView>, arguments: Seq<NodeView>, location: SourceLocation },
    Lambda { parameters: Seq<Seq<char>>, body: Box<NodeView>, location: SourceLocation },
    Let { bindings: Seq<(Seq<char>, NodeView)>, body: Box<NodeView>, location: SourceLocation },
    If {
        condition: Box<NodeView>,
        then_branch: Box<NodeView>,
        else_branch: Box<NodeView>,
        location: SourceLocation,
    },
    TrustTier { tier: Seq<char>, expression: Box<NodeView>, location: SourceLocation },
    RequireCapability { capability: Seq<char>, location: SourceLocation },
    HasCapability { capability: Seq<char>, location: SourceLocation },
    TypeSignature {
        name: Seq<char>,
        parameters: Seq<TypeView>,
        return_type: TypeView,
        capabilities: Seq<Seq<char>>,
        location: SourceLocation,
    },
    MacroDefinition {
        name: Seq<char>,
        parameters: Seq<Seq<char>>,
        body: Box<NodeView>,
        capabilities: Seq<Seq<char>>,
        tier: Seq<char>,
        location: SourceLocation,
    },
    MacroExpansion { name: Seq<char>, arguments: Seq<NodeView>, location: SourceLocation },
    FfiCall { function: Seq<char>, arguments: Seq<NodeView>, location: SourceLocation },
    List { elements: Seq<NodeView>, location: SourceLocation },
    Cons { car: Box<NodeView>, cdr: Box<NodeView>, location: SourceLocation },
    Define { name: Seq<char>, value: Box<NodeView>, location: SourceLocation },
    Letrec { bindings: Seq<(Seq<char>, NodeView)>, body: Box<NodeView>, location: SourceLocation },
}

/// The contents of a list of strings.
pub open spec fn strings_view(v: Vec<String>) -> Seq<Seq<char>> {
    v@.map_values(|s: String| s@)
}

/// The abstract value of a literal.
pub open spec fn literal_view(l: Literal) -> LiteralView {
    match l {
        Literal::Nil => LiteralView::Nil,
        Literal::Bool(b) => LiteralView::Bool(b),
        Literal::Int(i) => LiteralView::Int(i),
        Literal::Float(t) => LiteralView::Float(t@),
        Literal::String(s) => LiteralView::Str(s@),
    }
}

/// The abstract value of a type.
pub open spec fn type_view(t: Type) -> TypeView
    decreases t, 0int,
{
    match t {
        Type::Basic(s) => TypeView::Basic(s@),
        Type::Function { parameters, return_type } => TypeView::Function {
            parameters: types_view(parameters, parameters.len() as int),
            return_type: Box::new(type_view(*return_type)),
        },
        Type::CapabilityType { base_type, capabilities } => TypeView::CapabilityType {
            base_type: Box::new(type_view(*base_type)),
            capabilities: strings_view(capabilities),
        },
        Type::Variable(s) => TypeView::Variable(s@),
    }
}

/// The views of the first `k` types of `v`.
pub open spec fn types_view(v: Vec<Type>, k: int) -> Seq<TypeView>
    decreases v, k,
{
    if k <= 0 || k > v.len() {
        seq![]
    } else {
        types_view(v, k - 1).push(type_view(v[k - 1]))
    }
}

/// The abstract value of a tree.
pub open spec fn node_view(n: AstNode) -> NodeView
    decreases n, 0int,
{
    match n {
        AstNode::Literal(l) => NodeView::Literal(literal_view(l)),
        AstNode::Symbol(s) => NodeView::Symbol(s@),
        AstNode::Variable(s) => NodeView::Variable(s@),
        AstNode::Call { function, arguments, location } => NodeView::Call {
            function: Box::new(node_view(*function)),
            arguments: nodes_view(arguments, arguments.len() as int),
            location,
        },
        AstNode::Lambda { parameters, body, location } => NodeView::Lambda {
            parameters: strings_view(parameters),
            body: Box::new(node_view(*body)),
            location,
        },
        AstNode::Let { bindings, body, location } => NodeView::Let {
            bindings: bindings_view(bindings, bindings.len() as int),
            body: Box::new(node_view(*body)),
            location,
        },
        AstNode::If { condition, then_branch, else_branch, location } => NodeView::If {
            condition: Box::new(node_view(*condition)),
            then_branch: Box::new(node_view(*then_branch)),
            else_branch: Box::new(node_view(*else_branch)),
            location,
        },
        AstNode::TrustTier { tier, expression, location } => NodeView::TrustTier {
            tier: tier@,
            expression: Box::new(node_view(*expression)),
            location,
        },
        AstNode::RequireCapability { capability, location } => NodeView::RequireCapability {
            capability: capability@,
            location,
        },
        AstNode::HasCapability { capability, location } => NodeView::HasCapability {
            capability: capability@,
            location,
        },
        AstNode::TypeSignature { name, parameters, return_type, capabilities, location } =>
            NodeView::TypeSignature {
            name: name@,
            parameters: types_view(parameters, parameters.len() as int),
            return_type: type_view(*return_type),
            capabilities: strings_view(capabilities),
            location,
        },
        AstNode::MacroDefinition { name, parameters, body, capabilities, tier, location } =>
            NodeView::MacroDefinition {
            name: name@,
            parameters: strings_view(parameters),
            body: Box::new(node_view(*body)),
            capabilities: strings_view(capabilities),
            tier: tier@,
            location,
        },
        AstNode::MacroExpansion { name, arguments, location } => NodeView::MacroExpansion {
            name: name@,
            arguments: nodes_view(arguments, arguments.len() as int),
            location,
        },
        AstNode::FfiCall { function, arguments, location } => NodeView::FfiCall {
            function: function@,
            arguments: nodes_view(arguments, arguments.len() as int),
            location,
        },
        AstNode::List { elements, location } => NodeView::List {
            elements: nodes_view(elements, elements.len() as int),
            location,
        },
        AstNode::Cons { car, cdr, location } => NodeView::Cons {
            car: Box::new(node_view(*car)),
            cdr: Box::new(node_view(*cdr)),
            location,
        },
        AstNode::Define { name, value, location } => NodeView::Define {
            name: name@,
            value: Box::new(node_view(*value)),
            location,
        },
        AstNode::Letrec { bindings, body, location } => NodeView::Letrec {
            bindings: bindings_view(bindings, bindings.len() as int),
            body: Box::new(node_view(*body)),
            location,
        },
    }
}

/// The views of the first `k` trees of `v`.
pub open spec fn nodes_view(v: Vec<AstNode>, k: int) -> Seq<NodeView>
    decreases v, k,
{
    if k <= 0 || k > v.len() {
        seq![]
    } else {
        nodes_view(v, k - 1).push(node_view(v[k - 1]))
    }
}

/// The views of the first `k` bindings of `v`.
pub open spec fn bindings_view(v: Vec<(String, AstNode)>, k: int) -> Seq<(Seq<char>, NodeView)>
    decreases v, k,
{
    if k <= 0 || k > v.len() {
        seq![]
    } else {
        bindings_view(v, k - 1).push((v[k - 1].0@, node_view(v[k - 1].1)))
    }
}

/// The views of all the trees of `v`.
pub open spec fn all_nodes_view(v: Vec<AstNode>) -> Seq<NodeView> {
    nodes_view(v, v.len() as int)
}

/// The views of a list of trees have its length and its trees' views.
pub proof fn lemma_nodes_view(v: Vec<AstNode>, k: int)
    requires
        0 <= k <= v.len(),
    ensures
        nodes_view(v, k).len() == k,
        forall|j: int| 0 <= j < k ==> #[trigger] nodes_view(v, k)[j] == node_view(v[j]),
    decreases k,
{
    if k > 0 {
        lemma_nodes_view(v, k - 1);
    }
}

/// The views of a list of bindings have its length and its bindings' views.
pub proof fn lemma_bindings_view(v: Vec<(String, AstNode)>, k: int)
    requires
        0 <= k <= v.len(),
    ensures
        bindings_view(v, k).len() == k,
        forall|j: int|
            0 <= j < k ==> #[trigger] bindings_view(v, k)[j] == (v[j].0@, node_view(v[j].1)),
    decreases k,
{
    if k > 0 {
        lemma_bindings_view(v, k - 1);
    }
}

/// The views of a list of types have its length and its types' views.
pub proof fn lemma_types_view(v: Vec<Type>, k: int)
    requires
        0 <= k <= v.len(),
    ensures
        types_view(v, k).len() == k,
        forall|j: int| 0 <= j < k ==> #[trigger] types_view(v, k)[j] == type_view(v[j]),
    decreases k,
{
    if k > 0 {
        lemma_types_view(v, k - 1);
    }
}

/// The number of nodes of a type.
pub open spec fn type_size(t: Type) -> nat
    decreases t, 0int,
{
    1 + match t {
        Type::Function { parameters, return_type } => types_size(parameters, parameters.len() as int)
            + type_size(*return_type),
        Type::CapabilityType { base_type, .. } => type_size(*base_type),
        _ => 0,
    }
}

/// The summed size of the first `k` types of `v`.
pub open spec fn types_size(v: Vec<Type>, k: int) -> nat
    decreases v, k,
{
    if k <= 0 || k > v.len() {
        0
    } else {
        types_size(v, k - 1) + type_size(v[k - 1])
    }
}

proof fn lemma_types_size(v: Vec<Type>, j: int, k: int)
    requires
        0 <= j < k <= v.len(),
    ensures
        type_size(v[j]) <= types_size(v, k),
    decreases k,
{
    if j < k - 1 {
        lemma_types_size(v, j, k - 1);
    }
}

/// A copy of a type.
pub fn clone_type(t: &Type) -> (r: Type)
    ensures
        type_view(r) == type_view(*t),
    decreases 2 * type_size(*t),
{
    match t {
        Type::Basic(s) => Type::Basic(s.clone()),
        Type::Function { parameters, return_type } => {
            let p = clone_types(parameters);
            let rt = clone_type(return_type);
            Type::Function { parameters: p, return_type: Box::new(rt) }
        },
        Type::CapabilityType { base_type, capabilities } => {
            let b = clone_type(base_type);
            let c = clone_strings(capabilities);
            Type::CapabilityType { base_type: Box::new(b), capabilities: c }
        },
        Type::Variable(s) => Type::Variable(s.clone()),
    }
}

/// A copy of a list of types.
pub fn clone_types(v: &Vec<Type>) -> (r: Vec<Type>)
    ensures
        r.len() == v.len(),
        types_view(r, r.len() as int) == types_view(*v, v.len() as int),
    decreases 2 * types_size(*v, v.len() as int) + 1,
{
    let mut r: Vec<Type> = Vec::new();
    let mut i: usize = 0;
    while i < v.len()
        invariant
            i <= v.len(),
            r.len() == i,
            forall|j: int| 0 <= j < i ==> type_view(#[trigger] r[j]) == type_view(v[j]),
        decreases v.len() - i,
    {
        proof {
            lemma_types_size(*v, i as int, v.len() as int);
        }
        let t = clone_type(&v[i]);
        r.push(t);
        i = i + 1;
    }
    proof {
        lemma_types_view(r, r.len() as int);
        lemma_types_view(*v, v.len() as int);
        assert(types_view(r, r.len() as int) =~= types_view(*v, v.len() as int));
    }
    r
}

impl AstNode {
    /// A copy of the tree.
    pub fn deep_clone(&self) -> (r: AstNode)
        ensures
            node_view(r) == node_view(*self),
        decreases 2 * tree_size(*self),
    {
        match self {
            AstNode::Literal(l) => AstNode::Literal(l.deep_clone()),
            AstNode::Symbol(s) => AstNode::Symbol(s.clone()),
            AstNode::Variable(s) => AstNode::Variable(s.clone()),
            AstNode::Call { function, arguments, location } => {
                let f = function.deep_clone();
                let a = clone_nodes(arguments);
                AstNode::Call { function: Box::new(f), arguments: a, location: *location }
            },
            AstNode::Lambda { parameters, body, location } => {
                let p = clone_strings(parameters);
                let b = body.deep_clone();
                AstNode::Lambda { parameters: p, body: Box::new(b), location: *location }
            },
            AstNode::Let { bindings, body, location } => {
                let bs = clone_bindings(bindings);
                let b = body.deep_clone();
                AstNode::Let { bindings: bs, body: Box::new(b), location: *location }
            },
            AstNode::If { condition, then_branch, else_branch, location } => {
                let c = condition.deep_clone();
                let t = then_branch.deep_clone();
                let e = else_branch.deep_clone();
                AstNode::If {
                    condition: Box::new(c),
                    then_branch: Box::new(t),
                    else_branch: Box::new(e),
                    location: *location,
                }
            },
            AstNode::TrustTier { tier, expression, location } => {
                let e = expression.deep_clone();
                AstNode::TrustTier { tier: tier.clone(), expression: Box::new(e), location: *location }
            },
            AstNode::RequireCapability { capability, location } => AstNode::RequireCapability {
                capability: capability.clone(),
                location: *location,
            },
            AstNode::HasCapability { capability, location } => AstNode::HasCapability {
                capability: capability.clone(),
                location: *location,
            },
            AstNode::TypeSignature { name, parameters, return_type, capabilities, location } => {
                let p = clone_types(parameters);
                let rt = clone_type(return_type);
                let c = clone_strings(capabilities);
                AstNode::TypeSignature {
                    name: name.clone(),
                    parameters: p,
                    return_type: Box::new(rt),
                    capabilities: c,
                    location: *location,
                }
            },
            AstNode::MacroDefinition { name, parameters, body, capabilities, tier, location } => {
                let p = clone_strings(parameters);
                let b = body.deep_clone();
                let c = clone_strings(capabilities);
                AstNode::MacroDefinition {
                    name: name.clone(),
                    parameters: p,
                    body: Box::new(b),
                    capabilities: c,
                    tier: tier.clone(),
                    location: *location,
                }
            },
            AstNode::MacroExpansion { name, arguments, location } => {
                let a = clone_nodes(arguments);
                AstNode::MacroExpansion { name: name.clone(), arguments: a, location: *location }
            },
            AstNode::FfiCall { function, arguments, location } => {
                let a = clone_nodes(arguments);
                AstNode::FfiCall { function: function.clone(), arguments: a, location: *location }
            },
            AstNode::List { elements, location } => {
                let a = clone_nodes(elements);
                AstNode::List { elements: a, location: *location }
            },
            AstNode::Cons { car, cdr, location } => {
                let a = car.deep_clone();
                let d = cdr.deep_clone();
                AstNode::Cons { car: Box::new(a), cdr: Box::new(d), location: *location }
            },
            AstNode::Define { name, value, location } => {
                let v = value.deep_clone();
                AstNode::Define { name: name.clone(), value: Box::new(v), location: *location }
            },
            AstNode::Letrec { bindings, body, location } => {
                let bs = clone_bindings(bindings);
                let b = body.deep_clone();
                AstNode::Letrec { bindings: bs, body: Box::new(b), location: *location }
            },
        }
    }
}

/// A copy of a list of trees.
pub fn clone_nodes(v: &Vec<AstNode>) -> (r: Vec<AstNode>)
    ensures
        r.len() == v.len(),
        all_nodes_view(r) == all_nodes_view(*v),
    decreases 2 * trees_size(*v, v.len() as int) + 1,
{
    let mut r: Vec<AstNode> = Vec::new();
    let mut i: usize = 0;
    while i < v.len()
        invariant
            i <= v.len(),
            r.len() == i,
            forall|j: int| 0 <= j < i ==> node_view(#[trigger] r[j]) == node_view(v[j]),
        decreases v.len() - i,
    {
        proof {
            lemma_trees_size(*v, i as int, v.len() as int);
        }
        let t = v[i].deep_clone();
        r.push(t);
        i = i + 1;
    }
    proof {
        lemma_nodes_view(r, r.len() as int);
        lemma_nodes_view(*v, v.len() as int);
        assert(all_nodes_view(r) =~= all_nodes_view(*v));
    }
    r
}

/// A copy of a list of bindings.
pub fn clone_bindings(v: &Vec<(String, AstNode)>) -> (r: Vec<(String, AstNode)>)
    ensures
        r.len() == v.len(),
        bindings_view(r, r.len() as int) == bindings_view(*v, v.len() as int),
    decreases 2 * bound_trees_size(*v, v.len() as int) + 1,
{
    let mut r: Vec<(String, AstNode)> = Vec::new();
    let mut i: usize = 0;
    while i < v.len()
        invariant
            i <= v.len(),
            r.len() == i,
            forall|j: int|
                0 <= j < i ==> (#[trigger] r[j]).0@ == v[j].0@ && node_view(r[j].1) == node_view(
                    v[j].1,
                ),
        decreases v.len() - i,
    {
        proof {
            lemma_bound_trees_size(*v, i as int, v.len() as int);
        }
        let t = v[i].1.deep_clone();
        r.push((v[i].0.clone(), t));
        i = i + 1;
    }
    proof {
        lemma_bindings_view(r, r.len() as int);
        lemma_bindings_view(*v, v.len() as int);
        assert(bindings_view(r, r.len() as int) =~= bindings_view(*v, v.len() as int));
    }
    r
}

} // verus!
