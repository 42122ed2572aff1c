//! The printed form of syntax trees, types and literals: the surface
//! syntax they were read from, give or take spacing.
use vstd::prelude::*;
use crate::ast::{AstNode, Literal, Type, tree_size, trees_size, bound_trees_size, lemma_trees_size,
    lemma_bound_trees_size};
use crate::ast_view::{type_size, types_size};
use crate::text::{decimal, push_decimal};

verus! {

/// The parts joined by single spaces.
pub open spec fn joined(parts: Seq<Seq<char>>) -> Seq<char>
    decreases parts.len(),
{
    if parts.len() == 0 {
        seq![]
    } else if parts.len() == 1 {
        parts[0]
    } else {
        joined(parts.drop_last()) + " "@ + parts.last()
    }
}

/// Each part after a space.
pub open spec fn prefixed(parts: Seq<Seq<char>>) -> Seq<char>
    decreases parts.len(),
{
    if parts.len() == 0 {
        seq![]
    } else {
        prefixed(parts.drop_last()) + " "@ + parts.last()
    }
}

/// Each part followed by a space.
pub open spec fn suffixed(parts: Seq<Seq<char>>) -> Seq<char>
    decreases parts.len(),
{
    if parts.len() == 0 {
        seq![]
    } else {
        suffixed(parts.drop_last()) + parts.last() + " "@
    }
}

/// The decimal notation of an integer, with a minus sign when negative.
pub open spec fn signed_decimal(i: int) -> Seq<char> {
    if i < 0 {
        "-"@ + decimal((-i) as nat)
    } else {
        decimal(i as nat)
    }
}

/// The printed form of a literal: `nil`, `true`/`false`, the number, or
/// the string in double quotes. A float literal is carried as the decimal
/// text it was written with and prints as that text, so `1.50` prints as
/// `1.50`, not in the shortest form that a binary float would print (`1.5`).
pub open spec fn literal_text(l: Literal) -> Seq<char> {
    match l {
        Literal::Nil => "nil"@,
        Literal::Bool(b) => if b {
            "true"@
        } else {
            "false"@
        },
        Literal::Int(i) => signed_decimal(i as int),
        Literal::Float(t) => t@,
        Literal::String(s) => "\""@ + s@ + "\""@,
    }
}

/// The contents of a list of strings.
pub open spec fn string_texts(v: Seq<String>) -> Seq<Seq<char>> {
    v.map_values(|s: String| s@)
}

/// The printed form of a type.
pub open spec fn type_text(t: Type) -> Seq<char>
    decreases t, 0int,
{
    match t {
        Type::Basic(n) => n@,
        Type::Function { parameters, return_type } => "("@ + joined(
            type_texts(parameters, parameters.len() as int),
        ) + " -> "@ + type_text(*return_type) + ")"@,
        Type::CapabilityType { base_type, capabilities } => type_text(*base_type) + if capabilities.len()
            == 0 {
            seq![]
        } else {
            " ["@ + joined(string_texts(capabilities@)) + "]"@
        },
        Type::Variable(n) => n@,
    }
}

/// The printed forms of the first `k` types of `v`.
pub open spec fn type_texts(v: Vec<Type>, k: int) -> Seq<Seq<char>>
    decreases v, k,
{
    if k <= 0 || k > v.len() {
        seq![]
    } else {
        type_texts(v, k - 1).push(type_text(v[k - 1]))
    }
}

/// The printed form of a tree.
pub open spec fn node_text(n: AstNode) -> Seq<char>
    decreases n, 0int,
{
    match n {
        AstNode::Literal(l) => literal_text(l),
        AstNode::Symbol(s) => "'"@ + s@,
        AstNode::Variable(v) => v@,
        AstNode::Call { function, arguments, .. } => "("@ + node_text(*function) + prefixed(
            node_texts(arguments, arguments.len() as int),
        ) + ")"@,
        AstNode::Lambda { parameters, body, .. } => "(lambda ("@ + joined(string_texts(parameters@))
            + ") "@ + node_text(*body) + ")"@,
        AstNode::Let { bindings, body, .. } => "(let ("@ + joined(
            binding_texts(bindings, bindings.len() as int),
        ) + ") "@ + node_text(*body) + ")"@,
        AstNode::If { condition, then_branch, else_branch, .. } => "(if "@ + node_text(*condition)
            + " "@ + node_text(*then_branch) + " "@ + node_text(*else_branch) + ")"@,
        AstNode::TrustTier { tier, expression, .. } => "("@ + tier@ + " "@ + node_text(*expression)
            + ")"@,
        AstNode::RequireCapability { capability, .. } => "(require-capability '"@ + capability@
            + " )"@,
        AstNode::HasCapability { capability, .. } => "(has-capability? '"@ + capability@ + " )"@,
        AstNode::TypeSignature { name, parameters, return_type, .. } => "(:signature ("@ + name@
            + prefixed(type_texts(parameters, parameters.len() as int)) + " -> "@ + type_text(
            *return_type,
        ) + ")"@,
        AstNode::MacroDefinition { name, parameters, .. } => "(defmacro "@ + name@ + " ("@ + joined(
            string_texts(parameters@),
        ) + ") ...)"@,
        AstNode::MacroExpansion { name, arguments, .. } => "("@ + name@ + prefixed(
            node_texts(arguments, arguments.len() as int),
        ) + ")"@,
        AstNode::FfiCall { function, arguments, .. } => "(ffi-call "@ + function@ + " "@ + suffixed(
            node_texts(arguments, arguments.len() as int),
        ) + ")"@,
        AstNode::List { elements, .. } => "(list"@ + prefixed(node_texts(elements, elements.len() as int))
            + ")"@,
        AstNode::Cons { car, cdr, .. } => "(cons "@ + node_text(*car) + " "@ + node_text(*cdr) + ")"@,
        AstNode::Define { name, value, .. } => "(define "@ + name@ + " "@ + node_text(*value) + ")"@,
        AstNode::Letrec { bindings, body, .. } => "(letrec ("@ + joined(
            binding_texts(bindings, bindings.len() as int),
        ) + ") "@ + node_text(*body) + ")"@,
    }
}

/// The printed forms of the first `k` trees of `v`.
pub open spec fn node_texts(v: Vec<AstNode>, k: int) -> Seq<Seq<char>>
    decreases v, k,
{
    if k <= 0 || k > v.len() {
        seq![]
    } else {
        node_texts(v, k - 1).push(node_text(v[k - 1]))
    }
}

/// The printed forms `(name value)` of the first `k` bindings of `v`.
pub open spec fn binding_texts(v: Vec<(String, AstNode)>, k: int) -> Seq<Seq<char>>
    decreases v, k,
{
    if k <= 0 || k > v.len() {
        seq![]
    } else {
        binding_texts(v, k - 1).push("("@ + v[k - 1].0@ + " "@ + node_text(v[k - 1].1) + ")"@)
    }
}

/// Appends `s` to `out`.
fn append(out: &mut String, s: &str)
    ensures
        final(out)@ == old(out)@ + s@,
{
    out.append(s);
}

/// Appends the names of `v` joined by spaces.
fn push_joined_strings(out: &mut String, v: &Vec<String>)
    ensures
        final(out)@ == old(out)@ + joined(string_texts(v@)),
{
    let mut i: usize = 0;
    while i < v.len()
        invariant
            i <= v@.len(),
            out@ == old(out)@ + joined(string_texts(v@.take(i as int))),
        decreases v@.len() - i,
    {
        if i > 0 {
            append(out, " ");
        }
        append(out, v[i].as_str());
        i = i + 1;
        assert(string_texts(v@.take(i as int)).drop_last() =~= string_texts(v@.take(i - 1)));
        assert(out@ =~= old(out)@ + joined(string_texts(v@.take(i as int))));
    }
    assert(v@.take(i as int) =~= v@);
}

impl Literal {
    /// Appends the printed form.
    pub fn push_text(&self, out: &mut String)
        ensures
            final(out)@ == old(out)@ + literal_text(*self),
    {
        match self {
            Literal::Nil => append(out, "nil"),
            Literal::Bool(b) => if *b {
                append(out, "true");
            } else {
                append(out, "false");
            },
            Literal::Int(i) => {
                if *i < 0 {
                    append(out, "-");
                    let m: u64 = ((-(*i + 1)) as u64) + 1;
                    push_decimal(out, m);
                } else {
                    push_decimal(out, *i as u64);
                }
            },
            Literal::Float(t) => append(out, t.as_str()),
            Literal::String(s) => {
                append(out, "\"");
                append(out, s.as_str());
                append(out, "\"");
            },
        }
    }

    /// The printed form (what displaying the literal writes).
    pub fn to_string(&self) -> (r: String)
        ensures
            r@ == literal_text(*self),
    {
        let mut out = String::new();
        self.push_text(&mut out);
        assert(out@ =~= literal_text(*self));
        out
    }
}

proof fn lemma_type_sizes(v: Vec<Type>, j: int, k: int)
    requires
        0 <= j < k <= v.len(),
    ensures
        type_size(v[j]) <= types_size(v, k),
    decreases k,
{
    if j < k - 1 {
        lemma_type_sizes(v, j, k - 1);
    }
}

impl Type {
    /// Appends the printed form.
    pub fn push_text(&self, out: &mut String)
        ensures
            final(out)@ == old(out)@ + type_text(*self),
        decreases 2 * type_size(*self),
    {
        match self {
            Type::Basic(n) => append(out, n.as_str()),
            Type::Function { parameters, return_type } => {
                append(out, "(");
                push_joined_types(out, parameters);
                append(out, " -> ");
                return_type.push_text(out);
                append(out, ")");
                assert(out@ =~= old(out)@ + type_text(*self));
            },
            Type::CapabilityType { base_type, capabilities } => {
                base_type.push_text(out);
                if capabilities.len() > 0 {
                    append(out, " [");
                    push_joined_strings(out, capabilities);
                    append(out, "]");
                }
                assert(out@ =~= old(out)@ + type_text(*self));
            },
            Type::Variable(n) => append(out, n.as_str()),
        }
    }

    /// The printed form (what displaying the type writes).
    pub fn to_string(&self) -> (r: String)
        ensures
            r@ == type_text(*self),
    {
        let mut out = String::new();
        self.push_text(&mut out);
        assert(out@ =~= type_text(*self));
        out
    }
}

/// Appends the printed forms of `v` joined by spaces.
fn push_joined_types(out: &mut String, v: &Vec<Type>)
    ensures
        final(out)@ == old(out)@ + joined(type_texts(*v, v@.len() as int)),
    decreases 2 * types_size(*v, v@.len() as int) + 1,
{
    let mut i: usize = 0;
    while i < v.len()
        invariant
            i <= v@.len(),
            out@ == old(out)@ + joined(type_texts(*v, i as int)),
        decreases v@.len() - i,
    {
        proof {
            lemma_type_sizes(*v, i as int, v@.len() as int);
        }
        if i > 0 {
            append(out, " ");
        }
        v[i].push_text(out);
        i = i + 1;
        assert(type_texts(*v, i as int).drop_last() =~= type_texts(*v, i - 1));
        assert(out@ =~= old(out)@ + joined(type_texts(*v, i as int)));
    }
}

/// Appends the printed forms of `v`, each after a space.
fn push_prefixed_types(out: &mut String, v: &Vec<Type>)
    ensures
        final(out)@ == old(out)@ + prefixed(type_texts(*v, v@.len() as int)),
{
    let mut i: usize = 0;
    while i < v.len()
        invariant
            i <= v@.len(),
            out@ == old(out)@ + prefixed(type_texts(*v, i as int)),
        decreases v@.len() - i,
    {
        append(out, " ");
        v[i].push_text(out);
        i = i + 1;
        assert(type_texts(*v, i as int).drop_last() =~= type_texts(*v, i - 1));
        assert(out@ =~= old(out)@ + prefixed(type_texts(*v, i as int)));
    }
}

/// How the trees of a list are laid out.
pub enum ListLayout {
    /// Each after a space.
    Prefixed,
    /// Each followed by a space.
    Suffixed,
}

/// The printed forms of some trees laid out by `layout`.
pub open spec fn laid_out(layout: ListLayout, parts: Seq<Seq<char>>) -> Seq<char> {
    match layout {
        ListLayout::Prefixed => prefixed(parts),
        ListLayout::Suffixed => suffixed(parts),
    }
}

impl AstNode {
    /// Appends the printed form (see `node_text`).
    #[verifier::loop_isolation(false)]
    pub fn push_text(&self, out: &mut String)
        ensures
            final(out)@ == old(out)@ + node_text(*self),
        decreases 3 * tree_size(*self) + 2,
    {
        match self {
            AstNode::Literal(l) => l.push_text(out),
            AstNode::Symbol(s) => {
                append(out, "'");
                append(out, s.as_str());
            },
            AstNode::Variable(v) => append(out, v.as_str()),
            AstNode::Call { function, arguments, .. } => {
                append(out, "(");
                function.push_text(out);
                push_node_list(out, arguments, ListLayout::Prefixed);
                append(out, ")");
            },
            AstNode::Lambda { parameters, body, .. } => {
                append(out, "(lambda (");
                push_joined_strings(out, parameters);
                append(out, ") ");
                body.push_text(out);
                append(out, ")");
            },
            AstNode::Let { bindings, body, .. } => {
                append(out, "(let (");
                push_bindings(out, bindings);
                append(out, ") ");
                body.push_text(out);
                append(out, ")");
            },
            AstNode::If { condition, then_branch, else_branch, .. } => {
                append(out, "(if ");
                condition.push_text(out);
                append(out, " ");
                then_branch.push_text(out);
                append(out, " ");
                else_branch.push_text(out);
                append(out, ")");
            },
            AstNode::TrustTier { tier, expression, .. } => {
                append(out, "(");
                append(out, tier.as_str());
                append(out, " ");
                expression.push_text(out);
                append(out, ")");
            },
            AstNode::RequireCapability { capability, .. } => {
                append(out, "(require-capability '");
                append(out, capability.as_str());
                append(out, " )");
            },
            AstNode::HasCapability { capability, .. } => {
                append(out, "(has-capability? '");
                append(out, capability.as_str());
                append(out, " )");
            },
            AstNode::TypeSignature { name, parameters, return_type, .. } => {
                append(out, "(:signature (");
                append(out, name.as_str());
                push_prefixed_types(out, parameters);
                append(out, " -> ");
                return_type.push_text(out);
                append(out, ")");
            },
            AstNode::MacroDefinition { name, parameters, .. } => {
                append(out, "(defmacro ");
                append(out, name.as_str());
                append(out, " (");
                push_joined_strings(out, parameters);
                append(out, ") ...)");
            },
            AstNode::MacroExpansion { name, arguments, .. } => {
                append(out, "(");
                append(out, name.as_str());
                push_node_list(out, arguments, ListLayout::Prefixed);
                append(out, ")");
            },
            AstNode::FfiCall { function, arguments, .. } => {
                append(out, "(ffi-call ");
                append(out, function.as_str());
                append(out, " ");
                push_node_list(out, arguments, ListLayout::Suffixed);
                append(out, ")");
            },
            AstNode::List { elements, .. } => {
                append(out, "(list");
                push_node_list(out, elements, ListLayout::Prefixed);
                append(out, ")");
            },
            AstNode::Cons { car, cdr, .. } => {
                append(out, "(cons ");
                car.push_text(out);
                append(out, " ");
                cdr.push_text(out);
                append(out, ")");
            },
            AstNode::Define { name, value, .. } => {
                append(out, "(define ");
                append(out, name.as_str());
                append(out, " ");
                value.push_text(out);
                append(out, ")");
            },
            AstNode::Letrec { bindings, body, .. } => {
                append(out, "(letrec (");
                push_bindings(out, bindings);
                append(out, ") ");
                body.push_text(out);
                append(out, ")");
            },
        }
        assert(out@ =~= old(out)@ + node_text(*self));
    }

    /// The printed form (what displaying the tree writes).
    pub fn to_string(&self) -> (r: String)
        ensures
            r@ == node_text(*self),
    {
        let mut out = String::new();
        self.push_text(&mut out);
        assert(out@ =~= node_text(*self));
        out
    }
}

/// Appends the printed forms of `v` laid out by `layout`.
fn push_node_list(out: &mut String, v: &Vec<AstNode>, layout: ListLayout)
    ensures
        final(out)@ == old(out)@ + laid_out(layout, node_texts(*v, v@.len() as int)),
    decreases 3 * trees_size(*v, v@.len() as int) + 3,
{
    let mut i: usize = 0;
    while i < v.len()
        invariant
            i <= v@.len(),
            out@ == old(out)@ + laid_out(layout, node_texts(*v, i as int)),
        decreases v@.len() - i,
    {
        proof {
            lemma_trees_size(*v, i as int, v@.len() as int);
        }
        match layout {
            ListLayout::Prefixed => {
                append(out, " ");
                v[i].push_text(out);
            },
            ListLayout::Suffixed => {
                v[i].push_text(out);
                append(out, " ");
            },
        }
        i = i + 1;
        assert(node_texts(*v, i as int).drop_last() =~= node_texts(*v, i - 1));
        assert(out@ =~= old(out)@ + laid_out(layout, node_texts(*v, i as int)));
    }
}

/// Appends the printed forms `(name value)` of `v` joined by spaces.
fn push_bindings(out: &mut String, v: &Vec<(String, AstNode)>)
    ensures
        final(out)@ == old(out)@ + joined(binding_texts(*v, v@.len() as int)),
    decreases 3 * bound_trees_size(*v, v@.len() as int) + 3,
{
    let mut i: usize = 0;
    while i < v.len()
        invariant
            i <= v@.len(),
            out@ == old(out)@ + joined(binding_texts(*v, i as int)),
        decreases v@.len() - i,
    {
        proof {
            lemma_bound_trees_size(*v, i as int, v@.len() as int);
        }
        if i > 0 {
            append(out, " ");
        }
        append(out, "(");
        append(out, v[i].0.as_str());
        append(out, " ");
        v[i].1.push_text(out);
        append(out, ")");
        i = i + 1;
        assert(binding_texts(*v, i as int).drop_last() =~= binding_texts(*v, i - 1));
        assert(out@ =~= old(out)@ + joined(binding_texts(*v, i as int)));
    }
}

} // verus!
