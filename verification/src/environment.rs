//! The compilation environment: the stack offsets of variables, in a chain
//! of scopes, and the frame size saved when a scope is entered.
//!
//! Entering a scope opens a new, empty scope inside the current one and
//! saves the frame size; leaving it drops the scope, with the variables
//! bound in it, and restores the frame size.
use vstd::prelude::*;
use crate::text::str_eq;

verus! {

/// The variables bound in one scope, with a link to the enclosing scope.
#[derive(Debug)]
pub struct VariableScope {
    /// Each bound name with its offset (no name occurs twice).
    pub bindings: Vec<(String, usize)>,
    /// The enclosing scope.
    pub parent: Option<Box<VariableScope>>,
}

/// The offsets of the names bound in `b` itself.
pub open spec fn bindings_map(b: Seq<(String, usize)>) -> Map<Seq<char>, usize>
    decreases b.len(),
{
    if b.len() == 0 {
        Map::empty()
    } else {
        bindings_map(b.drop_last()).insert(b.last().0@, b.last().1)
    }
}

/// The offset that scope `s` and the scopes around it give each name: a
/// scope's own binding wins over an enclosing one.
pub open spec fn scope_map(s: VariableScope) -> Map<Seq<char>, usize>
    decreases s,
{
    match s.parent {
        Some(p) => scope_map(*p).union_prefer_right(bindings_map(s.bindings@)),
        None => bindings_map(s.bindings@),
    }
}

/// The variables in force in each scope enclosing `s`, outermost first.
pub open spec fn enclosing(s: VariableScope) -> Seq<Map<Seq<char>, usize>>
    decreases s,
{
    match s.parent {
        Some(p) => enclosing(*p).push(scope_map(*p)),
        None => Seq::empty(),
    }
}

/// No name is bound twice in the same scope, in this scope or an enclosing
/// one.
pub open spec fn scope_wf(s: VariableScope) -> bool
    decreases s,
{
    &&& forall|i: int, j: int|
        0 <= i < j < s.bindings@.len() ==> s.bindings@[i].0@ != s.bindings@[j].0@
    &&& match s.parent {
        Some(p) => scope_wf(*p),
        None => true,
    }
}

/// The compilation environment.
#[derive(Debug)]
pub struct CompilationEnvironment {
    /// The innermost scope.
    pub current_scope: VariableScope,
    /// The size of the current stack frame.
    pub frame_size: usize,
    /// The frame sizes saved on entering scopes, innermost last.
    pub saved_frame_sizes: Vec<usize>,
}

/// A binding list with `(n, v)` set: replaced where `n` is bound, appended
/// where it is not.
proof fn lemma_bindings_map_set(b: Seq<(String, usize)>, i: int, entry: (String, usize))
    requires
        0 <= i < b.len(),
        b[i].0@ == entry.0@,
        forall|x: int, y: int| 0 <= x < y < b.len() ==> b[x].0@ != b[y].0@,
    ensures
        bindings_map(b.update(i, entry)) == bindings_map(b).insert(entry.0@, entry.1),
    decreases b.len(),
{
    let u = b.update(i, entry);
    if i == b.len() - 1 {
        assert(u.drop_last() =~= b.drop_last());
        lemma_bindings_map_absent(b.drop_last(), entry.0@);
        assert(bindings_map(u) =~= bindings_map(b).insert(entry.0@, entry.1));
    } else {
        lemma_bindings_map_set(b.drop_last(), i, entry);
        assert(u.drop_last() =~= b.drop_last().update(i, entry));
        assert(b.last().0@ != entry.0@);
        assert(bindings_map(u) =~= bindings_map(b).insert(entry.0@, entry.1));
    }
}

/// A name that no binding has is not in the map.
proof fn lemma_bindings_map_absent(b: Seq<(String, usize)>, n: Seq<char>)
    requires
        forall|x: int| 0 <= x < b.len() ==> b[x].0@ != n,
    ensures
        !bindings_map(b).contains_key(n),
    decreases b.len(),
{
    if b.len() > 0 {
        lemma_bindings_map_absent(b.drop_last(), n);
    }
}

/// A bound name maps to its offset.
proof fn lemma_bindings_map_at(b: Seq<(String, usize)>, i: int)
    requires
        0 <= i < b.len(),
        forall|x: int, y: int| 0 <= x < y < b.len() ==> b[x].0@ != b[y].0@,
    ensures
        bindings_map(b).contains_key(b[i].0@),
        bindings_map(b)[b[i].0@] == b[i].1,
    decreases b.len(),
{
    if i < b.len() - 1 {
        lemma_bindings_map_at(b.drop_last(), i);
    }
}

impl VariableScope {
    /// The offset of `name` in this scope or the scopes around it.
    pub fn lookup(&self, name: &str) -> (r: Option<usize>)
        requires
            scope_wf(*self),
        ensures
            r == scope_map(*self).get(name@),
        decreases *self,
    {
        let mut i: usize = 0;
        while i < self.bindings.len()
            invariant
                i <= self.bindings@.len(),
                scope_wf(*self),
                forall|j: int| 0 <= j < i ==> self.bindings@[j].0@ != name@,
            decreases self.bindings@.len() - i,
        {
            if str_eq(self.bindings[i].0.as_str(), name) {
                proof {
                    lemma_bindings_map_at(self.bindings@, i as int);
                }
                return Some(self.bindings[i].1);
            }
            i = i + 1;
        }
        proof {
            lemma_bindings_map_absent(self.bindings@, name@);
        }
        match &self.parent {
            Some(p) => (**p).lookup(name),
            None => None,
        }
    }

    /// Binds `name` to `offset` in this scope, in place of its binding here
    /// if it has one.
    pub fn bind(&mut self, name: String, offset: usize)
        requires
            scope_wf(*old(self)),
        ensures
            scope_wf(*final(self)),
            final(self).parent == old(self).parent,
            bindings_map(final(self).bindings@) == bindings_map(old(self).bindings@).insert(
                name@,
                offset,
            ),
    {
        let mut i: usize = 0;
        while i < self.bindings.len()
            invariant
                i <= self.bindings@.len(),
                self.bindings@ == old(self).bindings@,
                self.parent == old(self).parent,
                scope_wf(*old(self)),
                forall|j: int| 0 <= j < i ==> self.bindings@[j].0@ != name@,
            decreases self.bindings@.len() - i,
        {
            if str_eq(self.bindings[i].0.as_str(), name.as_str()) {
                proof {
                    lemma_bindings_map_set(self.bindings@, i as int, (name, offset));
                }
                self.bindings.set(i, (name, offset));
                proof {
                    assert(forall|x: int, y: int|
                        0 <= x < y < self.bindings@.len() ==> self.bindings@[x].0@ != self.bindings@[y].0@);
                }
                return;
            }
            i = i + 1;
        }
        proof {
            lemma_bindings_map_absent(self.bindings@, name@);
        }
        self.bindings.push((name, offset));
        proof {
            assert(self.bindings@.drop_last() =~= old(self).bindings@);
        }
    }
}

impl CompilationEnvironment {
    /// The offset each name is bound to.
    pub open spec fn variables(&self) -> Map<Seq<char>, usize> {
        scope_map(self.current_scope)
    }

    /// The variables in force in each enclosing scope, outermost first:
    /// what leaving scopes restores.
    pub open spec fn outer_variables(&self) -> Seq<Map<Seq<char>, usize>> {
        enclosing(self.current_scope)
    }

    /// The scopes bind no name twice.
    pub open spec fn wf(&self) -> bool {
        scope_wf(self.current_scope)
    }

    /// An environment with no variable, an empty frame and no saved frame.
    pub fn new() -> (r: Self)
        ensures
            r.wf(),
            r.variables() == Map::<Seq<char>, usize>::empty(),
            r.current_scope.bindings@.len() == 0,
            r.current_scope.parent is None,
            r.outer_variables().len() == 0,
            r.frame_size == 0,
            r.saved_frame_sizes@.len() == 0,
    {
        let r = CompilationEnvironment {
            current_scope: VariableScope { bindings: Vec::new(), parent: None },
            frame_size: 0,
            saved_frame_sizes: Vec::new(),
        };
        assert(r.variables() =~= Map::<Seq<char>, usize>::empty());
        r
    }

    /// Enters a scope: opens a new, empty scope inside the current one and
    /// saves the frame size.
    pub fn push_scope(&mut self)
        requires
            old(self).wf(),
        ensures
            final(self).wf(),
            final(self).current_scope.bindings@.len() == 0,
            final(self).current_scope.parent == Some(Box::new(old(self).current_scope)),
            final(self).variables() == old(self).variables(),
            final(self).outer_variables() == old(self).outer_variables().push(old(self).variables()),
            final(self).frame_size == old(self).frame_size,
            final(self).saved_frame_sizes@ == old(self).saved_frame_sizes@.push(old(self).frame_size),
    {
        let saved_frame_size = self.frame_size;
        self.saved_frame_sizes.push(saved_frame_size);
        let mut enclosing_scope = VariableScope { bindings: Vec::new(), parent: None };
        std::mem::swap(&mut enclosing_scope, &mut self.current_scope);
        self.current_scope = VariableScope { bindings: Vec::new(), parent: Some(Box::new(enclosing_scope)) };
        proof {
            assert(bindings_map(self.current_scope.bindings@) =~= Map::<Seq<char>, usize>::empty());
            assert(self.variables() =~= old(self).variables());
        }
    }

    /// Leaves a scope: drops the current scope, with the variables bound in
    /// it, where it has an enclosing one, and restores the frame size saved
    /// last, if there is one.
    pub fn pop_scope(&mut self)
        requires
            old(self).wf(),
        ensures
            final(self).wf(),
            old(self).current_scope.parent matches Some(p) ==> final(self).current_scope == *p,
            old(self).current_scope.parent is None ==> final(self).current_scope == old(self).current_scope,
            old(self).outer_variables().len() > 0 ==> final(self).variables() == old(self).outer_variables().last()
                && final(self).outer_variables() == old(self).outer_variables().drop_last(),
            old(self).outer_variables().len() == 0 ==> final(self).variables() == old(self).variables()
                && final(self).outer_variables() == old(self).outer_variables(),
            old(self).saved_frame_sizes@.len() > 0 ==> final(self).frame_size == old(
                self,
            ).saved_frame_sizes@.last() && final(self).saved_frame_sizes@ == old(
                self,
            ).saved_frame_sizes@.drop_last(),
            old(self).saved_frame_sizes@.len() == 0 ==> final(self).frame_size == old(
                self,
            ).frame_size && final(self).saved_frame_sizes@ == old(self).saved_frame_sizes@,
    {
        match self.saved_frame_sizes.pop() {
            Some(saved_frame_size) => {
                self.frame_size = saved_frame_size;
            },
            None => {},
        }
        let parent = self.current_scope.parent.take();
        match parent {
            Some(p) => {
                self.current_scope = *p;
            },
            None => {},
        }
    }

    /// Binds `name` to the next slot of the frame, and grows the frame.
    pub fn define_variable(&mut self, name: &str) -> (r: usize)
        requires
            old(self).wf(),
            old(self).frame_size < usize::MAX,
        ensures
            final(self).wf(),
            r == old(self).frame_size,
            final(self).frame_size == old(self).frame_size + 1,
            final(self).saved_frame_sizes == old(self).saved_frame_sizes,
            final(self).variables() == old(self).variables().insert(name@, r),
            final(self).outer_variables() == old(self).outer_variables(),
    {
        let offset = self.frame_size;
        self.add_variable(crate::text::to_owned_string(name), offset);
        self.frame_size = self.frame_size + 1;
        offset
    }

    /// The offset of `name`, if it is bound.
    pub fn lookup_variable(&self, name: &str) -> (r: Option<usize>)
        requires
            self.wf(),
        ensures
            r == self.variables().get(name@),
    {
        self.current_scope.lookup(name)
    }

    /// The offset of `name`, if it is bound.
    pub fn get_variable_index(&self, name: &str) -> (r: Option<usize>)
        requires
            self.wf(),
        ensures
            r == self.variables().get(name@),
    {
        self.lookup_variable(name)
    }

    /// Binds `name` to `offset` in the innermost scope and gives back the
    /// offset.
    pub fn add_variable(&mut self, name: String, offset: usize) -> (r: usize)
        requires
            old(self).wf(),
        ensures
            final(self).wf(),
            r == offset,
            final(self).variables() == old(self).variables().insert(name@, offset),
            final(self).frame_size == old(self).frame_size,
            final(self).saved_frame_sizes == old(self).saved_frame_sizes,
            final(self).outer_variables() == old(self).outer_variables(),
    {
        self.current_scope.bind(name, offset);
        proof {
            assert(self.variables() =~= old(self).variables().insert(name@, offset));
        }
        offset
    }
}

/// Entering a scope and leaving it again restores the variables in force,
/// the enclosing scopes, the frame size and the saved frame sizes, whatever
/// was bound meanwhile.
pub proof fn lemma_push_pop_restores(
    before: CompilationEnvironment,
    pushed: CompilationEnvironment,
    middle: CompilationEnvironment,
    after: CompilationEnvironment,
)
    requires
        pushed.outer_variables() == before.outer_variables().push(before.variables()),
        pushed.frame_size == before.frame_size,
        pushed.saved_frame_sizes@ == before.saved_frame_sizes@.push(before.frame_size),
        middle.outer_variables() == pushed.outer_variables(),
        middle.saved_frame_sizes@ == pushed.saved_frame_sizes@,
        after.variables() == middle.outer_variables().last(),
        after.outer_variables() == middle.outer_variables().drop_last(),
        after.frame_size == middle.saved_frame_sizes@.last(),
        after.saved_frame_sizes@ == middle.saved_frame_sizes@.drop_last(),
    ensures
        after.variables() == before.variables(),
        after.outer_variables() == before.outer_variables(),
        after.frame_size == before.frame_size,
        after.saved_frame_sizes@ == before.saved_frame_sizes@,
{
    assert(before.saved_frame_sizes@.push(before.frame_size).drop_last() =~= before.saved_frame_sizes@);
    assert(before.outer_variables().push(before.variables()).drop_last() =~= before.outer_variables());
}

} // verus!
