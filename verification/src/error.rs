//! Source locations, compilation errors and the bytecode-to-source map.
use vstd::prelude::*;
use crate::physics::Capability;
use crate::trust_tier::TrustTier;

verus! {

/// A position in the source text.
#[derive(Debug, Clone, Copy, PartialEq, Eq, Structural)]
pub struct SourceLocation {
    /// Line number (1-indexed; 0 for generated code).
    pub line: usize,
    /// Column number (1-indexed; 0 for generated code).
    pub column: usize,
    /// Character offset in the source.
    pub offset: usize,
}

/// The location used where no position is known: line, column and offset 0.
pub open spec fn unknown_location() -> SourceLocation {
    SourceLocation { line: 0, column: 0, offset: 0 }
}

impl Default for SourceLocation {
    fn default() -> (r: Self)
        ensures
            r == unknown_location(),
    {
        SourceLocation { line: 0, column: 0, offset: 0 }
    }
}

/// The location used where no position is known (line, column and offset 0).
pub fn default_location() -> (r: SourceLocation)
    ensures
        r == unknown_location(),
{
    SourceLocation { line: 0, column: 0, offset: 0 }
}

/// A capability that a trust tier does not grant was required.
#[derive(Debug, Clone, PartialEq)]
pub struct CapabilityViolation {
    /// The capability that was required.
    pub required: Capability,
    /// The trust tier that did not grant it.
    pub tier: TrustTier,
    /// Where it was required.
    pub location: SourceLocation,
    /// How to fix the program.
    pub suggestion: String,
}

/// A value of one type was found where another was expected.
#[derive(Debug, Clone, PartialEq)]
pub struct TypeMismatch {
    /// Expected type.
    pub expected: String,
    /// Found type.
    pub found: String,
    /// Where.
    pub location: SourceLocation,
}

/// The parser ran out of one of its resource limits.
#[derive(Debug, Clone, PartialEq)]
pub struct ParserError {
    /// What ran out.
    pub message: String,
    /// Where.
    pub location: SourceLocation,
}

/// Why a compilation failed.
#[derive(Debug, Clone, PartialEq)]
pub enum CompilationError {
    /// The source text is not a well-formed program.
    ParseError {
        /// What is wrong.
        message: String,
        /// Where.
        location: SourceLocation,
    },
    /// The parser exceeded a resource limit.
    ParserResourceLimit(ParserError),
    /// A capability was required that the tier does not grant.
    CapabilityError(CapabilityViolation),
    /// A type mismatch.
    TypeError(TypeMismatch),
    /// Proof generation or a static resource check failed.
    ProofGenerationFailed(String),
    /// Empirical validation failed.
    EmpiricalValidationFailed(String),
    /// A macro could not be expanded.
    MacroExpansionError(String),
    /// Compile-time execution failed.
    ComptimeError(String),
    /// A foreign function call could not be compiled.
    FfiError(String),
    /// An internal error of the compiler.
    InternalError(String),
    /// A variable that is not in scope was referenced.
    VariableNotFound(String),
    /// A foreign function that is not registered was called.
    FfiFunctionNotFound(String),
}

/// The first location recorded for bytecode offset `off` in `s`.
pub open spec fn first_location(s: Seq<(usize, SourceLocation)>, off: usize) -> Option<SourceLocation>
    decreases s.len(),
{
    if s.len() == 0 {
        None
    } else if s[0].0 == off {
        Some(s[0].1)
    } else {
        first_location(s.drop_first(), off)
    }
}

/// The first bytecode offset recorded for location `loc` in `s`.
pub open spec fn first_offset(s: Seq<(SourceLocation, usize)>, loc: SourceLocation) -> Option<usize>
    decreases s.len(),
{
    if s.len() == 0 {
        None
    } else if s[0].0 == loc {
        Some(s[0].1)
    } else {
        first_offset(s.drop_first(), loc)
    }
}

/// Links bytecode offsets and source locations, in both directions.
#[derive(Debug, Clone)]
pub struct SourceMap {
    /// Bytecode offset to source location, in the order added.
    pub bytecode_to_source: Vec<(usize, SourceLocation)>,
    /// Source location to bytecode offset, in the order added.
    pub source_to_bytecode: Vec<(SourceLocation, usize)>,
}

impl SourceMap {
    /// An empty source map.
    pub fn new() -> (r: Self)
        ensures
            r.bytecode_to_source@.len() == 0,
            r.source_to_bytecode@.len() == 0,
    {
        SourceMap { bytecode_to_source: Vec::new(), source_to_bytecode: Vec::new() }
    }

    /// Records that bytecode offset `bytecode_offset` came from
    /// `source_location`, in both directions.
    pub fn add_mapping(&mut self, bytecode_offset: usize, source_location: SourceLocation)
        ensures
            final(self).bytecode_to_source@ == old(self).bytecode_to_source@.push(
                (bytecode_offset, source_location),
            ),
            final(self).source_to_bytecode@ == old(self).source_to_bytecode@.push(
                (source_location, bytecode_offset),
            ),
    {
        self.bytecode_to_source.push((bytecode_offset, source_location));
        self.source_to_bytecode.push((source_location, bytecode_offset));
    }

    /// The source location first recorded for `bytecode_offset`.
    pub fn find_source_location(&self, bytecode_offset: usize) -> (r: Option<&SourceLocation>)
        ensures
            match r {
                Some(l) => first_location(self.bytecode_to_source@, bytecode_offset) == Some(*l),
                None => first_location(self.bytecode_to_source@, bytecode_offset) is None,
            },
    {
        let mut i: usize = 0;
        let n = self.bytecode_to_source.len();
        assert(self.bytecode_to_source@.skip(0) =~= self.bytecode_to_source@);
        while i < n
            invariant
                n == self.bytecode_to_source@.len(),
                i <= n,
                first_location(self.bytecode_to_source@, bytecode_offset) == first_location(
                    self.bytecode_to_source@.skip(i as int),
                    bytecode_offset,
                ),
            decreases n - i,
        {
            let ghost rest = self.bytecode_to_source@.skip(i as int);
            assert(rest.drop_first() =~= self.bytecode_to_source@.skip(i as int + 1));
            if self.bytecode_to_source[i].0 == bytecode_offset {
                return Some(&self.bytecode_to_source[i].1);
            }
            i = i + 1;
        }
        None
    }

    /// The bytecode offset first recorded for `source_location`.
    pub fn find_bytecode_offset(&self, source_location: &SourceLocation) -> (r: Option<&usize>)
        ensures
            match r {
                Some(o) => first_offset(self.source_to_bytecode@, *source_location) == Some(*o),
                None => first_offset(self.source_to_bytecode@, *source_location) is None,
            },
    {
        let mut i: usize = 0;
        let n = self.source_to_bytecode.len();
        assert(self.source_to_bytecode@.skip(0) =~= self.source_to_bytecode@);
        while i < n
            invariant
                n == self.source_to_bytecode@.len(),
                i <= n,
                first_offset(self.source_to_bytecode@, *source_location) == first_offset(
                    self.source_to_bytecode@.skip(i as int),
                    *source_location,
                ),
            decreases n - i,
        {
            let ghost rest = self.source_to_bytecode@.skip(i as int);
            assert(rest.drop_first() =~= self.source_to_bytecode@.skip(i as int + 1));
            if self.source_to_bytecode[i].0 == *source_location {
                return Some(&self.source_to_bytecode[i].1);
            }
            i = i + 1;
        }
        None
    }
}

/// Looking an offset up after recording it gives the location recorded for
/// it first: the new one when the offset had none before, else the earlier.
pub proof fn lemma_find_after_add_location(
    s: Seq<(usize, SourceLocation)>,
    off: usize,
    loc: SourceLocation,
)
    ensures
        first_location(s.push((off, loc)), off) == match first_location(s, off) {
            Some(l) => Some(l),
            None => Some(loc),
        },
    decreases s.len(),
{
    if s.len() > 0 {
        assert(s.push((off, loc)).drop_first() =~= s.drop_first().push((off, loc)));
        lemma_find_after_add_location(s.drop_first(), off, loc);
    }
}

/// Recording an offset does not change what other offsets look up to.
pub proof fn lemma_find_after_add_other_location(
    s: Seq<(usize, SourceLocation)>,
    off: usize,
    loc: SourceLocation,
    other: usize,
)
    requires
        other != off,
    ensures
        first_location(s.push((off, loc)), other) == first_location(s, other),
    decreases s.len(),
{
    if s.len() > 0 {
        assert(s.push((off, loc)).drop_first() =~= s.drop_first().push((off, loc)));
        lemma_find_after_add_other_location(s.drop_first(), off, loc, other);
    } else {
        assert(s.push((off, loc)).drop_first() =~= s);
    }
}

/// Looking a location up after recording it gives the offset recorded for
/// it first: the new one when the location had none before, else the earlier.
pub proof fn lemma_find_after_add_offset(
    s: Seq<(SourceLocation, usize)>,
    loc: SourceLocation,
    off: usize,
)
    ensures
        first_offset(s.push((loc, off)), loc) == match first_offset(s, loc) {
            Some(o) => Some(o),
            None => Some(off),
        },
    decreases s.len(),
{
    if s.len() > 0 {
        assert(s.push((loc, off)).drop_first() =~= s.drop_first().push((loc, off)));
        lemma_find_after_add_offset(s.drop_first(), loc, off);
    }
}

/// The printed form of a capability violation: tier, capability and line
/// and column, then the suggestion on a line of its own when there is one.
pub open spec fn violation_text(v: CapabilityViolation) -> Seq<char> {
    "Capability violation: "@ + crate::trust_tier::tier_name_spec(v.tier) + " tier requires capability "@
        + crate::physics::capability_name_spec(v.required) + " at "@ + crate::text::decimal(
        v.location.line as nat,
    ) + ":"@ + crate::text::decimal(v.location.column as nat) + if v.suggestion@.len() > 0 {
        "\nSuggestion: "@ + v.suggestion@
    } else {
        seq![]
    }
}

impl CapabilityViolation {
    /// The printed form (what displaying the violation writes).
    pub fn to_string(&self) -> (r: String)
        ensures
            r@ == violation_text(*self),
    {
        let mut out = String::from_str("Capability violation: ");
        out.append(self.tier.name());
        out.append(" tier requires capability ");
        out.append(crate::physics::capability_name(self.required));
        out.append(" at ");
        crate::text::push_decimal(&mut out, self.location.line as u64);
        out.append(":");
        crate::text::push_decimal(&mut out, self.location.column as u64);
        if self.suggestion.unicode_len() > 0 {
            out.append("\nSuggestion: ");
            out.append(self.suggestion.as_str());
        }
        assert(out@ =~= violation_text(*self));
        out
    }
}

impl TypeMismatch {
    /// The printed form: where, what was expected and what was found.
    pub fn to_string(&self) -> (r: String)
        ensures
            r@ == "Type mismatch at "@ + crate::text::decimal(self.location.line as nat) + ":"@
                + crate::text::decimal(self.location.column as nat) + " - expected "@ + self.expected@
                + ", found "@ + self.found@,
    {
        let mut out = String::from_str("Type mismatch at ");
        crate::text::push_decimal(&mut out, self.location.line as u64);
        out.append(":");
        crate::text::push_decimal(&mut out, self.location.column as u64);
        out.append(" - expected ");
        out.append(self.expected.as_str());
        out.append(", found ");
        out.append(self.found.as_str());
        out
    }
}

impl ParserError {
    /// The printed form: where, and which limit was exceeded.
    pub fn to_string(&self) -> (r: String)
        ensures
            r@ == "Parser resource limit exceeded at "@ + crate::text::decimal(self.location.line as nat)
                + ":"@ + crate::text::decimal(self.location.column as nat) + " - "@ + self.message@,
    {
        let mut out = String::from_str("Parser resource limit exceeded at ");
        crate::text::push_decimal(&mut out, self.location.line as u64);
        out.append(":");
        crate::text::push_decimal(&mut out, self.location.column as u64);
        out.append(" - ");
        out.append(self.message.as_str());
        out
    }
}

} // verus!
