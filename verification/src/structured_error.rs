//! Structured diagnostics: errors with a kind, a severity, the phase and
//! module they arose in, recovery suggestions and related capabilities; a
//! handler that collects them and a reporter that writes them out.
use vstd::prelude::*;
use crate::error::{CompilationError, SourceLocation, unknown_location};
use crate::physics::{Capability, capability_name, capability_name_spec};
use crate::text::{decimal, push_decimal};
use crate::trust_tier::{TrustTier, tier_name_spec};

verus! {

/// The kind of an error.
#[derive(Debug, Clone, Copy, PartialEq, Eq, Structural)]
pub enum ErrorType {
    /// Syntax or parsing.
    SyntaxError,
    /// Types.
    TypeError,
    /// Capabilities.
    CapabilityError,
    /// Resource limits.
    ResourceLimitError,
    /// Proofs.
    ProofError,
    /// Compile-time execution.
    ComptimeError,
    /// Foreign calls.
    FfiError,
    /// The compiler itself.
    InternalError,
    /// Security.
    SecurityError,
}

/// How serious an error is, from least to most.
#[derive(Debug, Clone, Copy, PartialEq, Eq, Structural)]
pub enum ErrorSeverity {
    /// Information.
    Info,
    /// A warning: compilation goes on.
    Warning,
    /// An error: compilation stops.
    Error,
    /// A compiler bug.
    Critical,
}

/// The rank of a severity in its order.
pub open spec fn severity_rank(s: ErrorSeverity) -> int {
    match s {
        ErrorSeverity::Info => 0,
        ErrorSeverity::Warning => 1,
        ErrorSeverity::Error => 2,
        ErrorSeverity::Critical => 3,
    }
}

/// The name of a severity.
pub open spec fn severity_name(s: ErrorSeverity) -> Seq<char> {
    match s {
        ErrorSeverity::Info => "Info"@,
        ErrorSeverity::Warning => "Warning"@,
        ErrorSeverity::Error => "Error"@,
        ErrorSeverity::Critical => "Critical"@,
    }
}

impl ErrorSeverity {
    /// The name of the severity (what displaying it writes).
    pub fn name(&self) -> (r: &'static str)
        ensures
            r@ == severity_name(*self),
    {
        match self {
            ErrorSeverity::Info => "Info",
            ErrorSeverity::Warning => "Warning",
            ErrorSeverity::Error => "Error",
            ErrorSeverity::Critical => "Critical",
        }
    }

    /// Is this severity at least `other`.
    pub fn is_at_least(&self, other: &ErrorSeverity) -> (r: bool)
        ensures
            r == (severity_rank(*self) >= severity_rank(*other)),
    {
        let a: u8 = match self {
            ErrorSeverity::Info => 0,
            ErrorSeverity::Warning => 1,
            ErrorSeverity::Error => 2,
            ErrorSeverity::Critical => 3,
        };
        let b: u8 = match other {
            ErrorSeverity::Info => 0,
            ErrorSeverity::Warning => 1,
            ErrorSeverity::Error => 2,
            ErrorSeverity::Critical => 3,
        };
        a >= b
    }
}

/// The phase of compilation an error arose in.
#[derive(Debug, Clone, Copy, PartialEq, Eq, Structural)]
pub enum CompilationPhase {
    /// Lexing.
    Lexing,
    /// Parsing.
    Parsing,
    /// Macro expansion.
    MacroExpansion,
    /// Type checking.
    TypeChecking,
    /// Capability analysis.
    CapabilityAnalysis,
    /// Proof generation.
    ProofGeneration,
    /// Bytecode generation.
    BytecodeGeneration,
    /// Compile-time execution.
    ComptimeExecution,
    /// Optimisation.
    Optimization,
    /// Linking.
    Linking,
}

/// The name of a phase, as `{:?}` writes it.
pub open spec fn phase_name(p: CompilationPhase) -> Seq<char> {
    match p {
        CompilationPhase::Lexing => "Lexing"@,
        CompilationPhase::Parsing => "Parsing"@,
        CompilationPhase::MacroExpansion => "MacroExpansion"@,
        CompilationPhase::TypeChecking => "TypeChecking"@,
        CompilationPhase::CapabilityAnalysis => "CapabilityAnalysis"@,
        CompilationPhase::ProofGeneration => "ProofGeneration"@,
        CompilationPhase::BytecodeGeneration => "BytecodeGeneration"@,
        CompilationPhase::ComptimeExecution => "ComptimeExecution"@,
        CompilationPhase::Optimization => "Optimization"@,
        CompilationPhase::Linking => "Linking"@,
    }
}

impl CompilationPhase {
    /// The name of the phase.
    pub fn name(&self) -> (r: &'static str)
        ensures
            r@ == phase_name(*self),
    {
        match self {
            CompilationPhase::Lexing => "Lexing",
            CompilationPhase::Parsing => "Parsing",
            CompilationPhase::MacroExpansion => "MacroExpansion",
            CompilationPhase::TypeChecking => "TypeChecking",
            CompilationPhase::CapabilityAnalysis => "CapabilityAnalysis",
            CompilationPhase::ProofGeneration => "ProofGeneration",
            CompilationPhase::BytecodeGeneration => "BytecodeGeneration",
            CompilationPhase::ComptimeExecution => "ComptimeExecution",
            CompilationPhase::Optimization => "Optimization",
            CompilationPhase::Linking => "Linking",
        }
    }
}

/// What was being processed when an error arose.
#[derive(Debug, Clone)]
pub struct ErrorContext {
    /// The phase.
    pub phase: CompilationPhase,
    /// The trust tier.
    pub trust_tier: TrustTier,
    /// The module.
    pub module: String,
    /// The function, if known.
    pub function: Option<String>,
    /// The source text concerned, if known.
    pub source_snippet: Option<String>,
}

/// An error with its context and what to do about it.
#[derive(Debug, Clone)]
pub struct StructuredError {
    /// Its kind.
    pub error_type: ErrorType,
    /// Its severity.
    pub severity: ErrorSeverity,
    /// What happened.
    pub message: String,
    /// Where.
    pub location: SourceLocation,
    /// What was being processed.
    pub context: ErrorContext,
    /// Suggested ways to recover.
    pub recovery_suggestions: Vec<String>,
    /// Capabilities involved.
    pub related_capabilities: Vec<Capability>,
    /// The trust tier.
    pub trust_tier: TrustTier,
    /// A code for programs.
    pub error_code: String,
    /// A stack trace, if any.
    pub stack_trace: Option<String>,
}

/// How reports are written.
#[derive(Debug, Clone, Copy, PartialEq, Eq, Structural)]
pub enum ErrorFormat {
    /// Text for people.
    Text,
    /// JSON for programs.
    Json,
    /// One line per error.
    Compact,
}

/// Builds a structured error step by step.
pub struct StructuredErrorBuilder {
    error: StructuredError,
}

impl StructuredErrorBuilder {
    /// The error built so far.
    pub closed spec fn value(self) -> StructuredError {
        self.error
    }

    /// An error of kind `error_type` with `message`: severity error, the
    /// unknown location, the parsing phase, the formal tier, module
    /// `unknown`, code `GENERIC`, and nothing else.
    pub fn new(error_type: ErrorType, message: String) -> (r: Self)
        ensures
            r.value().error_type == error_type,
            r.value().severity == ErrorSeverity::Error,
            r.value().message == message,
            r.value().location == unknown_location(),
            r.value().context.phase == CompilationPhase::Parsing,
            r.value().context.trust_tier == TrustTier::Formal,
            r.value().context.module@ == "unknown"@,
            r.value().context.function is None,
            r.value().context.source_snippet is None,
            r.value().recovery_suggestions@.len() == 0,
            r.value().related_capabilities@.len() == 0,
            r.value().trust_tier == TrustTier::Formal,
            r.value().error_code@ == "GENERIC"@,
            r.value().stack_trace is None,
    {
        StructuredErrorBuilder {
            error: StructuredError {
                error_type,
                severity: ErrorSeverity::Error,
                message,
                location: SourceLocation::default(),
                context: ErrorContext {
                    phase: CompilationPhase::Parsing,
                    trust_tier: TrustTier::Formal,
                    module: String::from_str("unknown"),
                    function: None,
                    source_snippet: None,
                },
                recovery_suggestions: Vec::new(),
                related_capabilities: Vec::new(),
                trust_tier: TrustTier::Formal,
                error_code: String::from_str("GENERIC"),
                stack_trace: None,
            },
        }
    }

    /// Sets the severity.
    pub fn with_severity(self, severity: ErrorSeverity) -> (r: Self)
        ensures
            r.value() == (StructuredError { severity, ..self.value() }),
    {
        let mut s = self;
        s.error.severity = severity;
        s
    }

    /// Sets the location.
    pub fn with_location(self, location: SourceLocation) -> (r: Self)
        ensures
            r.value() == (StructuredError { location, ..self.value() }),
    {
        let mut s = self;
        s.error.location = location;
        s
    }

    /// Sets the phase.
    pub fn with_phase(self, phase: CompilationPhase) -> (r: Self)
        ensures
            r.value() == (StructuredError {
                context: ErrorContext { phase, ..self.value().context },
                ..self.value()
            }),
    {
        let mut s = self;
        s.error.context.phase = phase;
        s
    }

    /// Sets the module.
    pub fn with_module(self, module: &str) -> (r: Self)
        ensures
            r.value().context.module@ == module@,
            r.value() == (StructuredError {
                context: ErrorContext { module: r.value().context.module, ..self.value().context },
                ..self.value()
            }),
    {
        let mut s = self;
        s.error.context.module = String::from_str(module);
        s
    }

    /// Sets the function.
    pub fn with_function(self, function: &str) -> (r: Self)
        ensures
            r.value().context.function matches Some(f) && f@ == function@,
            r.value() == (StructuredError {
                context: ErrorContext { function: r.value().context.function, ..self.value().context },
                ..self.value()
            }),
    {
        let mut s = self;
        s.error.context.function = Some(String::from_str(function));
        s
    }

    /// Sets the source snippet.
    pub fn with_source_snippet(self, snippet: &str) -> (r: Self)
        ensures
            r.value().context.source_snippet matches Some(f) && f@ == snippet@,
            r.value() == (StructuredError {
                context: ErrorContext {
                    source_snippet: r.value().context.source_snippet,
                    ..self.value().context
                },
                ..self.value()
            }),
    {
        let mut s = self;
        s.error.context.source_snippet = Some(String::from_str(snippet));
        s
    }

    /// Adds a recovery suggestion after the others.
    pub fn with_recovery_suggestion(self, suggestion: &str) -> (r: Self)
        ensures
            r.value().recovery_suggestions@.len() == self.value().recovery_suggestions@.len() + 1,
            r.value().recovery_suggestions@.drop_last() == self.value().recovery_suggestions@,
            r.value().recovery_suggestions@.last()@ == suggestion@,
            r.value() == (StructuredError {
                recovery_suggestions: r.value().recovery_suggestions,
                ..self.value()
            }),
    {
        let mut s = self;
        s.error.recovery_suggestions.push(String::from_str(suggestion));
        assert(s.error.recovery_suggestions@.drop_last() =~= self.value().recovery_suggestions@);
        s
    }

    /// Adds a related capability after the others.
    pub fn with_related_capability(self, capability: Capability) -> (r: Self)
        ensures
            r.value().related_capabilities@ == self.value().related_capabilities@.push(capability),
            r.value() == (StructuredError {
                related_capabilities: r.value().related_capabilities,
                ..self.value()
            }),
    {
        let mut s = self;
        s.error.related_capabilities.push(capability);
        s
    }

    /// Sets the trust tier, of the error and of its context.
    pub fn with_trust_tier(self, tier: TrustTier) -> (r: Self)
        ensures
            r.value() == (StructuredError {
                trust_tier: tier,
                context: ErrorContext { trust_tier: tier, ..self.value().context },
                ..self.value()
            }),
    {
        let mut s = self;
        s.error.trust_tier = tier;
        s.error.context.trust_tier = tier;
        s
    }

    /// Sets the error code.
    pub fn with_error_code(self, code: &str) -> (r: Self)
        ensures
            r.value().error_code@ == code@,
            r.value() == (StructuredError { error_code: r.value().error_code, ..self.value() }),
    {
        let mut s = self;
        s.error.error_code = String::from_str(code);
        s
    }

    /// Sets the stack trace.
    pub fn with_stack_trace(self, trace: &str) -> (r: Self)
        ensures
            r.value().stack_trace matches Some(t) && t@ == trace@,
            r.value() == (StructuredError { stack_trace: r.value().stack_trace, ..self.value() }),
    {
        let mut s = self;
        s.error.stack_trace = Some(String::from_str(trace));
        s
    }

    /// The error built.
    pub fn build(self) -> (r: StructuredError)
        ensures
            r == self.value(),
    {
        self.error
    }
}

/// Does `e` hold exactly: kind `ty`, severity error, message `msg`,
/// location `loc`, phase `phase`, module `module`, no function, snippet or
/// stack trace, the related capabilities `caps`, tier `tier` (of the error
/// and its context), the one suggestion `suggestion` and the code `code`.
pub open spec fn standard_error(
    e: StructuredError,
    ty: ErrorType,
    msg: Seq<char>,
    loc: SourceLocation,
    phase: CompilationPhase,
    module: Seq<char>,
    caps: Seq<Capability>,
    tier: TrustTier,
    suggestion: Seq<char>,
    code: Seq<char>,
) -> bool {
    &&& e.error_type == ty
    &&& e.severity == ErrorSeverity::Error
    &&& e.message@ == msg
    &&& e.location == loc
    &&& e.context.phase == phase
    &&& e.context.trust_tier == tier
    &&& e.context.module@ == module
    &&& e.context.function is None
    &&& e.context.source_snippet is None
    &&& e.recovery_suggestions@.len() == 1
    &&& e.recovery_suggestions@[0]@ == suggestion
    &&& e.related_capabilities@ == caps
    &&& e.trust_tier == tier
    &&& e.error_code@ == code
    &&& e.stack_trace is None
}

/// Collects structured errors for a module of some trust tier.
#[derive(Debug, Clone)]
pub struct StructuredErrorHandler {
    errors: Vec<StructuredError>,
    trust_tier: TrustTier,
    current_module: String,
}

impl StructuredErrorHandler {
    /// The errors collected, oldest first.
    pub closed spec fn errors_seq(self) -> Seq<StructuredError> {
        self.errors@
    }

    /// The trust tier.
    pub closed spec fn tier(self) -> TrustTier {
        self.trust_tier
    }

    /// The current module.
    pub closed spec fn module_name(self) -> Seq<char> {
        self.current_module@
    }

    /// No error, module `main`.
    pub fn new(trust_tier: TrustTier) -> (r: Self)
        ensures
            r.errors_seq().len() == 0,
            r.tier() == trust_tier,
            r.module_name() == "main"@,
    {
        StructuredErrorHandler { errors: Vec::new(), trust_tier, current_module: String::from_str("main") }
    }

    /// Changes the current module.
    pub fn set_current_module(&mut self, module: &str)
        ensures
            final(self).module_name() == module@,
            final(self).errors_seq() == old(self).errors_seq(),
            final(self).tier() == old(self).tier(),
    {
        self.current_module = String::from_str(module);
    }

    /// Records an error.
    pub fn add_error(&mut self, error: StructuredError)
        ensures
            final(self).errors_seq() == old(self).errors_seq().push(error),
            final(self).module_name() == old(self).module_name(),
            final(self).tier() == old(self).tier(),
    {
        self.errors.push(error);
    }

    /// Records that `required` was needed and not available.
    pub fn add_capability_violation(&mut self, required: Capability, location: SourceLocation, suggestion: &str)
        ensures
            final(self).errors_seq().len() == old(self).errors_seq().len() + 1,
            final(self).errors_seq().drop_last() == old(self).errors_seq(),
            standard_error(
                final(self).errors_seq().last(),
                ErrorType::CapabilityError,
                "Capability "@ + capability_name_spec(required) + " required but not available"@,
                location,
                CompilationPhase::CapabilityAnalysis,
                old(self).module_name(),
                seq![required],
                old(self).tier(),
                suggestion@,
                "CAP_VIOLATION"@,
            ),
            final(self).module_name() == old(self).module_name(),
            final(self).tier() == old(self).tier(),
    {
        let mut m = String::from_str("Capability ");
        m.append(capability_name(required));
        m.append(" required but not available");
        let error = StructuredErrorBuilder::new(ErrorType::CapabilityError, m)
            .with_severity(ErrorSeverity::Error)
            .with_location(location)
            .with_phase(CompilationPhase::CapabilityAnalysis)
            .with_module(self.current_module.as_str())
            .with_related_capability(required)
            .with_trust_tier(self.trust_tier)
            .with_recovery_suggestion(suggestion)
            .with_error_code("CAP_VIOLATION")
            .build();
        assert(error.related_capabilities@ =~= seq![required]);
        self.errors.push(error);
        assert(self.errors@.drop_last() =~= old(self).errors@);
    }

    /// Records a type mismatch.
    pub fn add_type_mismatch(&mut self, expected: &str, found: &str, location: SourceLocation)
        ensures
            final(self).errors_seq().len() == old(self).errors_seq().len() + 1,
            final(self).errors_seq().drop_last() == old(self).errors_seq(),
            standard_error(
                final(self).errors_seq().last(),
                ErrorType::TypeError,
                "Type mismatch: expected "@ + expected@ + ", found "@ + found@,
                location,
                CompilationPhase::TypeChecking,
                old(self).module_name(),
                seq![],
                old(self).tier(),
                "Check your type annotations and function signatures"@,
                "TYPE_MISMATCH"@,
            ),
            final(self).module_name() == old(self).module_name(),
            final(self).tier() == old(self).tier(),
    {
        let mut m = String::from_str("Type mismatch: expected ");
        m.append(expected);
        m.append(", found ");
        m.append(found);
        let error = StructuredErrorBuilder::new(ErrorType::TypeError, m)
            .with_severity(ErrorSeverity::Error)
            .with_location(location)
            .with_phase(CompilationPhase::TypeChecking)
            .with_module(self.current_module.as_str())
            .with_trust_tier(self.trust_tier)
            .with_recovery_suggestion("Check your type annotations and function signatures")
            .with_error_code("TYPE_MISMATCH")
            .build();
        assert(error.related_capabilities@ =~= seq![]);
        self.errors.push(error);
        assert(self.errors@.drop_last() =~= old(self).errors@);
    }

    /// Records that a resource limit was exceeded.
    pub fn add_resource_limit_error(&mut self, resource_type: &str, limit: u64, location: SourceLocation)
        ensures
            final(self).errors_seq().len() == old(self).errors_seq().len() + 1,
            final(self).errors_seq().drop_last() == old(self).errors_seq(),
            standard_error(
                final(self).errors_seq().last(),
                ErrorType::ResourceLimitError,
                resource_type@ + " limit exceeded: "@ + decimal(limit as nat),
                location,
                CompilationPhase::ComptimeExecution,
                old(self).module_name(),
                seq![],
                old(self).tier(),
                "Increase resource limits or optimize your code"@,
                "RESOURCE_LIMIT"@,
            ),
            final(self).module_name() == old(self).module_name(),
            final(self).tier() == old(self).tier(),
    {
        let mut m = String::from_str(resource_type);
        m.append(" limit exceeded: ");
        push_decimal(&mut m, limit);
        let error = StructuredErrorBuilder::new(ErrorType::ResourceLimitError, m)
            .with_severity(ErrorSeverity::Error)
            .with_location(location)
            .with_phase(CompilationPhase::ComptimeExecution)
            .with_module(self.current_module.as_str())
            .with_trust_tier(self.trust_tier)
            .with_recovery_suggestion("Increase resource limits or optimize your code")
            .with_error_code("RESOURCE_LIMIT")
            .build();
        assert(error.related_capabilities@ =~= seq![]);
        self.errors.push(error);
        assert(self.errors@.drop_last() =~= old(self).errors@);
    }

    /// Records that a proof could not be generated.
    pub fn add_proof_generation_error(&mut self, message: &str, location: SourceLocation)
        ensures
            final(self).errors_seq().len() == old(self).errors_seq().len() + 1,
            final(self).errors_seq().drop_last() == old(self).errors_seq(),
            standard_error(
                final(self).errors_seq().last(),
                ErrorType::ProofError,
                "Proof generation failed: "@ + message@,
                location,
                CompilationPhase::ProofGeneration,
                old(self).module_name(),
                seq![],
                old(self).tier(),
                "Check your proof obligations and logical consistency"@,
                "PROOF_GEN"@,
            ),
            final(self).module_name() == old(self).module_name(),
            final(self).tier() == old(self).tier(),
    {
        let mut m = String::from_str("Proof generation failed: ");
        m.append(message);
        let error = StructuredErrorBuilder::new(ErrorType::ProofError, m)
            .with_severity(ErrorSeverity::Error)
            .with_location(location)
            .with_phase(CompilationPhase::ProofGeneration)
            .with_module(self.current_module.as_str())
            .with_trust_tier(self.trust_tier)
            .with_recovery_suggestion("Check your proof obligations and logical consistency")
            .with_error_code("PROOF_GEN")
            .build();
        assert(error.related_capabilities@ =~= seq![]);
        self.errors.push(error);
        assert(self.errors@.drop_last() =~= old(self).errors@);
    }

    /// Is some error critical.
    pub fn has_critical_errors(&self) -> (r: bool)
        ensures
            r == exists|i: int|
                0 <= i < self.errors_seq().len() && #[trigger] self.errors_seq()[i].severity
                    == ErrorSeverity::Critical,
    {
        let mut i: usize = 0;
        while i < self.errors.len()
            invariant
                i <= self.errors@.len(),
                forall|j: int| 0 <= j < i ==> self.errors@[j].severity != ErrorSeverity::Critical,
            decreases self.errors@.len() - i,
        {
            if self.errors[i].severity == ErrorSeverity::Critical {
                return true;
            }
            i = i + 1;
        }
        false
    }

    /// Is some error at least of severity error.
    pub fn has_errors(&self) -> (r: bool)
        ensures
            r == exists|i: int|
                0 <= i < self.errors_seq().len() && severity_rank(
                    #[trigger] self.errors_seq()[i].severity,
                ) >= severity_rank(ErrorSeverity::Error),
    {
        let mut i: usize = 0;
        while i < self.errors.len()
            invariant
                i <= self.errors@.len(),
                forall|j: int|
                    0 <= j < i ==> severity_rank(#[trigger] self.errors@[j].severity) < severity_rank(
                        ErrorSeverity::Error,
                    ),
            decreases self.errors@.len() - i,
        {
            if self.errors[i].severity.is_at_least(&ErrorSeverity::Error) {
                return true;
            }
            i = i + 1;
        }
        false
    }

    /// The errors collected.
    pub fn get_errors(&self) -> (r: &[StructuredError])
        ensures
            r@ == self.errors_seq(),
    {
        self.errors.as_slice()
    }

    /// Forgets every error.
    pub fn clear_errors(&mut self)
        ensures
            final(self).errors_seq().len() == 0,
            final(self).module_name() == old(self).module_name(),
            final(self).tier() == old(self).tier(),
    {
        self.errors.clear();
    }

    /// When some error is at least of severity error, an internal error
    /// carrying the message of the first error collected.
    pub fn to_compilation_error(&self) -> (r: Option<CompilationError>)
        ensures
            (exists|i: int|
                0 <= i < self.errors_seq().len() && severity_rank(
                    #[trigger] self.errors_seq()[i].severity,
                ) >= severity_rank(ErrorSeverity::Error)) ==> (r matches Some(
                CompilationError::InternalError(m),
            ) && m@ == self.errors_seq()[0].message@),
            !(exists|i: int|
                0 <= i < self.errors_seq().len() && severity_rank(
                    #[trigger] self.errors_seq()[i].severity,
                ) >= severity_rank(ErrorSeverity::Error)) ==> r is None,
    {
        if self.has_errors() {
            let m = self.errors[0].message.clone();
            Some(CompilationError::InternalError(m))
        } else {
            None
        }
    }
}

/// One line per suggestion: `  - ` and the suggestion.
pub open spec fn suggestion_lines(s: Seq<String>) -> Seq<char>
    decreases s.len(),
{
    if s.len() == 0 {
        seq![]
    } else {
        suggestion_lines(s.drop_last()) + "  - "@ + s.last()@ + "\n"@
    }
}

/// One line per capability: `  - ` and its name.
pub open spec fn capability_lines(c: Seq<Capability>) -> Seq<char>
    decreases c.len(),
{
    if c.len() == 0 {
        seq![]
    } else {
        capability_lines(c.drop_last()) + "  - "@ + capability_name_spec(c.last()) + "\n"@
    }
}

/// The first lines of an error's text: severity and code, message, line
/// and column.
pub open spec fn text_head(e: StructuredError) -> Seq<char> {
    severity_name(e.severity) + " ["@ + e.error_code@ + "]\n"@ + e.message@ + "\n"@ + "Location: "@
        + decimal(e.location.line as nat) + ":"@ + decimal(e.location.column as nat) + "\n"@
}

/// The module line, when the module is not empty.
pub open spec fn text_module(e: StructuredError) -> Seq<char> {
    if e.context.module@.len() > 0 {
        "Module: "@ + e.context.module@ + "\n"@
    } else {
        seq![]
    }
}

/// The function line, when the function is known.
pub open spec fn text_function(e: StructuredError) -> Seq<char> {
    match e.context.function {
        Some(f) => "Function: "@ + f@ + "\n"@,
        None => seq![],
    }
}

/// The phase and tier lines.
pub open spec fn text_phase_tier(e: StructuredError) -> Seq<char> {
    "Phase: "@ + phase_name(e.context.phase) + "\n"@ + "Trust Tier: "@ + tier_name_spec(e.trust_tier)
        + "\n"@
}

/// The suggestions, under a heading, when there are any.
pub open spec fn text_suggestions(e: StructuredError) -> Seq<char> {
    if e.recovery_suggestions@.len() > 0 {
        "\nRecovery suggestions:\n"@ + suggestion_lines(e.recovery_suggestions@)
    } else {
        seq![]
    }
}

/// The related capabilities, under a heading, when there are any.
pub open spec fn text_capabilities(e: StructuredError) -> Seq<char> {
    if e.related_capabilities@.len() > 0 {
        "\nRelated capabilities:\n"@ + capability_lines(e.related_capabilities@)
    } else {
        seq![]
    }
}

/// The stack trace, under a heading, when there is one.
pub open spec fn text_trace(e: StructuredError) -> Seq<char> {
    match e.stack_trace {
        Some(t) => "\nStack trace:\n"@ + t@ + "\n"@,
        None => seq![],
    }
}

/// The text of an error: its severity and code, its message, its line and
/// column, its module (when not empty) and function (when known), its phase
/// and tier, then its suggestions, related capabilities and stack trace
/// when there are any, each under a heading after a blank line.
pub open spec fn error_text(e: StructuredError) -> Seq<char> {
    text_head(e) + text_module(e) + text_function(e) + text_phase_tier(e) + text_suggestions(e)
        + text_capabilities(e) + text_trace(e)
}

/// Appends `s` to `out`.
fn append(out: &mut String, s: &str)
    ensures
        final(out)@ == old(out)@ + s@,
{
    out.append(s);
}

impl StructuredError {
    fn push_head(&self, out: &mut String)
        ensures
            final(out)@ == old(out)@ + text_head(*self),
    {
        append(out, self.severity.name());
        append(out, " [");
        append(out, self.error_code.as_str());
        append(out, "]\n");
        append(out, self.message.as_str());
        append(out, "\n");
        append(out, "Location: ");
        push_decimal(out, self.location.line as u64);
        append(out, ":");
        push_decimal(out, self.location.column as u64);
        append(out, "\n");
        assert(out@ =~= old(out)@ + text_head(*self));
    }

    fn push_context(&self, out: &mut String)
        ensures
            final(out)@ == old(out)@ + text_module(*self) + text_function(*self) + text_phase_tier(*self),
    {
        if self.context.module.unicode_len() > 0 {
            append(out, "Module: ");
            append(out, self.context.module.as_str());
            append(out, "\n");
        }
        let ghost h = out@;
        match &self.context.function {
            Some(f) => {
                append(out, "Function: ");
                append(out, f.as_str());
                append(out, "\n");
            },
            None => {},
        }
        append(out, "Phase: ");
        append(out, self.context.phase.name());
        append(out, "\n");
        append(out, "Trust Tier: ");
        append(out, self.trust_tier.name());
        append(out, "\n");
        assert(out@ =~= old(out)@ + text_module(*self) + text_function(*self) + text_phase_tier(*self));
    }

    fn push_suggestions(&self, out: &mut String)
        ensures
            final(out)@ == old(out)@ + text_suggestions(*self),
    {
        if self.recovery_suggestions.len() > 0 {
            append(out, "\nRecovery suggestions:\n");
            let ghost h = out@;
            let mut i: usize = 0;
            while i < self.recovery_suggestions.len()
                invariant
                    i <= self.recovery_suggestions@.len(),
                    out@ == h + suggestion_lines(self.recovery_suggestions@.take(i as int)),
                decreases self.recovery_suggestions@.len() - i,
            {
                append(out, "  - ");
                append(out, self.recovery_suggestions[i].as_str());
                append(out, "\n");
                i = i + 1;
                assert(self.recovery_suggestions@.take(i as int).drop_last() =~= self.recovery_suggestions@.take(
                    i - 1,
                ));
            }
            assert(self.recovery_suggestions@.take(i as int) =~= self.recovery_suggestions@);
        }
        assert(out@ =~= old(out)@ + text_suggestions(*self));
    }

    fn push_capabilities(&self, out: &mut String)
        ensures
            final(out)@ == old(out)@ + text_capabilities(*self),
    {
        if self.related_capabilities.len() > 0 {
            append(out, "\nRelated capabilities:\n");
            let ghost h = out@;
            let mut i: usize = 0;
            while i < self.related_capabilities.len()
                invariant
                    i <= self.related_capabilities@.len(),
                    out@ == h + capability_lines(self.related_capabilities@.take(i as int)),
                decreases self.related_capabilities@.len() - i,
            {
                append(out, "  - ");
                append(out, capability_name(self.related_capabilities[i]));
                append(out, "\n");
                i = i + 1;
                assert(self.related_capabilities@.take(i as int).drop_last() =~= self.related_capabilities@.take(
                    i - 1,
                ));
            }
            assert(self.related_capabilities@.take(i as int) =~= self.related_capabilities@);
        }
        assert(out@ =~= old(out)@ + text_capabilities(*self));
    }

    fn push_trace(&self, out: &mut String)
        ensures
            final(out)@ == old(out)@ + text_trace(*self),
    {
        match &self.stack_trace {
            Some(t) => {
                append(out, "\nStack trace:\n");
                append(out, t.as_str());
                append(out, "\n");
            },
            None => {},
        }
        assert(out@ =~= old(out)@ + text_trace(*self));
    }

    /// The text of the error (see `error_text`), as displaying it writes.
    pub fn to_text(&self) -> (r: String)
        ensures
            r@ == error_text(*self),
    {
        let mut out = String::new();
        self.push_head(&mut out);
        self.push_context(&mut out);
        self.push_suggestions(&mut out);
        self.push_capabilities(&mut out);
        self.push_trace(&mut out);
        assert(out@ =~= error_text(*self));
        out
    }
}

/// Each error's text followed by a blank line.
pub open spec fn texts(errs: Seq<StructuredError>) -> Seq<char>
    decreases errs.len(),
{
    if errs.len() == 0 {
        seq![]
    } else {
        texts(errs.drop_last()) + error_text(errs.last()) + "\n\n"@
    }
}

/// One line per error: line and column, severity, code and message.
pub open spec fn compact_lines(errs: Seq<StructuredError>) -> Seq<char>
    decreases errs.len(),
{
    if errs.len() == 0 {
        seq![]
    } else {
        let e = errs.last();
        compact_lines(errs.drop_last()) + decimal(e.location.line as nat) + ":"@ + decimal(
            e.location.column as nat,
        ) + " "@ + severity_name(e.severity) + " ["@ + e.error_code@ + "] "@ + e.message@ + "\n"@
    }
}

/// The report of some errors in a text format: `No errors found` when there
/// are none.
pub open spec fn report_or_none(errs: Seq<StructuredError>, body: Seq<char>) -> Seq<char> {
    if errs.len() == 0 {
        "No errors found"@
    } else {
        body
    }
}

/// Writes the errors of a handler in one format.
pub struct ErrorReporter {
    handler: StructuredErrorHandler,
    format: ErrorFormat,
}

impl ErrorReporter {
    /// The errors reported.
    pub closed spec fn reported(self) -> Seq<StructuredError> {
        self.handler.errors_seq()
    }

    /// The format.
    pub closed spec fn report_format(self) -> ErrorFormat {
        self.format
    }

    /// A reporter of `handler`'s errors in `format`.
    pub fn new(handler: StructuredErrorHandler, format: ErrorFormat) -> (r: Self)
        ensures
            r.reported() == handler.errors_seq(),
            r.report_format() == format,
    {
        ErrorReporter { handler, format }
    }

    /// The handler whose errors are reported.
    pub fn handler(&self) -> (r: &StructuredErrorHandler)
        ensures
            r.errors_seq() == self.reported(),
    {
        &self.handler
    }

    /// The report in the text and compact formats; the JSON report, which
    /// serialises the errors, is written by the application, and `None`
    /// stands for it here.
    pub fn report_errors(&self) -> (r: Option<String>)
        ensures
            self.report_format() == ErrorFormat::Text ==> (r matches Some(t) && t@ == report_or_none(
                self.reported(),
                texts(self.reported()),
            )),
            self.report_format() == ErrorFormat::Compact ==> (r matches Some(t) && t@ == report_or_none(
                self.reported(),
                compact_lines(self.reported()),
            )),
            self.report_format() == ErrorFormat::Json ==> r is None,
    {
        match self.format {
            ErrorFormat::Text => Some(self.report_text()),
            ErrorFormat::Compact => Some(self.report_compact()),
            ErrorFormat::Json => None,
        }
    }

    /// The text report: each error's text and a blank line.
    fn report_text(&self) -> (r: String)
        ensures
            r@ == report_or_none(self.reported(), texts(self.reported())),
    {
        let errors = self.handler.get_errors();
        if errors.len() == 0 {
            return String::from_str("No errors found");
        }
        let mut out = String::new();
        let mut i: usize = 0;
        while i < errors.len()
            invariant
                i <= errors@.len(),
                errors@ == self.reported(),
                out@ == texts(errors@.take(i as int)),
            decreases errors@.len() - i,
        {
            let t = errors[i].to_text();
            append(&mut out, t.as_str());
            append(&mut out, "\n\n");
            i = i + 1;
            assert(errors@.take(i as int).drop_last() =~= errors@.take(i - 1));
        }
        assert(errors@.take(i as int) =~= errors@);
        out
    }

    /// The compact report: one line per error.
    fn report_compact(&self) -> (r: String)
        ensures
            r@ == report_or_none(self.reported(), compact_lines(self.reported())),
    {
        let errors = self.handler.get_errors();
        if errors.len() == 0 {
            return String::from_str("No errors found");
        }
        let mut out = String::new();
        let mut i: usize = 0;
        while i < errors.len()
            invariant
                i <= errors@.len(),
                errors@ == self.reported(),
                out@ == compact_lines(errors@.take(i as int)),
            decreases errors@.len() - i,
        {
            let e = &errors[i];
            push_decimal(&mut out, e.location.line as u64);
            append(&mut out, ":");
            push_decimal(&mut out, e.location.column as u64);
            append(&mut out, " ");
            append(&mut out, e.severity.name());
            append(&mut out, " [");
            append(&mut out, e.error_code.as_str());
            append(&mut out, "] ");
            append(&mut out, e.message.as_str());
            append(&mut out, "\n");
            i = i + 1;
            assert(errors@.take(i as int).drop_last() =~= errors@.take(i - 1));
            assert(out@ =~= compact_lines(errors@.take(i as int)));
        }
        assert(errors@.take(i as int) =~= errors@);
        out
    }
}

} // verus!
