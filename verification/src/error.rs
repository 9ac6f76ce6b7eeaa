//! The diagnostic collector that every phase of a compilation shares.

use vstd::prelude::*;

verus! {

/// The diagnostic cap of the reference configuration.
pub const MAX_ERRORS: u32 = 15;

/// What went wrong.
#[derive(Clone, Copy, Debug, PartialEq, Eq)]
pub enum DiagnosticKind {
    /// A probe's pattern names no location category of the target domain.
    UnresolvablePattern,
    /// A statement or predicate names a symbol that the symbol table lacks,
    /// or one that has no identifier in the target module yet.
    UnresolvedSymbol,
    /// A name is declared twice.
    DuplicateSymbol,
    /// The target module declares more than one linear memory.
    MultipleMemories,
    /// The linear memory's address space is used up.
    OutOfMemory,
    /// The target module has no index left for another global or function.
    IndexOverflow,
    /// The rewritten module could not be written out.
    Serialization,
}

/// The pipeline stage at which a diagnostic was recorded or a report is made.
#[derive(Clone, Copy, Debug, PartialEq, Eq)]
pub enum Stage {
    PrintInfo,
    SymbolTable,
    TypeCheck,
    BuildBehavior,
    MemorySetup,
    Init,
    Instrument,
    Emit,
}

/// One diagnostic, with its place in the script and in the target module.
#[derive(Clone, Copy, Debug, PartialEq, Eq)]
pub struct Diagnostic {
    pub kind: DiagnosticKind,
    pub stage: Stage,
    pub fatal: bool,
    /// Index of the probe or declaration in the script.
    pub script_item: Option<usize>,
    /// The symbol's name, where one is involved.
    pub symbol: Option<u32>,
    /// Function of the target module.
    pub func: Option<usize>,
    /// Instruction within that function.
    pub instr: Option<usize>,
}

/// The diagnostic for an item of the script.
pub open spec fn item_diagnostic(
    kind: DiagnosticKind,
    stage: Stage,
    item: usize,
    symbol: Option<u32>,
) -> Diagnostic {
    Diagnostic { kind, stage, fatal: false, script_item: Some(item), symbol, func: None, instr: None }
}

/// The diagnostic for a probe at a place in the target module.
pub open spec fn site_diagnostic(
    kind: DiagnosticKind,
    probe: usize,
    func: usize,
    instr: Option<usize>,
) -> Diagnostic {
    Diagnostic {
        kind,
        stage: Stage::Instrument,
        fatal: false,
        script_item: Some(probe),
        symbol: None,
        func: Some(func),
        instr,
    }
}

impl Diagnostic {
    pub fn for_item(kind: DiagnosticKind, stage: Stage, item: usize, symbol: Option<u32>) -> (d:
        Diagnostic)
        ensures
            d == item_diagnostic(kind, stage, item, symbol),
    {
        Diagnostic { kind, stage, fatal: false, script_item: Some(item), symbol, func: None, instr: None }
    }

    pub fn for_site(kind: DiagnosticKind, probe: usize, func: usize, instr: Option<usize>) -> (d:
        Diagnostic)
        ensures
            d == site_diagnostic(kind, probe, func, instr),
    {
        Diagnostic {
            kind,
            stage: Stage::Instrument,
            fatal: false,
            script_item: Some(probe),
            symbol: None,
            func: Some(func),
            instr,
        }
    }
}

/// What `fatal_report` hands to the caller that ends the run.
#[derive(Debug)]
pub struct FatalReport {
    pub stage: Stage,
    pub diagnostics: Vec<Diagnostic>,
}

/// Collects diagnostics and counts them against a cap.
#[derive(Debug)]
pub struct ErrorGen {
    pub script_path: String,
    pub script_text: String,
    pub max_errors: u32,
    pub errors: Vec<Diagnostic>,
}

impl ErrorGen {
    /// The diagnostics recorded so far, oldest first.
    pub open spec fn diagnostics(&self) -> Seq<Diagnostic> {
        self.errors@
    }

    /// The running count.
    pub open spec fn count(&self) -> nat {
        self.errors@.len()
    }

    /// The cap is exceeded.
    pub open spec fn too_many(&self) -> bool {
        self.count() > self.max_errors
    }

    pub fn new(script_path: String, script_text: String, max_errors: u32) -> (r: ErrorGen)
        ensures
            r.diagnostics() == Seq::<Diagnostic>::empty(),
            r.max_errors == max_errors,
            r.script_path == script_path,
            r.script_text == script_text,
    {
        ErrorGen { script_path, script_text, max_errors, errors: Vec::new() }
    }

    /// Appends one diagnostic; the count grows by one.
    pub fn add_error(&mut self, diagnostic: Diagnostic)
        ensures
            final(self).diagnostics() == old(self).diagnostics().push(diagnostic),
            final(self).max_errors == old(self).max_errors,
            final(self).script_path == old(self).script_path,
            final(self).script_text == old(self).script_text,
    {
        self.errors.push(diagnostic);
    }

    /// Whether the count is over the cap; the caller ends the run if so.
    pub fn check_too_many(&self) -> (r: bool)
        ensures
            r == self.too_many(),
    {
        self.errors.len() > self.max_errors as usize
    }

    /// Whether anything at all was recorded; checked between phases.
    pub fn check_has_errors(&self) -> (r: bool)
        ensures
            r == (self.count() > 0),
    {
        self.errors.len() > 0
    }

    /// How many diagnostics were recorded.
    pub fn error_count(&self) -> (r: usize)
        ensures
            r == self.count(),
    {
        self.errors.len()
    }

    /// The diagnostics in the order in which they were recorded.
    pub fn report(&self) -> (r: Vec<Diagnostic>)
        ensures
            r@ == self.diagnostics(),
    {
        let mut out: Vec<Diagnostic> = Vec::new();
        let mut i: usize = 0;
        while i < self.errors.len()
            invariant
                i <= self.errors.len(),
                out@ == self.errors@.take(i as int),
            decreases self.errors.len() - i,
        {
            out.push(self.errors[i]);
            i += 1;
        }
        assert(self.errors@.take(self.errors@.len() as int) == self.errors@);
        out
    }

    /// The report that ends the run at `stage`, if anything was recorded.
    pub fn fatal_report(&self, stage: Stage) -> (r: Option<FatalReport>)
        ensures
            r is Some <==> self.count() > 0,
            r is Some ==> r->0.stage == stage && r->0.diagnostics@ == self.diagnostics(),
    {
        if self.errors.len() > 0 {
            Some(FatalReport { stage, diagnostics: self.report() })
        } else {
            None
        }
    }
}

} // verus!
