//! The pipeline: symbol table, checks, behavior tree, memory setup, the two
//! generator phases in their order, with the diagnostic collector consulted
//! after each step.

use vstd::prelude::*;
use crate::emit::{pool_view, Resolver};
use crate::error::{Diagnostic, DiagnosticKind, ErrorGen, FatalReport, Stage, MAX_ERRORS};
use crate::init_generator::{init_result, InitGenerator, InitState};
use crate::instr_generator::{walk_module, EmitContext, InstrGenerator, Location, ModuleWalk};
use crate::memory::{MemoryTracker, TrackerModel, START_OFFSET};
use crate::module::TargetModule;
use crate::script::{Category, Probe, Whamm};
use crate::symbols::{
    build_symbol_table, check_all, declare_all, script_ok, type_check, Symbol, SymbolKind,
    SymbolTable,
};
use crate::tree::{
    actions, build_behavior_tree, eligible, pattern_diagnostics, BehaviorTree, Cursor, SimpleAST,
};

verus! {

/// What the caller asks for.
#[derive(Debug)]
pub enum Cmd {
    /// List what a script declares.
    Info { script: Whamm, globals: bool, functions: bool },
    /// Instrument a target module with a script.
    Instr { app: TargetModule, script: Whamm, run_verifier: bool },
    /// Build a script's behavior tree for display.
    VisScript { script: Whamm, run_verifier: bool },
}

/// The names a script declares.
#[derive(Debug)]
pub struct InfoReport {
    pub globals: Vec<u32>,
    pub functions: Vec<u32>,
}

/// A rewritten module and the places that were visited on the way.
#[derive(Debug)]
pub struct Instrumented {
    pub module: TargetModule,
    pub visited: Vec<Location>,
    /// The tracker, with the strings that are to be placed in memory.
    pub memory: MemoryTracker,
}

/// How a run ended.
#[derive(Debug)]
pub enum Outcome {
    Info(InfoReport),
    Instrumented(Instrumented),
    Visualization(BehaviorTree),
    /// Diagnostics were outstanding at a checkpoint: nothing is to be
    /// written.
    Failed(FatalReport),
}

/// The names of the records of one kind among the first `n`, in order.
pub open spec fn names_of_kind(records: Seq<Symbol>, kind: SymbolKind, n: int) -> Seq<u32>
    decreases n,
{
    if n <= 0 {
        Seq::empty()
    } else if records[n - 1].kind == kind {
        names_of_kind(records, kind, n - 1).push(records[n - 1].name)
    } else {
        names_of_kind(records, kind, n - 1)
    }
}

/// The script passes everything that comes before the target module is
/// touched: no name is declared twice, the check of its symbols passes if
/// it is asked for, and every probe's pattern resolves.
pub open spec fn front_ok(ast: &Whamm, run_verifier: bool) -> bool {
    &&& declare_all(Seq::empty(), ast).1.len() == 0
    &&& (run_verifier ==> script_ok(declare_all(Seq::empty(), ast).0, ast))
    &&& pattern_diagnostics(Seq::empty(), ast.probes@, ast.probes@.len() as int).len() == 0
}

/// The diagnostics after the symbol table was built and, if asked for and
/// the cap allows, the script was checked against it.
pub open spec fn symbol_diagnostics(
    diags: Seq<Diagnostic>,
    max_errors: u32,
    ast: &Whamm,
    run_verifier: bool,
) -> Seq<Diagnostic> {
    let (records, declared) = declare_all(diags, ast);
    if declared.len() > max_errors || !run_verifier {
        declared
    } else {
        check_all(declared, records, ast)
    }
}

/// The diagnostics of everything that comes before the target module is
/// touched. The tree is not built once the cap is exceeded.
pub open spec fn front_diagnostics(ast: &Whamm, run_verifier: bool) -> Seq<Diagnostic> {
    let symbols = symbol_diagnostics(Seq::empty(), MAX_ERRORS, ast, run_verifier);
    if symbols.len() > MAX_ERRORS {
        symbols
    } else {
        pattern_diagnostics(symbols, ast.probes@, ast.probes@.len() as int)
    }
}

/// The state after the first phase has run on a fresh tracker.
pub open spec fn after_init(app: TargetModule, ast: &Whamm) -> InitState {
    init_result(
        InitState {
            globals: app.globals@,
            functions: app.bodies(),
            records: declare_all(Seq::empty(), ast).0,
            memory: TrackerModel { offset: START_OFFSET as int, strings: Seq::empty() },
            diags: Seq::empty(),
        },
        ast,
    )
}

/// The walk of the second phase over what the first phase left.
pub open spec fn after_instr(app: TargetModule, ast: &Whamm) -> ModuleWalk {
    let init = after_init(app, ast);
    let n = ast.probes@.len() as int;
    walk_module(
        EmitContext {
            resolver: Resolver {
                records: init.records,
                strings: init.memory.strings,
                pool: pool_view(ast.strings@),
            },
            actions: actions(ast.probes@, n),
            entry: eligible(ast.probes@, Category::FuncEntry, n),
            exit: eligible(ast.probes@, Category::FuncExit, n),
            call: eligible(ast.probes@, Category::Call, n),
        },
        ModuleWalk { functions: init.functions, diags: Seq::empty(), visited: Seq::empty() },
        init.functions.len() as int,
    )
}

pub open spec fn multi_memory_diagnostic() -> Diagnostic {
    Diagnostic {
        kind: DiagnosticKind::MultipleMemories,
        stage: Stage::MemorySetup,
        fatal: true,
        script_item: None,
        symbol: None,
        func: None,
        instr: None,
    }
}

/// Instrumentation succeeds: no step records a diagnostic and the target
/// has at most one linear memory.
pub open spec fn compiles(app: TargetModule, ast: &Whamm, run_verifier: bool) -> bool {
    &&& front_ok(ast, run_verifier)
    &&& app.memories <= 1
    &&& after_init(app, ast).diags.len() == 0
    &&& after_instr(app, ast).diags.len() == 0
}

/// What `run_instr` owes its caller. A module comes back exactly when
/// instrumentation succeeds, and it is then the module that the two phases
/// leave, the second run on what the first completed. Otherwise the
/// report names the step at which the run stopped, and nothing later ran.
pub open spec fn instr_result(
    app: TargetModule,
    ast: &Whamm,
    run_verifier: bool,
    r: Result<Instrumented, FatalReport>,
) -> bool {
    match r {
        Ok(done) => {
            &&& compiles(app, ast, run_verifier)
            &&& done.module.memories == app.memories
            &&& done.module.globals@ == after_init(app, ast).globals
            &&& done.module.bodies() == after_instr(app, ast).functions
            &&& done.visited@ == after_instr(app, ast).visited
            &&& done.memory.wf()
            &&& done.memory.mem_id == 0
            &&& done.memory.model() == after_init(app, ast).memory
        },
        Err(report) => {
            &&& !compiles(app, ast, run_verifier)
            &&& report.diagnostics@.len() > 0
            &&& (!front_ok(ast, run_verifier) ==> report.stage == Stage::BuildBehavior
                && report.diagnostics@ == front_diagnostics(ast, run_verifier))
            &&& match report.stage {
                Stage::MemorySetup => front_ok(ast, run_verifier) && app.memories > 1
                    && report.diagnostics@ == seq![multi_memory_diagnostic()],
                Stage::Init => front_ok(ast, run_verifier) && app.memories <= 1
                    && report.diagnostics@ == after_init(app, ast).diags,
                Stage::Instrument => front_ok(ast, run_verifier) && app.memories <= 1
                    && after_init(app, ast).diags.len() == 0 && report.diagnostics@
                    == after_instr(app, ast).diags,
                _ => !front_ok(ast, run_verifier),
            }
        },
    }
}

/// What `run_vis_script` owes its caller.
pub open spec fn vis_result(ast: &Whamm, run_verifier: bool, r: Result<BehaviorTree, FatalReport>) -> bool {
    match r {
        Ok(tree) => {
            &&& front_ok(ast, run_verifier)
            &&& tree.wf()
            &&& tree.cursor == Cursor::Root
            &&& forall|c: Category|
                tree.decisions(c) == eligible(ast.probes@, c, ast.probes@.len() as int)
        },
        Err(report) => !front_ok(ast, run_verifier) && report.diagnostics@.len() > 0
            && report.stage == Stage::BuildBehavior && report.diagnostics@ == front_diagnostics(
            ast,
            run_verifier,
        ),
    }
}

/// What `run_info` owes its caller.
pub open spec fn info_result(
    ast: &Whamm,
    print_globals: bool,
    print_functions: bool,
    r: Result<InfoReport, FatalReport>,
) -> bool {
    let (records, diags) = declare_all(Seq::empty(), ast);
    match r {
        Ok(info) => {
            &&& diags.len() == 0
            &&& info.globals@ == if print_globals {
                names_of_kind(records, SymbolKind::Global, records.len() as int)
            } else {
                Seq::empty()
            }
            &&& info.functions@ == if print_functions {
                names_of_kind(records, SymbolKind::Function, records.len() as int)
            } else {
                Seq::empty()
            }
        },
        Err(report) => diags.len() > 0 && report.stage == Stage::PrintInfo && report.diagnostics@
            == diags,
    }
}

/// Building on top of diagnostics never loses any.
pub proof fn lemma_pattern_diagnostics_grow(
    diags: Seq<Diagnostic>,
    probes: Seq<Probe>,
    n: int,
)
    ensures
        diags.len() <= pattern_diagnostics(diags, probes, n).len(),
        diags.len() == 0 ==> pattern_diagnostics(diags, probes, n) == pattern_diagnostics(
            Seq::empty(),
            probes,
            n,
        ),
    decreases n,
{
    if n > 0 {
        lemma_pattern_diagnostics_grow(diags, probes, n - 1);
    } else {
        if diags.len() == 0 {
            assert(diags =~= Seq::empty());
        }
    }
}

/// Phase order: a module comes back only if the first phase ran to its end
/// without a diagnostic, and a run that the first phase stopped shows only
/// that phase's diagnostics: the second phase never began.
pub proof fn lemma_second_phase_needs_first(
    app: TargetModule,
    ast: &Whamm,
    run_verifier: bool,
    r: Result<Instrumented, FatalReport>,
)
    requires
        instr_result(app, ast, run_verifier, r),
    ensures
        r is Ok ==> after_init(app, ast).diags.len() == 0,
        after_init(app, ast).diags.len() > 0 ==> r is Err && r->Err_0.stage != Stage::Instrument,
        r is Err && r->Err_0.stage == Stage::Init ==> r->Err_0.diagnostics@ == after_init(
            app,
            ast,
        ).diags,
{
}

/// The cap: a script whose declarations or patterns alone bring more
/// diagnostics than the cap allows never yields a module.
pub proof fn lemma_over_cap_yields_no_module(
    app: TargetModule,
    ast: &Whamm,
    run_verifier: bool,
    r: Result<Instrumented, FatalReport>,
)
    requires
        instr_result(app, ast, run_verifier, r),
        declare_all(Seq::empty(), ast).1.len() > MAX_ERRORS || pattern_diagnostics(
            Seq::empty(),
            ast.probes@,
            ast.probes@.len() as int,
        ).len() > MAX_ERRORS,
    ensures
        r is Err,
        r->Err_0.diagnostics@.len() > 0,
        r->Err_0.stage != Stage::Init && r->Err_0.stage != Stage::Instrument && r->Err_0.stage
            != Stage::MemorySetup,
{
}

/// Checks a script's symbols if asked to. Returns whether the count of
/// diagnostics is still within the cap.
pub fn verify_ast(ast: &Whamm, st: &SymbolTable, run_verifier: bool, err: &mut ErrorGen) -> (within_cap:
    bool)
    ensures
        within_cap == !final(err).too_many(),
        final(err).max_errors == old(err).max_errors,
        final(err).diagnostics() == if run_verifier {
            check_all(old(err).diagnostics(), st.records@, ast)
        } else {
            old(err).diagnostics()
        },
        old(err).diagnostics().is_prefix_of(final(err).diagnostics()),
        final(err).diagnostics() == old(err).diagnostics() <==> (!run_verifier || script_ok(
            st.records@,
            ast,
        )),
{
    if run_verifier {
        type_check(ast, st, err);
    }
    !err.check_too_many()
}

/// Builds a script's symbol table and checks the script against it if
/// asked to. Returns nothing once the diagnostics are over the cap; the
/// check is not even begun if the table alone brought them there.
pub fn get_symbol_table(ast: &Whamm, run_verifier: bool, err: &mut ErrorGen) -> (r: Option<
    SymbolTable,
>)
    ensures
        final(err).max_errors == old(err).max_errors,
        r is None <==> final(err).too_many(),
        r is Some ==> r->0.records@ == declare_all(old(err).diagnostics(), ast).0,
        final(err).diagnostics() == symbol_diagnostics(
            old(err).diagnostics(),
            old(err).max_errors,
            ast,
            run_verifier,
        ),
        declare_all(old(err).diagnostics(), ast).1.is_prefix_of(final(err).diagnostics()),
        final(err).diagnostics() == declare_all(old(err).diagnostics(), ast).1 <==> (!run_verifier
            || declare_all(old(err).diagnostics(), ast).1.len() > old(err).max_errors || script_ok(
            declare_all(old(err).diagnostics(), ast).0,
            ast,
        )),
{
    let st = build_symbol_table(ast, err);
    if err.check_too_many() {
        return None;
    }
    if verify_ast(ast, &st, run_verifier, err) {
        Some(st)
    } else {
        None
    }
}

/// Builds a script's behavior tree and side table and leaves the tree's
/// cursor at the root. Returns nothing once the diagnostics are over the
/// cap.
pub fn build_behavior(whamm: &Whamm, err: &mut ErrorGen) -> (r: Option<(BehaviorTree, SimpleAST)>)
    ensures
        final(err).max_errors == old(err).max_errors,
        final(err).diagnostics() == pattern_diagnostics(
            old(err).diagnostics(),
            whamm.probes@,
            whamm.probes@.len() as int,
        ),
        r is None <==> final(err).too_many(),
        match r {
            Some((tree, side)) => tree.wf() && tree.cursor == Cursor::Root && side@ == actions(
                whamm.probes@,
                whamm.probes@.len() as int,
            ) && (forall|c: Category|
                tree.decisions(c) == eligible(whamm.probes@, c, whamm.probes@.len() as int)),
            None => true,
        },
{
    let (mut behavior, simple_ast) = build_behavior_tree(whamm, err);
    if err.check_too_many() {
        return None;
    }
    let ghost built = behavior;
    behavior.reset();
    assert forall|c: Category|
        behavior.decisions(c) == eligible(whamm.probes@, c, whamm.probes@.len() as int) by {
        assert(behavior.decisions(c) == built.decisions(c));
    }
    Some((behavior, simple_ast))
}

/// The script's front end steps on a fresh collector: table, check, tree.
fn front(ast: &Whamm, run_verifier: bool, err: &mut ErrorGen) -> (r: Option<
    (SymbolTable, BehaviorTree, SimpleAST),
>)
    requires
        old(err).diagnostics().len() == 0,
        old(err).max_errors == MAX_ERRORS,
    ensures
        final(err).max_errors == old(err).max_errors,
        r is Some <==> front_ok(ast, run_verifier),
        final(err).diagnostics() == front_diagnostics(ast, run_verifier),
        match r {
            Some((st, tree, side)) => final(err).diagnostics().len() == 0 && tree.wf() && st.records@
                == declare_all(Seq::empty(), ast).0 && tree.cursor == Cursor::Root && side@
                == actions(ast.probes@, ast.probes@.len() as int) && (forall|c: Category|
                tree.decisions(c) == eligible(ast.probes@, c, ast.probes@.len() as int)),
            None => final(err).diagnostics().len() > 0,
        },
{
    assert(err.diagnostics() =~= Seq::empty());
    let ghost declared = declare_all(Seq::empty(), ast);
    let st = match get_symbol_table(ast, run_verifier, err) {
        Some(st) => st,
        None => {
            proof {
                if declared.1.len() == 0 {
                    assert(err.diagnostics() != declared.1);
                }
            }
            return None;
        },
    };
    let ghost mid = err.diagnostics();
    proof {
        lemma_pattern_diagnostics_grow(mid, ast.probes@, ast.probes@.len() as int);
    }
    let built = build_behavior(ast, err);
    if err.check_has_errors() {
        proof {
            if declared.1.len() == 0 && mid.len() > 0 {
                assert(mid != declared.1);
            }
        }
        return None;
    }
    assert(mid =~= Seq::empty());
    assert(mid =~= declared.1);
    match built {
        Some((tree, simple_ast)) => Some((st, tree, simple_ast)),
        None => None,
    }
}

/// Lists the globals and functions that a script declares, each list only
/// if asked for. A name declared twice ends the run with a report.
pub fn run_info(script: &Whamm, print_globals: bool, print_functions: bool) -> (r: Result<
    InfoReport,
    FatalReport,
>)
    ensures
        info_result(script, print_globals, print_functions, r),
{
    let mut err = ErrorGen::new(String::new(), String::new(), MAX_ERRORS);
    assert(err.diagnostics() =~= Seq::empty());
    let st = build_symbol_table(script, &mut err);
    if let Some(report) = err.fatal_report(Stage::PrintInfo) {
        return Err(report);
    }
    let mut globals: Vec<u32> = Vec::new();
    let mut functions: Vec<u32> = Vec::new();
    let mut i: usize = 0;
    while i < st.records.len()
        invariant
            i <= st.records.len(),
            globals@ == if print_globals {
                names_of_kind(st.records@, SymbolKind::Global, i as int)
            } else {
                Seq::empty()
            },
            functions@ == if print_functions {
                names_of_kind(st.records@, SymbolKind::Function, i as int)
            } else {
                Seq::empty()
            },
        decreases st.records.len() - i,
    {
        let record = st.records[i];
        match record.kind {
            SymbolKind::Global => {
                if print_globals {
                    globals.push(record.name);
                }
            },
            SymbolKind::Function => {
                if print_functions {
                    functions.push(record.name);
                }
            },
        }
        i += 1;
    }
    Ok(InfoReport { globals, functions })
}

/// Builds a script's behavior tree for display.
pub fn run_vis_script(script: &Whamm, run_verifier: bool) -> (r: Result<BehaviorTree, FatalReport>)
    ensures
        vis_result(script, run_verifier, r),
{
    let mut err = ErrorGen::new(String::new(), String::new(), MAX_ERRORS);
    match front(script, run_verifier, &mut err) {
        Some((_, tree, _)) => Ok(tree),
        None => Err(FatalReport { stage: Stage::BuildBehavior, diagnostics: err.report() }),
    }
}

/// Instruments a target module with a script. The first phase runs to its
/// end before the second begins, and the second does not begin if the
/// first recorded a diagnostic; a target with more than one linear memory
/// is refused before either.
pub fn run_instr(app: TargetModule, script: &Whamm, run_verifier: bool) -> (r: Result<
    Instrumented,
    FatalReport,
>)
    ensures
        instr_result(app, script, run_verifier, r),
{
    let mut err = ErrorGen::new(String::new(), String::new(), MAX_ERRORS);
    let (mut table, mut tree, simple_ast) = match front(script, run_verifier, &mut err) {
        Some(parts) => parts,
        None => {
            return Err(FatalReport { stage: Stage::BuildBehavior, diagnostics: err.report() });
        },
    };
    assert(err.diagnostics() =~= Seq::empty());
    let mut module = app;
    let mut memory = match MemoryTracker::new(module.memories) {
        Ok(memory) => memory,
        Err(_) => {
            err.add_error(
                Diagnostic {
                    kind: DiagnosticKind::MultipleMemories,
                    stage: Stage::MemorySetup,
                    fatal: true,
                    script_item: None,
                    symbol: None,
                    func: None,
                    instr: None,
                },
            );
            assert(err.diagnostics() =~= seq![multi_memory_diagnostic()]);
            return Err(FatalReport { stage: Stage::MemorySetup, diagnostics: err.report() });
        },
    };
    InitGenerator::run(&mut module, &mut table, &mut memory, &mut err, script);
    if let Some(report) = err.fatal_report(Stage::Init) {
        return Err(report);
    }
    assert(err.diagnostics() =~= Seq::empty());
    let visited = InstrGenerator::run(
        &mut tree,
        &simple_ast,
        &table,
        &memory,
        &script.strings,
        &mut module,
        &mut err,
    );
    if let Some(report) = err.fatal_report(Stage::Instrument) {
        return Err(report);
    }
    Ok(Instrumented { module, visited, memory })
}

/// Carries out one command.
pub fn try_main(cmd: Cmd) -> (r: Outcome)
    ensures
        match (cmd, r) {
            (Cmd::Info { script, globals, functions }, Outcome::Info(info)) => info_result(
                &script,
                globals,
                functions,
                Ok(info),
            ),
            (Cmd::Info { script, globals, functions }, Outcome::Failed(report)) => info_result(
                &script,
                globals,
                functions,
                Err(report),
            ),
            (Cmd::Instr { app, script, run_verifier }, Outcome::Instrumented(done)) => instr_result(
                app,
                &script,
                run_verifier,
                Ok(done),
            ),
            (Cmd::Instr { app, script, run_verifier }, Outcome::Failed(report)) => instr_result(
                app,
                &script,
                run_verifier,
                Err(report),
            ),
            (Cmd::VisScript { script, run_verifier }, Outcome::Visualization(tree)) => vis_result(
                &script,
                run_verifier,
                Ok(tree),
            ),
            (Cmd::VisScript { script, run_verifier }, Outcome::Failed(report)) => vis_result(
                &script,
                run_verifier,
                Err(report),
            ),
            _ => false,
        },
{
    match cmd {
        Cmd::Info { script, globals, functions } => match run_info(&script, globals, functions) {
            Ok(info) => Outcome::Info(info),
            Err(report) => Outcome::Failed(report),
        },
        Cmd::Instr { app, script, run_verifier } => match run_instr(app, &script, run_verifier) {
            Ok(done) => Outcome::Instrumented(done),
            Err(report) => Outcome::Failed(report),
        },
        Cmd::VisScript { script, run_verifier } => match run_vis_script(&script, run_verifier) {
            Ok(tree) => Outcome::Visualization(tree),
            Err(report) => Outcome::Failed(report),
        },
    }
}

} // verus!
