use probeweave::driver::{
    build_behavior, get_symbol_table, run_info, run_instr, run_vis_script, try_main, verify_ast,
    Cmd, Outcome,
};
use probeweave::emit::{compile_body, compile_guarded, compile_stmt};
use probeweave::error::{DiagnosticKind, ErrorGen, Stage, MAX_ERRORS};
use probeweave::init_generator::InitGenerator;
use probeweave::instr_generator::{classify, InstrGenerator, Location};
use probeweave::memory::{MemoryTracker, START_OFFSET};
use probeweave::module::{Function, GlobalDef, Instr, TargetModule};
use probeweave::script::{
    Category, EventPattern, FnDecl, GlobalDecl, GlobalInit, Pattern, Predicate, Probe, Stmt, Whamm,
};
use probeweave::symbols::{build_symbol_table, SymbolKind, SymbolTable};
use probeweave::tree::{build_behavior_tree, Cursor};

const COUNTER: u32 = 11;

fn fresh_err() -> ErrorGen {
    ErrorGen::new(String::new(), String::new(), MAX_ERRORS)
}

fn probe(event: EventPattern, body: Vec<Stmt>) -> Probe {
    Probe { pattern: Pattern { event, callee: None }, predicate: Predicate::Always, body }
}

fn func(body: Vec<Instr>) -> Function {
    Function { body, injected: false }
}

fn app(memories: usize, bodies: Vec<Vec<Instr>>) -> TargetModule {
    TargetModule { memories, globals: Vec::new(), functions: bodies.into_iter().map(func).collect() }
}

fn bodies(module: &TargetModule) -> Vec<Vec<Instr>> {
    module.functions.iter().map(|f| f.body.clone()).collect()
}

fn counter_script(probes: Vec<Probe>) -> Whamm {
    Whamm {
        strings: Vec::new(),
        globals: vec![GlobalDecl { name: COUNTER, init: GlobalInit::Int(0) }],
        functions: Vec::new(),
        probes,
    }
}

fn add(id: u32, amount: i64) -> Vec<Instr> {
    vec![Instr::GlobalGet(id), Instr::Const(amount), Instr::Add, Instr::GlobalSet(id)]
}

fn joined(parts: Vec<Vec<Instr>>) -> Vec<Instr> {
    parts.into_iter().flatten().collect()
}

#[test]
fn counter_on_every_function_entry() {
    let script = counter_script(vec![probe(
        EventPattern::FuncEntry,
        vec![Stmt::AddToGlobal { global: COUNTER, amount: 1 }],
    )]);
    let plain = vec![
        vec![Instr::Other(1), Instr::Call(1), Instr::Return],
        vec![Instr::Other(7)],
        vec![],
    ];
    let done = run_instr(app(1, plain.clone()), &script, true).unwrap();
    assert_eq!(done.module.globals, vec![GlobalDef { init: 0, mutable: true }]);
    assert_eq!(done.module.functions.len(), 3);
    for (f, old) in plain.iter().enumerate() {
        assert_eq!(done.module.functions[f].body, joined(vec![add(0, 1), old.clone()]));
        assert!(!done.module.functions[f].injected);
    }
    assert_eq!(done.module.memories, 1);
    assert_eq!(done.visited.len(), 8);
}

#[test]
fn two_exit_probes_emit_in_declaration_order() {
    let script = counter_script(vec![
        probe(EventPattern::FuncExit, vec![Stmt::AddToGlobal { global: COUNTER, amount: 1 }]),
        probe(EventPattern::FuncExit, vec![Stmt::AddToGlobal { global: COUNTER, amount: 2 }]),
    ]);
    let done = run_instr(
        app(1, vec![vec![Instr::Other(1), Instr::Return], vec![Instr::Other(2)]]),
        &script,
        true,
    )
    .unwrap();
    assert_eq!(done.module.globals.len(), 1);
    assert_eq!(done.module.globals[0], GlobalDef { init: 0, mutable: true });
    let both = joined(vec![add(0, 1), add(0, 2)]);
    assert_eq!(
        bodies(&done.module),
        vec![
            joined(vec![vec![Instr::Other(1)], both.clone(), vec![Instr::Return], both.clone()]),
            joined(vec![vec![Instr::Other(2)], both.clone()]),
        ]
    );
}

#[test]
fn two_memories_are_fatal_before_emission() {
    let script = counter_script(vec![probe(
        EventPattern::FuncEntry,
        vec![Stmt::AddToGlobal { global: COUNTER, amount: 1 }],
    )]);
    let report = run_instr(app(2, vec![vec![Instr::Return]]), &script, true).unwrap_err();
    assert_eq!(report.stage, Stage::MemorySetup);
    assert_eq!(report.diagnostics.len(), 1);
    assert_eq!(report.diagnostics[0].kind, DiagnosticKind::MultipleMemories);
    assert!(report.diagnostics[0].fatal);
}

#[test]
fn more_diagnostics_than_the_cap_end_the_run() {
    let mut probes = Vec::new();
    for _ in 0..16 {
        probes.push(probe(EventPattern::Opcode, vec![]));
    }
    let script = counter_script(probes);
    let mut err = fresh_err();
    assert!(build_behavior(&script, &mut err).is_none());
    assert_eq!(err.error_count(), 16);
    assert!(err.check_too_many());
    match try_main(Cmd::Instr { app: app(1, vec![vec![]]), script, run_verifier: false }) {
        Outcome::Failed(report) => {
            assert_eq!(report.diagnostics.len(), 16);
            assert_eq!(report.diagnostics[0].kind, DiagnosticKind::UnresolvablePattern);
        },
        other => panic!("expected a failure, got {:?}", other),
    }
}

#[test]
fn diagnostics_at_the_cap_still_reach_the_checkpoint() {
    let mut probes = Vec::new();
    for _ in 0..15 {
        probes.push(probe(EventPattern::MemoryAccess, vec![]));
    }
    let script = counter_script(probes);
    let mut err = fresh_err();
    let built = build_behavior(&script, &mut err);
    assert!(built.is_some());
    assert_eq!(built.unwrap().0.cursor, Cursor::Root);
    assert!(err.check_has_errors());
    let report = run_instr(app(1, vec![vec![]]), &script, false).unwrap_err();
    assert_eq!(report.stage, Stage::BuildBehavior);
    assert_eq!(report.diagnostics.len(), 15);
}

#[test]
fn unresolved_symbol_skips_the_rest_of_the_location() {
    let script = counter_script(vec![
        probe(EventPattern::FuncEntry, vec![Stmt::SetGlobal { global: COUNTER, value: 5 }]),
        probe(EventPattern::FuncEntry, vec![Stmt::SetGlobal { global: 99, value: 1 }]),
        probe(EventPattern::FuncEntry, vec![Stmt::SetGlobal { global: COUNTER, value: 6 }]),
    ]);
    let report = run_instr(app(1, vec![vec![Instr::Other(1)], vec![]]), &script, false).unwrap_err();
    assert_eq!(report.stage, Stage::Instrument);
    assert_eq!(report.diagnostics.len(), 2);
    assert_eq!(report.diagnostics[0].kind, DiagnosticKind::UnresolvedSymbol);
    assert_eq!(report.diagnostics[0].script_item, Some(1));
    assert_eq!(report.diagnostics[0].func, Some(0));
    assert_eq!(report.diagnostics[0].instr, None);
    assert_eq!(report.diagnostics[1].func, Some(1));

    let mut err = fresh_err();
    let mut table = build_symbol_table(&script, &mut err);
    let (mut tree, side) = build_behavior_tree(&script, &mut err);
    let mut memory = MemoryTracker::new(1).unwrap();
    let mut module = app(1, vec![vec![Instr::Other(1)]]);
    InitGenerator::run(&mut module, &mut table, &mut memory, &mut err, &script);
    assert!(!err.check_has_errors());
    let visited =
        InstrGenerator::run(&mut tree, &side, &table, &memory, &script.strings, &mut module, &mut err);
    assert_eq!(
        module.functions[0].body,
        vec![Instr::Const(5), Instr::GlobalSet(0), Instr::Other(1)]
    );
    assert_eq!(visited.len(), 2);
    assert_eq!(err.error_count(), 1);
}

#[test]
fn verifier_catches_unknown_symbol_before_emission() {
    let script = counter_script(vec![probe(
        EventPattern::FuncEntry,
        vec![Stmt::SetGlobal { global: 99, value: 1 }],
    )]);
    let report = run_instr(app(1, vec![vec![]]), &script, true).unwrap_err();
    assert_eq!(report.stage, Stage::BuildBehavior);
    assert_eq!(report.diagnostics.len(), 1);
    assert_eq!(report.diagnostics[0].stage, Stage::TypeCheck);
}

#[test]
fn call_sites_respect_the_callee_filter() {
    let script = counter_script(vec![
        Probe {
            pattern: Pattern { event: EventPattern::Call, callee: Some(2) },
            predicate: Predicate::Always,
            body: vec![Stmt::AddToGlobal { global: COUNTER, amount: 1 }],
        },
        probe(EventPattern::Call, vec![Stmt::AddToGlobal { global: COUNTER, amount: 10 }]),
    ]);
    let done = run_instr(
        app(1, vec![vec![Instr::Call(2), Instr::Other(3), Instr::Call(1)]]),
        &script,
        true,
    )
    .unwrap();
    assert_eq!(
        done.module.functions[0].body,
        joined(vec![
            add(0, 1),
            add(0, 10),
            vec![Instr::Call(2), Instr::Other(3)],
            add(0, 10),
            vec![Instr::Call(1)],
        ])
    );
    assert_eq!(
        done.visited,
        vec![
            Location { func: 0, category: Category::FuncEntry, instr: None, callee: None },
            Location { func: 0, category: Category::Call, instr: Some(0), callee: Some(2) },
            Location { func: 0, category: Category::Call, instr: Some(2), callee: Some(1) },
            Location { func: 0, category: Category::FuncExit, instr: None, callee: None },
        ]
    );
}

#[test]
fn every_location_is_visited_once_whatever_the_probes() {
    let body = vec![Instr::Call(0), Instr::Return, Instr::Other(1), Instr::Return];
    let none = run_instr(app(1, vec![body.clone()]), &counter_script(vec![]), true).unwrap();
    let many = run_instr(
        app(1, vec![body.clone()]),
        &counter_script(vec![
            probe(EventPattern::Any, vec![]),
            probe(EventPattern::Any, vec![]),
            probe(EventPattern::FuncExit, vec![]),
        ]),
        true,
    )
    .unwrap();
    assert_eq!(none.visited, many.visited);
    assert_eq!(none.visited.len(), 5);
    assert_eq!(none.module.functions[0].body, body);
    assert_eq!(many.module.functions[0].body, body);
}

#[test]
fn predicates_guard_or_drop_actions() {
    let script = counter_script(vec![
        Probe {
            pattern: Pattern { event: EventPattern::FuncEntry, callee: None },
            predicate: Predicate::Static(false),
            body: vec![Stmt::SetGlobal { global: 99, value: 1 }],
        },
        Probe {
            pattern: Pattern { event: EventPattern::FuncEntry, callee: None },
            predicate: Predicate::GlobalNonZero(COUNTER),
            body: vec![Stmt::SetGlobal { global: COUNTER, value: -3 }],
        },
        Probe {
            pattern: Pattern { event: EventPattern::FuncEntry, callee: None },
            predicate: Predicate::Static(true),
            body: vec![Stmt::SetGlobal { global: COUNTER, value: 4 }],
        },
    ]);
    let done = run_instr(app(1, vec![vec![]]), &script, false).unwrap();
    assert_eq!(
        done.module.functions[0].body,
        vec![
            Instr::GlobalGet(0),
            Instr::If,
            Instr::Const(-3),
            Instr::GlobalSet(0),
            Instr::End,
            Instr::Const(4),
            Instr::GlobalSet(0),
        ]
    );
}

#[test]
fn init_emits_globals_strings_and_functions() {
    let script = Whamm {
        strings: vec![b"hi".to_vec(), b"there".to_vec(), b"hi".to_vec()],
        globals: vec![
            GlobalDecl { name: 1, init: GlobalInit::Int(-7) },
            GlobalDecl { name: 2, init: GlobalInit::Str(1) },
            GlobalDecl { name: 3, init: GlobalInit::Str(2) },
        ],
        functions: vec![
            FnDecl { name: 20, body: vec![Stmt::StoreString { global: 1, string: 0 }] },
            FnDecl { name: 21, body: vec![Stmt::CallFn { func: 20 }] },
        ],
        probes: vec![probe(EventPattern::FuncEntry, vec![Stmt::CallFn { func: 21 }])],
    };
    let mut module = app(1, vec![vec![Instr::Return]]);
    module.globals.push(GlobalDef { init: 1, mutable: false });
    let done = run_instr(module, &script, true).unwrap();
    let start = START_OFFSET as i64;
    assert_eq!(
        done.module.globals,
        vec![
            GlobalDef { init: 1, mutable: false },
            GlobalDef { init: -7, mutable: true },
            GlobalDef { init: start + 3, mutable: true },
            GlobalDef { init: start, mutable: true },
        ]
    );
    assert_eq!(done.module.functions.len(), 3);
    assert_eq!(
        done.module.functions[0].body,
        vec![Instr::Call(2), Instr::Return]
    );
    assert_eq!(done.module.functions[1].body, vec![Instr::Const(start), Instr::GlobalSet(1)]);
    assert!(done.module.functions[1].injected);
    assert_eq!(done.module.functions[2].body, vec![Instr::Call(1)]);
}

#[test]
fn init_reports_what_it_cannot_emit() {
    let script = Whamm {
        strings: vec![b"abc".to_vec()],
        globals: vec![
            GlobalDecl { name: 1, init: GlobalInit::Str(0) },
            GlobalDecl { name: 2, init: GlobalInit::Str(4) },
        ],
        functions: vec![FnDecl { name: 3, body: vec![Stmt::CallFn { func: 3 }] }],
        probes: vec![],
    };
    let mut err = fresh_err();
    let mut table = build_symbol_table(&script, &mut err);
    let mut memory = MemoryTracker::new(1).unwrap();
    memory.allocate(u32::MAX - START_OFFSET - 2).unwrap();
    let mut module = app(1, vec![]);
    InitGenerator::run(&mut module, &mut table, &mut memory, &mut err, &script);
    let all = err.report();
    let kinds: Vec<DiagnosticKind> = all.iter().map(|d| d.kind).collect();
    assert_eq!(
        kinds,
        vec![
            DiagnosticKind::OutOfMemory,
            DiagnosticKind::UnresolvedSymbol,
            DiagnosticKind::UnresolvedSymbol,
            DiagnosticKind::UnresolvedSymbol,
        ]
    );
    assert_eq!(all[0].script_item, Some(0));
    assert_eq!(all[1].symbol, Some(1));
    assert_eq!(all[2].symbol, Some(2));
    assert_eq!(all[3].symbol, Some(3));
    assert!(module.globals.is_empty());
    assert!(module.functions.is_empty());
    assert_eq!(table.resolve(1, SymbolKind::Global), None);
}

#[test]
fn init_failure_stops_before_instrumentation() {
    let script = Whamm {
        strings: Vec::new(),
        globals: vec![GlobalDecl { name: 1, init: GlobalInit::Str(0) }],
        functions: Vec::new(),
        probes: vec![probe(EventPattern::FuncEntry, vec![Stmt::SetGlobal { global: 1, value: 1 }])],
    };
    let report = run_instr(app(1, vec![vec![]]), &script, false).unwrap_err();
    assert_eq!(report.stage, Stage::Init);
    assert_eq!(report.diagnostics.len(), 1);
    assert_eq!(report.diagnostics[0].stage, Stage::Init);
    assert_eq!(report.diagnostics[0].symbol, Some(1));
}

#[test]
fn statements_compile_to_exact_code() {
    let mut table = SymbolTable::new();
    table.declare(1, SymbolKind::Global);
    table.declare(2, SymbolKind::Function);
    table.bind(1, SymbolKind::Global, 5);
    table.bind(2, SymbolKind::Function, 9);
    let mut memory = MemoryTracker::new(1).unwrap();
    let pool = vec![b"s".to_vec(), b"t".to_vec()];
    memory.intern_string(b"t").unwrap();
    assert_eq!(
        compile_stmt(&table, &memory, &pool, Stmt::AddToGlobal { global: 1, amount: -2 }),
        Some(vec![Instr::GlobalGet(5), Instr::Const(-2), Instr::Add, Instr::GlobalSet(5)])
    );
    assert_eq!(
        compile_stmt(&table, &memory, &pool, Stmt::CallFn { func: 2 }),
        Some(vec![Instr::Call(9)])
    );
    assert_eq!(compile_stmt(&table, &memory, &pool, Stmt::CallFn { func: 1 }), None);
    assert_eq!(
        compile_stmt(&table, &memory, &pool, Stmt::StoreString { global: 1, string: 1 }),
        Some(vec![Instr::Const(START_OFFSET as i64), Instr::GlobalSet(5)])
    );
    assert_eq!(
        compile_stmt(&table, &memory, &pool, Stmt::StoreString { global: 1, string: 0 }),
        None
    );
    assert_eq!(
        compile_stmt(&table, &memory, &pool, Stmt::StoreString { global: 1, string: 2 }),
        None
    );
    let body = vec![Stmt::SetGlobal { global: 1, value: 3 }, Stmt::CallFn { func: 2 }];
    assert_eq!(
        compile_body(&table, &memory, &pool, &body),
        Some(vec![Instr::Const(3), Instr::GlobalSet(5), Instr::Call(9)])
    );
    assert_eq!(
        compile_guarded(&table, &memory, &pool, Predicate::GlobalNonZero(7), &body),
        None
    );
    assert_eq!(
        compile_guarded(&table, &memory, &pool, Predicate::Static(false), &body),
        Some(vec![])
    );
    assert_eq!(classify(Instr::Call(3)), Some((Category::Call, Some(3))));
    assert_eq!(classify(Instr::Return), Some((Category::FuncExit, None)));
    assert_eq!(classify(Instr::End), None);
}

#[test]
fn info_lists_declared_names() {
    let script = Whamm {
        strings: Vec::new(),
        globals: vec![
            GlobalDecl { name: 4, init: GlobalInit::Int(0) },
            GlobalDecl { name: 2, init: GlobalInit::Int(0) },
        ],
        functions: vec![FnDecl { name: 9, body: vec![] }],
        probes: Vec::new(),
    };
    let both = run_info(&script, true, true).unwrap();
    assert_eq!(both.globals, vec![4, 2]);
    assert_eq!(both.functions, vec![9]);
    let only = run_info(&script, false, true).unwrap();
    assert!(only.globals.is_empty());
    assert_eq!(only.functions, vec![9]);
    match try_main(Cmd::Info { script, globals: true, functions: false }) {
        Outcome::Info(info) => {
            assert_eq!(info.globals, vec![4, 2]);
            assert!(info.functions.is_empty());
        },
        other => panic!("expected the listing, got {:?}", other),
    }
}

#[test]
fn info_fails_on_duplicate_names() {
    let script = Whamm {
        strings: Vec::new(),
        globals: vec![GlobalDecl { name: 4, init: GlobalInit::Int(0) }],
        functions: vec![FnDecl { name: 4, body: vec![] }],
        probes: Vec::new(),
    };
    let report = run_info(&script, true, true).unwrap_err();
    assert_eq!(report.stage, Stage::PrintInfo);
    assert_eq!(report.diagnostics.len(), 1);
    assert_eq!(report.diagnostics[0].kind, DiagnosticKind::DuplicateSymbol);
}

#[test]
fn vis_script_returns_reset_tree() {
    let script = counter_script(vec![
        probe(EventPattern::Any, vec![]),
        probe(EventPattern::Call, vec![]),
    ]);
    let tree = run_vis_script(&script, true).unwrap();
    assert_eq!(tree.cursor, Cursor::Root);
    assert_eq!(tree.children.len(), 3);
    assert_eq!(tree.children[2].category, Category::Call);
    assert_eq!(tree.children[2].decisions.len(), 2);
    let bad = counter_script(vec![probe(EventPattern::Opcode, vec![])]);
    assert!(run_vis_script(&bad, true).is_err());
    match try_main(Cmd::VisScript { script: bad, run_verifier: false }) {
        Outcome::Failed(report) => assert_eq!(report.diagnostics.len(), 1),
        other => panic!("expected a failure, got {:?}", other),
    }
}

#[test]
fn symbol_table_checkpoints() {
    let script = counter_script(vec![probe(
        EventPattern::FuncEntry,
        vec![Stmt::SetGlobal { global: 99, value: 1 }],
    )]);
    let mut err = fresh_err();
    let table = get_symbol_table(&script, false, &mut err).unwrap();
    assert_eq!(table.records.len(), 1);
    assert!(!err.check_has_errors());
    assert!(verify_ast(&script, &table, true, &mut err));
    assert_eq!(err.error_count(), 1);
    let mut strict = ErrorGen::new(String::new(), String::new(), 0);
    assert!(get_symbol_table(&script, true, &mut strict).is_none());
    assert!(!verify_ast(&script, &table, false, &mut strict));
    let mut lenient = ErrorGen::new(String::new(), String::new(), 0);
    assert!(get_symbol_table(&script, false, &mut lenient).is_some());
}

#[test]
fn try_main_instruments_and_hands_back_the_tracker() {
    let script = Whamm {
        strings: vec![b"tag".to_vec()],
        globals: vec![GlobalDecl { name: COUNTER, init: GlobalInit::Int(0) }],
        functions: Vec::new(),
        probes: vec![probe(
            EventPattern::FuncBoundary,
            vec![Stmt::StoreString { global: COUNTER, string: 0 }],
        )],
    };
    let store = vec![Instr::Const(START_OFFSET as i64), Instr::GlobalSet(0)];
    match try_main(Cmd::Instr { app: app(0, vec![vec![Instr::Other(4)]]), script, run_verifier: true }) {
        Outcome::Instrumented(done) => {
            assert_eq!(
                done.module.functions[0].body,
                joined(vec![store.clone(), vec![Instr::Other(4)], store.clone()])
            );
            assert_eq!(done.memory.emitted_strings.len(), 1);
            assert_eq!(done.memory.emitted_strings[0].content, b"tag".to_vec());
            assert_eq!(done.memory.emitted_strings[0].offset, START_OFFSET);
            assert_eq!(done.memory.curr_mem_offset, START_OFFSET + 4);
            assert_eq!(done.module.memories, 0);
        },
        other => panic!("expected a module, got {:?}", other),
    }
}

#[test]
fn type_check_failure_is_reported_with_later_pattern_failures() {
    let script = counter_script(vec![
        probe(EventPattern::FuncEntry, vec![Stmt::CallFn { func: COUNTER }]),
        probe(EventPattern::Opcode, vec![]),
    ]);
    let report = run_vis_script(&script, true).unwrap_err();
    assert_eq!(report.stage, Stage::BuildBehavior);
    let kinds: Vec<DiagnosticKind> = report.diagnostics.iter().map(|d| d.kind).collect();
    assert_eq!(kinds, vec![DiagnosticKind::UnresolvedSymbol, DiagnosticKind::UnresolvablePattern]);
    assert_eq!(report.diagnostics[0].script_item, Some(0));
    assert_eq!(report.diagnostics[1].script_item, Some(1));
}
