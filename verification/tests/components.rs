use probeweave::error::{Diagnostic, DiagnosticKind, ErrorGen, Stage, MAX_ERRORS};
use probeweave::memory::{
    bytes_eq, MemoryError, MemoryTracker, DEFAULT_MEMORY_BASE, GUARD_REGION, START_OFFSET,
};
use probeweave::script::{
    check_callee, is_resolvable, matches_category, Category, EventPattern, FnDecl, GlobalDecl,
    GlobalInit, Pattern, Predicate, Probe, Stmt, Whamm,
};
use probeweave::symbols::{build_symbol_table, type_check, Symbol, SymbolKind, SymbolTable};
use probeweave::tree::{build_behavior_tree, BehaviorTree, Cursor, Decision};

fn diag(kind: DiagnosticKind) -> Diagnostic {
    Diagnostic {
        kind,
        stage: Stage::Emit,
        fatal: false,
        script_item: None,
        symbol: None,
        func: None,
        instr: None,
    }
}

fn fresh_err() -> ErrorGen {
    ErrorGen::new("script.mm".to_string(), String::new(), MAX_ERRORS)
}

fn probe(event: EventPattern, body: Vec<Stmt>) -> Probe {
    Probe { pattern: Pattern { event, callee: None }, predicate: Predicate::Always, body }
}

fn script(globals: Vec<GlobalDecl>, functions: Vec<FnDecl>, probes: Vec<Probe>) -> Whamm {
    Whamm { strings: Vec::new(), globals, functions, probes }
}

#[test]
fn start_offset_is_base_plus_guard() {
    assert_eq!(START_OFFSET, DEFAULT_MEMORY_BASE + GUARD_REGION);
    assert_eq!(START_OFFSET, 1_052_576);
}

#[test]
fn tracker_refuses_two_memories() {
    assert_eq!(MemoryTracker::new(2).err(), Some(MemoryError::MultipleMemories));
    assert!(MemoryTracker::new(0).is_ok());
    let t = MemoryTracker::new(1).unwrap();
    assert_eq!(t.mem_id, 0);
    assert_eq!(t.curr_mem_offset, 1_052_576);
    assert!(t.emitted_strings.is_empty());
}

#[test]
fn allocate_advances_by_size() {
    let mut t = MemoryTracker::new(1).unwrap();
    assert_eq!(t.allocate(16), Ok(1_052_576));
    assert_eq!(t.allocate(0), Ok(1_052_592));
    assert_eq!(t.allocate(5), Ok(1_052_592));
    assert_eq!(t.curr_mem_offset, 1_052_597);
}

#[test]
fn allocate_fails_when_region_does_not_fit() {
    let mut t = MemoryTracker::new(1).unwrap();
    let room = u32::MAX - START_OFFSET;
    assert_eq!(t.allocate(room), Ok(START_OFFSET));
    assert_eq!(t.curr_mem_offset, u32::MAX);
    assert_eq!(t.allocate(1), Err(MemoryError::OutOfMemory));
    assert_eq!(t.curr_mem_offset, u32::MAX);
    assert_eq!(t.allocate(0), Ok(u32::MAX));
}

#[test]
fn allocations_never_overlap() {
    let mut t = MemoryTracker::new(1).unwrap();
    let sizes = [3u32, 0, 9, 1, 128];
    let mut previous_end = START_OFFSET;
    for size in sizes {
        let start = t.allocate(size).unwrap();
        assert!(start >= previous_end);
        assert!(start >= DEFAULT_MEMORY_BASE + GUARD_REGION);
        previous_end = start + size;
        assert_eq!(t.curr_mem_offset, previous_end);
    }
}

#[test]
fn intern_string_is_idempotent() {
    let mut t = MemoryTracker::new(1).unwrap();
    let first = t.intern_string(b"hello").unwrap();
    assert_eq!(first, 1_052_576);
    assert_eq!(t.curr_mem_offset, 1_052_582);
    let again = t.intern_string(b"hello").unwrap();
    assert_eq!(again, first);
    assert_eq!(t.curr_mem_offset, 1_052_582);
    assert_eq!(t.emitted_strings.len(), 1);
}

#[test]
fn distinct_strings_get_distinct_offsets() {
    let mut t = MemoryTracker::new(1).unwrap();
    let empty = t.intern_string(b"").unwrap();
    let a = t.intern_string(b"a").unwrap();
    let b = t.intern_string(b"b").unwrap();
    assert_eq!(empty, 1_052_576);
    assert_eq!(a, 1_052_577);
    assert_eq!(b, 1_052_579);
    assert_eq!(t.intern_string(b"").unwrap(), empty);
    assert_eq!(t.intern_string(b"a").unwrap(), a);
    assert_eq!(t.find_string(b"b"), Some(b));
    assert_eq!(t.find_string(b"c"), None);
}

#[test]
fn intern_string_fails_without_room_for_terminator() {
    let mut t = MemoryTracker::new(1).unwrap();
    t.allocate(u32::MAX - START_OFFSET - 3).unwrap();
    assert_eq!(t.intern_string(b"abc"), Err(MemoryError::OutOfMemory));
    assert_eq!(t.emitted_strings.len(), 0);
    assert_eq!(t.intern_string(b"ab"), Ok(u32::MAX - 3));
    assert_eq!(t.curr_mem_offset, u32::MAX);
}

#[test]
fn bytes_eq_compares_content() {
    assert!(bytes_eq(b"", b""));
    assert!(bytes_eq(b"abc", b"abc"));
    assert!(!bytes_eq(b"abc", b"abd"));
    assert!(!bytes_eq(b"abc", b"ab"));
}

#[test]
fn collector_counts_and_caps() {
    let mut err = fresh_err();
    assert_eq!(err.max_errors, 15);
    assert!(!err.check_has_errors());
    assert!(!err.check_too_many());
    assert!(err.fatal_report(Stage::Init).is_none());
    for _ in 0..15 {
        err.add_error(diag(DiagnosticKind::UnresolvedSymbol));
    }
    assert_eq!(err.error_count(), 15);
    assert!(err.check_has_errors());
    assert!(!err.check_too_many());
    err.add_error(diag(DiagnosticKind::Serialization));
    assert!(err.check_too_many());
    let report = err.fatal_report(Stage::Emit).unwrap();
    assert_eq!(report.stage, Stage::Emit);
    assert_eq!(report.diagnostics.len(), 16);
    assert_eq!(report.diagnostics[15].kind, DiagnosticKind::Serialization);
    assert_eq!(err.report(), report.diagnostics);
}

#[test]
fn collector_keeps_order_and_paths() {
    let mut err = ErrorGen::new("a.mm".to_string(), "text".to_string(), 2);
    err.add_error(diag(DiagnosticKind::UnresolvablePattern));
    err.add_error(diag(DiagnosticKind::DuplicateSymbol));
    let all = err.report();
    assert_eq!(all[0].kind, DiagnosticKind::UnresolvablePattern);
    assert_eq!(all[1].kind, DiagnosticKind::DuplicateSymbol);
    assert_eq!(err.script_path, "a.mm");
    assert_eq!(err.script_text, "text");
    assert!(!err.check_too_many());
    err.add_error(diag(DiagnosticKind::DuplicateSymbol));
    assert!(err.check_too_many());
}

#[test]
fn diagnostic_constructors_fill_places() {
    let d = Diagnostic::for_item(DiagnosticKind::OutOfMemory, Stage::Init, 3, Some(9));
    assert_eq!(d.script_item, Some(3));
    assert_eq!(d.symbol, Some(9));
    assert_eq!(d.stage, Stage::Init);
    assert!(!d.fatal);
    let s = Diagnostic::for_site(DiagnosticKind::UnresolvedSymbol, 1, 2, Some(5));
    assert_eq!(s.script_item, Some(1));
    assert_eq!(s.func, Some(2));
    assert_eq!(s.instr, Some(5));
    assert_eq!(s.stage, Stage::Instrument);
}

#[test]
fn patterns_cover_categories() {
    assert!(matches_category(EventPattern::FuncEntry, Category::FuncEntry));
    assert!(!matches_category(EventPattern::FuncEntry, Category::FuncExit));
    assert!(matches_category(EventPattern::FuncBoundary, Category::FuncExit));
    assert!(!matches_category(EventPattern::FuncBoundary, Category::Call));
    assert!(matches_category(EventPattern::Any, Category::Call));
    assert!(!matches_category(EventPattern::Opcode, Category::Call));
    assert!(is_resolvable(EventPattern::Call));
    assert!(!is_resolvable(EventPattern::MemoryAccess));
    assert!(!is_resolvable(EventPattern::Opcode));
    assert!(check_callee(None, Some(3)));
    assert!(check_callee(Some(3), Some(3)));
    assert!(!check_callee(Some(3), Some(4)));
    assert!(check_callee(Some(3), None));
}

#[test]
fn symbol_table_records_declarations_in_order() {
    let ast = script(
        vec![
            GlobalDecl { name: 7, init: GlobalInit::Int(0) },
            GlobalDecl { name: 8, init: GlobalInit::Int(1) },
            GlobalDecl { name: 7, init: GlobalInit::Int(2) },
        ],
        vec![FnDecl { name: 8, body: vec![] }, FnDecl { name: 9, body: vec![] }],
        vec![],
    );
    let mut err = fresh_err();
    let table = build_symbol_table(&ast, &mut err);
    assert_eq!(
        table.records,
        vec![
            Symbol { name: 7, kind: SymbolKind::Global, target: None },
            Symbol { name: 8, kind: SymbolKind::Global, target: None },
            Symbol { name: 9, kind: SymbolKind::Function, target: None },
        ]
    );
    let all = err.report();
    assert_eq!(all.len(), 2);
    assert_eq!(all[0].kind, DiagnosticKind::DuplicateSymbol);
    assert_eq!(all[0].script_item, Some(2));
    assert_eq!(all[0].symbol, Some(7));
    assert_eq!(all[1].script_item, Some(0));
    assert_eq!(all[1].symbol, Some(8));
    assert_eq!(all[1].stage, Stage::SymbolTable);
}

#[test]
fn symbol_table_binds_and_resolves() {
    let mut table = SymbolTable::new();
    assert!(table.declare(1, SymbolKind::Global));
    assert!(table.declare(2, SymbolKind::Function));
    assert!(!table.declare(1, SymbolKind::Function));
    assert_eq!(table.find(2), Some(1));
    assert_eq!(table.find(3), None);
    assert!(table.is_declared(1, SymbolKind::Global));
    assert!(!table.is_declared(1, SymbolKind::Function));
    assert_eq!(table.resolve(1, SymbolKind::Global), None);
    assert!(table.bind(1, SymbolKind::Global, 40));
    assert!(!table.bind(1, SymbolKind::Function, 41));
    assert!(!table.bind(3, SymbolKind::Global, 42));
    assert_eq!(table.resolve(1, SymbolKind::Global), Some(40));
    assert_eq!(table.resolve(1, SymbolKind::Function), None);
    assert_eq!(table.resolve(2, SymbolKind::Function), None);
}

#[test]
fn type_check_flags_each_bad_item_once() {
    let ast = Whamm {
        strings: vec![b"x".to_vec()],
        globals: vec![GlobalDecl { name: 1, init: GlobalInit::Int(0) }],
        functions: vec![
            FnDecl { name: 2, body: vec![Stmt::CallFn { func: 1 }] },
            FnDecl { name: 3, body: vec![Stmt::CallFn { func: 2 }] },
        ],
        probes: vec![
            probe(EventPattern::Call, vec![Stmt::AddToGlobal { global: 1, amount: 1 }]),
            probe(
                EventPattern::Call,
                vec![Stmt::SetGlobal { global: 5, value: 1 }, Stmt::SetGlobal { global: 6, value: 1 }],
            ),
            probe(EventPattern::Call, vec![Stmt::StoreString { global: 1, string: 1 }]),
            Probe {
                pattern: Pattern { event: EventPattern::Call, callee: None },
                predicate: Predicate::GlobalNonZero(2),
                body: vec![],
            },
        ],
    };
    let mut err = fresh_err();
    let table = build_symbol_table(&ast, &mut err);
    assert!(!err.check_has_errors());
    assert!(!type_check(&ast, &table, &mut err));
    let all = err.report();
    assert_eq!(all.len(), 4);
    assert_eq!(all[0].script_item, Some(1));
    assert_eq!(all[1].script_item, Some(2));
    assert_eq!(all[2].script_item, Some(3));
    assert_eq!(all[3].script_item, Some(0));
    assert_eq!(all[3].kind, DiagnosticKind::UnresolvedSymbol);
    assert_eq!(all[3].stage, Stage::TypeCheck);
}

#[test]
fn type_check_passes_clean_script() {
    let ast = Whamm {
        strings: vec![b"x".to_vec()],
        globals: vec![GlobalDecl { name: 1, init: GlobalInit::Str(0) }],
        functions: vec![FnDecl { name: 2, body: vec![Stmt::StoreString { global: 1, string: 0 }] }],
        probes: vec![Probe {
            pattern: Pattern { event: EventPattern::Any, callee: None },
            predicate: Predicate::GlobalNonZero(1),
            body: vec![Stmt::CallFn { func: 2 }],
        }],
    };
    let mut err = fresh_err();
    let table = build_symbol_table(&ast, &mut err);
    assert!(type_check(&ast, &table, &mut err));
    assert!(!err.check_has_errors());
}

#[test]
fn tree_keeps_declaration_order_under_shared_categories() {
    let ast = script(
        vec![],
        vec![],
        vec![
            probe(EventPattern::FuncExit, vec![Stmt::CallFn { func: 1 }]),
            probe(EventPattern::Opcode, vec![]),
            Probe {
                pattern: Pattern { event: EventPattern::Call, callee: Some(4) },
                predicate: Predicate::Static(true),
                body: vec![],
            },
            probe(EventPattern::FuncBoundary, vec![Stmt::CallFn { func: 2 }]),
            probe(EventPattern::Any, vec![]),
        ],
    );
    let mut err = fresh_err();
    let (tree, side) = build_behavior_tree(&ast, &mut err);
    assert_eq!(tree.children.len(), 3);
    assert_eq!(tree.children[0].category, Category::FuncExit);
    assert_eq!(tree.children[1].category, Category::Call);
    assert_eq!(tree.children[2].category, Category::FuncEntry);
    let exit: Vec<usize> = tree.children[0].decisions.iter().map(|d| d.probe).collect();
    let call: Vec<usize> = tree.children[1].decisions.iter().map(|d| d.probe).collect();
    let entry: Vec<usize> = tree.children[2].decisions.iter().map(|d| d.probe).collect();
    assert_eq!(exit, vec![0, 3, 4]);
    assert_eq!(call, vec![2, 4]);
    assert_eq!(entry, vec![3, 4]);
    assert_eq!(
        tree.children[1].decisions[0],
        Decision { probe: 2, predicate: Predicate::Static(true), callee: Some(4), action: 1 }
    );
    assert_eq!(tree.children[0].decisions[1].predicate, Predicate::Always);
    assert_eq!(tree.children[0].decisions[1].action, 2);
    assert_eq!(side.entries.len(), 4);
    assert_eq!(side.entries[2].probe, 3);
    assert_eq!(side.entries[2].body, vec![Stmt::CallFn { func: 2 }]);
    let all = err.report();
    assert_eq!(all.len(), 1);
    assert_eq!(all[0].kind, DiagnosticKind::UnresolvablePattern);
    assert_eq!(all[0].script_item, Some(1));
    assert_eq!(all[0].stage, Stage::BuildBehavior);
}

#[test]
fn cursor_walks_siblings_and_resets() {
    let ast = script(
        vec![],
        vec![],
        vec![probe(EventPattern::FuncEntry, vec![]), probe(EventPattern::FuncBoundary, vec![])],
    );
    let mut err = fresh_err();
    let (mut tree, _) = build_behavior_tree(&ast, &mut err);
    assert_eq!(tree.cursor, Cursor::Root);
    assert_eq!(tree.next_decision(), None);
    assert_eq!(tree.enter(Category::Call), None);
    assert_eq!(tree.cursor, Cursor::Root);
    assert_eq!(tree.enter(Category::FuncEntry), Some(0));
    assert_eq!(tree.cursor, Cursor::Category(0));
    assert_eq!(tree.next_decision().map(|d| d.probe), Some(0));
    assert_eq!(tree.cursor, Cursor::Decision(0, 0));
    assert_eq!(tree.next_decision().map(|d| d.probe), Some(1));
    assert_eq!(tree.next_decision(), None);
    assert_eq!(tree.cursor, Cursor::Decision(0, 1));
    tree.reset();
    assert_eq!(tree.cursor, Cursor::Root);
    assert_eq!(tree.enter(Category::FuncExit), Some(1));
    assert_eq!(tree.next_decision().map(|d| d.probe), Some(1));
    assert_eq!(tree.next_decision(), None);
}

#[test]
fn attach_makes_category_node_once() {
    let mut tree = BehaviorTree::new();
    let d = |probe: usize| Decision { probe, predicate: Predicate::Always, callee: None, action: probe };
    tree.attach(Category::Call, d(0));
    tree.attach(Category::FuncEntry, d(1));
    tree.attach(Category::Call, d(2));
    assert_eq!(tree.children.len(), 2);
    assert_eq!(tree.find_node(Category::Call), Some(0));
    assert_eq!(tree.find_node(Category::FuncExit), None);
    assert_eq!(tree.children[0].decisions, vec![d(0), d(2)]);
    assert_eq!(tree.children[1].decisions, vec![d(1)]);
}
