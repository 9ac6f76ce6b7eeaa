//! The symbol table: declared names, their kinds, and the identifiers they
//! get in the target module.

use vstd::prelude::*;
use crate::error::{item_diagnostic, Diagnostic, DiagnosticKind, ErrorGen, Stage};
use crate::script::{FnDecl, GlobalDecl, Predicate, Probe, Stmt, Whamm};

verus! {

#[derive(Clone, Copy, Debug, PartialEq, Eq, Structural)]
pub enum SymbolKind {
    Global,
    Function,
}

#[derive(Clone, Copy, Debug, PartialEq, Eq)]
pub struct Symbol {
    pub name: u32,
    pub kind: SymbolKind,
    /// The global's or function's index in the target module, once emitted.
    pub target: Option<u32>,
}

#[derive(Debug)]
pub struct SymbolTable {
    pub records: Vec<Symbol>,
}

/// Index of the first record from `i` on with this name.
pub open spec fn find_from(records: Seq<Symbol>, name: u32, i: int) -> Option<int>
    decreases records.len() - i,
{
    if i < 0 || i >= records.len() {
        None
    } else if records[i].name == name {
        Some(i)
    } else {
        find_from(records, name, i + 1)
    }
}

/// Index of the first record with this name.
pub open spec fn find(records: Seq<Symbol>, name: u32) -> Option<int> {
    find_from(records, name, 0)
}

/// The name is declared with this kind.
pub open spec fn declared(records: Seq<Symbol>, name: u32, kind: SymbolKind) -> bool {
    match find(records, name) {
        Some(k) => records[k].kind == kind,
        None => false,
    }
}

/// The identifier in the target module of the name declared with this kind.
pub open spec fn resolve(records: Seq<Symbol>, name: u32, kind: SymbolKind) -> Option<u32> {
    match find(records, name) {
        Some(k) => if records[k].kind == kind {
            records[k].target
        } else {
            None
        },
        None => None,
    }
}

/// The table after `name` got its identifier: unchanged where the name is
/// not declared with this kind.
pub open spec fn bind(records: Seq<Symbol>, name: u32, kind: SymbolKind, target: u32) -> Seq<
    Symbol,
> {
    match find(records, name) {
        Some(k) => if records[k].kind == kind {
            records.update(k, Symbol { name, kind, target: Some(target) })
        } else {
            records
        },
        None => records,
    }
}

/// The symbol that a statement names, and the kind it must have.
pub open spec fn stmt_symbol(stmt: Stmt) -> (u32, SymbolKind) {
    match stmt {
        Stmt::AddToGlobal { global, amount } => (global, SymbolKind::Global),
        Stmt::SetGlobal { global, value } => (global, SymbolKind::Global),
        Stmt::CallFn { func } => (func, SymbolKind::Function),
        Stmt::StoreString { global, string } => (global, SymbolKind::Global),
    }
}

/// The statement names a declared symbol of the right kind, and a pooled
/// string where it names one.
pub open spec fn stmt_ok(records: Seq<Symbol>, pool: int, stmt: Stmt) -> bool {
    &&& declared(records, stmt_symbol(stmt).0, stmt_symbol(stmt).1)
    &&& match stmt {
        Stmt::StoreString { global, string } => string < pool,
        _ => true,
    }
}

pub open spec fn body_ok(records: Seq<Symbol>, pool: int, body: Seq<Stmt>) -> bool {
    forall|i: int| 0 <= i < body.len() ==> stmt_ok(records, pool, #[trigger] body[i])
}

pub open spec fn predicate_ok(records: Seq<Symbol>, predicate: Predicate) -> bool {
    match predicate {
        Predicate::GlobalNonZero(g) => declared(records, g, SymbolKind::Global),
        _ => true,
    }
}

/// Every probe and every provided function names declared symbols only.
pub open spec fn script_ok(records: Seq<Symbol>, ast: &Whamm) -> bool {
    &&& forall|p: int|
        0 <= p < ast.probes@.len() ==> predicate_ok(records, (#[trigger] ast.probes@[p]).predicate)
            && body_ok(records, ast.strings@.len() as int, ast.probes@[p].body@)
    &&& forall|f: int|
        0 <= f < ast.functions@.len() ==> body_ok(
            records,
            ast.strings@.len() as int,
            (#[trigger] ast.functions@[f]).body@,
        )
}

/// Table and diagnostics after one declaration: a fresh name gets a record,
/// a name seen before gets a diagnostic.
pub open spec fn declare_step(
    state: (Seq<Symbol>, Seq<Diagnostic>),
    name: u32,
    kind: SymbolKind,
    item: int,
) -> (Seq<Symbol>, Seq<Diagnostic>) {
    if find(state.0, name) is Some {
        (state.0, state.1.push(duplicate_diagnostic(name, item as usize)))
    } else {
        (state.0.push(Symbol { name, kind, target: None }), state.1)
    }
}

pub open spec fn duplicate_diagnostic(name: u32, item: usize) -> Diagnostic {
    Diagnostic {
        kind: DiagnosticKind::DuplicateSymbol,
        stage: Stage::SymbolTable,
        fatal: false,
        script_item: Some(item),
        symbol: Some(name),
        func: None,
        instr: None,
    }
}

pub open spec fn declare_globals(
    state: (Seq<Symbol>, Seq<Diagnostic>),
    globals: Seq<GlobalDecl>,
    n: int,
) -> (Seq<Symbol>, Seq<Diagnostic>)
    decreases n,
{
    if n <= 0 {
        state
    } else {
        declare_step(
            declare_globals(state, globals, n - 1),
            globals[n - 1].name,
            SymbolKind::Global,
            n - 1,
        )
    }
}

pub open spec fn declare_functions(
    state: (Seq<Symbol>, Seq<Diagnostic>),
    functions: Seq<FnDecl>,
    n: int,
) -> (Seq<Symbol>, Seq<Diagnostic>)
    decreases n,
{
    if n <= 0 {
        state
    } else {
        declare_step(
            declare_functions(state, functions, n - 1),
            functions[n - 1].name,
            SymbolKind::Function,
            n - 1,
        )
    }
}

/// Table and diagnostics after all of a script's declarations, globals
/// first.
pub open spec fn declare_all(diags: Seq<Diagnostic>, ast: &Whamm) -> (Seq<Symbol>, Seq<Diagnostic>) {
    declare_functions(
        declare_globals((Seq::empty(), diags), ast.globals@, ast.globals@.len() as int),
        ast.functions@,
        ast.functions@.len() as int,
    )
}

impl SymbolTable {
    pub fn new() -> (r: SymbolTable)
        ensures
            r.records@ == Seq::<Symbol>::empty(),
    {
        SymbolTable { records: Vec::new() }
    }

    /// Index of the record of `name`.
    pub fn find(&self, name: u32) -> (r: Option<usize>)
        ensures
            match r {
                Some(k) => find(self.records@, name) == Some(k as int) && k < self.records@.len(),
                None => find(self.records@, name) is None,
            },
    {
        let mut i: usize = 0;
        while i < self.records.len()
            invariant
                i <= self.records.len(),
                find(self.records@, name) == find_from(self.records@, name, i as int),
            decreases self.records.len() - i,
        {
            if self.records[i].name == name {
                return Some(i);
            }
            i += 1;
        }
        None
    }

    /// Whether `name` is declared with `kind`.
    pub fn is_declared(&self, name: u32, kind: SymbolKind) -> (r: bool)
        ensures
            r == declared(self.records@, name, kind),
    {
        match self.find(name) {
            Some(k) => self.records[k].kind == kind,
            None => false,
        }
    }

    /// The identifier of `name` in the target module.
    pub fn resolve(&self, name: u32, kind: SymbolKind) -> (r: Option<u32>)
        ensures
            r == resolve(self.records@, name, kind),
    {
        match self.find(name) {
            Some(k) => if self.records[k].kind == kind {
                self.records[k].target
            } else {
                None
            },
            None => None,
        }
    }

    /// Records a declaration. Returns whether the name was fresh.
    pub fn declare(&mut self, name: u32, kind: SymbolKind) -> (fresh: bool)
        ensures
            fresh == (find(old(self).records@, name) is None),
            fresh ==> final(self).records@ == old(self).records@.push(
                Symbol { name, kind, target: None },
            ),
            !fresh ==> final(self).records@ == old(self).records@,
    {
        if self.find(name).is_some() {
            false
        } else {
            self.records.push(Symbol { name, kind, target: None });
            true
        }
    }

    /// Gives `name` its identifier in the target module. Returns whether the
    /// name is declared with this kind.
    pub fn bind(&mut self, name: u32, kind: SymbolKind, target: u32) -> (found: bool)
        ensures
            found == declared(old(self).records@, name, kind),
            final(self).records@ == bind(old(self).records@, name, kind, target),
    {
        match self.find(name) {
            Some(k) => if self.records[k].kind == kind {
                self.records.set(k, Symbol { name, kind, target: Some(target) });
                true
            } else {
                false
            },
            None => false,
        }
    }
}

fn declare_one(table: &mut SymbolTable, err: &mut ErrorGen, name: u32, kind: SymbolKind, item: usize)
    ensures
        (final(table).records@, final(err).diagnostics()) == declare_step(
            (old(table).records@, old(err).diagnostics()),
            name,
            kind,
            item as int,
        ),
        final(err).max_errors == old(err).max_errors,
{
    if !table.declare(name, kind) {
        err.add_error(
            Diagnostic {
                kind: DiagnosticKind::DuplicateSymbol,
                stage: Stage::SymbolTable,
                fatal: false,
                script_item: Some(item),
                symbol: Some(name),
                func: None,
                instr: None,
            },
        );
    }
}

/// The table of a script's declarations, globals first, each in the order
/// in which it was declared. A name declared twice keeps its first record
/// and gets a diagnostic.
pub fn build_symbol_table(ast: &Whamm, err: &mut ErrorGen) -> (table: SymbolTable)
    ensures
        (table.records@, final(err).diagnostics()) == declare_all(old(err).diagnostics(), ast),
        final(err).max_errors == old(err).max_errors,
{
    let mut table = SymbolTable::new();
    let mut i: usize = 0;
    while i < ast.globals.len()
        invariant
            i <= ast.globals.len(),
            err.max_errors == old(err).max_errors,
            (table.records@, err.diagnostics()) == declare_globals(
                (Seq::empty(), old(err).diagnostics()),
                ast.globals@,
                i as int,
            ),
        decreases ast.globals.len() - i,
    {
        declare_one(&mut table, err, ast.globals[i].name, SymbolKind::Global, i);
        i += 1;
    }
    let ghost mid = (table.records@, err.diagnostics());
    let mut j: usize = 0;
    while j < ast.functions.len()
        invariant
            j <= ast.functions.len(),
            err.max_errors == old(err).max_errors,
            (table.records@, err.diagnostics()) == declare_functions(
                mid,
                ast.functions@,
                j as int,
            ),
        decreases ast.functions.len() - j,
    {
        declare_one(&mut table, err, ast.functions[j].name, SymbolKind::Function, j);
        j += 1;
    }
    table
}

fn check_stmt(table: &SymbolTable, pool: usize, stmt: Stmt) -> (r: bool)
    ensures
        r == stmt_ok(table.records@, pool as int, stmt),
{
    match stmt {
        Stmt::AddToGlobal { global, amount } => table.is_declared(global, SymbolKind::Global),
        Stmt::SetGlobal { global, value } => table.is_declared(global, SymbolKind::Global),
        Stmt::CallFn { func } => table.is_declared(func, SymbolKind::Function),
        Stmt::StoreString { global, string } => table.is_declared(global, SymbolKind::Global)
            && string < pool,
    }
}

fn check_body(table: &SymbolTable, pool: usize, body: &Vec<Stmt>) -> (r: bool)
    ensures
        r == body_ok(table.records@, pool as int, body@),
{
    let mut i: usize = 0;
    while i < body.len()
        invariant
            i <= body.len(),
            forall|k: int| 0 <= k < i ==> stmt_ok(table.records@, pool as int, #[trigger] body@[k]),
        decreases body.len() - i,
    {
        if !check_stmt(table, pool, body[i]) {
            return false;
        }
        i += 1;
    }
    true
}

fn check_predicate(table: &SymbolTable, predicate: Predicate) -> (r: bool)
    ensures
        r == predicate_ok(table.records@, predicate),
{
    match predicate {
        Predicate::GlobalNonZero(g) => table.is_declared(g, SymbolKind::Global),
        _ => true,
    }
}

/// The diagnostics after the check of the first `n` probes: one more for
/// each probe whose predicate or body names what is not declared.
pub open spec fn check_probes(
    diags: Seq<Diagnostic>,
    records: Seq<Symbol>,
    pool: int,
    probes: Seq<Probe>,
    n: int,
) -> Seq<Diagnostic>
    decreases n,
{
    if n <= 0 {
        diags
    } else if predicate_ok(records, probes[n - 1].predicate) && body_ok(
        records,
        pool,
        probes[n - 1].body@,
    ) {
        check_probes(diags, records, pool, probes, n - 1)
    } else {
        check_probes(diags, records, pool, probes, n - 1).push(
            item_diagnostic(
                DiagnosticKind::UnresolvedSymbol,
                Stage::TypeCheck,
                (n - 1) as usize,
                None,
            ),
        )
    }
}

/// The diagnostics after the check of the first `n` provided functions.
pub open spec fn check_functions(
    diags: Seq<Diagnostic>,
    records: Seq<Symbol>,
    pool: int,
    functions: Seq<FnDecl>,
    n: int,
) -> Seq<Diagnostic>
    decreases n,
{
    if n <= 0 {
        diags
    } else if body_ok(records, pool, functions[n - 1].body@) {
        check_functions(diags, records, pool, functions, n - 1)
    } else {
        check_functions(diags, records, pool, functions, n - 1).push(
            item_diagnostic(
                DiagnosticKind::UnresolvedSymbol,
                Stage::TypeCheck,
                (n - 1) as usize,
                None,
            ),
        )
    }
}

/// The diagnostics after the whole check: probes first, then functions.
pub open spec fn check_all(diags: Seq<Diagnostic>, records: Seq<Symbol>, ast: &Whamm) -> Seq<
    Diagnostic,
> {
    let pool = ast.strings@.len() as int;
    check_functions(
        check_probes(diags, records, pool, ast.probes@, ast.probes@.len() as int),
        records,
        pool,
        ast.functions@,
        ast.functions@.len() as int,
    )
}

/// Checks that every probe and provided function names declared symbols of
/// the right kind. Each item that does not adds one diagnostic; nothing
/// recorded before is touched. Returns whether the script passed.
pub fn type_check(ast: &Whamm, table: &SymbolTable, err: &mut ErrorGen) -> (passed: bool)
    ensures
        final(err).diagnostics() == check_all(old(err).diagnostics(), table.records@, ast),
        passed == script_ok(table.records@, ast),
        passed <==> final(err).diagnostics() == old(err).diagnostics(),
        old(err).diagnostics().is_prefix_of(final(err).diagnostics()),
        final(err).max_errors == old(err).max_errors,
{
    let pool = ast.strings.len();
    let mut passed = true;
    let mut p: usize = 0;
    while p < ast.probes.len()
        invariant
            p <= ast.probes.len(),
            pool == ast.strings@.len(),
            err.max_errors == old(err).max_errors,
            old(err).diagnostics().is_prefix_of(err.diagnostics()),
            passed <==> err.diagnostics() == old(err).diagnostics(),
            passed <==> forall|k: int|
                0 <= k < p ==> predicate_ok(table.records@, (#[trigger] ast.probes@[k]).predicate)
                    && body_ok(table.records@, pool as int, ast.probes@[k].body@),
            err.diagnostics() == check_probes(
                old(err).diagnostics(),
                table.records@,
                pool as int,
                ast.probes@,
                p as int,
            ),
        decreases ast.probes.len() - p,
    {
        let ok = check_predicate(table, ast.probes[p].predicate) && check_body(
            table,
            pool,
            &ast.probes[p].body,
        );
        if !ok {
            err.add_error(
                Diagnostic::for_item(DiagnosticKind::UnresolvedSymbol, Stage::TypeCheck, p, None),
            );
            passed = false;
        }
        p += 1;
    }
    let ghost probed = err.diagnostics();
    let mut f: usize = 0;
    while f < ast.functions.len()
        invariant
            f <= ast.functions.len(),
            pool == ast.strings@.len(),
            probed == check_probes(
                old(err).diagnostics(),
                table.records@,
                pool as int,
                ast.probes@,
                ast.probes@.len() as int,
            ),
            err.diagnostics() == check_functions(
                probed,
                table.records@,
                pool as int,
                ast.functions@,
                f as int,
            ),
            err.max_errors == old(err).max_errors,
            old(err).diagnostics().is_prefix_of(err.diagnostics()),
            passed <==> err.diagnostics() == old(err).diagnostics(),
            passed <==> (forall|k: int|
                0 <= k < ast.probes@.len() ==> predicate_ok(
                    table.records@,
                    (#[trigger] ast.probes@[k]).predicate,
                ) && body_ok(table.records@, pool as int, ast.probes@[k].body@)) && (forall|k: int|
                0 <= k < f ==> body_ok(
                    table.records@,
                    pool as int,
                    (#[trigger] ast.functions@[k]).body@,
                )),
        decreases ast.functions.len() - f,
    {
        if !check_body(table, pool, &ast.functions[f].body) {
            err.add_error(
                Diagnostic::for_item(DiagnosticKind::UnresolvedSymbol, Stage::TypeCheck, f, None),
            );
            passed = false;
        }
        f += 1;
    }
    passed
}

} // verus!
