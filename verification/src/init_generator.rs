//! The first generator phase: string literals get their addresses, declared
//! globals their backing globals, provided functions their bodies, and the
//! symbol table the identifiers of both.

use vstd::prelude::*;
use crate::emit::{address_of, compile_body, pool_view, string_address, whole_body_code, Resolver};
use crate::error::{item_diagnostic, Diagnostic, DiagnosticKind, ErrorGen, Stage};
use crate::memory::{intern_model, MemoryTracker, TrackerModel};
use crate::module::{FunctionModel, GlobalDef, TargetModule};
use crate::script::{FnDecl, GlobalDecl, GlobalInit, Stmt, Whamm};
use crate::symbols::{bind, declared, Symbol, SymbolKind, SymbolTable};

verus! {

/// Everything the phase changes, as one value.
pub struct InitState {
    pub globals: Seq<GlobalDef>,
    pub functions: Seq<FunctionModel>,
    pub records: Seq<Symbol>,
    pub memory: TrackerModel,
    pub diags: Seq<Diagnostic>,
}

pub open spec fn init_state(
    module: TargetModule,
    table: SymbolTable,
    memory: MemoryTracker,
    err: ErrorGen,
) -> InitState {
    InitState {
        globals: module.globals@,
        functions: module.bodies(),
        records: table.records@,
        memory: memory.model(),
        diags: err.diagnostics(),
    }
}

/// One string literal gets its address; where memory is used up it gets a
/// diagnostic.
pub open spec fn intern_step(s: InitState, content: Seq<u8>, item: int) -> InitState {
    let (memory, address) = intern_model(s.memory, content);
    InitState {
        memory,
        diags: if address is None {
            s.diags.push(
                item_diagnostic(DiagnosticKind::OutOfMemory, Stage::Init, item as usize, None),
            )
        } else {
            s.diags
        },
        ..s
    }
}

pub open spec fn intern_pool(s: InitState, pool: Seq<Seq<u8>>, n: int) -> InitState
    decreases n,
{
    if n <= 0 {
        s
    } else {
        intern_step(intern_pool(s, pool, n - 1), pool[n - 1], n - 1)
    }
}

/// The value a global starts with.
pub open spec fn initial_value(s: InitState, pool: Seq<Seq<u8>>, init: GlobalInit) -> Option<i64> {
    match init {
        GlobalInit::Int(v) => Some(v as i64),
        GlobalInit::Str(string) => match string_address(s.memory.strings, pool, string) {
            Some(address) => Some(address as i64),
            None => None,
        },
    }
}

/// One declared global gets a backing global at the end of the module's
/// globals and its index in the symbol table. Where its name is not in the
/// table as a global, or its string has no address, or no index is left, it
/// gets a diagnostic and nothing else.
pub open spec fn global_step(s: InitState, pool: Seq<Seq<u8>>, decl: GlobalDecl, item: int) -> InitState {
    let value = initial_value(s, pool, decl.init);
    if value is None || !declared(s.records, decl.name, SymbolKind::Global) {
        InitState {
            diags: s.diags.push(
                item_diagnostic(
                    DiagnosticKind::UnresolvedSymbol,
                    Stage::Init,
                    item as usize,
                    Some(decl.name),
                ),
            ),
            ..s
        }
    } else if s.globals.len() > u32::MAX {
        InitState {
            diags: s.diags.push(
                item_diagnostic(
                    DiagnosticKind::IndexOverflow,
                    Stage::Init,
                    item as usize,
                    Some(decl.name),
                ),
            ),
            ..s
        }
    } else {
        InitState {
            globals: s.globals.push(GlobalDef { init: value->0, mutable: true }),
            records: bind(s.records, decl.name, SymbolKind::Global, s.globals.len() as u32),
            ..s
        }
    }
}

pub open spec fn emit_globals(s: InitState, pool: Seq<Seq<u8>>, globals: Seq<GlobalDecl>, n: int) -> InitState
    decreases n,
{
    if n <= 0 {
        s
    } else {
        global_step(emit_globals(s, pool, globals, n - 1), pool, globals[n - 1], n - 1)
    }
}

/// One provided function gets its body at the end of the module's
/// functions and its index in the symbol table. Where its name is not in
/// the table as a function, or a statement of its body has no code, or no
/// index is left, it gets a diagnostic and nothing else.
pub open spec fn function_step(
    s: InitState,
    pool: Seq<Seq<u8>>,
    name: u32,
    body: Seq<Stmt>,
    item: int,
) -> InitState {
    let code = whole_body_code(
        Resolver { records: s.records, strings: s.memory.strings, pool },
        body,
    );
    if code is None || !declared(s.records, name, SymbolKind::Function) {
        InitState {
            diags: s.diags.push(
                item_diagnostic(
                    DiagnosticKind::UnresolvedSymbol,
                    Stage::Init,
                    item as usize,
                    Some(name),
                ),
            ),
            ..s
        }
    } else if s.functions.len() > u32::MAX {
        InitState {
            diags: s.diags.push(
                item_diagnostic(
                    DiagnosticKind::IndexOverflow,
                    Stage::Init,
                    item as usize,
                    Some(name),
                ),
            ),
            ..s
        }
    } else {
        InitState {
            functions: s.functions.push(FunctionModel { body: code->0, injected: true }),
            records: bind(s.records, name, SymbolKind::Function, s.functions.len() as u32),
            ..s
        }
    }
}

pub open spec fn emit_functions(s: InitState, pool: Seq<Seq<u8>>, functions: Seq<FnDecl>, n: int) -> InitState
    decreases n,
{
    if n <= 0 {
        s
    } else {
        function_step(
            emit_functions(s, pool, functions, n - 1),
            pool,
            functions[n - 1].name,
            functions[n - 1].body@,
            n - 1,
        )
    }
}

/// The whole phase: literals, then globals, then functions.
pub open spec fn init_result(s: InitState, ast: &Whamm) -> InitState {
    let pool = pool_view(ast.strings@);
    emit_functions(
        emit_globals(
            intern_pool(s, pool, pool.len() as int),
            pool,
            ast.globals@,
            ast.globals@.len() as int,
        ),
        pool,
        ast.functions@,
        ast.functions@.len() as int,
    )
}

/// The phase that emits what the script declares.
pub struct InitGenerator {}

impl InitGenerator {
    fn intern_literal(memory: &mut MemoryTracker, err: &mut ErrorGen, content: &[u8], item: usize)
        requires
            old(memory).wf(),
        ensures
            final(memory).wf(),
            final(memory).mem_id == old(memory).mem_id,
            final(err).max_errors == old(err).max_errors,
            final(memory).model() == intern_model(old(memory).model(), content@).0,
            final(err).diagnostics() == if intern_model(old(memory).model(), content@).1 is None {
                old(err).diagnostics().push(
                    item_diagnostic(DiagnosticKind::OutOfMemory, Stage::Init, item, None),
                )
            } else {
                old(err).diagnostics()
            },
    {
        if memory.intern_string(content).is_err() {
            err.add_error(Diagnostic::for_item(DiagnosticKind::OutOfMemory, Stage::Init, item, None));
        }
    }

    fn emit_global(
        module: &mut TargetModule,
        table: &mut SymbolTable,
        memory: &MemoryTracker,
        err: &mut ErrorGen,
        pool: &Vec<Vec<u8>>,
        decl: GlobalDecl,
        item: usize,
    )
        ensures
            final(err).max_errors == old(err).max_errors,
            final(module).memories == old(module).memories,
            init_state(*final(module), *final(table), *memory, *final(err)) == global_step(
                init_state(*old(module), *old(table), *memory, *old(err)),
                pool_view(pool@),
                decl,
                item as int,
            ),
    {
        let value: Option<i64> = match decl.init {
            GlobalInit::Int(v) => Some(v as i64),
            GlobalInit::Str(string) => match address_of(memory, pool, string) {
                Some(address) => Some(address as i64),
                None => None,
            },
        };
        let known = table.is_declared(decl.name, SymbolKind::Global);
        let emitted: Option<Option<u32>> = match value {
            Some(init) => if known {
                Some(module.add_global(GlobalDef { init, mutable: true }))
            } else {
                None
            },
            None => None,
        };
        match emitted {
            Some(Some(id)) => {
                table.bind(decl.name, SymbolKind::Global, id);
            },
            Some(None) => {
                err.add_error(
                    Diagnostic::for_item(
                        DiagnosticKind::IndexOverflow,
                        Stage::Init,
                        item,
                        Some(decl.name),
                    ),
                );
            },
            None => {
                err.add_error(
                    Diagnostic::for_item(
                        DiagnosticKind::UnresolvedSymbol,
                        Stage::Init,
                        item,
                        Some(decl.name),
                    ),
                );
            },
        }
    }

    fn emit_function(
        module: &mut TargetModule,
        table: &mut SymbolTable,
        memory: &MemoryTracker,
        err: &mut ErrorGen,
        pool: &Vec<Vec<u8>>,
        decl: &FnDecl,
        item: usize,
    )
        ensures
            final(err).max_errors == old(err).max_errors,
            final(module).memories == old(module).memories,
            init_state(*final(module), *final(table), *memory, *final(err)) == function_step(
                init_state(*old(module), *old(table), *memory, *old(err)),
                pool_view(pool@),
                decl.name,
                decl.body@,
                item as int,
            ),
    {
        let known = table.is_declared(decl.name, SymbolKind::Function);
        let emitted: Option<Option<u32>> = match compile_body(table, memory, pool, &decl.body) {
            Some(code) => if known {
                Some(module.add_function(code))
            } else {
                None
            },
            None => None,
        };
        match emitted {
            Some(Some(id)) => {
                table.bind(decl.name, SymbolKind::Function, id);
            },
            Some(None) => {
                err.add_error(
                    Diagnostic::for_item(
                        DiagnosticKind::IndexOverflow,
                        Stage::Init,
                        item,
                        Some(decl.name),
                    ),
                );
            },
            None => {
                err.add_error(
                    Diagnostic::for_item(
                        DiagnosticKind::UnresolvedSymbol,
                        Stage::Init,
                        item,
                        Some(decl.name),
                    ),
                );
            },
        }
    }

    /// Runs the phase once over a script's declarations. Emission failures
    /// become diagnostics; the phase goes on to the end either way.
    pub fn run(
        module: &mut TargetModule,
        table: &mut SymbolTable,
        memory: &mut MemoryTracker,
        err: &mut ErrorGen,
        ast: &Whamm,
    )
        requires
            old(memory).wf(),
        ensures
            final(memory).wf(),
            final(memory).mem_id == old(memory).mem_id,
            final(err).max_errors == old(err).max_errors,
            final(module).memories == old(module).memories,
            init_state(*final(module), *final(table), *final(memory), *final(err)) == init_result(
                init_state(*old(module), *old(table), *old(memory), *old(err)),
                ast,
            ),
    {
        let ghost start = init_state(*module, *table, *memory, *err);
        let ghost pool = pool_view(ast.strings@);
        let mut i: usize = 0;
        while i < ast.strings.len()
            invariant
                i <= ast.strings.len(),
                pool == pool_view(ast.strings@),
                memory.wf(),
                memory.mem_id == old(memory).mem_id,
                err.max_errors == old(err).max_errors,
                module.memories == old(module).memories,
                init_state(*module, *table, *memory, *err) == intern_pool(start, pool, i as int),
            decreases ast.strings.len() - i,
        {
            Self::intern_literal(memory, err, ast.strings[i].as_slice(), i);
            i += 1;
        }
        let ghost interned = init_state(*module, *table, *memory, *err);
        let mut g: usize = 0;
        while g < ast.globals.len()
            invariant
                g <= ast.globals.len(),
                pool == pool_view(ast.strings@),
                memory.wf(),
                memory.mem_id == old(memory).mem_id,
                err.max_errors == old(err).max_errors,
                module.memories == old(module).memories,
                init_state(*module, *table, *memory, *err) == emit_globals(
                    interned,
                    pool,
                    ast.globals@,
                    g as int,
                ),
            decreases ast.globals.len() - g,
        {
            Self::emit_global(module, table, memory, err, &ast.strings, ast.globals[g], g);
            g += 1;
        }
        let ghost with_globals = init_state(*module, *table, *memory, *err);
        let mut f: usize = 0;
        while f < ast.functions.len()
            invariant
                f <= ast.functions.len(),
                pool == pool_view(ast.strings@),
                memory.wf(),
                memory.mem_id == old(memory).mem_id,
                err.max_errors == old(err).max_errors,
                module.memories == old(module).memories,
                init_state(*module, *table, *memory, *err) == emit_functions(
                    with_globals,
                    pool,
                    ast.functions@,
                    f as int,
                ),
            decreases ast.functions.len() - f,
        {
            Self::emit_function(module, table, memory, err, &ast.strings, &ast.functions[f], f);
            f += 1;
        }
    }
}

} // verus!
