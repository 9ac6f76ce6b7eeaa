//! From statements to instructions, with the names resolved through the
//! symbol table and the string literals through the memory tracker.

use vstd::prelude::*;
use crate::memory::{lookup, MemoryTracker};
use crate::module::Instr;
use crate::script::{Predicate, Stmt};
use crate::symbols::{resolve, Symbol, SymbolKind, SymbolTable};

verus! {

/// What emission reads: the symbol table's records, the interned strings,
/// and the script's pool of string literals.
pub struct Resolver {
    pub records: Seq<Symbol>,
    pub strings: Seq<(Seq<u8>, u32)>,
    pub pool: Seq<Seq<u8>>,
}

/// The pool of string literals as values.
pub open spec fn pool_view(pool: Seq<Vec<u8>>) -> Seq<Seq<u8>> {
    Seq::new(pool.len(), |i: int| pool[i]@)
}

pub open spec fn resolver(table: &SymbolTable, memory: &MemoryTracker, pool: &Vec<Vec<u8>>) -> Resolver {
    Resolver { records: table.records@, strings: memory.strings(), pool: pool_view(pool@) }
}

/// The address of the pooled string `string`, if it is in the pool and was
/// interned.
pub open spec fn string_address(
    strings: Seq<(Seq<u8>, u32)>,
    pool: Seq<Seq<u8>>,
    string: usize,
) -> Option<u32> {
    if string < pool.len() {
        lookup(strings, pool[string as int])
    } else {
        None
    }
}

/// The instructions of one statement; nothing where a name it uses has no
/// identifier in the target module or its string no address.
pub open spec fn stmt_code(r: Resolver, stmt: Stmt) -> Option<Seq<Instr>> {
    match stmt {
        Stmt::AddToGlobal { global, amount } => match resolve(r.records, global, SymbolKind::Global) {
            Some(id) => Some(
                seq![
                    Instr::GlobalGet(id),
                    Instr::Const(amount as i64),
                    Instr::Add,
                    Instr::GlobalSet(id),
                ],
            ),
            None => None,
        },
        Stmt::SetGlobal { global, value } => match resolve(r.records, global, SymbolKind::Global) {
            Some(id) => Some(seq![Instr::Const(value as i64), Instr::GlobalSet(id)]),
            None => None,
        },
        Stmt::CallFn { func } => match resolve(r.records, func, SymbolKind::Function) {
            Some(id) => Some(seq![Instr::Call(id)]),
            None => None,
        },
        Stmt::StoreString { global, string } => match (
            resolve(r.records, global, SymbolKind::Global),
            string_address(r.strings, r.pool, string),
        ) {
            (Some(id), Some(address)) => Some(
                seq![Instr::Const(address as i64), Instr::GlobalSet(id)],
            ),
            _ => None,
        },
    }
}

/// The instructions of the first `n` statements, back to back; nothing
/// where one of them has none.
pub open spec fn body_code(r: Resolver, body: Seq<Stmt>, n: int) -> Option<Seq<Instr>>
    decreases n,
{
    if n <= 0 {
        Some(Seq::empty())
    } else {
        match (body_code(r, body, n - 1), stmt_code(r, body[n - 1])) {
            (Some(before), Some(code)) => Some(before + code),
            _ => None,
        }
    }
}

/// The instructions of a whole body.
pub open spec fn whole_body_code(r: Resolver, body: Seq<Stmt>) -> Option<Seq<Instr>> {
    body_code(r, body, body.len() as int)
}

/// The instructions of an action under its condition. A condition known to
/// be false leaves nothing; one checked at run time wraps the action.
pub open spec fn guarded_code(r: Resolver, predicate: Predicate, body: Seq<Stmt>) -> Option<
    Seq<Instr>,
> {
    match predicate {
        Predicate::Always => whole_body_code(r, body),
        Predicate::Static(holds) => if holds {
            whole_body_code(r, body)
        } else {
            Some(Seq::empty())
        },
        Predicate::GlobalNonZero(g) => match (
            resolve(r.records, g, SymbolKind::Global),
            whole_body_code(r, body),
        ) {
            (Some(id), Some(code)) => Some(
                seq![Instr::GlobalGet(id), Instr::If] + code + seq![Instr::End],
            ),
            _ => None,
        },
    }
}

/// A body that has no code up to `n` has none as a whole.
pub proof fn lemma_body_code_fails(r: Resolver, body: Seq<Stmt>, n: int, m: int)
    requires
        0 <= n <= m,
        body_code(r, body, n) is None,
    ensures
        body_code(r, body, m) is None,
    decreases m,
{
    if n < m {
        lemma_body_code_fails(r, body, n, m - 1);
    }
}

/// Appends `code` to `out`.
pub fn append(out: &mut Vec<Instr>, code: &Vec<Instr>)
    ensures
        final(out)@ == old(out)@ + code@,
{
    let mut i: usize = 0;
    while i < code.len()
        invariant
            i <= code.len(),
            out@ == old(out)@ + code@.take(i as int),
        decreases code.len() - i,
    {
        out.push(code[i]);
        assert(code@.take(i + 1) =~= code@.take(i as int).push(code@[i as int]));
        assert(out@ =~= old(out)@ + code@.take(i + 1));
        i += 1;
    }
    assert(code@.take(code@.len() as int) == code@);
}

/// The address of a pooled string.
pub fn address_of(memory: &MemoryTracker, pool: &Vec<Vec<u8>>, string: usize) -> (r: Option<u32>)
    ensures
        r == string_address(memory.strings(), pool_view(pool@), string),
{
    if string < pool.len() {
        memory.find_string(pool[string].as_slice())
    } else {
        None
    }
}

/// Compiles one statement.
pub fn compile_stmt(
    table: &SymbolTable,
    memory: &MemoryTracker,
    pool: &Vec<Vec<u8>>,
    stmt: Stmt,
) -> (r: Option<Vec<Instr>>)
    ensures
        r is Some <==> stmt_code(resolver(table, memory, pool), stmt) is Some,
        r is Some ==> r->0@ == stmt_code(resolver(table, memory, pool), stmt)->0,
{
    let mut out: Vec<Instr> = Vec::new();
    match stmt {
        Stmt::AddToGlobal { global, amount } => match table.resolve(global, SymbolKind::Global) {
            Some(id) => {
                out.push(Instr::GlobalGet(id));
                out.push(Instr::Const(amount as i64));
                out.push(Instr::Add);
                out.push(Instr::GlobalSet(id));
                assert(out@ =~= stmt_code(resolver(table, memory, pool), stmt)->0);
                Some(out)
            },
            None => None,
        },
        Stmt::SetGlobal { global, value } => match table.resolve(global, SymbolKind::Global) {
            Some(id) => {
                out.push(Instr::Const(value as i64));
                out.push(Instr::GlobalSet(id));
                assert(out@ =~= stmt_code(resolver(table, memory, pool), stmt)->0);
                Some(out)
            },
            None => None,
        },
        Stmt::CallFn { func } => match table.resolve(func, SymbolKind::Function) {
            Some(id) => {
                out.push(Instr::Call(id));
                assert(out@ =~= stmt_code(resolver(table, memory, pool), stmt)->0);
                Some(out)
            },
            None => None,
        },
        Stmt::StoreString { global, string } => match (
            table.resolve(global, SymbolKind::Global),
            address_of(memory, pool, string),
        ) {
            (Some(id), Some(address)) => {
                out.push(Instr::Const(address as i64));
                out.push(Instr::GlobalSet(id));
                assert(out@ =~= stmt_code(resolver(table, memory, pool), stmt)->0);
                Some(out)
            },
            _ => None,
        },
    }
}

/// Compiles a body: the statements' instructions back to back, or nothing
/// if any statement has none.
pub fn compile_body(
    table: &SymbolTable,
    memory: &MemoryTracker,
    pool: &Vec<Vec<u8>>,
    body: &Vec<Stmt>,
) -> (r: Option<Vec<Instr>>)
    ensures
        r is Some <==> whole_body_code(resolver(table, memory, pool), body@) is Some,
        r is Some ==> r->0@ == whole_body_code(resolver(table, memory, pool), body@)->0,
{
    let mut out: Vec<Instr> = Vec::new();
    let mut i: usize = 0;
    while i < body.len()
        invariant
            i <= body.len(),
            body_code(resolver(table, memory, pool), body@, i as int) == Some(out@),
        decreases body.len() - i,
    {
        match compile_stmt(table, memory, pool, body[i]) {
            Some(code) => {
                append(&mut out, &code);
            },
            None => {
                proof {
                    lemma_body_code_fails(
                        resolver(table, memory, pool),
                        body@,
                        i + 1,
                        body@.len() as int,
                    );
                }
                return None;
            },
        }
        i += 1;
    }
    Some(out)
}

/// Compiles an action under its condition.
pub fn compile_guarded(
    table: &SymbolTable,
    memory: &MemoryTracker,
    pool: &Vec<Vec<u8>>,
    predicate: Predicate,
    body: &Vec<Stmt>,
) -> (r: Option<Vec<Instr>>)
    ensures
        r is Some <==> guarded_code(resolver(table, memory, pool), predicate, body@) is Some,
        r is Some ==> r->0@ == guarded_code(resolver(table, memory, pool), predicate, body@)->0,
{
    match predicate {
        Predicate::Always => compile_body(table, memory, pool, body),
        Predicate::Static(holds) => if holds {
            compile_body(table, memory, pool, body)
        } else {
            Some(Vec::new())
        },
        Predicate::GlobalNonZero(g) => match (
            table.resolve(g, SymbolKind::Global),
            compile_body(table, memory, pool, body),
        ) {
            (Some(id), Some(code)) => {
                let mut out: Vec<Instr> = Vec::new();
                out.push(Instr::GlobalGet(id));
                out.push(Instr::If);
                append(&mut out, &code);
                out.push(Instr::End);
                assert(out@ =~= seq![Instr::GlobalGet(id), Instr::If] + code@ + seq![Instr::End]);
                Some(out)
            },
            _ => None,
        },
    }
}

} // verus!
