//! The second generator phase: one pass over the target module's functions
//! and instructions; at every place of a known category the behavior tree
//! is walked from its root and the actions it leads to are emitted there.

use vstd::prelude::*;
use crate::emit::{append, compile_guarded, guarded_code, resolver, Resolver};
use crate::error::{site_diagnostic, Diagnostic, DiagnosticKind, ErrorGen};
use crate::memory::MemoryTracker;
use crate::module::{FunctionModel, Instr, TargetModule};
use crate::script::{callee_passes, check_callee, event_matches, Category, Probe, Stmt};
use crate::symbols::SymbolTable;
use crate::tree::{
    decision_for, decisions_of, eligible, lemma_eligible_position, BehaviorTree, Cursor, Decision,
    SimpleAST,
};

verus! {

/// A place in the target module at which code can be inserted.
#[derive(Clone, Copy, Debug, PartialEq, Eq)]
pub struct Location {
    pub func: usize,
    pub category: Category,
    /// The instruction before which the place lies; none for a function's
    /// entry and for the end of its body.
    pub instr: Option<usize>,
    /// For a call site: the called function.
    pub callee: Option<u32>,
}

/// What the phase reads and does not change.
pub struct EmitContext {
    pub resolver: Resolver,
    pub actions: Seq<(int, Seq<Stmt>)>,
    /// The tree's decisions under each category, in sibling order.
    pub entry: Seq<Decision>,
    pub exit: Seq<Decision>,
    pub call: Seq<Decision>,
}

/// The decisions that the context holds for a category.
pub open spec fn site_decisions(ctx: EmitContext, c: Category) -> Seq<Decision> {
    match c {
        Category::FuncEntry => ctx.entry,
        Category::FuncExit => ctx.exit,
        Category::Call => ctx.call,
    }
}

/// What the phase builds up while it walks.
pub struct WalkState {
    pub out: Seq<Instr>,
    pub diags: Seq<Diagnostic>,
    pub visited: Seq<Location>,
}

/// The module-wide state of the walk.
pub struct ModuleWalk {
    pub functions: Seq<FunctionModel>,
    pub diags: Seq<Diagnostic>,
    pub visited: Seq<Location>,
}

pub open spec fn emit_context(
    tree: BehaviorTree,
    simple_ast: SimpleAST,
    table: &SymbolTable,
    memory: &MemoryTracker,
    pool: &Vec<Vec<u8>>,
) -> EmitContext {
    EmitContext {
        resolver: resolver(table, memory, pool),
        actions: simple_ast@,
        entry: tree.decisions(Category::FuncEntry),
        exit: tree.decisions(Category::FuncExit),
        call: tree.decisions(Category::Call),
    }
}

/// The code of one decision's action under its condition.
pub open spec fn decision_code(ctx: EmitContext, d: Decision) -> Option<Seq<Instr>> {
    if d.action < ctx.actions.len() {
        guarded_code(ctx.resolver, d.predicate, ctx.actions[d.action as int].1)
    } else {
        None
    }
}

/// The code that the first `n` sibling decisions leave at a place, and the
/// probe at which emission failed, if it did. Decisions are taken in
/// sibling order and their code stands back to back; after a failure the
/// remaining decisions are skipped.
pub open spec fn site_code(
    ctx: EmitContext,
    decisions: Seq<Decision>,
    callee: Option<u32>,
    n: int,
) -> (Seq<Instr>, Option<usize>)
    decreases n,
{
    if n <= 0 {
        (Seq::empty(), None)
    } else {
        let before = site_code(ctx, decisions, callee, n - 1);
        let d = decisions[n - 1];
        if before.1 is Some || !callee_passes(d.callee, callee) {
            before
        } else {
            match decision_code(ctx, d) {
                Some(code) => (before.0 + code, None),
                None => (before.0, Some(d.probe)),
            }
        }
    }
}

/// The walk after one place was visited.
pub open spec fn visit(ctx: EmitContext, s: WalkState, loc: Location) -> WalkState {
    let decisions = site_decisions(ctx, loc.category);
    let (code, failed) = site_code(ctx, decisions, loc.callee, decisions.len() as int);
    WalkState {
        out: s.out + code,
        diags: match failed {
            Some(probe) => s.diags.push(
                site_diagnostic(DiagnosticKind::UnresolvedSymbol, probe, loc.func, loc.instr),
            ),
            None => s.diags,
        },
        visited: s.visited.push(loc),
    }
}

/// The category of the place before an instruction, and the callee where
/// it is a call.
pub open spec fn site_of(instr: Instr) -> Option<(Category, Option<u32>)> {
    match instr {
        Instr::Call(f) => Some((Category::Call, Some(f))),
        Instr::Return => Some((Category::FuncExit, None)),
        _ => None,
    }
}

/// The walk after a function's entry and its first `n` instructions: each
/// instruction is kept, after what its place got.
pub open spec fn walk_body(ctx: EmitContext, s: WalkState, func: usize, body: Seq<Instr>, n: int) -> WalkState
    decreases n,
{
    if n <= 0 {
        visit(ctx, s, Location { func, category: Category::FuncEntry, instr: None, callee: None })
    } else {
        let before = walk_body(ctx, s, func, body, n - 1);
        let here = match site_of(body[n - 1]) {
            Some((category, callee)) => visit(
                ctx,
                before,
                Location { func, category, instr: Some((n - 1) as usize), callee },
            ),
            None => before,
        };
        WalkState { out: here.out.push(body[n - 1]), ..here }
    }
}

/// The walk after a whole function: its body, then the exit at its end.
pub open spec fn walk_function(ctx: EmitContext, s: WalkState, func: usize, body: Seq<Instr>) -> WalkState {
    visit(
        ctx,
        walk_body(ctx, s, func, body, body.len() as int),
        Location { func, category: Category::FuncExit, instr: None, callee: None },
    )
}

/// The walk after the first `n` functions. Functions that the compiler
/// added are left as they are.
pub open spec fn walk_module(ctx: EmitContext, s: ModuleWalk, n: int) -> ModuleWalk
    decreases n,
{
    if n <= 0 {
        s
    } else {
        let before = walk_module(ctx, s, n - 1);
        let f = before.functions[n - 1];
        if f.injected {
            before
        } else {
            let w = walk_function(
                ctx,
                WalkState { out: Seq::empty(), diags: before.diags, visited: before.visited },
                (n - 1) as usize,
                f.body,
            );
            ModuleWalk {
                functions: before.functions.update(
                    n - 1,
                    FunctionModel { body: w.out, injected: false },
                ),
                diags: w.diags,
                visited: w.visited,
            }
        }
    }
}

/// The places of a function's entry and first `n` instructions, in the
/// order of the walk. They depend on the function alone.
pub open spec fn body_locations(func: usize, body: Seq<Instr>, n: int) -> Seq<Location>
    decreases n,
{
    if n <= 0 {
        seq![Location { func, category: Category::FuncEntry, instr: None, callee: None }]
    } else {
        match site_of(body[n - 1]) {
            Some((category, callee)) => body_locations(func, body, n - 1).push(
                Location { func, category, instr: Some((n - 1) as usize), callee },
            ),
            None => body_locations(func, body, n - 1),
        }
    }
}

/// The places of the first `n` functions of a module, in the order of the
/// walk: for each function that the compiler did not add, its entry, the
/// places in its body, and the exit at its end.
pub open spec fn module_locations(functions: Seq<FunctionModel>, n: int) -> Seq<Location>
    decreases n,
{
    if n <= 0 {
        Seq::empty()
    } else if functions[n - 1].injected {
        module_locations(functions, n - 1)
    } else {
        module_locations(functions, n - 1) + body_locations(
            (n - 1) as usize,
            functions[n - 1].body,
            functions[n - 1].body.len() as int,
        ).push(
            Location {
                func: (n - 1) as usize,
                category: Category::FuncExit,
                instr: None,
                callee: None,
            },
        )
    }
}

/// After a failure the remaining decisions change nothing.
pub proof fn lemma_site_code_failed_stays(
    ctx: EmitContext,
    decisions: Seq<Decision>,
    callee: Option<u32>,
    n: int,
    m: int,
)
    requires
        0 <= n <= m,
        site_code(ctx, decisions, callee, n).1 is Some,
    ensures
        site_code(ctx, decisions, callee, m) == site_code(ctx, decisions, callee, n),
    decreases m,
{
    if n < m {
        lemma_site_code_failed_stays(ctx, decisions, callee, n, m - 1);
    }
}

/// Where emission at a place did not fail, it had not failed earlier, and
/// what was emitted earlier is the beginning of what is emitted in all.
pub proof fn lemma_site_code_extends(
    ctx: EmitContext,
    decisions: Seq<Decision>,
    callee: Option<u32>,
    m: int,
    n: int,
)
    requires
        0 <= m <= n,
        site_code(ctx, decisions, callee, n).1 is None,
    ensures
        site_code(ctx, decisions, callee, m).1 is None,
        site_code(ctx, decisions, callee, m).0.is_prefix_of(site_code(ctx, decisions, callee, n).0),
    decreases n,
{
    if m < n {
        let before = site_code(ctx, decisions, callee, n - 1);
        if before.1 is Some {
            lemma_site_code_failed_stays(ctx, decisions, callee, n - 1, n);
        }
        lemma_site_code_extends(ctx, decisions, callee, m, n - 1);
        let small = site_code(ctx, decisions, callee, m).0;
        let all = site_code(ctx, decisions, callee, n).0;
        assert(before.0.is_prefix_of(all));
        assert(small =~= all.subrange(0, small.len() as int));
    }
}

/// Ordering at one place: of two sibling decisions that both apply there,
/// the code of the earlier stands, whole and unbroken, before the code of
/// the later.
pub proof fn lemma_sibling_code_in_order(
    ctx: EmitContext,
    decisions: Seq<Decision>,
    callee: Option<u32>,
    i: int,
    j: int,
)
    requires
        0 <= i < j < decisions.len(),
        site_code(ctx, decisions, callee, decisions.len() as int).1 is None,
        callee_passes(decisions[i].callee, callee),
        callee_passes(decisions[j].callee, callee),
    ensures
        decision_code(ctx, decisions[i]) is Some,
        decision_code(ctx, decisions[j]) is Some,
        ({
            let all = site_code(ctx, decisions, callee, decisions.len() as int).0;
            let start_i = site_code(ctx, decisions, callee, i).0.len() as int;
            let start_j = site_code(ctx, decisions, callee, j).0.len() as int;
            let code_i = decision_code(ctx, decisions[i])->0;
            let code_j = decision_code(ctx, decisions[j])->0;
            &&& start_i + code_i.len() <= start_j
            &&& start_j + code_j.len() <= all.len()
            &&& all.subrange(start_i, start_i + code_i.len()) == code_i
            &&& all.subrange(start_j, start_j + code_j.len()) == code_j
        }),
{
    let n = decisions.len() as int;
    let all = site_code(ctx, decisions, callee, n).0;
    lemma_site_code_extends(ctx, decisions, callee, i, n);
    lemma_site_code_extends(ctx, decisions, callee, i + 1, n);
    lemma_site_code_extends(ctx, decisions, callee, j, n);
    lemma_site_code_extends(ctx, decisions, callee, j + 1, n);
    lemma_site_code_extends(ctx, decisions, callee, i + 1, j);
    let at_i = site_code(ctx, decisions, callee, i).0;
    let past_i = site_code(ctx, decisions, callee, i + 1).0;
    let at_j = site_code(ctx, decisions, callee, j).0;
    let past_j = site_code(ctx, decisions, callee, j + 1).0;
    let code_i = decision_code(ctx, decisions[i])->0;
    let code_j = decision_code(ctx, decisions[j])->0;
    assert(past_i == at_i + code_i);
    assert(past_j == at_j + code_j);
    assert(past_i =~= all.subrange(0, past_i.len() as int));
    assert(past_j =~= all.subrange(0, past_j.len() as int));
    assert forall|k: int| 0 <= k < code_i.len() implies all[at_i.len() + k] == code_i[k] by {
        assert(all.subrange(0, past_i.len() as int)[at_i.len() + k] == past_i[at_i.len() + k]);
    }
    assert forall|k: int| 0 <= k < code_j.len() implies all[at_j.len() + k] == code_j[k] by {
        assert(all.subrange(0, past_j.len() as int)[at_j.len() + k] == past_j[at_j.len() + k]);
    }
    assert(all.subrange(at_i.len() as int, (at_i.len() + code_i.len()) as int) =~= code_i);
    assert(all.subrange(at_j.len() as int, (at_j.len() + code_j.len()) as int) =~= code_j);
}

/// Ordering preserved: at a place of a category at which two probes both
/// apply, where emission does not fail, the code of the probe declared
/// first stands, whole and unbroken, before the code of the probe declared
/// second.
pub proof fn lemma_probe_order_preserved(
    ctx: EmitContext,
    probes: Seq<Probe>,
    c: Category,
    callee: Option<u32>,
    first: int,
    second: int,
)
    requires
        0 <= first < second < probes.len(),
        site_decisions(ctx, c) == eligible(probes, c, probes.len() as int),
        event_matches(probes[first].pattern.event, c),
        event_matches(probes[second].pattern.event, c),
        callee_passes(probes[first].pattern.callee, callee),
        callee_passes(probes[second].pattern.callee, callee),
        site_code(ctx, site_decisions(ctx, c), callee, site_decisions(ctx, c).len() as int).1
            is None,
    ensures
        ({
            let decisions = site_decisions(ctx, c);
            let i = eligible(probes, c, first).len() as int;
            let j = eligible(probes, c, second).len() as int;
            let all = site_code(ctx, decisions, callee, decisions.len() as int).0;
            let start_1 = site_code(ctx, decisions, callee, i).0.len() as int;
            let start_2 = site_code(ctx, decisions, callee, j).0.len() as int;
            let code_1 = decision_code(ctx, decision_for(probes, first));
            let code_2 = decision_code(ctx, decision_for(probes, second));
            &&& i < j < decisions.len()
            &&& decisions[i] == decision_for(probes, first)
            &&& decisions[j] == decision_for(probes, second)
            &&& code_1 is Some
            &&& code_2 is Some
            &&& start_1 + code_1->0.len() <= start_2
            &&& start_2 + code_2->0.len() <= all.len()
            &&& all.subrange(start_1, start_1 + code_1->0.len()) == code_1->0
            &&& all.subrange(start_2, start_2 + code_2->0.len()) == code_2->0
        }),
{
    let n = probes.len() as int;
    lemma_eligible_position(probes, c, second, first);
    lemma_eligible_position(probes, c, n, first);
    lemma_eligible_position(probes, c, n, second);
    lemma_sibling_code_in_order(
        ctx,
        site_decisions(ctx, c),
        callee,
        eligible(probes, c, first).len() as int,
        eligible(probes, c, second).len() as int,
    );
}

/// The list of a body's places begins with the entry, which carries no
/// instruction; every later place carries the index of an instruction
/// among the first `n`.
pub proof fn lemma_body_locations_shape(func: usize, body: Seq<Instr>, n: int, k: int)
    requires
        0 <= n <= body.len() <= usize::MAX,
    ensures
        body_locations(func, body, n).len() >= 1,
        body_locations(func, body, n)[0].instr is None,
        0 < k < body_locations(func, body, n).len() ==> body_locations(func, body, n)[k].instr
            is Some && body_locations(func, body, n)[k].instr->0 < n,
    decreases n,
{
    if n > 0 {
        lemma_body_locations_shape(func, body, n - 1, k);
    }
}

/// No place of a body is listed twice: after the entry the instruction
/// indices grow strictly.
pub proof fn lemma_body_locations_distinct(func: usize, body: Seq<Instr>, n: int, i: int, j: int)
    requires
        0 <= n <= body.len() <= usize::MAX,
        0 <= i < j < body_locations(func, body, n).len(),
    ensures
        i > 0 ==> body_locations(func, body, n)[i].instr->0 < body_locations(
            func,
            body,
            n,
        )[j].instr->0,
        body_locations(func, body, n)[i] != body_locations(func, body, n)[j],
    decreases n,
{
    lemma_body_locations_shape(func, body, n, i);
    lemma_body_locations_shape(func, body, n, j);
    if n > 0 {
        let before = body_locations(func, body, n - 1);
        if j < before.len() {
            lemma_body_locations_distinct(func, body, n - 1, i, j);
        } else if i > 0 {
            lemma_body_locations_shape(func, body, n - 1, i);
        }
    }
}

/// One pass: the places visited in a function's body are its places, in
/// order, whatever the tree holds.
pub proof fn lemma_body_visits(ctx: EmitContext, s: WalkState, func: usize, body: Seq<Instr>, n: int)
    requires
        0 <= n <= body.len(),
    ensures
        walk_body(ctx, s, func, body, n).visited == s.visited + body_locations(func, body, n),
    decreases n,
{
    if n > 0 {
        lemma_body_visits(ctx, s, func, body, n - 1);
        assert(walk_body(ctx, s, func, body, n).visited =~= s.visited + body_locations(
            func,
            body,
            n,
        ));
    } else {
        assert(walk_body(ctx, s, func, body, n).visited =~= s.visited + body_locations(
            func,
            body,
            n,
        ));
    }
}

/// One pass: a function's walk visits its entry, the place before each of
/// its calls and returns, and the exit at its end, in this order, whatever
/// the tree holds.
pub proof fn lemma_function_visits(ctx: EmitContext, s: WalkState, func: usize, body: Seq<Instr>)
    ensures
        walk_function(ctx, s, func, body).visited == s.visited + body_locations(
            func,
            body,
            body.len() as int,
        ).push(Location { func, category: Category::FuncExit, instr: None, callee: None }),
{
    lemma_body_visits(ctx, s, func, body, body.len() as int);
    assert(walk_function(ctx, s, func, body).visited =~= s.visited + body_locations(
        func,
        body,
        body.len() as int,
    ).push(Location { func, category: Category::FuncExit, instr: None, callee: None }));
}

/// One pass over the module: the walk visits the places of the functions
/// that the compiler did not add, function by function, whatever the tree
/// holds; functions it has not reached yet are as they were.
pub proof fn lemma_module_visits(ctx: EmitContext, s: ModuleWalk, n: int)
    requires
        0 <= n <= s.functions.len(),
    ensures
        walk_module(ctx, s, n).visited == s.visited + module_locations(s.functions, n),
        walk_module(ctx, s, n).functions.len() == s.functions.len(),
        forall|k: int|
            n <= k < s.functions.len() ==> (#[trigger] walk_module(ctx, s, n).functions[k])
                == s.functions[k],
    decreases n,
{
    if n > 0 {
        lemma_module_visits(ctx, s, n - 1);
        let before = walk_module(ctx, s, n - 1);
        assert(before.functions[n - 1] == s.functions[n - 1]);
        if !s.functions[n - 1].injected {
            lemma_function_visits(
                ctx,
                WalkState { out: Seq::empty(), diags: before.diags, visited: before.visited },
                (n - 1) as usize,
                s.functions[n - 1].body,
            );
        }
        assert(walk_module(ctx, s, n).visited =~= s.visited + module_locations(s.functions, n));
    } else {
        assert(walk_module(ctx, s, n).visited =~= s.visited + module_locations(s.functions, n));
    }
}

/// The place before an instruction, if it has one.
pub fn classify(instr: Instr) -> (r: Option<(Category, Option<u32>)>)
    ensures
        r == site_of(instr),
{
    match instr {
        Instr::Call(f) => Some((Category::Call, Some(f))),
        Instr::Return => Some((Category::FuncExit, None)),
        _ => None,
    }
}

/// The phase that emits the probes' actions.
pub struct InstrGenerator {}

impl InstrGenerator {
    /// Visits one place: the tree is walked from its root, and the code of
    /// the decisions that apply is appended to `out` in sibling order. A
    /// decision whose action cannot be emitted ends the visit with a
    /// diagnostic.
    pub fn visit_location(
        tree: &mut BehaviorTree,
        simple_ast: &SimpleAST,
        table: &SymbolTable,
        memory: &MemoryTracker,
        pool: &Vec<Vec<u8>>,
        loc: Location,
        out: &mut Vec<Instr>,
        err: &mut ErrorGen,
        visited: &mut Vec<Location>,
    )
        ensures
            final(tree).children == old(tree).children,
            final(err).max_errors == old(err).max_errors,
            (WalkState {
                out: final(out)@,
                diags: final(err).diagnostics(),
                visited: final(visited)@,
            }) == visit(
                emit_context(*old(tree), *simple_ast, table, memory, pool),
                (WalkState {
                    out: old(out)@,
                    diags: old(err).diagnostics(),
                    visited: old(visited)@,
                }),
                loc,
            ),
    {
        let ghost ctx = emit_context(*tree, *simple_ast, table, memory, pool);
        let ghost decisions = decisions_of(tree.children@, loc.category);
        tree.reset();
        let entered = tree.enter(loc.category);
        let mut code: Vec<Instr> = Vec::new();
        let mut failed: Option<usize> = None;
        let mut done = false;
        let mut n: usize = 0;
        while !done
            invariant
                tree.children == old(tree).children,
                ctx == emit_context(*old(tree), *simple_ast, table, memory, pool),
                decisions == decisions_of(tree.children@, loc.category),
                n <= decisions.len(),
                match entered {
                    Some(k) => k < tree.children@.len() && tree.children@[k as int].decisions@
                        == decisions && tree.cursor == (if n == 0 {
                        Cursor::Category(k)
                    } else {
                        Cursor::Decision(k, (n - 1) as usize)
                    }),
                    None => tree.cursor == Cursor::Root && decisions.len() == 0,
                },
                !done ==> failed is None && site_code(ctx, decisions, loc.callee, n as int) == (
                    code@,
                    None::<usize>,
                ),
                done ==> site_code(ctx, decisions, loc.callee, decisions.len() as int) == (
                    code@,
                    failed,
                ),
            decreases decisions.len() - n + (if done { 0int } else { 1int }),
        {
            match tree.next_decision() {
                None => {
                    done = true;
                },
                Some(d) => {
                    assert(d == decisions[n as int]);
                    if check_callee(d.callee, loc.callee) {
                        let compiled = if d.action < simple_ast.entries.len() {
                            compile_guarded(
                                table,
                                memory,
                                pool,
                                d.predicate,
                                &simple_ast.entries[d.action].body,
                            )
                        } else {
                            None
                        };
                        match compiled {
                            Some(part) => {
                                append(&mut code, &part);
                            },
                            None => {
                                failed = Some(d.probe);
                                done = true;
                                proof {
                                    lemma_site_code_failed_stays(
                                        ctx,
                                        decisions,
                                        loc.callee,
                                        n + 1,
                                        decisions.len() as int,
                                    );
                                }
                            },
                        }
                    }
                    n += 1;
                },
            }
        }
        append(out, &code);
        if let Some(probe) = failed {
            err.add_error(
                Diagnostic::for_site(DiagnosticKind::UnresolvedSymbol, probe, loc.func, loc.instr),
            );
        }
        visited.push(loc);
    }

    /// Walks one function: its entry, each instruction with the place
    /// before it, and the exit at its end. Returns the function's new
    /// instructions, in which every old one stands in its old order.
    pub fn instrument_function(
        tree: &mut BehaviorTree,
        simple_ast: &SimpleAST,
        table: &SymbolTable,
        memory: &MemoryTracker,
        pool: &Vec<Vec<u8>>,
        func: usize,
        body: &Vec<Instr>,
        err: &mut ErrorGen,
        visited: &mut Vec<Location>,
    ) -> (out: Vec<Instr>)
        ensures
            final(tree).children == old(tree).children,
            final(err).max_errors == old(err).max_errors,
            (WalkState { out: out@, diags: final(err).diagnostics(), visited: final(visited)@ })
                == walk_function(
                emit_context(*old(tree), *simple_ast, table, memory, pool),
                (WalkState {
                    out: Seq::empty(),
                    diags: old(err).diagnostics(),
                    visited: old(visited)@,
                }),
                func,
                body@,
            ),
    {
        let ghost ctx = emit_context(*tree, *simple_ast, table, memory, pool);
        let ghost start = WalkState {
            out: Seq::empty(),
            diags: err.diagnostics(),
            visited: visited@,
        };
        let mut out: Vec<Instr> = Vec::new();
        Self::visit_location(
            tree,
            simple_ast,
            table,
            memory,
            pool,
            Location { func, category: Category::FuncEntry, instr: None, callee: None },
            &mut out,
            err,
            visited,
        );
        let mut i: usize = 0;
        while i < body.len()
            invariant
                i <= body.len(),
                tree.children == old(tree).children,
                err.max_errors == old(err).max_errors,
                ctx == emit_context(*tree, *simple_ast, table, memory, pool),
                (WalkState { out: out@, diags: err.diagnostics(), visited: visited@ })
                    == walk_body(ctx, start, func, body@, i as int),
            decreases body.len() - i,
        {
            let instr = body[i];
            match classify(instr) {
                Some((category, callee)) => {
                    Self::visit_location(
                        tree,
                        simple_ast,
                        table,
                        memory,
                        pool,
                        Location { func, category, instr: Some(i), callee },
                        &mut out,
                        err,
                        visited,
                    );
                },
                None => {},
            }
            out.push(instr);
            i += 1;
        }
        Self::visit_location(
            tree,
            simple_ast,
            table,
            memory,
            pool,
            Location { func, category: Category::FuncExit, instr: None, callee: None },
            &mut out,
            err,
            visited,
        );
        out
    }

    /// Runs the phase once over the module: every function that the
    /// compiler did not add is walked, in index order. Returns the places
    /// visited, in the order of the walk.
    pub fn run(
        tree: &mut BehaviorTree,
        simple_ast: &SimpleAST,
        table: &SymbolTable,
        memory: &MemoryTracker,
        pool: &Vec<Vec<u8>>,
        module: &mut TargetModule,
        err: &mut ErrorGen,
    ) -> (visited: Vec<Location>)
        ensures
            final(tree).children == old(tree).children,
            final(err).max_errors == old(err).max_errors,
            final(module).memories == old(module).memories,
            final(module).globals == old(module).globals,
            (ModuleWalk {
                functions: final(module).bodies(),
                diags: final(err).diagnostics(),
                visited: visited@,
            }) == walk_module(
                emit_context(*old(tree), *simple_ast, table, memory, pool),
                (ModuleWalk {
                    functions: old(module).bodies(),
                    diags: old(err).diagnostics(),
                    visited: Seq::empty(),
                }),
                old(module).functions@.len() as int,
            ),
    {
        let ghost ctx = emit_context(*tree, *simple_ast, table, memory, pool);
        let ghost start = ModuleWalk {
            functions: module.bodies(),
            diags: err.diagnostics(),
            visited: Seq::empty(),
        };
        let mut visited: Vec<Location> = Vec::new();
        let count = module.functions.len();
        let mut f: usize = 0;
        while f < count
            invariant
                f <= count,
                count == module.functions@.len(),
                count == old(module).functions@.len(),
                tree.children == old(tree).children,
                err.max_errors == old(err).max_errors,
                module.memories == old(module).memories,
                module.globals == old(module).globals,
                ctx == emit_context(*tree, *simple_ast, table, memory, pool),
                (ModuleWalk {
                    functions: module.bodies(),
                    diags: err.diagnostics(),
                    visited: visited@,
                }) == walk_module(ctx, start, f as int),
            decreases count - f,
        {
            if !module.functions[f].injected {
                let body = Self::instrument_function(
                    tree,
                    simple_ast,
                    table,
                    memory,
                    pool,
                    f,
                    &module.functions[f].body,
                    err,
                    &mut visited,
                );
                module.set_body(f, body);
            }
            f += 1;
        }
        visited
    }
}

} // verus!
