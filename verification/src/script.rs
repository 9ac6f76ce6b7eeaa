//! The validated script: declarations and probes, with names interned as
//! numbers and string literals kept in a pool.

use vstd::prelude::*;

verus! {

/// A kind of place in the target module at which code can be inserted.
#[derive(Clone, Copy, Debug, PartialEq, Eq, Structural)]
pub enum Category {
    FuncEntry,
    FuncExit,
    Call,
}

/// The event part of a probe's location pattern.
#[derive(Clone, Copy, Debug, PartialEq, Eq, Structural)]
pub enum EventPattern {
    FuncEntry,
    FuncExit,
    Call,
    /// Entry and exit of every function.
    FuncBoundary,
    /// Every category.
    Any,
    /// Loads and stores: no category of this target.
    MemoryAccess,
    /// Single opcodes: no category of this target.
    Opcode,
}

/// Where a probe applies.
#[derive(Clone, Copy, Debug, PartialEq, Eq)]
pub struct Pattern {
    pub event: EventPattern,
    /// For call sites: the called function, or every call.
    pub callee: Option<u32>,
}

/// When a probe applies at a place it matches.
#[derive(Clone, Copy, Debug, PartialEq, Eq)]
pub enum Predicate {
    /// No predicate was written.
    Always,
    /// Known when compiling.
    Static(bool),
    /// Checked when the target runs: the named global is not zero.
    GlobalNonZero(u32),
}

/// One statement of a probe's or a provided function's body.
#[derive(Clone, Copy, Debug, PartialEq, Eq)]
pub enum Stmt {
    AddToGlobal { global: u32, amount: i32 },
    SetGlobal { global: u32, value: i32 },
    CallFn { func: u32 },
    /// Sets the global to the address of the pooled string.
    StoreString { global: u32, string: usize },
}

#[derive(Debug)]
pub struct Probe {
    pub pattern: Pattern,
    pub predicate: Predicate,
    pub body: Vec<Stmt>,
}

/// The initial value of a declared global.
#[derive(Clone, Copy, Debug, PartialEq, Eq)]
pub enum GlobalInit {
    Int(i32),
    /// The address of the pooled string.
    Str(usize),
}

#[derive(Clone, Copy, Debug, PartialEq, Eq)]
pub struct GlobalDecl {
    pub name: u32,
    pub init: GlobalInit,
}

#[derive(Debug)]
pub struct FnDecl {
    pub name: u32,
    pub body: Vec<Stmt>,
}

/// A whole script.
#[derive(Debug)]
pub struct Whamm {
    pub strings: Vec<Vec<u8>>,
    pub globals: Vec<GlobalDecl>,
    pub functions: Vec<FnDecl>,
    pub probes: Vec<Probe>,
}

/// Whether a pattern's event covers a category.
pub open spec fn event_matches(event: EventPattern, c: Category) -> bool {
    match event {
        EventPattern::FuncEntry => c == Category::FuncEntry,
        EventPattern::FuncExit => c == Category::FuncExit,
        EventPattern::Call => c == Category::Call,
        EventPattern::FuncBoundary => c == Category::FuncEntry || c == Category::FuncExit,
        EventPattern::Any => true,
        EventPattern::MemoryAccess => false,
        EventPattern::Opcode => false,
    }
}

/// Whether a pattern's event covers any category at all.
pub open spec fn resolvable(event: EventPattern) -> bool {
    event_matches(event, Category::FuncEntry) || event_matches(event, Category::FuncExit)
        || event_matches(event, Category::Call)
}

pub fn matches_category(event: EventPattern, c: Category) -> (r: bool)
    ensures
        r == event_matches(event, c),
{
    match event {
        EventPattern::FuncEntry => c == Category::FuncEntry,
        EventPattern::FuncExit => c == Category::FuncExit,
        EventPattern::Call => c == Category::Call,
        EventPattern::FuncBoundary => c == Category::FuncEntry || c == Category::FuncExit,
        EventPattern::Any => true,
        EventPattern::MemoryAccess => false,
        EventPattern::Opcode => false,
    }
}

pub fn is_resolvable(event: EventPattern) -> (r: bool)
    ensures
        r == resolvable(event),
{
    matches_category(event, Category::FuncEntry) || matches_category(event, Category::FuncExit)
        || matches_category(event, Category::Call)
}

/// Whether a pattern's callee filter lets a site through. A site other than
/// a call carries no callee and passes every filter.
pub open spec fn callee_passes(filter: Option<u32>, site: Option<u32>) -> bool {
    match (filter, site) {
        (Some(want), Some(have)) => want == have,
        _ => true,
    }
}

pub fn check_callee(filter: Option<u32>, site: Option<u32>) -> (r: bool)
    ensures
        r == callee_passes(filter, site),
{
    match (filter, site) {
        (Some(want), Some(have)) => want == have,
        _ => true,
    }
}

} // verus!
