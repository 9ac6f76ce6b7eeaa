//! The target module as the generators see it: how many linear memories it
//! declares, its globals, and its functions as instruction sequences.

use vstd::prelude::*;

verus! {

/// One instruction of the target's stack machine. What the generators
/// neither look for nor emit is carried through as `Other`.
#[derive(Clone, Copy, Debug, PartialEq, Eq)]
pub enum Instr {
    Const(i64),
    Add,
    GlobalGet(u32),
    GlobalSet(u32),
    Call(u32),
    If,
    End,
    Return,
    Other(u32),
}

#[derive(Clone, Copy, Debug, PartialEq, Eq)]
pub struct GlobalDef {
    pub init: i64,
    pub mutable: bool,
}

#[derive(Debug)]
pub struct Function {
    pub body: Vec<Instr>,
    /// Added by the compiler: no probe is applied inside it.
    pub injected: bool,
}

#[derive(Debug)]
pub struct TargetModule {
    pub memories: usize,
    pub globals: Vec<GlobalDef>,
    pub functions: Vec<Function>,
}

/// A function as a value.
pub struct FunctionModel {
    pub body: Seq<Instr>,
    pub injected: bool,
}

impl TargetModule {
    /// The functions as values, in index order.
    pub open spec fn bodies(&self) -> Seq<FunctionModel> {
        Seq::new(
            self.functions@.len(),
            |i: int|
                FunctionModel {
                    body: self.functions@[i].body@,
                    injected: self.functions@[i].injected,
                },
        )
    }

    /// Appends a global and returns its index, or nothing, changing
    /// nothing, where the index would not fit in 32 bits.
    pub fn add_global(&mut self, global: GlobalDef) -> (r: Option<u32>)
        ensures
            final(self).memories == old(self).memories,
            final(self).functions == old(self).functions,
            r is Some <==> old(self).globals@.len() <= u32::MAX,
            r is Some ==> r->0 == old(self).globals@.len() && final(self).globals@ == old(
                self,
            ).globals@.push(global),
            r is None ==> final(self).globals@ == old(self).globals@,
    {
        let n = self.globals.len();
        if n > u32::MAX as usize {
            return None;
        }
        self.globals.push(global);
        Some(n as u32)
    }

    /// Appends a function that the compiler provides and returns its index,
    /// or nothing, changing nothing, where the index would not fit in 32
    /// bits.
    pub fn add_function(&mut self, body: Vec<Instr>) -> (r: Option<u32>)
        ensures
            final(self).memories == old(self).memories,
            final(self).globals == old(self).globals,
            r is Some <==> old(self).functions@.len() <= u32::MAX,
            r is Some ==> r->0 == old(self).functions@.len() && final(self).bodies() == old(
                self,
            ).bodies().push(FunctionModel { body: body@, injected: true }),
            r is None ==> final(self).bodies() == old(self).bodies(),
    {
        let n = self.functions.len();
        if n > u32::MAX as usize {
            return None;
        }
        self.functions.push(Function { body, injected: true });
        assert(self.bodies() =~= old(self).bodies().push(
            FunctionModel { body: body@, injected: true },
        ));
        Some(n as u32)
    }

    /// Replaces the instructions of function `f`.
    pub fn set_body(&mut self, f: usize, body: Vec<Instr>)
        requires
            f < old(self).functions@.len(),
        ensures
            final(self).memories == old(self).memories,
            final(self).globals == old(self).globals,
            final(self).functions@.len() == old(self).functions@.len(),
            final(self).bodies() == old(self).bodies().update(
                f as int,
                FunctionModel { body: body@, injected: old(self).bodies()[f as int].injected },
            ),
    {
        let injected = self.functions[f].injected;
        self.functions.set(f, Function { body, injected });
        assert(self.bodies() =~= old(self).bodies().update(
            f as int,
            FunctionModel { body: body@, injected: old(self).bodies()[f as int].injected },
        ));
    }
}

} // verus!
