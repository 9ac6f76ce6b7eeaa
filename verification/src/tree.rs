//! The behavior tree: under the root one node per location category, under
//! each of these one decision per probe that may apply there, in the order
//! in which the probes were declared; each decision leads to one action,
//! whose statements the side table holds.

use vstd::prelude::*;
use crate::error::{Diagnostic, DiagnosticKind, ErrorGen, Stage};
use crate::script::{
    event_matches, is_resolvable, matches_category, resolvable, Category, Predicate, Probe, Stmt,
    Whamm,
};

verus! {

/// A decision node together with its action leaf.
#[derive(Clone, Copy, Debug, PartialEq, Eq)]
pub struct Decision {
    /// Index of the probe in the script.
    pub probe: usize,
    /// The condition; `Always` where the probe has none.
    pub predicate: Predicate,
    /// For call sites: the callee the probe asks for.
    pub callee: Option<u32>,
    /// Index of the action's entry in the side table.
    pub action: usize,
}

#[derive(Debug)]
pub struct CategoryNode {
    pub category: Category,
    pub decisions: Vec<Decision>,
}

/// Where a traversal stands.
#[derive(Clone, Copy, Debug, PartialEq, Eq)]
pub enum Cursor {
    Root,
    /// At the category node of this index.
    Category(usize),
    /// At this decision of this category node.
    Decision(usize, usize),
}

#[derive(Debug)]
pub struct BehaviorTree {
    pub children: Vec<CategoryNode>,
    pub cursor: Cursor,
}

/// The statements of one action.
#[derive(Debug)]
pub struct ActionEntry {
    pub probe: usize,
    pub body: Vec<Stmt>,
}

/// The side table of actions that the tree's leaves point into.
#[derive(Debug)]
pub struct SimpleAST {
    pub entries: Vec<ActionEntry>,
}

/// Index of the first node from `i` on for category `c`.
pub open spec fn node_from(children: Seq<CategoryNode>, c: Category, i: int) -> Option<int>
    decreases children.len() - i,
{
    if i < 0 || i >= children.len() {
        None
    } else if children[i].category == c {
        Some(i)
    } else {
        node_from(children, c, i + 1)
    }
}

/// The decisions under category `c`, in sibling order; none where the tree
/// has no node for `c`.
pub open spec fn decisions_of(children: Seq<CategoryNode>, c: Category) -> Seq<Decision> {
    match node_from(children, c, 0) {
        Some(k) => children[k].decisions@,
        None => Seq::empty(),
    }
}

/// The actions of the first `n` probes: one for each probe whose pattern
/// resolves, in declaration order.
pub open spec fn actions(probes: Seq<Probe>, n: int) -> Seq<(int, Seq<Stmt>)>
    decreases n,
{
    if n <= 0 {
        Seq::empty()
    } else if resolvable(probes[n - 1].pattern.event) {
        actions(probes, n - 1).push((n - 1, probes[n - 1].body@))
    } else {
        actions(probes, n - 1)
    }
}

/// The decision that stands for probe `p`.
pub open spec fn decision_for(probes: Seq<Probe>, p: int) -> Decision {
    Decision {
        probe: p as usize,
        predicate: probes[p].predicate,
        callee: probes[p].pattern.callee,
        action: actions(probes, p).len() as usize,
    }
}

/// The decisions of those among the first `n` probes that may apply at
/// category `c`, in declaration order.
pub open spec fn eligible(probes: Seq<Probe>, c: Category, n: int) -> Seq<Decision>
    decreases n,
{
    if n <= 0 {
        Seq::empty()
    } else if event_matches(probes[n - 1].pattern.event, c) {
        eligible(probes, c, n - 1).push(decision_for(probes, n - 1))
    } else {
        eligible(probes, c, n - 1)
    }
}

pub open spec fn unresolvable_diagnostic(probe: usize) -> Diagnostic {
    Diagnostic {
        kind: DiagnosticKind::UnresolvablePattern,
        stage: Stage::BuildBehavior,
        fatal: false,
        script_item: Some(probe),
        symbol: None,
        func: None,
        instr: None,
    }
}

/// The diagnostics after the first `n` probes: one more for each probe whose
/// pattern covers no category.
pub open spec fn pattern_diagnostics(diags: Seq<Diagnostic>, probes: Seq<Probe>, n: int) -> Seq<
    Diagnostic,
>
    decreases n,
{
    if n <= 0 {
        diags
    } else if resolvable(probes[n - 1].pattern.event) {
        pattern_diagnostics(diags, probes, n - 1)
    } else {
        pattern_diagnostics(diags, probes, n - 1).push(unresolvable_diagnostic((n - 1) as usize))
    }
}

/// Where the cursor stands after one step towards the next decision, and
/// the decision it then stands at.
pub open spec fn cursor_next(children: Seq<CategoryNode>, cursor: Cursor) -> Option<
    (Cursor, Decision),
> {
    match cursor {
        Cursor::Root => None,
        Cursor::Category(i) => if i < children.len() && children[i as int].decisions@.len() > 0 {
            Some((Cursor::Decision(i, 0), children[i as int].decisions@[0]))
        } else {
            None
        },
        Cursor::Decision(i, j) => if i < children.len() && j + 1 < children[i as int].decisions@.len() {
            Some(
                (Cursor::Decision(i, (j + 1) as usize), children[i as int].decisions@[j + 1]),
            )
        } else {
            None
        },
    }
}

/// The node that is found for a category is a node of that category.
pub proof fn lemma_node_from_found(children: Seq<CategoryNode>, c: Category, i: int)
    requires
        0 <= i,
    ensures
        match node_from(children, c, i) {
            Some(k) => i <= k < children.len() && children[k].category == c,
            None => true,
        },
    decreases children.len() - i,
{
    if i < children.len() && children[i].category != c {
        lemma_node_from_found(children, c, i + 1);
    }
}

/// A category for which no node is found has no node.
pub proof fn lemma_node_from_none(children: Seq<CategoryNode>, c: Category, i: int)
    requires
        0 <= i,
        node_from(children, c, i) is None,
    ensures
        forall|k: int| i <= k < children.len() ==> (#[trigger] children[k]).category != c,
    decreases children.len() - i,
{
    if i < children.len() {
        lemma_node_from_none(children, c, i + 1);
    }
}

/// A node pushed for a category that had none is found at the end; every
/// other category is found as before.
pub proof fn lemma_node_from_push(children: Seq<CategoryNode>, node: CategoryNode, c: Category, i: int)
    requires
        0 <= i <= children.len(),
    ensures
        node_from(children.push(node), c, i) == match node_from(children, c, i) {
            Some(k) => Some(k),
            None => if node.category == c {
                Some(children.len() as int)
            } else {
                None
            },
        },
    decreases children.len() - i,
{
    let pushed = children.push(node);
    if i < children.len() {
        assert(pushed[i] == children[i]);
        if children[i].category != c {
            lemma_node_from_push(children, node, c, i + 1);
        }
    } else {
        assert(pushed[i] == node);
        assert(node_from(pushed, c, i + 1) is None);
    }
}

/// Replacing a node by one of the same category moves no category.
pub proof fn lemma_node_from_update(
    children: Seq<CategoryNode>,
    k: int,
    node: CategoryNode,
    c: Category,
    i: int,
)
    requires
        0 <= i <= children.len(),
        0 <= k < children.len(),
        node.category == children[k].category,
    ensures
        node_from(children.update(k, node), c, i) == node_from(children, c, i),
    decreases children.len() - i,
{
    if i < children.len() {
        lemma_node_from_update(children, k, node, c, i + 1);
    }
}

impl SimpleAST {
    /// The table as a sequence of (probe, statements).
    pub open spec fn view(&self) -> Seq<(int, Seq<Stmt>)> {
        Seq::new(
            self.entries@.len(),
            |i: int| (self.entries@[i].probe as int, self.entries@[i].body@),
        )
    }

    pub fn new() -> (r: SimpleAST)
        ensures
            r@ == Seq::<(int, Seq<Stmt>)>::empty(),
    {
        let r = SimpleAST { entries: Vec::new() };
        assert(r@ =~= Seq::empty());
        r
    }

    /// Adds the action of `probe` with a copy of its statements.
    pub fn add(&mut self, probe: usize, body: &Vec<Stmt>)
        ensures
            final(self)@ == old(self)@.push((probe as int, body@)),
    {
        let mut copy: Vec<Stmt> = Vec::new();
        let mut i: usize = 0;
        while i < body.len()
            invariant
                i <= body.len(),
                copy@ == body@.take(i as int),
            decreases body.len() - i,
        {
            copy.push(body[i]);
            i += 1;
        }
        assert(body@.take(body@.len() as int) == body@);
        self.entries.push(ActionEntry { probe, body: copy });
        assert(self@ =~= old(self)@.push((probe as int, body@)));
    }
}

impl BehaviorTree {
    /// The decisions under category `c`, in sibling order.
    pub open spec fn decisions(&self, c: Category) -> Seq<Decision> {
        decisions_of(self.children@, c)
    }

    /// Probes that share a category share its node: no category has two
    /// nodes under the root.
    pub open spec fn wf(&self) -> bool {
        forall|i: int, j: int|
            0 <= i < j < self.children@.len() ==> (#[trigger] self.children@[i]).category != (
            #[trigger] self.children@[j]).category
    }

    /// A tree with a root and nothing under it.
    pub fn new() -> (r: BehaviorTree)
        ensures
            r.children@ == Seq::<CategoryNode>::empty(),
            r.cursor == Cursor::Root,
            r.wf(),
    {
        BehaviorTree { children: Vec::new(), cursor: Cursor::Root }
    }

    /// Index of the node for category `c`.
    pub fn find_node(&self, c: Category) -> (r: Option<usize>)
        ensures
            match r {
                Some(k) => node_from(self.children@, c, 0) == Some(k as int) && k
                    < self.children@.len() && self.children@[k as int].category == c,
                None => node_from(self.children@, c, 0) is None,
            },
    {
        let mut i: usize = 0;
        while i < self.children.len()
            invariant
                i <= self.children.len(),
                node_from(self.children@, c, 0) == node_from(self.children@, c, i as int),
            decreases self.children.len() - i,
        {
            if self.children[i].category == c {
                return Some(i);
            }
            i += 1;
        }
        None
    }

    /// Attaches a decision as the last sibling under category `c`, making
    /// the category's node if this is its first decision. Every other
    /// category keeps its decisions.
    pub fn attach(&mut self, c: Category, d: Decision)
        ensures
            final(self).decisions(c) == old(self).decisions(c).push(d),
            forall|c2: Category| c2 != c ==> final(self).decisions(c2) == old(self).decisions(c2),
            final(self).cursor == old(self).cursor,
            old(self).wf() ==> final(self).wf(),
    {
        match self.find_node(c) {
            Some(k) => {
                self.children[k].decisions.push(d);
                proof {
                    assert forall|c2: Category|
                        node_from(self.children@, c2, 0) == node_from(
                            old(self).children@,
                            c2,
                            0,
                        ) by {
                        lemma_node_from_update(
                            old(self).children@,
                            k as int,
                            self.children@[k as int],
                            c2,
                            0,
                        );
                        assert(self.children@ =~= old(self).children@.update(
                            k as int,
                            self.children@[k as int],
                        ));
                    }
                    assert forall|c2: Category| c2 != c implies self.decisions(c2) == old(
                        self,
                    ).decisions(c2) by {
                        lemma_node_from_found(old(self).children@, c2, 0);
                    }
                }
            },
            None => {
                let mut decisions: Vec<Decision> = Vec::new();
                decisions.push(d);
                let node = CategoryNode { category: c, decisions };
                self.children.push(node);
                proof {
                    lemma_node_from_push(old(self).children@, node, c, 0);
                    lemma_node_from_none(old(self).children@, c, 0);
                    assert(node.decisions@ =~= Seq::<Decision>::empty().push(d));
                    assert forall|c2: Category| c2 != c implies self.decisions(c2) == old(
                        self,
                    ).decisions(c2) by {
                        lemma_node_from_push(old(self).children@, node, c2, 0);
                        lemma_node_from_found(old(self).children@, c2, 0);
                    }
                }
            },
        }
    }

    /// Puts the cursor back at the root. The tree itself is untouched.
    pub fn reset(&mut self)
        ensures
            final(self).cursor == Cursor::Root,
            final(self).children == old(self).children,
    {
        self.cursor = Cursor::Root;
    }

    /// Moves the cursor from wherever it stands to the node of category
    /// `c`, or to the root where the tree has none. Returns the node's
    /// index among the root's children.
    pub fn enter(&mut self, c: Category) -> (r: Option<usize>)
        ensures
            final(self).children == old(self).children,
            match r {
                Some(k) => node_from(old(self).children@, c, 0) == Some(k as int) && k < old(
                    self,
                ).children@.len() && final(self).cursor == Cursor::Category(k) && old(
                    self,
                ).children@[k as int].decisions@ == old(self).decisions(c),
                None => node_from(old(self).children@, c, 0) is None && final(self).cursor
                    == Cursor::Root && old(self).decisions(c) == Seq::<Decision>::empty(),
            },
    {
        match self.find_node(c) {
            Some(k) => {
                self.cursor = Cursor::Category(k);
                Some(k)
            },
            None => {
                self.cursor = Cursor::Root;
                None
            },
        }
    }

    /// Steps to the first decision of the category node the cursor is at,
    /// or to the next sibling of the decision it is at, and returns that
    /// decision. Where there is none the cursor stays.
    pub fn next_decision(&mut self) -> (r: Option<Decision>)
        ensures
            final(self).children == old(self).children,
            match cursor_next(old(self).children@, old(self).cursor) {
                Some((cursor, d)) => final(self).cursor == cursor && r == Some(d),
                None => final(self).cursor == old(self).cursor && r is None,
            },
            r is Some ==> match final(self).cursor {
                Cursor::Decision(i, j) => j < usize::MAX,
                _ => false,
            },
    {
        match self.cursor {
            Cursor::Root => None,
            Cursor::Category(i) => {
                if i < self.children.len() && self.children[i].decisions.len() > 0 {
                    self.cursor = Cursor::Decision(i, 0);
                    Some(self.children[i].decisions[0])
                } else {
                    None
                }
            },
            Cursor::Decision(i, j) => {
                if i >= self.children.len() {
                    return None;
                }
                let siblings = self.children[i].decisions.len();
                if j < siblings && j + 1 < siblings {
                    self.cursor = Cursor::Decision(i, j + 1);
                    Some(self.children[i].decisions[j + 1])
                } else {
                    None
                }
            },
        }
    }
}

/// Builds the tree and its side table from a script. Each probe whose
/// pattern covers a category gets one action, and one decision under every
/// category it covers, after the decisions of the probes declared before
/// it. A probe whose pattern covers none gets a diagnostic and nothing
/// else, and building goes on.
pub fn build_behavior_tree(whamm: &Whamm, err: &mut ErrorGen) -> (r: (BehaviorTree, SimpleAST))
    ensures
        r.0.wf(),
        r.0.cursor == Cursor::Root,
        forall|c: Category|
            r.0.decisions(c) == eligible(whamm.probes@, c, whamm.probes@.len() as int),
        r.1@ == actions(whamm.probes@, whamm.probes@.len() as int),
        final(err).diagnostics() == pattern_diagnostics(
            old(err).diagnostics(),
            whamm.probes@,
            whamm.probes@.len() as int,
        ),
        final(err).max_errors == old(err).max_errors,
{
    let mut tree = BehaviorTree::new();
    let mut table = SimpleAST::new();
    let mut p: usize = 0;
    while p < whamm.probes.len()
        invariant
            p <= whamm.probes.len(),
            tree.wf(),
            tree.cursor == Cursor::Root,
            forall|c: Category| tree.decisions(c) == eligible(whamm.probes@, c, p as int),
            table@ == actions(whamm.probes@, p as int),
            table.entries@.len() == table@.len(),
            err.diagnostics() == pattern_diagnostics(
                old(err).diagnostics(),
                whamm.probes@,
                p as int,
            ),
            err.max_errors == old(err).max_errors,
        decreases whamm.probes.len() - p,
    {
        let probe = &whamm.probes[p];
        let event = probe.pattern.event;
        if is_resolvable(event) {
            let d = Decision {
                probe: p,
                predicate: probe.predicate,
                callee: probe.pattern.callee,
                action: table.entries.len(),
            };
            assert(d == decision_for(whamm.probes@, p as int));
            if matches_category(event, Category::FuncEntry) {
                tree.attach(Category::FuncEntry, d);
            }
            if matches_category(event, Category::FuncExit) {
                tree.attach(Category::FuncExit, d);
            }
            if matches_category(event, Category::Call) {
                tree.attach(Category::Call, d);
            }
            table.add(p, &probe.body);
        } else {
            err.add_error(
                Diagnostic {
                    kind: DiagnosticKind::UnresolvablePattern,
                    stage: Stage::BuildBehavior,
                    fatal: false,
                    script_item: Some(p),
                    symbol: None,
                    func: None,
                    instr: None,
                },
            );
        }
        p += 1;
    }
    (tree, table)
}

/// Siblings stand in declaration order: of two decisions under one
/// category, the earlier one belongs to the probe declared earlier.
pub proof fn lemma_siblings_in_declaration_order(
    probes: Seq<Probe>,
    c: Category,
    n: int,
    i: int,
    j: int,
)
    requires
        0 <= n <= probes.len() <= usize::MAX,
        0 <= i < j < eligible(probes, c, n).len(),
    ensures
        eligible(probes, c, n)[i].probe < eligible(probes, c, n)[j].probe < n,
    decreases n,
{
    if n > 0 {
        if event_matches(probes[n - 1].pattern.event, c) {
            let prev = eligible(probes, c, n - 1);
            if j < prev.len() {
                lemma_siblings_in_declaration_order(probes, c, n - 1, i, j);
            } else if prev.len() > 0 {
                lemma_eligible_bound(probes, c, n - 1, i);
            }
        } else {
            lemma_siblings_in_declaration_order(probes, c, n - 1, i, j);
        }
    }
}

/// The decision of a probe that may apply at a category stands under that
/// category, after the decisions of exactly those probes declared before
/// it that may apply there too.
pub proof fn lemma_eligible_position(probes: Seq<Probe>, c: Category, n: int, p: int)
    requires
        0 <= p < n <= probes.len(),
        event_matches(probes[p].pattern.event, c),
    ensures
        eligible(probes, c, p).len() < eligible(probes, c, n).len(),
        eligible(probes, c, n)[eligible(probes, c, p).len() as int] == decision_for(probes, p),
    decreases n,
{
    if p < n - 1 {
        lemma_eligible_position(probes, c, n - 1, p);
    }
}

/// Every decision among the first `n` probes' belongs to one of them.
pub proof fn lemma_eligible_bound(probes: Seq<Probe>, c: Category, n: int, i: int)
    requires
        0 <= n <= probes.len() <= usize::MAX,
        0 <= i < eligible(probes, c, n).len(),
    ensures
        0 <= eligible(probes, c, n)[i].probe < n,
        event_matches(probes[eligible(probes, c, n)[i].probe as int].pattern.event, c),
    decreases n,
{
    if n > 0 {
        let prev = eligible(probes, c, n - 1);
        if i < prev.len() {
            lemma_eligible_bound(probes, c, n - 1, i);
        }
    }
}

} // verus!
