//! Offsets in the target's single linear memory for data that the compiler
//! materializes there.

use vstd::prelude::*;

verus! {

/// Where the target's own data is assumed to end.
pub const DEFAULT_MEMORY_BASE: u32 = 1_048_576;

/// Bytes left free above the target's base.
pub const GUARD_REGION: u32 = 4_000;

/// The first offset that is handed out.
pub const START_OFFSET: u32 = 1_052_576;

/// Bytes that follow a string's content in memory.
pub const STRING_TERMINATOR_LEN: u32 = 1;

/// Why no tracker or no region could be had.
#[derive(Clone, Copy, Debug, PartialEq, Eq)]
pub enum MemoryError {
    /// The target declares more than one linear memory.
    MultipleMemories,
    /// The region would end beyond the 32-bit address space.
    OutOfMemory,
}

/// A string constant and the offset of its first byte.
#[derive(Debug)]
pub struct InternedString {
    pub content: Vec<u8>,
    pub offset: u32,
}

/// The allocator's state.
#[derive(Debug)]
pub struct MemoryTracker {
    pub mem_id: u32,
    pub curr_mem_offset: u32,
    pub emitted_strings: Vec<InternedString>,
}

/// Bytes that a string of `len` content bytes occupies.
pub open spec fn string_footprint(len: int) -> int {
    len + STRING_TERMINATOR_LEN as int
}

/// The offset recorded for `s` in `entries[i..]`, if any.
pub open spec fn lookup_from(entries: Seq<(Seq<u8>, u32)>, s: Seq<u8>, i: int) -> Option<u32>
    decreases entries.len() - i,
{
    if i < 0 || i >= entries.len() {
        None
    } else if entries[i].0 == s {
        Some(entries[i].1)
    } else {
        lookup_from(entries, s, i + 1)
    }
}

/// The offset recorded for `s`, if any.
pub open spec fn lookup(entries: Seq<(Seq<u8>, u32)>, s: Seq<u8>) -> Option<u32> {
    lookup_from(entries, s, 0)
}

/// The table of interned strings keeps its promises: every string lies
/// between the start offset and `curr`, later strings lie above earlier ones,
/// and no content occurs twice.
pub open spec fn table_wf(entries: Seq<(Seq<u8>, u32)>, curr: int) -> bool {
    &&& forall|k: int|
        0 <= k < entries.len() ==> START_OFFSET <= (#[trigger] entries[k]).1 && entries[k].1
            + string_footprint(entries[k].0.len() as int) <= curr
    &&& forall|k: int, l: int|
        0 <= k < l < entries.len() ==> (#[trigger] entries[k]).1 + string_footprint(
            entries[k].0.len() as int,
        ) <= (#[trigger] entries[l]).1
    &&& forall|k: int, l: int|
        0 <= k < l < entries.len() ==> (#[trigger] entries[k]).0 != (#[trigger] entries[l]).0
}

/// The allocator as a value: the next free offset and the string table.
pub struct TrackerModel {
    pub offset: int,
    pub strings: Seq<(Seq<u8>, u32)>,
}

/// What `allocate` does, on the model.
pub open spec fn allocate_model(m: TrackerModel, size: int) -> (TrackerModel, Option<u32>) {
    if m.offset + size <= u32::MAX {
        (TrackerModel { offset: m.offset + size, strings: m.strings }, Some(m.offset as u32))
    } else {
        (m, None)
    }
}

/// What `intern_string` does, on the model.
pub open spec fn intern_model(m: TrackerModel, s: Seq<u8>) -> (TrackerModel, Option<u32>) {
    match lookup(m.strings, s) {
        Some(off) => (m, Some(off)),
        None => {
            if m.offset + string_footprint(s.len() as int) <= u32::MAX {
                (
                    TrackerModel {
                        offset: m.offset + string_footprint(s.len() as int),
                        strings: m.strings.push((s, m.offset as u32)),
                    },
                    Some(m.offset as u32),
                )
            } else {
                (m, None)
            }
        },
    }
}

/// The model is well formed.
pub open spec fn model_wf(m: TrackerModel) -> bool {
    &&& START_OFFSET <= m.offset <= u32::MAX
    &&& table_wf(m.strings, m.offset)
}

/// Whether two byte strings are equal.
pub fn bytes_eq(a: &[u8], b: &[u8]) -> (r: bool)
    ensures
        r == (a@ == b@),
{
    if a.len() != b.len() {
        return false;
    }
    let mut i: usize = 0;
    while i < a.len()
        invariant
            i <= a.len(),
            a.len() == b.len(),
            forall|k: int| 0 <= k < i ==> a@[k] == b@[k],
        decreases a.len() - i,
    {
        if a[i] != b[i] {
            return false;
        }
        i += 1;
    }
    assert(a@ =~= b@);
    true
}

impl MemoryTracker {
    /// The string table as a sequence of (content, offset).
    pub open spec fn strings(&self) -> Seq<(Seq<u8>, u32)> {
        Seq::new(
            self.emitted_strings@.len(),
            |i: int| (self.emitted_strings@[i].content@, self.emitted_strings@[i].offset),
        )
    }

    /// The tracker as a value.
    pub open spec fn model(&self) -> TrackerModel {
        TrackerModel { offset: self.curr_mem_offset as int, strings: self.strings() }
    }

    /// The invariant that construction establishes and every method keeps.
    pub open spec fn wf(&self) -> bool {
        model_wf(self.model())
    }

    /// A tracker for a target that declares `memory_count` linear memories.
    /// More than one is refused: offsets mean nothing across several.
    pub fn new(memory_count: usize) -> (r: Result<MemoryTracker, MemoryError>)
        ensures
            memory_count > 1 <==> r is Err,
            r is Err ==> r->Err_0 == MemoryError::MultipleMemories,
            r is Ok ==> r->Ok_0.wf() && r->Ok_0.mem_id == 0 && r->Ok_0.model() == (TrackerModel {
                offset: START_OFFSET as int,
                strings: Seq::empty(),
            }),
    {
        if memory_count > 1 {
            return Err(MemoryError::MultipleMemories);
        }
        let t = MemoryTracker {
            mem_id: 0,
            curr_mem_offset: START_OFFSET,
            emitted_strings: Vec::new(),
        };
        assert(t.strings() =~= Seq::empty());
        Ok(t)
    }

    /// Reserves `size` bytes at the current offset and moves the offset past
    /// them. Fails, changing nothing, when the region would not fit.
    pub fn allocate(&mut self, size: u32) -> (r: Result<u32, MemoryError>)
        requires
            old(self).wf(),
        ensures
            final(self).wf(),
            final(self).mem_id == old(self).mem_id,
            (final(self).model(), r.ok()) == allocate_model(old(self).model(), size as int),
            r is Err ==> r->Err_0 == MemoryError::OutOfMemory,
    {
        if size > u32::MAX - self.curr_mem_offset {
            return Err(MemoryError::OutOfMemory);
        }
        let offset = self.curr_mem_offset;
        self.curr_mem_offset = offset + size;
        Ok(offset)
    }

    /// The offset at which `s` was materialized, if it was.
    pub fn find_string(&self, s: &[u8]) -> (r: Option<u32>)
        ensures
            r == lookup(self.strings(), s@),
    {
        let mut i: usize = 0;
        while i < self.emitted_strings.len()
            invariant
                i <= self.emitted_strings.len(),
                lookup(self.strings(), s@) == lookup_from(self.strings(), s@, i as int),
            decreases self.emitted_strings.len() - i,
        {
            if bytes_eq(self.emitted_strings[i].content.as_slice(), s) {
                return Some(self.emitted_strings[i].offset);
            }
            i += 1;
        }
        None
    }

    /// The offset of `s` in memory: the one it already has, or a fresh region
    /// for its bytes and terminator. Fails, changing nothing, when a fresh
    /// region would not fit.
    pub fn intern_string(&mut self, s: &[u8]) -> (r: Result<u32, MemoryError>)
        requires
            old(self).wf(),
        ensures
            final(self).wf(),
            final(self).mem_id == old(self).mem_id,
            (final(self).model(), r.ok()) == intern_model(old(self).model(), s@),
            r is Err ==> r->Err_0 == MemoryError::OutOfMemory,
    {
        if let Some(off) = self.find_string(s) {
            return Ok(off);
        }
        let len = s.len();
        if len >= (u32::MAX - self.curr_mem_offset) as usize {
            return Err(MemoryError::OutOfMemory);
        }
        let offset = self.curr_mem_offset;
        let ghost before = self.strings();
        let mut content: Vec<u8> = Vec::new();
        let mut i: usize = 0;
        while i < len
            invariant
                i <= len,
                len == s@.len(),
                content@ == s@.take(i as int),
            decreases len - i,
        {
            content.push(s[i]);
            i += 1;
        }
        assert(s@.take(len as int) == s@);
        self.emitted_strings.push(InternedString { content, offset });
        self.curr_mem_offset = offset + (len as u32) + STRING_TERMINATOR_LEN;
        proof {
            assert(self.strings() =~= before.push((s@, offset)));
            lemma_lookup_none(before, s@, 0);
        }
        Ok(offset)
    }
}

/// A string that `lookup_from` does not find from `i` on is no entry's
/// content from `i` on.
pub proof fn lemma_lookup_none(entries: Seq<(Seq<u8>, u32)>, s: Seq<u8>, i: int)
    requires
        0 <= i,
        lookup_from(entries, s, i) is None,
    ensures
        forall|k: int| i <= k < entries.len() ==> (#[trigger] entries[k]).0 != s,
    decreases entries.len() - i,
{
    if i < entries.len() {
        lemma_lookup_none(entries, s, i + 1);
    }
}

/// What `lookup_from` finds is the offset of an entry with that content.
pub proof fn lemma_lookup_some(entries: Seq<(Seq<u8>, u32)>, s: Seq<u8>, i: int) -> (k: int)
    requires
        0 <= i,
        lookup_from(entries, s, i) is Some,
    ensures
        i <= k < entries.len(),
        entries[k].0 == s,
        lookup_from(entries, s, i) == Some(entries[k].1),
    decreases entries.len() - i,
{
    if entries[i].0 == s {
        i
    } else {
        lemma_lookup_some(entries, s, i + 1)
    }
}

/// A string pushed onto a table that lacked it is found at its offset, and
/// what was found before is found as before.
pub proof fn lemma_lookup_push(
    entries: Seq<(Seq<u8>, u32)>,
    s: Seq<u8>,
    off: u32,
    t: Seq<u8>,
    i: int,
)
    requires
        0 <= i <= entries.len(),
    ensures
        lookup_from(entries.push((s, off)), t, i) == match lookup_from(entries, t, i) {
            Some(o) => Some(o),
            None => if t == s {
                Some(off)
            } else {
                None
            },
        },
    decreases entries.len() - i,
{
    let pushed = entries.push((s, off));
    if i < entries.len() {
        assert(pushed[i] == entries[i]);
        if entries[i].0 != t {
            lemma_lookup_push(entries, s, off, t, i + 1);
        }
    } else {
        assert(pushed[i] == (s, off));
        assert(lookup_from(pushed, t, i + 1) is None);
    }
}

/// Interning keeps the model well formed.
pub proof fn lemma_intern_keeps_wf(m: TrackerModel, s: Seq<u8>)
    requires
        model_wf(m),
    ensures
        model_wf(intern_model(m, s).0),
        m.offset <= intern_model(m, s).0.offset,
{
    if lookup(m.strings, s) is None {
        lemma_lookup_none(m.strings, s, 0);
    }
}

/// Interning is idempotent: a second call with equal content returns the
/// offset of the first and changes nothing.
pub proof fn lemma_intern_idempotent(m: TrackerModel, s: Seq<u8>)
    requires
        model_wf(m),
        intern_model(m, s).1 is Some,
    ensures
        intern_model(intern_model(m, s).0, s) == (intern_model(m, s).0, intern_model(m, s).1),
{
    if lookup(m.strings, s) is None {
        lemma_lookup_push(m.strings, s, m.offset as u32, s, 0);
    }
}

/// An offset once given to a string stays its offset whatever is interned
/// afterwards.
pub proof fn lemma_intern_stable(m: TrackerModel, s: Seq<u8>, t: Seq<u8>)
    requires
        model_wf(m),
        lookup(m.strings, s) is Some,
    ensures
        lookup(intern_model(m, t).0.strings, s) == lookup(m.strings, s),
{
    if lookup(m.strings, t) is None && m.offset + string_footprint(t.len() as int) <= u32::MAX {
        lemma_lookup_push(m.strings, t, m.offset as u32, s, 0);
    }
}

/// Strings of different content never share an offset.
pub proof fn lemma_distinct_contents_distinct_offsets(m: TrackerModel, s: Seq<u8>, t: Seq<u8>)
    requires
        model_wf(m),
        s != t,
        lookup(m.strings, s) is Some,
        lookup(m.strings, t) is Some,
    ensures
        lookup(m.strings, s) != lookup(m.strings, t),
{
    let k = lemma_lookup_some(m.strings, s, 0);
    let l = lemma_lookup_some(m.strings, t, 0);
    if k < l {
        assert(m.strings[k].1 + string_footprint(m.strings[k].0.len() as int) <= m.strings[l].1);
    } else {
        assert(l < k);
        assert(m.strings[l].1 + string_footprint(m.strings[l].0.len() as int) <= m.strings[k].1);
    }
}

/// The offset after the first `n` of a run of allocations that all succeed.
pub open spec fn offset_after(start: int, sizes: Seq<u32>, n: int) -> int
    decreases n,
{
    if n <= 0 {
        start
    } else {
        offset_after(start, sizes, n - 1) + sizes[n - 1]
    }
}

/// Allocation is monotonic: over any run of allocations the offset never
/// falls, the region of an earlier one ends where or before that of a later
/// one starts, and every region lies above the guard region over the
/// target's own data.
pub proof fn lemma_allocations_monotonic(start: int, sizes: Seq<u32>, i: int, j: int)
    requires
        START_OFFSET <= start,
        0 <= i < j <= sizes.len(),
    ensures
        offset_after(start, sizes, i) <= offset_after(start, sizes, j),
        offset_after(start, sizes, i) + sizes[i] <= offset_after(start, sizes, j),
        DEFAULT_MEMORY_BASE + GUARD_REGION <= offset_after(start, sizes, i),
    decreases j,
{
    if j == i + 1 {
        lemma_offset_after_lower_bound(start, sizes, i);
    } else {
        lemma_allocations_monotonic(start, sizes, i, j - 1);
    }
}

/// No run of allocations brings the offset below where it started.
pub proof fn lemma_offset_after_lower_bound(start: int, sizes: Seq<u32>, n: int)
    requires
        0 <= n <= sizes.len(),
    ensures
        start <= offset_after(start, sizes, n),
    decreases n,
{
    if n > 0 {
        lemma_offset_after_lower_bound(start, sizes, n - 1);
    }
}

/// One successful `allocate` moves the model's offset as `offset_after` says.
pub proof fn lemma_allocate_steps(m: TrackerModel, sizes: Seq<u32>, n: int, start: int)
    requires
        0 <= n < sizes.len(),
        m.offset == offset_after(start, sizes, n),
        allocate_model(m, sizes[n] as int).1 is Some,
    ensures
        allocate_model(m, sizes[n] as int).1 == Some(offset_after(start, sizes, n) as u32),
        allocate_model(m, sizes[n] as int).0.offset == offset_after(start, sizes, n + 1),
{
}

} // verus!
