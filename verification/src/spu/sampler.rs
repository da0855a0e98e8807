//! Sample memory with reuse.  A new sample goes where a contiguous run of
//! blocks whose samples are no longer in use is large enough to hold it;
//! only when there is no such run does it go at the end of what was used.

use crate::common::{
    find_vacant, lemma_len_u16, first_vacant, first_where, lemma_first_vacant, lemma_first_where, lemma_first_where_is,
    lemma_some_count_bound, lemma_some_count_update, some_count, HwOp,
};
use crate::spu::voice::{voice_setup_ops, Voice};
use crate::spu::{bumped, MAX_SAMPLES, SPU_RAM_SIZE, SPU_RAM_START};
use crate::spu2::hw::{self, transfer_ops};
use vstd::prelude::*;
use vstd::relations::{sorted_by, total_ordering};

verus! {

#[derive(Clone, Copy, PartialEq, Eq, Structural, Debug)]
pub struct Sample {
    pub id: u16,
    pub spu_addr: u16,
    pub size: u16,
    pub in_use: bool,
}

impl Sample {
    /// Set up hardware voice `NUM` to play this sample.
    pub fn bind_to_voice<const NUM: u8>(self, sample_rate: u16, volume: u16, log: &mut Vec<HwOp>) -> (v: Voice<NUM>)
        ensures
            final(log)@ == old(log)@ + voice_setup_ops(NUM as int, self.spu_addr, sample_rate, volume),
    {
        Voice::<NUM>::new(self.spu_addr, sample_rate, volume, log)
    }
}

/// A region of SPU RAM and the sample that was loaded into it.
#[derive(Clone, Copy, PartialEq, Eq, Structural, Debug)]
pub struct MemoryBlock {
    pub start_addr: u16,
    pub size: u16,
    pub sample_id: Option<u16>,
    pub is_free: bool,
}

/// A released block as the reuse search sees it: (start address, slot, size).
pub type Entry = (u16, usize, u16);

/// Whether a sample has id `id`.
pub open spec fn has_id(id: u16) -> spec_fn(Sample) -> bool {
    |s: Sample| s.id == id
}

/// Whether the loaded sample with id `sid` (the first one, in slot order)
/// is no longer in use.  An id that no loaded sample has is not released.
pub open spec fn released(samples: Seq<Option<Sample>>, sid: u16) -> bool {
    match first_where(samples, has_id(sid)) {
        Some(k) => !samples[k]->0.in_use,
        None => false,
    }
}

/// Whether a block belongs to a released sample.
pub open spec fn reusable_block(samples: Seq<Option<Sample>>, b: MemoryBlock) -> bool {
    match b.sample_id {
        Some(sid) => released(samples, sid),
        None => false,
    }
}

/// The reusable blocks among the first `n` slots, in slot order.
pub open spec fn released_entries(blocks: Seq<Option<MemoryBlock>>, samples: Seq<Option<Sample>>, n: int) -> Seq<Entry>
    decreases n,
{
    if n <= 0 {
        Seq::empty()
    } else {
        let prev = released_entries(blocks, samples, n - 1);
        match blocks[n - 1] {
            Some(b) => if reusable_block(samples, b) {
                prev.push((b.start_addr, (n - 1) as usize, b.size))
            } else {
                prev
            },
            None => prev,
        }
    }
}

/// Order by start address; slot and size break ties.
pub open spec fn entry_leq() -> spec_fn(Entry, Entry) -> bool {
    |a: Entry, b: Entry| a.0 < b.0 || (a.0 == b.0 && (a.1 < b.1 || (a.1 == b.1 && a.2 <= b.2)))
}

/// One past the last address of an entry.
pub open spec fn entry_end(e: Entry) -> int {
    e.0 + e.2
}

/// Total size of the run of adjacent blocks that begins at position `k`
/// of `order`: each next block must start where the previous one ends.
pub open spec fn run_size(order: Seq<Entry>, k: int) -> int
    decreases order.len() - k,
{
    if k < 0 || k >= order.len() {
        0
    } else if k + 1 < order.len() && order[k + 1].0 == entry_end(order[k]) {
        order[k].2 + run_size(order, k + 1)
    } else {
        order[k].2 as int
    }
}

/// The first position from `k` on whose run holds `required` bytes.
pub open spec fn first_fit(order: Seq<Entry>, required: u16, k: int) -> Option<int>
    decreases order.len() - k,
{
    if k < 0 || k >= order.len() {
        None
    } else if run_size(order, k) >= required {
        Some(k)
    } else {
        first_fit(order, required, k + 1)
    }
}

/// Equal start addresses come in increasing slot order.
pub open spec fn ties_in_slot_order(s: Seq<Entry>) -> bool {
    forall|p: int, q: int| 0 <= p < q < s.len() && #[trigger] s[p].0 == #[trigger] s[q].0 ==> s[p].1 < s[q].1
}

/// A block of `blocks` that a merge at `s` for `size` bytes takes over.
pub open spec fn merge_candidate(samples: Seq<Option<Sample>>, s: u16, size: u16) -> spec_fn(MemoryBlock) -> bool {
    |b: MemoryBlock| b.start_addr >= s && reusable_block(samples, b) && b.start_addr < s + size
}

/// A candidate that starts exactly at `s`.
pub open spec fn merge_head(samples: Seq<Option<Sample>>, s: u16, size: u16) -> spec_fn(MemoryBlock) -> bool {
    |b: MemoryBlock| merge_candidate(samples, s, size)(b) && b.start_addr == s
}

/// The blocks after merging at `s`: the first candidate that starts at `s`
/// becomes the new sample's block; every other candidate is dropped.
pub open spec fn merged(
    blocks: Seq<Option<MemoryBlock>>,
    samples: Seq<Option<Sample>>,
    s: u16,
    id: u16,
    size: u16,
) -> Seq<Option<MemoryBlock>> {
    let head = first_where(blocks, merge_head(samples, s, size));
    Seq::new(
        blocks.len(),
        |i: int|
            if head == Some(i) {
                Some(MemoryBlock { sample_id: Some(id), size, is_free: false, ..blocks[i]->0 })
            } else if blocks[i] is Some && merge_candidate(samples, s, size)(blocks[i]->0) {
                None
            } else {
                blocks[i]
            },
    )
}

pub proof fn lemma_entry_leq_total()
    ensures
        total_ordering(entry_leq()),
{
    let r = entry_leq();
    assert(vstd::relations::reflexive(r));
    assert(vstd::relations::antisymmetric(r)) by {
        assert forall|a: Entry, b: Entry| #[trigger] r(a, b) && #[trigger] r(b, a) implies a == b by {}
    }
    assert(vstd::relations::transitive(r));
    assert(vstd::relations::strongly_connected(r));
}

/// The released entries come in strictly increasing slot order, each slot
/// below `n`.
pub proof fn lemma_released_entries_slots(blocks: Seq<Option<MemoryBlock>>, samples: Seq<Option<Sample>>, n: int)
    requires
        0 <= n <= blocks.len(),
        n <= usize::MAX,
    ensures
        released_entries(blocks, samples, n).len() <= n,
        forall|k: int| 0 <= k < released_entries(blocks, samples, n).len()
            ==> (#[trigger] released_entries(blocks, samples, n)[k]).1 < n,
        forall|p: int, q: int| 0 <= p < q < released_entries(blocks, samples, n).len()
            ==> (#[trigger] released_entries(blocks, samples, n)[p]).1 < (#[trigger] released_entries(blocks, samples, n)[q]).1,
    decreases n,
{
    if n > 0 {
        lemma_released_entries_slots(blocks, samples, n - 1);
        let prev = released_entries(blocks, samples, n - 1);
        let e = released_entries(blocks, samples, n);
        assert forall|p: int, q: int| 0 <= p < q < e.len() implies (#[trigger] e[p]).1 < (#[trigger] e[q]).1 by {
            if e.len() == prev.len() + 1 {
                let b = blocks[n - 1]->0;
                assert(e == prev.push((b.start_addr, (n - 1) as usize, b.size)));
                assert(e[p] == prev[p]);
                if q < prev.len() {
                    assert(e[q] == prev[q]);
                } else {
                    assert(prev[p].1 < n - 1);
                }
            } else {
                assert(e == prev);
            }
        }
    }
}

/// Empty block slots give no released entries.
pub proof fn lemma_no_blocks_no_entries(blocks: Seq<Option<MemoryBlock>>, samples: Seq<Option<Sample>>, n: int)
    requires
        0 <= n <= blocks.len(),
        forall|i: int| 0 <= i < n ==> (#[trigger] blocks[i]) is None,
    ensures
        released_entries(blocks, samples, n) == Seq::<Entry>::empty(),
    decreases n,
{
    if n > 0 {
        lemma_no_blocks_no_entries(blocks, samples, n - 1);
    }
}

/// Swapping two adjacent entries with different start addresses keeps the
/// contents and the slot order among equal start addresses.
pub proof fn lemma_swap_adjacent(s: Seq<Entry>, j: int)
    requires
        0 <= j,
        j + 1 < s.len(),
        ties_in_slot_order(s),
        s[j].0 > s[j + 1].0,
    ensures
        s.update(j, s[j + 1]).update(j + 1, s[j]).to_multiset() == s.to_multiset(),
        ties_in_slot_order(s.update(j, s[j + 1]).update(j + 1, s[j])),
{
    broadcast use vstd::seq_lib::to_multiset_update, vstd::multiset::group_multiset_axioms;

    let t = s.update(j, s[j + 1]).update(j + 1, s[j]);
    let u = s.update(j, s[j + 1]);
    assert(u.to_multiset() == s.to_multiset().insert(s[j + 1]).remove(s[j]));
    assert(t.to_multiset() == u.to_multiset().insert(s[j]).remove(u[j + 1]));
    broadcast use vstd::seq_lib::to_multiset_contains;
    assert(s.contains(s[j]));
    assert(s.to_multiset().count(s[j]) > 0);
    assert(s[j] != s[j + 1]);
    assert(t.to_multiset() =~= s.to_multiset());
    assert forall|p: int, q: int| 0 <= p < q < t.len() && #[trigger] t[p].0 == #[trigger] t[q].0 implies t[p].1 < t[q].1 by {
        let pp = if p == j { j + 1 } else if p == j + 1 { j } else { p };
        let qq = if q == j { j + 1 } else if q == j + 1 { j } else { q };
        assert(t[p] == s[pp]);
        assert(t[q] == s[qq]);
        if pp < qq {
            assert(s[pp].0 == s[qq].0);
        }
    }
}

/// Stable bubble sort of `v` by start address.
fn sort_by_start(v: &mut Vec<Entry>)
    requires
        ties_in_slot_order(old(v)@),
    ensures
        final(v)@.to_multiset() == old(v)@.to_multiset(),
        final(v)@.len() == old(v)@.len(),
        sorted_by(final(v)@, entry_leq()),
{
    let n = v.len();
    let mut i: usize = 0;
    while i < n
        invariant
            i <= n,
            v@.len() == n,
            v@.to_multiset() == old(v)@.to_multiset(),
            ties_in_slot_order(v@),
            forall|p: int, q: int| n - i <= p < q < n ==> v@[p].0 <= v@[q].0,
            forall|p: int, q: int| 0 <= p < n - i <= q < n ==> v@[p].0 <= v@[q].0,
        decreases n - i,
    {
        let mut j: usize = 0;
        while j < n - 1 - i
            invariant
                i < n,
                j <= n - 1 - i,
                v@.len() == n,
                v@.to_multiset() == old(v)@.to_multiset(),
                ties_in_slot_order(v@),
                forall|p: int, q: int| n - i <= p < q < n ==> v@[p].0 <= v@[q].0,
                forall|p: int, q: int| 0 <= p < n - i <= q < n ==> v@[p].0 <= v@[q].0,
                forall|p: int| 0 <= p <= j ==> v@[p].0 <= v@[j as int].0,
            decreases n - 1 - i - j,
        {
            if v[j].0 > v[j + 1].0 {
                let a = v[j];
                let b = v[j + 1];
                proof {
                    lemma_swap_adjacent(v@, j as int);
                }
                let ghost before = v@;
                v.set(j, b);
                v.set(j + 1, a);
                proof {
                    assert(v@ == before.update(j as int, before[j + 1]).update(j + 1, before[j as int]));
                    assert forall|p: int, q: int| 0 <= p < n - i <= q < n implies v@[p].0 <= v@[q].0 by {
                        let pp = if p == j { j + 1 } else if p == j + 1 { j as int } else { p };
                        assert(v@[p] == before[pp]);
                        assert(v@[q] == before[q]);
                    }
                    assert forall|p: int| 0 <= p <= j + 1 implies #[trigger] v@[p].0 <= v@[j + 1].0 by {
                        if p < j {
                            assert(v@[p] == before[p]);
                        }
                    }
                }
            }
            j = j + 1;
        }
        i = i + 1;
    }
    proof {
        assert forall|p: int, q: int| 0 <= p < q < v@.len() implies #[trigger] entry_leq()(v@[p], v@[q]) by {
            assert(v@[p].0 <= v@[q].0);
            if v@[p].0 == v@[q].0 {
                assert(v@[p].1 < v@[q].1);
            }
        }
    }
}

/// A run is never negative.
pub proof fn lemma_run_nonneg(order: Seq<Entry>, k: int)
    ensures
        run_size(order, k) >= 0,
    decreases order.len() - k,
{
    if 0 <= k < order.len() && k + 1 < order.len() && order[k + 1].0 == entry_end(order[k]) {
        lemma_run_nonneg(order, k + 1);
    }
}

pub proof fn lemma_first_fit_at(order: Seq<Entry>, required: u16, k: int, s: int)
    requires
        0 <= k <= s < order.len(),
        forall|j: int| k <= j < s ==> run_size(order, j) < required,
        run_size(order, s) >= required,
    ensures
        first_fit(order, required, k) == Some(s),
    decreases s - k,
{
    if k < s {
        lemma_first_fit_at(order, required, k + 1, s);
    }
}

pub proof fn lemma_first_fit_bounds(order: Seq<Entry>, required: u16, k: int)
    ensures
        first_fit(order, required, k) matches Some(j) ==> k <= j < order.len() && 0 <= j
            && run_size(order, j) >= required,
    decreases order.len() - k,
{
    if 0 <= k < order.len() && run_size(order, k) < required {
        lemma_first_fit_bounds(order, required, k + 1);
    }
}

pub proof fn lemma_first_fit_none(order: Seq<Entry>, required: u16, k: int)
    requires
        0 <= k <= order.len(),
        forall|j: int| k <= j < order.len() ==> run_size(order, j) < required,
    ensures
        first_fit(order, required, k) is None,
    decreases order.len() - k,
{
    if k < order.len() {
        lemma_first_fit_none(order, required, k + 1);
    }
}

/// Where the sample of a load goes in the sample table: the first empty
/// slot, or nowhere, and then the load fails.
pub open spec fn sample_step(old: Sampler, new: Sampler, r: Result<Sample, &'static str>, sample: Sample) -> bool {
    match first_vacant(old.samples()) {
        None => {
            &&& r is Err && r->Err_0@ == "No free sample slots"@
            &&& new.samples() == old.samples()
        },
        Some(si) => {
            &&& r == Ok::<Sample, &'static str>(sample)
            &&& new.samples() == old.samples().update(si, Some(sample))
        },
    }
}

/// What a load of `audio` (not empty) into `old` gives.  The data goes
/// where reuse finds room, else at the cursor, which then advances; the id
/// counter advances either way.  Reused room is merged into one block for
/// the new sample; otherwise the new block takes the first empty block
/// slot.  A full block table or a full sample table fails the load at that
/// step, after the data was written.
pub open spec fn load_outcome(old: Sampler, new: Sampler, r: Result<Sample, &'static str>, audio: Seq<u8>) -> bool {
    let size = (audio.len() % 0x1_0000) as u16;
    let id = old.next_id();
    let reuse = old.reuse_addr(size);
    let addr = match reuse {
        Some(a) => a,
        None => old.cursor(),
    };
    let sample = Sample { id, spu_addr: addr, size, in_use: true };
    let block = MemoryBlock { start_addr: addr, size, sample_id: Some(id), is_free: false };
    &&& new.next_id() == id + 1
    &&& new.cursor() == (if reuse is Some { old.cursor() } else { bumped(old.cursor(), size) })
    &&& match reuse {
        Some(a) => {
            &&& new.blocks() == merged(old.blocks(), old.samples(), a, id, size)
            &&& sample_step(old, new, r, sample)
        },
        None => match first_vacant(old.blocks()) {
            None => {
                &&& r is Err && r->Err_0@ == "No free block slots"@
                &&& new.blocks() == old.blocks()
                &&& new.samples() == old.samples()
            },
            Some(bi) => {
                &&& new.blocks() == old.blocks().update(bi, Some(block))
                &&& sample_step(old, new, r, sample)
            },
        },
    }
}

/// The SPU RAM address of a load of `audio` into `old`.
pub open spec fn load_addr(old: Sampler, audio: Seq<u8>) -> u16 {
    match old.reuse_addr((audio.len() % 0x1_0000) as u16) {
        Some(a) => a,
        None => old.cursor(),
    }
}

/// Whether two regions share an address (an empty region shares none).
pub open spec fn regions_meet(a_start: int, a_size: int, b_start: int, b_size: int) -> bool {
    a_size > 0 && b_size > 0 && a_start < b_start + b_size && b_start < a_start + a_size
}

/// A block that ends at or before `cursor` and whose id is below `next_id`.
pub open spec fn block_below(b: MemoryBlock, cursor: u16, next_id: u16) -> bool {
    &&& b.start_addr + b.size <= cursor
    &&& b.sample_id matches Some(id) ==> id < next_id
}

/// Two blocks that share no address and no id.
pub open spec fn blocks_apart(a: MemoryBlock, b: MemoryBlock) -> bool {
    &&& !regions_meet(a.start_addr as int, a.size as int, b.start_addr as int, b.size as int)
    &&& (a.sample_id is Some ==> a.sample_id != b.sample_id)
}

/// Whether a block slot holds the block of sample `s`: its id, over
/// exactly its region.
pub open spec fn holds(slot: Option<MemoryBlock>, s: Sample) -> bool {
    &&& slot is Some
    &&& slot->0.sample_id == Some(s.id)
    &&& slot->0.start_addr == s.spu_addr
    &&& slot->0.size == s.size
}

/// Loads samples into SPU RAM, reusing the room of released samples.
pub struct Sampler {
    next_id: u16,
    memory_blocks: Vec<Option<MemoryBlock>>,
    loaded_samples: Vec<Option<Sample>>,
    next_addr: u16,
    block_count: usize,
}

impl Sampler {
    pub closed spec fn next_id(&self) -> u16 {
        self.next_id
    }

    pub closed spec fn blocks(&self) -> Seq<Option<MemoryBlock>> {
        self.memory_blocks@
    }

    pub closed spec fn samples(&self) -> Seq<Option<Sample>> {
        self.loaded_samples@
    }

    pub closed spec fn cursor(&self) -> u16 {
        self.next_addr
    }

    pub closed spec fn block_count(&self) -> usize {
        self.block_count
    }

    pub open spec fn wf(&self) -> bool {
        &&& self.blocks().len() == MAX_SAMPLES
        &&& self.samples().len() == MAX_SAMPLES
        &&& self.block_count() == some_count(self.blocks())
    }

    /// The reusable blocks, in slot order.
    pub open spec fn released_blocks(&self) -> Seq<Entry> {
        released_entries(self.blocks(), self.samples(), self.blocks().len() as int)
    }

    /// The reusable blocks by start address (ties by slot).
    pub open spec fn reuse_order(&self) -> Seq<Entry> {
        self.released_blocks().sort_by(entry_leq())
    }

    /// Where a sample of `required` bytes would be placed by reuse: the
    /// start of the first run, in address order, that is large enough.
    pub open spec fn reuse_addr(&self, required: u16) -> Option<u16> {
        match first_fit(self.reuse_order(), required, 0) {
            Some(k) => Some(self.reuse_order()[k].0),
            None => None,
        }
    }

    /// The layout the sampler keeps: loaded samples and recorded blocks
    /// carry distinct ids below the id counter, no two blocks share an
    /// address, every block ends at or before the cursor, and every sample
    /// in use that holds data has a block with its id over exactly its
    /// region.
    pub open spec fn laid_out(&self) -> bool {
        &&& forall|i: int| 0 <= i < self.samples().len() && (#[trigger] self.samples()[i]) is Some
            ==> self.samples()[i]->0.id < self.next_id()
        &&& forall|i: int, j: int|
            0 <= i < self.samples().len() && 0 <= j < self.samples().len() && i != j
                && (#[trigger] self.samples()[i]) is Some && (#[trigger] self.samples()[j]) is Some
                ==> self.samples()[i]->0.id != self.samples()[j]->0.id
        &&& forall|i: int| 0 <= i < self.blocks().len() && (#[trigger] self.blocks()[i]) is Some
            ==> block_below(self.blocks()[i]->0, self.cursor(), self.next_id())
        &&& forall|i: int, j: int|
            0 <= i < self.blocks().len() && 0 <= j < self.blocks().len() && i != j
                && (#[trigger] self.blocks()[i]) is Some && (#[trigger] self.blocks()[j]) is Some
                ==> blocks_apart(self.blocks()[i]->0, self.blocks()[j]->0)
        &&& forall|i: int| 0 <= i < self.samples().len() && (#[trigger] self.samples()[i]) is Some
            && self.samples()[i]->0.in_use && self.samples()[i]->0.size > 0
            ==> exists|j: int| 0 <= j < self.blocks().len() && #[trigger] holds(self.blocks()[j], self.samples()[i]->0)
    }

    pub fn new() -> (s: Sampler)
        ensures
            s.laid_out(),
            s.wf(),
            s.next_id() == 1,
            s.cursor() == SPU_RAM_START,
            s.blocks() == Seq::new(MAX_SAMPLES as nat, |i: int| None::<MemoryBlock>),
            s.samples() == Seq::new(MAX_SAMPLES as nat, |i: int| None::<Sample>),
            s.released_blocks() == Seq::<Entry>::empty(),
            s.reuse_order() == Seq::<Entry>::empty(),
    {
        let mut memory_blocks: Vec<Option<MemoryBlock>> = Vec::new();
        let mut loaded_samples: Vec<Option<Sample>> = Vec::new();
        let mut i: usize = 0;
        while i < MAX_SAMPLES
            invariant
                i <= MAX_SAMPLES,
                memory_blocks@ == Seq::new(i as nat, |k: int| None::<MemoryBlock>),
                loaded_samples@ == Seq::new(i as nat, |k: int| None::<Sample>),
                some_count(memory_blocks@) == 0,
            decreases MAX_SAMPLES - i,
        {
            memory_blocks.push(None);
            loaded_samples.push(None);
            proof {
                assert(memory_blocks@ =~= Seq::new((i + 1) as nat, |k: int| None::<MemoryBlock>));
                assert(loaded_samples@ =~= Seq::new((i + 1) as nat, |k: int| None::<Sample>));
                assert(memory_blocks@.drop_last() =~= Seq::new(i as nat, |k: int| None::<MemoryBlock>));
            }
            i = i + 1;
        }
        let s = Sampler { next_id: 1, memory_blocks, loaded_samples, next_addr: SPU_RAM_START, block_count: 0 };
        proof {
            lemma_no_blocks_no_entries(s.blocks(), s.samples(), MAX_SAMPLES as int);
            lemma_entry_leq_total();
            s.released_blocks().lemma_sort_by_ensures(entry_leq());
            vstd::seq_lib::to_multiset_len(s.reuse_order());
            vstd::seq_lib::to_multiset_len(s.released_blocks());
            assert(s.reuse_order() =~= Seq::<Entry>::empty());
        }
        s
    }

    /// Load raw ADPCM data, reusing the room of released samples where a
    /// large enough run of it exists.  The new sample gets the next id.
    pub fn load(&mut self, audio_data: &[u8], log: &mut Vec<HwOp>) -> (r: Result<Sample, &'static str>)
        requires
            old(self).wf(),
            audio_data@.len() > 0 ==> old(self).next_id() < u16::MAX,
        ensures
            final(self).wf(),
            audio_data@.len() == 0 ==> {
                &&& r is Err && r->Err_0@ == "Empty audio data"@
                &&& *final(self) == *old(self)
                &&& final(log)@ == old(log)@
            },
            audio_data@.len() > 0 ==> {
                &&& load_outcome(*old(self), *final(self), r, audio_data@)
                &&& final(log)@ == old(log)@ + transfer_ops(load_addr(*old(self), audio_data@), audio_data@)
            },
            // The layout is kept by every load whose data stays inside the
            // 16-bit address space.
            old(self).laid_out() && (audio_data@.len() == 0
                || old(self).reuse_addr((audio_data@.len() % 0x1_0000) as u16) is Some
                || old(self).cursor() + (audio_data@.len() % 0x1_0000) <= 0xFFFF) ==> final(self).laid_out(),
    {
        if audio_data.len() == 0 {
            return Err("Empty audio data");
        }
        let ghost before = *self;
        let r = self.place(audio_data, log);
        proof {
            if before.laid_out() && (before.reuse_addr((audio_data@.len() % 0x1_0000) as u16) is Some
                || before.cursor() + (audio_data@.len() % 0x1_0000) <= 0xFFFF) {
                lemma_load_laid_out(before, *self, r, audio_data@);
            }
        }
        r
    }

    /// A load of data that is not empty.
    fn place(&mut self, audio_data: &[u8], log: &mut Vec<HwOp>) -> (r: Result<Sample, &'static str>)
        requires
            old(self).wf(),
            audio_data@.len() > 0,
            old(self).next_id() < u16::MAX,
        ensures
            final(self).wf(),
            load_outcome(*old(self), *final(self), r, audio_data@),
            final(log)@ == old(log)@ + transfer_ops(load_addr(*old(self), audio_data@), audio_data@),
    {
        let n = audio_data.len();
        let sample_size = n as u16;
        proof {
            lemma_len_u16(n);
        }

        let reusable = self.find_reusable_blocks(sample_size);
        let addr = match self.find_free_space(sample_size) {
            Some(a) => a,
            None => return Err("Not enough SPU RAM"),
        };
        let id = self.next_id;
        self.next_id = self.next_id + 1;
        self.write_sample_to_spu_ram(addr, audio_data, log);

        let sample = Sample { id, spu_addr: addr, size: sample_size, in_use: true };

        if reusable.is_some() {
            self.merge_blocks_for_reuse(addr, id, sample_size);
        } else {
            let block = MemoryBlock { start_addr: addr, size: sample_size, sample_id: Some(id), is_free: false };
            proof {
                lemma_first_vacant(self.memory_blocks@);
            }
            match find_vacant(&self.memory_blocks) {
                Some(slot) => {
                    proof {
                        lemma_some_count_bound(self.memory_blocks@);
                        lemma_some_count_update(self.memory_blocks@, slot as int, Some(block));
                    }
                    self.memory_blocks.set(slot, Some(block));
                    self.block_count = self.block_count + 1;
                },
                None => return Err("No free block slots"),
            }
        }

        proof {
            lemma_first_vacant(self.loaded_samples@);
        }
        match find_vacant(&self.loaded_samples) {
            Some(slot) => {
                self.loaded_samples.set(slot, Some(sample));
            },
            None => return Err("No free sample slots"),
        }

        Ok(sample)
    }

    /// Room for `required_size` bytes: reused room where there is, else the
    /// cursor, which advances past it.
    fn find_free_space(&mut self, required_size: u16) -> (r: Option<u16>)
        requires
            old(self).wf(),
        ensures
            final(self).wf(),
            match old(self).reuse_addr(required_size) {
                Some(a) => r == Some(a) && *final(self) == *old(self),
                None => r == Some(old(self).cursor())
                    && *final(self) == (Sampler { next_addr: bumped(old(self).cursor(), required_size), ..*old(self) }),
            },
    {
        if let Some(addr) = self.find_reusable_blocks(required_size) {
            return Some(addr);
        }

        let end_addr = (SPU_RAM_START as u32).saturating_add(SPU_RAM_SIZE);
        if (self.next_addr as u32).saturating_add(required_size as u32) <= end_addr {
            let addr = self.next_addr;
            self.next_addr = self.next_addr.saturating_add(required_size);
            Some(addr)
        } else {
            None
        }
    }

    fn write_sample_to_spu_ram(&self, addr: u16, audio_data: &[u8], log: &mut Vec<HwOp>)
        ensures
            final(log)@ == old(log)@ + transfer_ops(addr, audio_data@),
    {
        hw::transfer_to_spu_ram(addr, audio_data, log);
    }

    /// Mark the loaded sample with `sample`'s id as no longer in use, so
    /// that its room can be reused.
    pub fn deactivate(&mut self, sample: Sample)
        requires
            old(self).wf(),
        ensures
            final(self).wf(),
            final(self).blocks() == old(self).blocks(),
            final(self).next_id() == old(self).next_id(),
            final(self).cursor() == old(self).cursor(),
            final(self).samples() == match first_where(old(self).samples(), has_id(sample.id)) {
                Some(i) => old(self).samples().update(i, Some(Sample { in_use: false, ..old(self).samples()[i]->0 })),
                None => old(self).samples(),
            },
            old(self).laid_out() ==> final(self).laid_out(),
    {
        proof {
            lemma_first_where(self.samples(), has_id(sample.id));
        }
        let mut i: usize = 0;
        while i < self.loaded_samples.len()
            invariant
                i <= self.samples().len(),
                old(self).wf(),
                *self == *old(self),
                forall|j: int| 0 <= j < i ==> !(self.samples()[j] is Some && has_id(sample.id)(self.samples()[j]->0)),
            decreases self.loaded_samples.len() - i,
        {
            if let Some(s) = self.loaded_samples[i] {
                if s.id == sample.id {
                    proof {
                        lemma_first_where_is(self.samples(), has_id(sample.id), i as int);
                    }
                    self.loaded_samples.set(i, Some(Sample { in_use: false, ..s }));
                    proof {
                        lemma_deactivate_laid_out(*old(self), *self, i as int);
                    }
                    return;
                }
            }
            i = i + 1;
        }
    }

    /// The start of the first run of released blocks, in address order,
    /// that holds `required_size` bytes.
    fn find_reusable_blocks(&self, required_size: u16) -> (r: Option<u16>)
        requires
            self.wf(),
        ensures
            r == self.reuse_addr(required_size),
    {
        let mut entries: Vec<Entry> = Vec::new();
        let mut i: usize = 0;
        while i < self.memory_blocks.len()
            invariant
                self.wf(),
                i <= MAX_SAMPLES,
                entries@ == released_entries(self.blocks(), self.samples(), i as int),
            decreases MAX_SAMPLES - i,
        {
            if let Some(block) = self.memory_blocks[i] {
                if let Some(sample_id) = block.sample_id {
                    if self.is_released(sample_id) {
                        entries.push((block.start_addr, i, block.size));
                    }
                }
            }
            i = i + 1;
        }

        proof {
            lemma_released_entries_slots(self.blocks(), self.samples(), MAX_SAMPLES as int);
        }
        sort_by_start(&mut entries);
        let ghost order = self.reuse_order();
        proof {
            lemma_entry_leq_total();
            self.released_blocks().lemma_sort_by_ensures(entry_leq());
            vstd::seq_lib::lemma_sorted_unique(entries@, order, entry_leq());
        }

        let n = entries.len();
        let mut start_idx: usize = 0;
        while start_idx < n
            invariant
                order == self.reuse_order(),
                entries@ == order,
                n == order.len(),
                start_idx <= n,
                forall|k: int| 0 <= k < start_idx ==> run_size(order, k) < required_size,
            decreases n - start_idx,
        {
            let mut total_size: u32 = entries[start_idx].2 as u32;
            let start_addr: u16 = entries[start_idx].0;
            let mut current_end: u32 = start_addr as u32 + total_size;
            let mut next_idx: usize = start_idx + 1;
            while next_idx < n
                invariant
                    order == self.reuse_order(),
                    entries@ == order,
                    n == order.len(),
                    start_idx < next_idx <= n,
                    start_addr == order[start_idx as int].0,
                    current_end == entry_end(order[next_idx - 1]),
                    total_size == current_end - start_addr,
                    run_size(order, start_idx as int) == total_size + if next_idx < n && order[next_idx as int].0
                        == current_end {
                        run_size(order, next_idx as int)
                    } else {
                        0
                    },
                    forall|k: int| 0 <= k < start_idx ==> run_size(order, k) < required_size,
                ensures
                    run_size(order, start_idx as int) == total_size,
                decreases n - next_idx,
            {
                let next_block = entries[next_idx];
                if next_block.0 as u32 == current_end {
                    total_size = total_size + next_block.2 as u32;
                    current_end = next_block.0 as u32 + next_block.2 as u32;
                    if total_size >= required_size as u32 {
                        proof {
                            lemma_run_nonneg(order, next_idx + 1);
                            lemma_first_fit_at(order, required_size, 0, start_idx as int);
                        }
                        return Some(start_addr);
                    }
                } else {
                    break;
                }
                next_idx = next_idx + 1;
            }

            if total_size >= required_size as u32 {
                proof {
                    lemma_first_fit_at(order, required_size, 0, start_idx as int);
                }
                return Some(start_addr);
            }
            start_idx = start_idx + 1;
        }
        proof {
            lemma_first_fit_none(order, required_size, 0);
        }
        None
    }

    /// Give the new sample the first released block that starts at
    /// `start_addr` and drop every other released block that starts inside
    /// `[start_addr, start_addr + new_sample_size)`.
    fn merge_blocks_for_reuse(&mut self, start_addr: u16, new_sample_id: u16, new_sample_size: u16)
        requires
            old(self).wf(),
        ensures
            final(self).wf(),
            final(self).blocks() == merged(old(self).blocks(), old(self).samples(), start_addr, new_sample_id, new_sample_size),
            final(self).samples() == old(self).samples(),
            final(self).next_id() == old(self).next_id(),
            final(self).cursor() == old(self).cursor(),
    {
        let ghost blocks0 = self.blocks();
        let ghost samples = self.samples();
        let ghost cand = merge_candidate(samples, start_addr, new_sample_size);
        let ghost head = first_where(blocks0, merge_head(samples, start_addr, new_sample_size));
        proof {
            lemma_first_where(blocks0, merge_head(samples, start_addr, new_sample_size));
        }
        let mut first_block_index: Option<usize> = None;
        let mut i: usize = 0;
        while i < self.memory_blocks.len()
            invariant
                self.wf(),
                i <= MAX_SAMPLES,
                blocks0.len() == MAX_SAMPLES,
                self.samples() == samples,
                self.next_id() == old(self).next_id(),
                self.cursor() == old(self).cursor(),
                blocks0 == old(self).blocks(),
                samples == old(self).samples(),
                cand == merge_candidate(samples, start_addr, new_sample_size),
                head == first_where(blocks0, merge_head(samples, start_addr, new_sample_size)),
                head matches Some(h) ==> 0 <= h < blocks0.len() && blocks0[h] is Some
                    && merge_head(samples, start_addr, new_sample_size)(blocks0[h]->0)
                    && forall|j: int| 0 <= j < h ==> !(blocks0[j] is Some
                        && merge_head(samples, start_addr, new_sample_size)(blocks0[j]->0)),
                head is None ==> forall|j: int| 0 <= j < blocks0.len() ==> !(blocks0[j] is Some
                    && merge_head(samples, start_addr, new_sample_size)(blocks0[j]->0)),
                first_block_index == match head {
                    Some(h) => if h < i { Some(h as usize) } else { None::<usize> },
                    None => None::<usize>,
                },
                forall|j: int| 0 <= j < i ==> #[trigger] self.blocks()[j] == (if blocks0[j] is Some && cand(blocks0[j]->0)
                    && head != Some(j) { None } else { blocks0[j] }),
                forall|j: int| i <= j < MAX_SAMPLES ==> #[trigger] self.blocks()[j] == blocks0[j],
            decreases MAX_SAMPLES - i,
        {
            if let Some(block) = self.memory_blocks[i] {
                if block.start_addr >= start_addr {
                    if let Some(sample_id) = block.sample_id {
                        if self.is_released(sample_id) && (block.start_addr as u32) < (start_addr as u32) + (new_sample_size as u32) {
                            if first_block_index.is_none() && block.start_addr == start_addr {
                                proof {
                                    if let Some(h) = head {
                                        assert(h >= i);
                                        if h > i {
                                            assert(blocks0[i as int] is Some && merge_head(samples, start_addr, new_sample_size)(blocks0[i as int]->0));
                                        }
                                    } else {
                                        assert(blocks0[i as int] is Some && merge_head(samples, start_addr, new_sample_size)(blocks0[i as int]->0));
                                    }
                                }
                                first_block_index = Some(i);
                            } else {
                                proof {
                                    assert(head != Some(i as int));
                                    lemma_some_count_update(self.blocks(), i as int, None);
                                }
                                self.memory_blocks.set(i, None);
                                self.block_count = self.block_count - 1;
                            }
                        }
                    }
                }
            }
            i = i + 1;
        }

        if let Some(index) = first_block_index {
            if let Some(first_block) = self.memory_blocks[index] {
                proof {
                    lemma_some_count_update(self.blocks(), index as int, Some(MemoryBlock { sample_id: Some(new_sample_id), size: new_sample_size, is_free: false, ..first_block }));
                }
                self.memory_blocks.set(index, Some(MemoryBlock {
                    sample_id: Some(new_sample_id),
                    size: new_sample_size,
                    is_free: false,
                    ..first_block
                }));
            }
        }
        proof {
            assert(self.blocks() =~= merged(blocks0, samples, start_addr, new_sample_id, new_sample_size));
        }
    }

    /// Whether the loaded sample with id `sid` is no longer in use.
    fn is_released(&self, sid: u16) -> (r: bool)
        ensures
            r == released(self.samples(), sid),
    {
        proof {
            lemma_first_where(self.samples(), has_id(sid));
        }
        let mut k: usize = 0;
        while k < self.loaded_samples.len()
            invariant
                k <= self.samples().len(),
                forall|j: int| 0 <= j < k ==> !(self.samples()[j] is Some && has_id(sid)(self.samples()[j]->0)),
            decreases self.loaded_samples.len() - k,
        {
            if let Some(s) = self.loaded_samples[k] {
                if s.id == sid {
                    proof {
                        lemma_first_where_is(self.samples(), has_id(sid), k as int);
                    }
                    return !s.in_use;
                }
            }
            k = k + 1;
        }
        false
    }
}


/// Each released entry stands for a reusable block in its slot.
proof fn lemma_released_entry_block(blocks: Seq<Option<MemoryBlock>>, samples: Seq<Option<Sample>>, n: int, p: int)
    requires
        0 <= n <= blocks.len(),
        blocks.len() <= MAX_SAMPLES,
        0 <= p < released_entries(blocks, samples, n).len(),
    ensures
        ({
            let e = released_entries(blocks, samples, n)[p];
            &&& 0 <= e.1 < n
            &&& blocks[e.1 as int] is Some
            &&& blocks[e.1 as int]->0.start_addr == e.0
            &&& blocks[e.1 as int]->0.size == e.2
            &&& reusable_block(samples, blocks[e.1 as int]->0)
        }),
    decreases n,
{
    let prev = released_entries(blocks, samples, n - 1);
    let cur = released_entries(blocks, samples, n);
    if blocks[n - 1] is Some && reusable_block(samples, blocks[n - 1]->0) {
        let b = blocks[n - 1]->0;
        assert(cur == prev.push((b.start_addr, (n - 1) as usize, b.size)));
    } else {
        assert(cur == prev);
    }
    if p < prev.len() {
        lemma_released_entry_block(blocks, samples, n - 1, p);
        assert(cur[p] == prev[p]);
    }
}

/// A point inside the run that starts at position `k` of `order` lies in
/// one of the run's entries, at position `k` or later.
proof fn lemma_run_covers(order: Seq<Entry>, k: int, x: int) -> (m: int)
    requires
        0 <= k < order.len(),
        order[k].0 <= x < order[k].0 + run_size(order, k),
    ensures
        k <= m < order.len(),
        order[m].0 <= x < entry_end(order[m]),
    decreases order.len() - k,
{
    if x < entry_end(order[k]) {
        k
    } else {
        lemma_run_covers(order, k + 1, x)
    }
}

/// A point of the room that reuse finds for `size` bytes lies in a
/// reusable block that starts at or after the room.
proof fn lemma_reuse_tile(s: Sampler, size: u16, x: int) -> (t: int)
    requires
        s.wf(),
        s.reuse_addr(size) is Some,
        s.reuse_addr(size)->0 <= x < s.reuse_addr(size)->0 + size,
    ensures
        0 <= t < MAX_SAMPLES,
        s.blocks()[t] is Some,
        reusable_block(s.samples(), s.blocks()[t]->0),
        s.reuse_addr(size)->0 <= s.blocks()[t]->0.start_addr <= x,
        x < s.blocks()[t]->0.start_addr + s.blocks()[t]->0.size,
{
    let order = s.reuse_order();
    lemma_first_fit_bounds(order, size, 0);
    let k = first_fit(order, size, 0)->0;
    let m = lemma_run_covers(order, k, x);
    lemma_entry_leq_total();
    s.released_blocks().lemma_sort_by_ensures(entry_leq());
    if m > k {
        assert(entry_leq()(order[k], order[m]));
    }
    let e = order[m];
    assert(order.contains(e));
    assert(s.released_blocks().contains(e));
    let p = choose|p: int| 0 <= p < s.released_blocks().len() && s.released_blocks()[p] == e;
    lemma_released_entry_block(s.blocks(), s.samples(), s.blocks().len() as int, p);
    e.1 as int
}

/// The room that reuse finds ends at or before the cursor and shares no
/// address with any block that the merge keeps.
proof fn lemma_reuse_room(s: Sampler, size: u16)
    requires
        s.wf(),
        s.laid_out(),
        size > 0,
        s.reuse_addr(size) is Some,
    ensures
        s.reuse_addr(size)->0 + size <= s.cursor(),
        forall|j: int| 0 <= j < MAX_SAMPLES && (#[trigger] s.blocks()[j]) is Some
            && !merge_candidate(s.samples(), s.reuse_addr(size)->0, size)(s.blocks()[j]->0)
            ==> !regions_meet(s.reuse_addr(size)->0 as int, size as int, s.blocks()[j]->0.start_addr as int,
                s.blocks()[j]->0.size as int),
{
    let a = s.reuse_addr(size)->0;
    let t = lemma_reuse_tile(s, size, a + size - 1);
    assert(s.blocks()[t] is Some);
    assert forall|j: int| 0 <= j < MAX_SAMPLES && (#[trigger] s.blocks()[j]) is Some
        && !merge_candidate(s.samples(), a, size)(s.blocks()[j]->0)
        implies !regions_meet(a as int, size as int, s.blocks()[j]->0.start_addr as int, s.blocks()[j]->0.size as int) by {
        let b = s.blocks()[j]->0;
        if regions_meet(a as int, size as int, b.start_addr as int, b.size as int) {
            let x = if b.start_addr < a { a as int } else { b.start_addr as int };
            let u = lemma_reuse_tile(s, size, x);
            if u != j {
                assert(s.blocks()[u] is Some);
                assert(blocks_apart(s.blocks()[u]->0, s.blocks()[j]->0));
            }
        }
    }
}


/// A sample in use keeps its block through a merge: the block is not
/// reusable, so the merge neither drops nor takes it.
proof fn lemma_in_use_block_kept(s: Sampler, i: int, j: int)
    requires
        s.wf(),
        s.laid_out(),
        0 <= i < MAX_SAMPLES,
        0 <= j < MAX_SAMPLES,
        s.samples()[i] is Some,
        s.samples()[i]->0.in_use,
        holds(s.blocks()[j], s.samples()[i]->0),
    ensures
        !reusable_block(s.samples(), s.blocks()[j]->0),
{
    let id = s.samples()[i]->0.id;
    lemma_first_where(s.samples(), has_id(id));
    if let Some(k) = first_where(s.samples(), has_id(id)) {
        if k != i {
            assert(s.samples()[k] is Some && s.samples()[i] is Some);
        }
    }
}

/// A load of data that stays inside the 16-bit address space keeps the
/// layout: the room it takes shares no address with any block it keeps.
pub proof fn lemma_load_laid_out(old: Sampler, new: Sampler, r: Result<Sample, &'static str>, audio: Seq<u8>)
    requires
        old.wf(),
        new.wf(),
        old.laid_out(),
        load_outcome(old, new, r, audio),
        old.reuse_addr((audio.len() % 0x1_0000) as u16) is Some
            || old.cursor() + (audio.len() % 0x1_0000) <= 0xFFFF,
    ensures
        new.laid_out(),
{
    let size = (audio.len() % 0x1_0000) as u16;
    let id = old.next_id();
    let addr = load_addr(old, audio);
    let sample = Sample { id, spu_addr: addr, size, in_use: true };
    lemma_first_vacant(old.samples());
    lemma_first_vacant(old.blocks());
    // sample ids
    assert forall|i: int| 0 <= i < new.samples().len() && (#[trigger] new.samples()[i]) is Some
        implies new.samples()[i]->0.id < new.next_id() by {
        if new.samples()[i] != old.samples()[i] {
            assert(new.samples()[i] == Some(sample));
        } else {
            assert(old.samples()[i] is Some);
        }
    }
    assert forall|i: int, j: int|
        0 <= i < new.samples().len() && 0 <= j < new.samples().len() && i != j
            && (#[trigger] new.samples()[i]) is Some && (#[trigger] new.samples()[j]) is Some
            implies new.samples()[i]->0.id != new.samples()[j]->0.id by {
        if new.samples()[i] != old.samples()[i] {
            assert(new.samples()[j] == old.samples()[j]);
            assert(old.samples()[j] is Some);
        } else if new.samples()[j] != old.samples()[j] {
            assert(old.samples()[i] is Some);
        } else {
            assert(old.samples()[i] is Some && old.samples()[j] is Some);
        }
    }
    match old.reuse_addr(size) {
        Some(a) => {
            let head = first_where(old.blocks(), merge_head(old.samples(), a, size));
            lemma_first_where(old.blocks(), merge_head(old.samples(), a, size));
            if size > 0 {
                lemma_reuse_room(old, size);
                let t = lemma_reuse_tile(old, size, a as int);
                assert(merge_head(old.samples(), a, size)(old.blocks()[t]->0));
            } else {
                assert(head is None);
            }
            assert forall|i: int| 0 <= i < new.blocks().len() && (#[trigger] new.blocks()[i]) is Some
                implies block_below(new.blocks()[i]->0, new.cursor(), new.next_id()) by {
                if head != Some(i) {
                    assert(new.blocks()[i] == old.blocks()[i]);
                }
            }
            assert forall|i: int, j: int|
                0 <= i < new.blocks().len() && 0 <= j < new.blocks().len() && i != j
                    && (#[trigger] new.blocks()[i]) is Some && (#[trigger] new.blocks()[j]) is Some
                    implies blocks_apart(new.blocks()[i]->0, new.blocks()[j]->0) by {
                if head == Some(i) {
                    assert(new.blocks()[j] == old.blocks()[j]);
                    assert(block_below(old.blocks()[j]->0, old.cursor(), old.next_id()));
                } else if head == Some(j) {
                    assert(new.blocks()[i] == old.blocks()[i]);
                    assert(block_below(old.blocks()[i]->0, old.cursor(), old.next_id()));
                } else {
                    assert(new.blocks()[i] == old.blocks()[i] && new.blocks()[j] == old.blocks()[j]);
                }
            }
            assert forall|i: int| 0 <= i < new.samples().len() && (#[trigger] new.samples()[i]) is Some
                && new.samples()[i]->0.in_use && new.samples()[i]->0.size > 0
                implies exists|j: int| 0 <= j < new.blocks().len() && #[trigger] holds(new.blocks()[j], new.samples()[i]->0) by {
                if new.samples()[i] != old.samples()[i] {
                    let h = head->0;
                    assert(holds(new.blocks()[h], new.samples()[i]->0));
                } else {
                    assert(old.samples()[i] is Some);
                    let j = choose|j: int| 0 <= j < old.blocks().len() && #[trigger] holds(old.blocks()[j], old.samples()[i]->0);
                    lemma_in_use_block_kept(old, i, j);
                    assert(new.blocks()[j] == old.blocks()[j]);
                    assert(holds(new.blocks()[j], new.samples()[i]->0));
                }
            }
        },
        None => {
            assert forall|i: int| 0 <= i < new.blocks().len() && (#[trigger] new.blocks()[i]) is Some
                implies block_below(new.blocks()[i]->0, new.cursor(), new.next_id()) by {
                if new.blocks()[i] != old.blocks()[i] {
                } else {
                    assert(old.blocks()[i] is Some);
                }
            }
            assert forall|i: int, j: int|
                0 <= i < new.blocks().len() && 0 <= j < new.blocks().len() && i != j
                    && (#[trigger] new.blocks()[i]) is Some && (#[trigger] new.blocks()[j]) is Some
                    implies blocks_apart(new.blocks()[i]->0, new.blocks()[j]->0) by {
                if new.blocks()[i] != old.blocks()[i] {
                    assert(new.blocks()[j] == old.blocks()[j]);
                    assert(block_below(old.blocks()[j]->0, old.cursor(), old.next_id()));
                } else if new.blocks()[j] != old.blocks()[j] {
                    assert(old.blocks()[i] is Some);
                    assert(block_below(old.blocks()[i]->0, old.cursor(), old.next_id()));
                } else {
                    assert(old.blocks()[i] is Some && old.blocks()[j] is Some);
                }
            }
            assert forall|i: int| 0 <= i < new.samples().len() && (#[trigger] new.samples()[i]) is Some
                && new.samples()[i]->0.in_use && new.samples()[i]->0.size > 0
                implies exists|j: int| 0 <= j < new.blocks().len() && #[trigger] holds(new.blocks()[j], new.samples()[i]->0) by {
                if new.samples()[i] != old.samples()[i] {
                    let bi = first_vacant(old.blocks())->0;
                    assert(holds(new.blocks()[bi], new.samples()[i]->0));
                } else {
                    assert(old.samples()[i] is Some);
                    let j = choose|j: int| 0 <= j < old.blocks().len() && #[trigger] holds(old.blocks()[j], old.samples()[i]->0);
                    assert(new.blocks()[j] == old.blocks()[j]);
                    assert(holds(new.blocks()[j], new.samples()[i]->0));
                }
            }
        },
    }
}


/// Samples in use never share an address: in a sampler that keeps its
/// layout, the regions of two different loaded samples that are both in
/// use are disjoint.
pub proof fn lemma_in_use_apart(s: Sampler, i: int, j: int)
    requires
        s.wf(),
        s.laid_out(),
        0 <= i < MAX_SAMPLES,
        0 <= j < MAX_SAMPLES,
        i != j,
        s.samples()[i] is Some && s.samples()[i]->0.in_use,
        s.samples()[j] is Some && s.samples()[j]->0.in_use,
    ensures
        !regions_meet(
            s.samples()[i]->0.spu_addr as int,
            s.samples()[i]->0.size as int,
            s.samples()[j]->0.spu_addr as int,
            s.samples()[j]->0.size as int,
        ),
{
    let a = s.samples()[i]->0;
    let b = s.samples()[j]->0;
    if a.size > 0 && b.size > 0 {
        let p = choose|p: int| 0 <= p < s.blocks().len() && #[trigger] holds(s.blocks()[p], a);
        let q = choose|q: int| 0 <= q < s.blocks().len() && #[trigger] holds(s.blocks()[q], b);
        assert(a.id != b.id);
        assert(p != q);
        assert(blocks_apart(s.blocks()[p]->0, s.blocks()[q]->0));
    }
}


/// Marking one loaded sample as no longer in use keeps the layout.
proof fn lemma_deactivate_laid_out(old: Sampler, new: Sampler, i: int)
    requires
        old.wf(),
        0 <= i < MAX_SAMPLES,
        old.samples()[i] is Some,
        new.samples() == old.samples().update(i, Some(Sample { in_use: false, ..old.samples()[i]->0 })),
        new.blocks() == old.blocks(),
        new.next_id() == old.next_id(),
        new.cursor() == old.cursor(),
    ensures
        old.laid_out() ==> new.laid_out(),
{
    assert forall|a: int| 0 <= a < new.samples().len() && (#[trigger] new.samples()[a]) is Some
        implies new.samples()[a]->0.id == old.samples()[a]->0.id && old.samples()[a] is Some
            && (new.samples()[a]->0.in_use ==> new.samples()[a] == old.samples()[a]) by {}
    if old.laid_out() {
        assert forall|a: int| 0 <= a < new.samples().len() && (#[trigger] new.samples()[a]) is Some
            && new.samples()[a]->0.in_use && new.samples()[a]->0.size > 0
            implies exists|j: int| 0 <= j < new.blocks().len() && #[trigger] holds(new.blocks()[j], new.samples()[a]->0) by {
            assert(old.samples()[a] is Some);
        }
    }
}

} // verus!
