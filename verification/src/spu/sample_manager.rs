//! A sample manager that places raw ADPCM data one sample after another.

use crate::common::{
    find_vacant, lemma_len_u16, first_vacant, first_where, lemma_first_vacant, lemma_first_where, lemma_first_where_is,
    lemma_some_count_bound, lemma_some_count_full, lemma_some_count_update, lemma_total_len_mono, some_count,
    total_len, HwOp,
};
use crate::spu2::hw::{self, transfer_ops};
use vstd::prelude::*;

verus! {

pub const MAX_SAMPLES: usize = 64;
pub const SPU_RAM_START: u16 = 0x1000;
pub const SPU_RAM_SIZE: u32 = 508 * 1024;

#[derive(Clone, Copy, PartialEq, Eq, Structural, Debug)]
pub struct Sample {
    pub id: u16,
    pub spu_addr: u16,
    pub size: u16,
    pub in_use: bool,
}

impl Sample {
    pub fn is_active(&self) -> (r: bool)
        ensures
            r == self.in_use,
    {
        self.in_use
    }
}

#[derive(Clone, Copy, PartialEq, Eq, Structural, Debug)]
pub struct MemoryBlock {
    pub start_addr: u16,
    pub size: u16,
    pub sample_id: Option<u16>,
    pub is_free: bool,
}

/// Whether a sample has id `id`.
pub open spec fn has_id(id: u16) -> spec_fn(Sample) -> bool {
    |s: Sample| s.id == id
}

/// The cursor after bump-allocating `size` bytes at `next_addr`
/// (saturating at the end of the 16-bit address space).
pub open spec fn bumped(next_addr: u16, size: u16) -> u16 {
    if next_addr + size > 0xFFFF {
        0xFFFF
    } else {
        (next_addr + size) as u16
    }
}

/// Loads samples into SPU RAM one after another, numbering them from 1.
pub struct SampleManager {
    next_id: u16,
    memory_blocks: Vec<Option<MemoryBlock>>,
    loaded_samples: Vec<Option<Sample>>,
    next_addr: u16,
    block_count: usize,
}

/// The bookkeeping of a load of `audio` into `old` that produced `new`
/// and returned `r`: the cursor advances by the data length (truncated to
/// 16 bits, saturating) and the id counter by one; the sample goes into
/// the first empty sample slot and its block into the first empty block
/// slot.  When a slot table is full, the load fails at that step.
pub open spec fn bookkeeping(old: SampleManager, new: SampleManager, r: Result<Sample, &'static str>, audio: Seq<u8>) -> bool {
    let size = (audio.len() % 0x1_0000) as u16;
    let id = old.next_id();
    let sample = Sample { id, spu_addr: old.cursor(), size, in_use: true };
    let block = MemoryBlock { start_addr: old.cursor(), size, sample_id: Some(id), is_free: false };
    &&& new.next_id() == id + 1
    &&& new.cursor() == bumped(old.cursor(), size)
    &&& match first_vacant(old.samples()) {
        None => {
            &&& r is Err && r->Err_0@ == "No free sample slots"@
            &&& new.samples() == old.samples()
            &&& new.blocks() == old.blocks()
        },
        Some(si) => {
            &&& new.samples() == old.samples().update(si, Some(sample))
            &&& match first_vacant(old.blocks()) {
                None => {
                    &&& r is Err && r->Err_0@ == "No free block slots"@
                    &&& new.blocks() == old.blocks()
                },
                Some(bi) => {
                    &&& r == Ok::<Sample, &'static str>(sample)
                    &&& new.blocks() == old.blocks().update(bi, Some(block))
                },
            }
        },
    }
}

/// A load into a numbered manager keeps it numbered.  It succeeds whenever
/// a sample slot is free, and the new sample is then the one found under
/// its id.
pub proof fn lemma_load_numbered(old: SampleManager, new: SampleManager, r: Result<Sample, &'static str>, audio: Seq<u8>)
    requires
        old.wf(),
        new.wf(),
        old.numbered(),
        bookkeeping(old, new, r, audio),
    ensures
        new.numbered(),
        first_vacant(old.samples()) is Some ==> r is Ok,
        r matches Ok(s) ==> first_where(new.samples(), has_id(s.id)) == first_vacant(old.samples()),
{
    lemma_first_vacant(old.samples());
    lemma_first_vacant(old.blocks());
    if let Some(si) = first_vacant(old.samples()) {
        lemma_some_count_bound(old.samples());
        lemma_some_count_update(old.samples(), si, new.samples()[si]);
        if let Some(bi) = first_vacant(old.blocks()) {
            lemma_some_count_update(old.blocks(), bi, new.blocks()[bi]);
        } else {
            lemma_some_count_full(old.blocks());
        }
        let id = old.next_id();
        assert forall|i: int, j: int|
            0 <= i < new.samples().len() && 0 <= j < new.samples().len() && i != j
                && (#[trigger] new.samples()[i]) is Some && (#[trigger] new.samples()[j]) is Some
                implies new.samples()[i]->0.id != new.samples()[j]->0.id by {
            if i != si && j != si {
                assert(old.samples()[i] is Some && old.samples()[j] is Some);
            } else if i == si {
                assert(old.samples()[j] is Some);
            } else {
                assert(old.samples()[i] is Some);
            }
        }
        assert forall|i: int| 0 <= i < new.samples().len() && (#[trigger] new.samples()[i]) is Some
            implies 1 <= new.samples()[i]->0.id < new.next_id() by {
            if i != si {
                assert(old.samples()[i] is Some);
            }
        }
        if let Ok(smp) = r {
            assert forall|j: int| 0 <= j < si implies !(new.samples()[j] is Some && has_id(smp.id)(new.samples()[j]->0)) by {
                assert(old.samples()[j] is Some);
            }
            lemma_first_where_is(new.samples(), has_id(smp.id), si);
        }
    }
}

/// Successive loads into a fresh manager number their samples 1, 2, 3, ..
/// and place them one after another from the start of sample RAM: along a
/// history where `mgrs[i + 1]` came from `mgrs[i]` by loading `audio[i]`
/// (not empty) with result `results[i]`, load `k` gets id `k + 1` and
/// starts where the data of the loads before it ends, while that stays
/// inside the 16-bit address space.
pub proof fn lemma_successive_loads(
    mgrs: Seq<SampleManager>,
    results: Seq<Result<Sample, &'static str>>,
    audio: Seq<Seq<u8>>,
    k: int,
)
    requires
        mgrs.len() == results.len() + 1,
        audio.len() == results.len(),
        mgrs[0].next_id() == 1,
        mgrs[0].cursor() == SPU_RAM_START,
        forall|i: int| 0 <= i < results.len() ==> #[trigger] bookkeeping(mgrs[i], mgrs[i + 1], results[i], audio[i]),
        0 <= k < results.len(),
        SPU_RAM_START + total_len(audio, k + 1) <= 0xFFFF,
    ensures
        mgrs[k].next_id() == k + 1,
        mgrs[k].cursor() == SPU_RAM_START + total_len(audio, k),
        mgrs[k + 1].cursor() == SPU_RAM_START + total_len(audio, k + 1),
        results[k] matches Ok(s) ==> s.id == k + 1 && s.spu_addr == SPU_RAM_START + total_len(audio, k)
            && s.size == audio[k].len() % 0x1_0000,
    decreases k,
{
    lemma_total_len_mono(audio, k, k + 1);
    if k > 0 {
        lemma_successive_loads(mgrs, results, audio, k - 1);
        assert(bookkeeping(mgrs[k - 1], mgrs[k], results[k - 1], audio[k - 1]));
    }
    assert(bookkeeping(mgrs[k], mgrs[k + 1], results[k], audio[k]));
}

/// Two samples from such a history never overlap: the earlier one ends
/// at or before the start of the later one.
pub proof fn lemma_successive_loads_disjoint(
    mgrs: Seq<SampleManager>,
    results: Seq<Result<Sample, &'static str>>,
    audio: Seq<Seq<u8>>,
    i: int,
    j: int,
)
    requires
        mgrs.len() == results.len() + 1,
        audio.len() == results.len(),
        mgrs[0].next_id() == 1,
        mgrs[0].cursor() == SPU_RAM_START,
        forall|k: int| 0 <= k < results.len() ==> #[trigger] bookkeeping(mgrs[k], mgrs[k + 1], results[k], audio[k]),
        0 <= i < j < results.len(),
        SPU_RAM_START + total_len(audio, j + 1) <= 0xFFFF,
        results[i] is Ok,
        results[j] is Ok,
    ensures
        results[i]->Ok_0.spu_addr + results[i]->Ok_0.size <= results[j]->Ok_0.spu_addr,
{
    lemma_total_len_mono(audio, i + 1, j + 1);
    lemma_total_len_mono(audio, i + 1, j);
    lemma_successive_loads(mgrs, results, audio, i);
    lemma_successive_loads(mgrs, results, audio, j);
}

/// Marking one loaded sample as no longer in use keeps the numbering.
proof fn lemma_deactivate_numbered(old: SampleManager, new: SampleManager, i: int)
    requires
        old.wf(),
        0 <= i < MAX_SAMPLES,
        old.samples()[i] is Some,
        new.samples() == old.samples().update(i, Some(Sample { in_use: false, ..old.samples()[i]->0 })),
        new.blocks() == old.blocks(),
        new.next_id() == old.next_id(),
    ensures
        old.numbered() ==> new.numbered(),
{
    lemma_some_count_update(old.samples(), i, new.samples()[i]);
    assert forall|a: int| 0 <= a < new.samples().len() && (#[trigger] new.samples()[a]) is Some
        implies new.samples()[a]->0.id == old.samples()[a]->0.id && old.samples()[a] is Some by {}
}

impl SampleManager {
    /// The numbering the manager keeps: the id counter is at least 1, every
    /// loaded sample has an id from 1 up to below it, no two loaded samples
    /// share an id, and no more block slots are in use than sample slots.
    pub open spec fn numbered(&self) -> bool {
        &&& 1 <= self.next_id()
        &&& forall|i: int| 0 <= i < self.samples().len() && (#[trigger] self.samples()[i]) is Some
            ==> 1 <= self.samples()[i]->0.id < self.next_id()
        &&& forall|i: int, j: int|
            0 <= i < self.samples().len() && 0 <= j < self.samples().len() && i != j
                && (#[trigger] self.samples()[i]) is Some && (#[trigger] self.samples()[j]) is Some
                ==> self.samples()[i]->0.id != self.samples()[j]->0.id
        &&& some_count(self.blocks()) <= some_count(self.samples())
    }

    pub closed spec fn next_id(&self) -> u16 {
        self.next_id
    }

    pub closed spec fn blocks(&self) -> Seq<Option<MemoryBlock>> {
        self.memory_blocks@
    }

    pub closed spec fn samples(&self) -> Seq<Option<Sample>> {
        self.loaded_samples@
    }

    pub closed spec fn cursor(&self) -> u16 {
        self.next_addr
    }

    pub closed spec fn block_count(&self) -> usize {
        self.block_count
    }

    pub open spec fn wf(&self) -> bool {
        &&& self.blocks().len() == MAX_SAMPLES
        &&& self.samples().len() == MAX_SAMPLES
        &&& self.block_count() == some_count(self.blocks())
    }

    pub fn new() -> (m: SampleManager)
        ensures
            m.wf(),
            m.next_id() == 1,
            m.cursor() == SPU_RAM_START,
            m.blocks() == Seq::new(MAX_SAMPLES as nat, |i: int| None::<MemoryBlock>),
            m.samples() == Seq::new(MAX_SAMPLES as nat, |i: int| None::<Sample>),
            m.numbered(),
    {
        let mut memory_blocks: Vec<Option<MemoryBlock>> = Vec::new();
        let mut loaded_samples: Vec<Option<Sample>> = Vec::new();
        let mut i: usize = 0;
        while i < MAX_SAMPLES
            invariant
                i <= MAX_SAMPLES,
                memory_blocks@ == Seq::new(i as nat, |k: int| None::<MemoryBlock>),
                loaded_samples@ == Seq::new(i as nat, |k: int| None::<Sample>),
                some_count(memory_blocks@) == 0,
            decreases MAX_SAMPLES - i,
        {
            memory_blocks.push(None);
            loaded_samples.push(None);
            proof {
                assert(memory_blocks@ =~= Seq::new((i + 1) as nat, |k: int| None::<MemoryBlock>));
                assert(loaded_samples@ =~= Seq::new((i + 1) as nat, |k: int| None::<Sample>));
                assert(memory_blocks@.drop_last() =~= Seq::new(i as nat, |k: int| None::<MemoryBlock>));
            }
            i = i + 1;
        }
        let m = SampleManager { next_id: 1, memory_blocks, loaded_samples, next_addr: SPU_RAM_START, block_count: 0 };
        proof {
            lemma_some_count_bound(m.samples());
        }
        m
    }

    /// Load raw ADPCM data at the cursor (no alignment, no reuse).  The new
    /// sample gets the next id.
    ///
    /// The cursor and the id counter advance and the data is written even
    /// when no sample or block slot is left for the bookkeeping.
    pub fn load(&mut self, audio_data: &[u8], log: &mut Vec<HwOp>) -> (r: Result<Sample, &'static str>)
        requires
            old(self).wf(),
            audio_data@.len() > 0 ==> old(self).next_id() < u16::MAX,
        ensures
            final(self).wf(),
            audio_data@.len() == 0 ==> {
                &&& r is Err && r->Err_0@ == "Empty audio data"@
                &&& *final(self) == *old(self)
                &&& final(log)@ == old(log)@
            },
            audio_data@.len() > 0 ==> {
                &&& bookkeeping(*old(self), *final(self), r, audio_data@)
                &&& final(log)@ == old(log)@ + transfer_ops(old(self).cursor(), audio_data@)
            },
            old(self).numbered() ==> final(self).numbered(),
            // With its numbering kept, a load succeeds whenever a sample slot
            // is free, and the new sample is the one found under its id.
            old(self).numbered() && audio_data@.len() > 0 ==> {
                &&& first_vacant(old(self).samples()) is Some ==> r is Ok
                &&& r matches Ok(s) ==> first_where(final(self).samples(), has_id(s.id))
                    == first_vacant(old(self).samples())
            },
    {
        if audio_data.len() == 0 {
            return Err("Empty audio data");
        }
        let ghost before = *self;
        let r = self.load_audio(audio_data, log);
        proof {
            if before.numbered() {
                lemma_load_numbered(before, *self, r, audio_data@);
            }
        }
        r
    }

    fn load_audio(&mut self, audio_data: &[u8], log: &mut Vec<HwOp>) -> (r: Result<Sample, &'static str>)
        requires
            old(self).wf(),
            old(self).next_id() < u16::MAX,
        ensures
            final(self).wf(),
            bookkeeping(*old(self), *final(self), r, audio_data@),
            final(log)@ == old(log)@ + transfer_ops(old(self).cursor(), audio_data@),
    {
        let n = audio_data.len();
        let sample_size = n as u16;
        proof {
            lemma_len_u16(n);
        }

        let addr = match self.find_free_space(sample_size) {
            Some(a) => a,
            None => return Err("Not enough SPU RAM"),
        };
        let id = self.next_id;
        self.next_id = self.next_id + 1;

        match self.write_sample_to_spu_ram(addr, audio_data, log) {
            Ok(()) => {},
            Err(e) => return Err(e),
        }

        let sample = Sample { id, spu_addr: addr, size: sample_size, in_use: true };
        let block = MemoryBlock { start_addr: addr, size: sample_size, sample_id: Some(id), is_free: false };

        proof {
            lemma_first_vacant(self.loaded_samples@);
        }
        match find_vacant(&self.loaded_samples) {
            Some(slot) => {
                self.loaded_samples.set(slot, Some(sample));
            },
            None => return Err("No free sample slots"),
        }

        match find_vacant(&self.memory_blocks) {
            Some(slot) => {
                proof {
                    lemma_first_vacant(self.memory_blocks@);
                    lemma_some_count_bound(self.memory_blocks@);
                    lemma_some_count_update(self.memory_blocks@, slot as int, Some(block));
                }
                self.memory_blocks.set(slot, Some(block));
                self.block_count = self.block_count + 1;
            },
            None => return Err("No free block slots"),
        }

        Ok(sample)
    }

    fn find_free_space(&mut self, required_size: u16) -> (r: Option<u16>)
        requires
            old(self).wf(),
        ensures
            final(self).wf(),
            r == Some(old(self).cursor()),
            *final(self) == (SampleManager { next_addr: bumped(old(self).cursor(), required_size), ..*old(self) }),
    {
        let end_addr = (SPU_RAM_START as u32).saturating_add(SPU_RAM_SIZE);
        if (self.next_addr as u32).saturating_add(required_size as u32) <= end_addr {
            let addr = self.next_addr;
            self.next_addr = self.next_addr.saturating_add(required_size);
            Some(addr)
        } else {
            None
        }
    }

    fn write_sample_to_spu_ram(&self, addr: u16, audio_data: &[u8], log: &mut Vec<HwOp>) -> (r: Result<(), &'static str>)
        ensures
            r is Ok,
            final(log)@ == old(log)@ + transfer_ops(addr, audio_data@),
    {
        hw::transfer_to_spu_ram(addr, audio_data, log);
        Ok(())
    }

    /// Mark the loaded sample with `sample`'s id as no longer in use.
    pub fn deactivate(&mut self, sample: &Sample)
        requires
            old(self).wf(),
        ensures
            final(self).wf(),
            final(self).blocks() == old(self).blocks(),
            final(self).next_id() == old(self).next_id(),
            final(self).cursor() == old(self).cursor(),
            final(self).samples() == match first_where(old(self).samples(), has_id(sample.id)) {
                Some(i) => old(self).samples().update(i, Some(Sample { in_use: false, ..old(self).samples()[i]->0 })),
                None => old(self).samples(),
            },
            old(self).numbered() ==> final(self).numbered(),
    {
        proof {
            lemma_first_where(self.samples(), has_id(sample.id));
        }
        let mut i: usize = 0;
        while i < self.loaded_samples.len()
            invariant
                i <= self.samples().len(),
                old(self).wf(),
                *self == *old(self),
                forall|j: int| 0 <= j < i ==> !(self.samples()[j] is Some && has_id(sample.id)(self.samples()[j]->0)),
            decreases self.loaded_samples.len() - i,
        {
            if let Some(s) = self.loaded_samples[i] {
                if s.id == sample.id {
                    proof {
                        lemma_first_where_is(self.samples(), has_id(sample.id), i as int);
                    }
                    self.loaded_samples.set(i, Some(Sample { in_use: false, ..s }));
                    proof {
                        lemma_deactivate_numbered(*old(self), *self, i as int);
                    }
                    return;
                }
            }
            i = i + 1;
        }
    }
}

} // verus!
