//! Tracker data model, command bus and sample storage for the SPU, and
//! the first-generation SPU driver: a sample manager that strips VAG
//! headers and compile-time-numbered voices.

pub mod sample;
pub mod music;
pub mod bus;
pub mod reverb;
pub mod sample_manager;
pub mod voice;
pub mod sampler;
pub mod tracker;

pub use voice::Voice;

use crate::common::{
    find_vacant, lemma_len_u16, first_vacant, first_where, lemma_first_vacant, lemma_first_where, lemma_first_where_is,
    lemma_some_count_bound, lemma_some_count_full, lemma_some_count_update, lemma_total_len_mono, some_count,
    spin, total_len, w16, w32, HwOp, MemoryCell,
};
use crate::spu2::hw::{fifo_word, lemma_halfword, SPU_RAM_TRANSFER_ADDR, SPU_RAM_TRANSFER_CTRL, SPU_RAM_TRANSFER_FIFO};
use vstd::prelude::*;

verus! {

pub const SPU_BASE: usize = 0x1F801C00;
pub const SPU_VOICE_LEFT_VOL: usize = SPU_BASE + 0x00;
pub const SPU_VOICE_RIGHT_VOL: usize = SPU_BASE + 0x02;
pub const SPU_VOICE_SAMPLE_RATE: usize = SPU_BASE + 0x04;
pub const SPU_VOICE_START_ADDR: usize = SPU_BASE + 0x06;
pub const SPU_VOICE_ADSR: usize = SPU_BASE + 0x08;
pub const SPU_VOICE_REPEAT_ADDR: usize = SPU_BASE + 0x0E;
pub const SPU_KEY_ON: usize = 0x1F80_1D88;
pub const SPU_CONTROL: usize = 0x1F80_1DAA;
pub const SPU_MAIN_VOL_LEFT: usize = 0x1F80_1D80;
pub const SPU_MAIN_VOL_RIGHT: usize = 0x1F80_1D82;

pub const MAX_SAMPLES: usize = 64;
pub const SPU_RAM_START: u16 = 0x1000;
pub const SPU_RAM_SIZE: u32 = 508 * 1024;

/// Length of the VAG file header that precedes the ADPCM data.
pub const VAG_HEADER_LEN: usize = 48;

#[derive(Clone, Copy, PartialEq, Eq, Structural, Debug)]
pub struct Sample {
    pub id: u16,
    pub spu_addr: u16,
    pub size: u16,
    pub in_use: bool,
}

impl Sample {
    pub fn deactivate(&mut self)
        ensures
            *final(self) == (Sample { in_use: false, ..*old(self) }),
    {
        self.in_use = false;
    }

    pub fn is_active(&self) -> (r: bool)
        ensures
            r == self.in_use,
    {
        self.in_use
    }
}

#[derive(Clone, Copy, PartialEq, Eq, Structural, Debug)]
pub struct MemoryBlock {
    pub start_addr: u16,
    pub size: u16,
    pub sample_id: Option<u16>,
    pub is_free: bool,
}

/// Whether `s` has id `id`.
pub open spec fn has_id(id: u16) -> spec_fn(Sample) -> bool {
    |s: Sample| s.id == id
}

/// The cursor after bump-allocating `size` bytes at `next_addr`
/// (saturating at the end of the 16-bit address space).
pub open spec fn bumped(next_addr: u16, size: u16) -> u16 {
    if next_addr + size > 0xFFFF {
        0xFFFF
    } else {
        (next_addr + size) as u16
    }
}

/// The FIFO stores of the first `n` halfwords of `data`, each followed by
/// a short pause.
pub open spec fn paced_fifo_ops(data: Seq<u8>, n: int) -> Seq<HwOp>
    decreases n,
{
    if n <= 0 {
        Seq::empty()
    } else {
        paced_fifo_ops(data, n - 1) + seq![
            w16(SPU_RAM_TRANSFER_FIFO as int, fifo_word(data, n - 1)),
            HwOp::Spin { iterations: 10 },
        ]
    }
}

/// The accesses of a transfer of `data` to SPU RAM at `addr`: the address,
/// manual-write mode, then each little-endian halfword with a pause after
/// it.
pub open spec fn paced_transfer_ops(addr: u16, data: Seq<u8>) -> Seq<HwOp> {
    seq![w16(SPU_RAM_TRANSFER_ADDR as int, addr), w16(SPU_RAM_TRANSFER_CTRL as int, 4)]
        + paced_fifo_ops(data, ((data.len() + 1) / 2) as int)
}

/// Loads samples into SPU RAM one after another, numbering them from 1.
pub struct SampleManager {
    next_id: u16,
    memory_blocks: Vec<Option<MemoryBlock>>,
    loaded_samples: Vec<Option<Sample>>,
    next_addr: u16,
    block_count: usize,
}

/// A load into a numbered manager keeps it numbered.  It succeeds whenever
/// a sample slot is free, and the new sample is then the one found under
/// its id.
pub proof fn lemma_load_numbered(old: SampleManager, new: SampleManager, r: Result<Sample, &'static str>, audio: Seq<u8>)
    requires
        old.wf(),
        new.wf(),
        old.numbered(),
        bookkeeping(old, new, r, audio),
    ensures
        new.numbered(),
        first_vacant(old.samples()) is Some ==> r is Ok,
        r matches Ok(s) ==> first_where(new.samples(), has_id(s.id)) == first_vacant(old.samples()),
{
    lemma_first_vacant(old.samples());
    lemma_first_vacant(old.blocks());
    if let Some(si) = first_vacant(old.samples()) {
        lemma_some_count_bound(old.samples());
        lemma_some_count_update(old.samples(), si, new.samples()[si]);
        if let Some(bi) = first_vacant(old.blocks()) {
            lemma_some_count_update(old.blocks(), bi, new.blocks()[bi]);
        } else {
            lemma_some_count_full(old.blocks());
        }
        let id = old.next_id();
        assert forall|i: int, j: int|
            0 <= i < new.samples().len() && 0 <= j < new.samples().len() && i != j
                && (#[trigger] new.samples()[i]) is Some && (#[trigger] new.samples()[j]) is Some
                implies new.samples()[i]->0.id != new.samples()[j]->0.id by {
            if i != si && j != si {
                assert(old.samples()[i] is Some && old.samples()[j] is Some);
            } else if i == si {
                assert(old.samples()[j] is Some);
            } else {
                assert(old.samples()[i] is Some);
            }
        }
        assert forall|i: int| 0 <= i < new.samples().len() && (#[trigger] new.samples()[i]) is Some
            implies 1 <= new.samples()[i]->0.id < new.next_id() by {
            if i != si {
                assert(old.samples()[i] is Some);
            }
        }
        if let Ok(smp) = r {
            assert forall|j: int| 0 <= j < si implies !(new.samples()[j] is Some && has_id(smp.id)(new.samples()[j]->0)) by {
                assert(old.samples()[j] is Some);
            }
            lemma_first_where_is(new.samples(), has_id(smp.id), si);
        }
    }
}

/// Successive loads into a fresh manager number their samples 1, 2, 3, ..
/// and place them one after another from the start of sample RAM: along a
/// history where `mgrs[i + 1]` came from `mgrs[i]` by loading `audio[i]`
/// (not empty) with result `results[i]`, load `k` gets id `k + 1` and
/// starts where the data of the loads before it ends, while that stays
/// inside the 16-bit address space.
pub proof fn lemma_successive_loads(
    mgrs: Seq<SampleManager>,
    results: Seq<Result<Sample, &'static str>>,
    audio: Seq<Seq<u8>>,
    k: int,
)
    requires
        mgrs.len() == results.len() + 1,
        audio.len() == results.len(),
        mgrs[0].next_id() == 1,
        mgrs[0].cursor() == SPU_RAM_START,
        forall|i: int| 0 <= i < results.len() ==> #[trigger] bookkeeping(mgrs[i], mgrs[i + 1], results[i], audio[i]),
        0 <= k < results.len(),
        SPU_RAM_START + total_len(audio, k + 1) <= 0xFFFF,
    ensures
        mgrs[k].next_id() == k + 1,
        mgrs[k].cursor() == SPU_RAM_START + total_len(audio, k),
        mgrs[k + 1].cursor() == SPU_RAM_START + total_len(audio, k + 1),
        results[k] matches Ok(s) ==> s.id == k + 1 && s.spu_addr == SPU_RAM_START + total_len(audio, k)
            && s.size == audio[k].len() % 0x1_0000,
    decreases k,
{
    lemma_total_len_mono(audio, k, k + 1);
    if k > 0 {
        lemma_successive_loads(mgrs, results, audio, k - 1);
        assert(bookkeeping(mgrs[k - 1], mgrs[k], results[k - 1], audio[k - 1]));
    }
    assert(bookkeeping(mgrs[k], mgrs[k + 1], results[k], audio[k]));
}

/// Two samples from such a history never overlap: the earlier one ends
/// at or before the start of the later one.
pub proof fn lemma_successive_loads_disjoint(
    mgrs: Seq<SampleManager>,
    results: Seq<Result<Sample, &'static str>>,
    audio: Seq<Seq<u8>>,
    i: int,
    j: int,
)
    requires
        mgrs.len() == results.len() + 1,
        audio.len() == results.len(),
        mgrs[0].next_id() == 1,
        mgrs[0].cursor() == SPU_RAM_START,
        forall|k: int| 0 <= k < results.len() ==> #[trigger] bookkeeping(mgrs[k], mgrs[k + 1], results[k], audio[k]),
        0 <= i < j < results.len(),
        SPU_RAM_START + total_len(audio, j + 1) <= 0xFFFF,
        results[i] is Ok,
        results[j] is Ok,
    ensures
        results[i]->Ok_0.spu_addr + results[i]->Ok_0.size <= results[j]->Ok_0.spu_addr,
{
    lemma_total_len_mono(audio, i + 1, j + 1);
    lemma_total_len_mono(audio, i + 1, j);
    lemma_successive_loads(mgrs, results, audio, i);
    lemma_successive_loads(mgrs, results, audio, j);
}

impl SampleManager {
    /// The numbering the manager keeps: the id counter is at least 1, every
    /// loaded sample has an id from 1 up to below it, no two loaded samples
    /// share an id, and no more block slots are in use than sample slots.
    pub open spec fn numbered(&self) -> bool {
        &&& 1 <= self.next_id()
        &&& forall|i: int| 0 <= i < self.samples().len() && (#[trigger] self.samples()[i]) is Some
            ==> 1 <= self.samples()[i]->0.id < self.next_id()
        &&& forall|i: int, j: int|
            0 <= i < self.samples().len() && 0 <= j < self.samples().len() && i != j
                && (#[trigger] self.samples()[i]) is Some && (#[trigger] self.samples()[j]) is Some
                ==> self.samples()[i]->0.id != self.samples()[j]->0.id
        &&& some_count(self.blocks()) <= some_count(self.samples())
    }

    pub closed spec fn next_id(&self) -> u16 {
        self.next_id
    }

    pub closed spec fn blocks(&self) -> Seq<Option<MemoryBlock>> {
        self.memory_blocks@
    }

    pub closed spec fn samples(&self) -> Seq<Option<Sample>> {
        self.loaded_samples@
    }

    pub closed spec fn cursor(&self) -> u16 {
        self.next_addr
    }

    pub closed spec fn block_count(&self) -> usize {
        self.block_count
    }

    pub open spec fn wf(&self) -> bool {
        &&& self.blocks().len() == MAX_SAMPLES
        &&& self.samples().len() == MAX_SAMPLES
        &&& self.block_count() == some_count(self.blocks())
    }

    pub fn new() -> (m: SampleManager)
        ensures
            m.wf(),
            m.next_id() == 1,
            m.cursor() == SPU_RAM_START,
            m.blocks() == Seq::new(MAX_SAMPLES as nat, |i: int| None::<MemoryBlock>),
            m.samples() == Seq::new(MAX_SAMPLES as nat, |i: int| None::<Sample>),
            m.numbered(),
    {
        let mut memory_blocks: Vec<Option<MemoryBlock>> = Vec::new();
        let mut loaded_samples: Vec<Option<Sample>> = Vec::new();
        let mut i: usize = 0;
        while i < MAX_SAMPLES
            invariant
                i <= MAX_SAMPLES,
                memory_blocks@ == Seq::new(i as nat, |k: int| None::<MemoryBlock>),
                loaded_samples@ == Seq::new(i as nat, |k: int| None::<Sample>),
                some_count(memory_blocks@) == 0,
            decreases MAX_SAMPLES - i,
        {
            memory_blocks.push(None);
            loaded_samples.push(None);
            proof {
                assert(memory_blocks@ =~= Seq::new((i + 1) as nat, |k: int| None::<MemoryBlock>));
                assert(loaded_samples@ =~= Seq::new((i + 1) as nat, |k: int| None::<Sample>));
                assert(memory_blocks@.drop_last() =~= Seq::new(i as nat, |k: int| None::<MemoryBlock>));
            }
            i = i + 1;
        }
        let m = SampleManager { next_id: 1, memory_blocks, loaded_samples, next_addr: SPU_RAM_START, block_count: 0 };
        proof {
            lemma_some_count_bound(m.samples());
        }
        m
    }

    /// Load a VAG file: the 48-byte header is skipped and the ADPCM data
    /// is placed at the cursor (no alignment, no reuse).  The new sample
    /// gets the next id.
    ///
    /// The cursor and the id counter advance and the data is written even
    /// when no sample or block slot is left for the bookkeeping.
    pub fn load_sample(&mut self, vag_data: &[u8], log: &mut Vec<HwOp>) -> (r: Result<Sample, &'static str>)
        requires
            old(self).wf(),
            vag_data@.len() >= VAG_HEADER_LEN ==> old(self).next_id() < u16::MAX,
        ensures
            final(self).wf(),
            vag_data@.len() < VAG_HEADER_LEN ==> {
                &&& r is Err && r->Err_0@ == "Invalid VAG data"@
                &&& *final(self) == *old(self)
                &&& final(log)@ == old(log)@
            },
            vag_data@.len() >= VAG_HEADER_LEN ==> ({
                let audio = vag_data@.subrange(VAG_HEADER_LEN as int, vag_data@.len() as int);
                bookkeeping(*old(self), *final(self), r, audio)
                    && final(log)@ == old(log)@ + paced_transfer_ops(old(self).cursor(), audio)
            }),
            old(self).numbered() ==> final(self).numbered(),
            // With its numbering kept, a load succeeds whenever a sample slot
            // is free, and the new sample is the one found under its id.
            old(self).numbered() && vag_data@.len() >= VAG_HEADER_LEN ==> {
                &&& first_vacant(old(self).samples()) is Some ==> r is Ok
                &&& r matches Ok(s) ==> first_where(final(self).samples(), has_id(s.id))
                    == first_vacant(old(self).samples())
            },
    {
        if vag_data.len() < VAG_HEADER_LEN {
            return Err("Invalid VAG data");
        }
        let audio_data = &vag_data[VAG_HEADER_LEN..vag_data.len()];
        let ghost before = *self;
        let r = self.load_audio(audio_data, log);
        proof {
            if before.numbered() {
                lemma_load_numbered(before, *self, r, audio_data@);
            }
        }
        r
    }

    fn load_audio(&mut self, audio_data: &[u8], log: &mut Vec<HwOp>) -> (r: Result<Sample, &'static str>)
        requires
            old(self).wf(),
            old(self).next_id() < u16::MAX,
        ensures
            final(self).wf(),
            bookkeeping(*old(self), *final(self), r, audio_data@),
            final(log)@ == old(log)@ + paced_transfer_ops(old(self).cursor(), audio_data@),
    {
        let n = audio_data.len();
        let sample_size = n as u16;
        proof {
            lemma_len_u16(n);
        }

        let addr = match self.find_free_space(sample_size) {
            Some(a) => a,
            None => return Err("Not enough SPU RAM"),
        };
        let id = self.next_id;
        self.next_id = self.next_id + 1;

        match self.write_sample_to_spu_ram(addr, audio_data, log) {
            Ok(()) => {},
            Err(e) => return Err(e),
        }

        let sample = Sample { id, spu_addr: addr, size: sample_size, in_use: true };
        let block = MemoryBlock { start_addr: addr, size: sample_size, sample_id: Some(id), is_free: false };

        proof {
            lemma_first_vacant(self.loaded_samples@);
        }
        match find_vacant(&self.loaded_samples) {
            Some(slot) => {
                self.loaded_samples.set(slot, Some(sample));
            },
            None => return Err("No free sample slots"),
        }

        match find_vacant(&self.memory_blocks) {
            Some(slot) => {
                proof {
                    lemma_first_vacant(self.memory_blocks@);
                    lemma_some_count_bound(self.memory_blocks@);
                    lemma_some_count_update(self.memory_blocks@, slot as int, Some(block));
                }
                self.memory_blocks.set(slot, Some(block));
                self.block_count = self.block_count + 1;
            },
            None => return Err("No free block slots"),
        }

        Ok(sample)
    }

    fn find_free_space(&mut self, required_size: u16) -> (r: Option<u16>)
        requires
            old(self).wf(),
        ensures
            final(self).wf(),
            r == Some(old(self).cursor()),
            *final(self) == (SampleManager { next_addr: bumped(old(self).cursor(), required_size), ..*old(self) }),
    {
        let end_addr = (SPU_RAM_START as u32).saturating_add(SPU_RAM_SIZE);
        if (self.next_addr as u32).saturating_add(required_size as u32) <= end_addr {
            let addr = self.next_addr;
            self.next_addr = self.next_addr.saturating_add(required_size);
            Some(addr)
        } else {
            None
        }
    }

    fn write_sample_to_spu_ram(&self, addr: u16, audio_data: &[u8], log: &mut Vec<HwOp>) -> (r: Result<(), &'static str>)
        ensures
            r is Ok,
            final(log)@ == old(log)@ + paced_transfer_ops(addr, audio_data@),
    {
        MemoryCell::<u16>::new(SPU_RAM_TRANSFER_ADDR).set(addr, log);
        MemoryCell::<u16>::new(SPU_RAM_TRANSFER_CTRL).set(0x0004, log);
        let fifo = MemoryCell::<u16>::new(SPU_RAM_TRANSFER_FIFO);
        let ghost start = log@;
        let mut i: usize = 0;
        while i < audio_data.len()
            invariant
                i <= audio_data.len(),
                i % 2 == 0 || i == audio_data.len(),
                fifo.addr() == SPU_RAM_TRANSFER_FIFO,
                start == old(log)@ + seq![w16(SPU_RAM_TRANSFER_ADDR as int, addr), w16(SPU_RAM_TRANSFER_CTRL as int, 4)],
                log@ == start + paced_fifo_ops(audio_data@, (i + 1) / 2),
            decreases audio_data.len() - i,
        {
            let word: u16 = if i + 1 < audio_data.len() {
                let lo = audio_data[i];
                let hi = audio_data[i + 1];
                proof {
                    lemma_halfword(lo, hi);
                }
                (hi as u16) << 8 | lo as u16
            } else {
                audio_data[i] as u16
            };
            assert(word == fifo_word(audio_data@, (i / 2) as int));
            fifo.set(word, log);
            spin(10, log);
            let step: usize = if i + 1 < audio_data.len() { 2 } else { 1 };
            proof {
                assert((i + step + 1) / 2 == (i + 1) / 2 + 1);
                assert(log@ =~= start + paced_fifo_ops(audio_data@, (i + step + 1) / 2));
            }
            i = i + step;
        }
        proof {
            assert(log@ =~= old(log)@ + paced_transfer_ops(addr, audio_data@));
        }
        Ok(())
    }

    pub fn get_sample(&self, id: u16) -> (r: Option<&Sample>)
        requires
            self.wf(),
        ensures
            r == match first_where(self.samples(), has_id(id)) {
                Some(i) => Some(&self.samples()[i]->0),
                None => None::<&Sample>,
            },
    {
        proof {
            lemma_first_where(self.samples(), has_id(id));
        }
        let mut i: usize = 0;
        while i < self.loaded_samples.len()
            invariant
                i <= self.samples().len(),
                forall|j: int| 0 <= j < i ==> !(self.samples()[j] is Some && has_id(id)(self.samples()[j]->0)),
            decreases self.loaded_samples.len() - i,
        {
            match &self.loaded_samples[i] {
                Some(s) => {
                    if s.id == id {
                        proof {
                            lemma_first_where_is(self.samples(), has_id(id), i as int);
                        }
                        return Some(s);
                    }
                },
                None => {},
            }
            i = i + 1;
        }
        None
    }

    pub fn get_sample_mut(&mut self, id: u16) -> (r: Option<&mut Sample>)
        requires
            old(self).wf(),
        ensures
            match first_where(old(self).samples(), has_id(id)) {
                Some(i) => r is Some && *r->0 == old(self).samples()[i]->0
                    && final(self).samples() == old(self).samples().update(i, Some(*final(r->0)))
                    && final(self).blocks() == old(self).blocks()
                    && final(self).next_id() == old(self).next_id()
                    && final(self).cursor() == old(self).cursor()
                    && final(self).block_count() == old(self).block_count(),
                None => r is None && *final(self) == *old(self),
            },
    {
        proof {
            lemma_first_where(self.samples(), has_id(id));
        }
        let mut i: usize = 0;
        while i < self.loaded_samples.len()
            invariant
                i <= self.samples().len(),
                *self == *old(self),
                forall|j: int| 0 <= j < i ==> !(self.samples()[j] is Some && has_id(id)(self.samples()[j]->0)),
            decreases self.loaded_samples.len() - i,
        {
            let matches = match &self.loaded_samples[i] {
                Some(s) => s.id == id,
                None => false,
            };
            if matches {
                proof {
                    lemma_first_where_is(self.samples(), has_id(id), i as int);
                }
                return self.loaded_samples[i].as_mut();
            }
            i = i + 1;
        }
        None
    }
}

/// The bookkeeping of a load of `audio` into `old` that produced `new`
/// and returned `r`: the cursor advances by the data length (truncated to
/// 16 bits, saturating) and the id counter by one; the sample goes into
/// the first empty sample slot and its block into the first empty block
/// slot.  When a slot table is full, the load fails at that step.
pub open spec fn bookkeeping(old: SampleManager, new: SampleManager, r: Result<Sample, &'static str>, audio: Seq<u8>) -> bool {
    let size = (audio.len() % 0x1_0000) as u16;
    let id = old.next_id();
    let sample = Sample { id, spu_addr: old.cursor(), size, in_use: true };
    let block = MemoryBlock { start_addr: old.cursor(), size, sample_id: Some(id), is_free: false };
    &&& new.next_id() == id + 1
    &&& new.cursor() == bumped(old.cursor(), size)
    &&& match first_vacant(old.samples()) {
        None => {
            &&& r is Err && r->Err_0@ == "No free sample slots"@
            &&& new.samples() == old.samples()
            &&& new.blocks() == old.blocks()
        },
        Some(si) => {
            &&& new.samples() == old.samples().update(si, Some(sample))
            &&& match first_vacant(old.blocks()) {
                None => {
                    &&& r is Err && r->Err_0@ == "No free block slots"@
                    &&& new.blocks() == old.blocks()
                },
                Some(bi) => {
                    &&& r == Ok::<Sample, &'static str>(sample)
                    &&& new.blocks() == old.blocks().update(bi, Some(block))
                },
            }
        },
    }
}

/// The first-generation SPU driver: powers the unit on and owns a
/// [`SampleManager`].
pub struct SPU {
    pub sample_manager: SampleManager,
}

/// The accesses of [`SPU::new`].
pub open spec fn spu_power_on_ops() -> Seq<HwOp> {
    seq![
        w16(SPU_CONTROL as int, 0xC000),
        HwOp::Spin { iterations: 100000 },
        w16(SPU_CONTROL as int, 0xC001),
        w32(SPU_MAIN_VOL_LEFT as int, 0x3FFF),
        w32(SPU_MAIN_VOL_RIGHT as int, 0x3FFF),
        HwOp::Spin { iterations: 50000 },
    ]
}

impl SPU {
    /// Reset the SPU, enable it with CD audio off, and set the main volume
    /// to maximum (written as 32-bit stores), pausing after the reset and
    /// at the end.
    pub fn new(log: &mut Vec<HwOp>) -> (s: SPU)
        ensures
            s.sample_manager.wf(),
            s.sample_manager.next_id() == 1,
            s.sample_manager.cursor() == SPU_RAM_START,
            s.sample_manager.blocks() == Seq::new(MAX_SAMPLES as nat, |i: int| None::<MemoryBlock>),
            s.sample_manager.samples() == Seq::new(MAX_SAMPLES as nat, |i: int| None::<Sample>),
            s.sample_manager.numbered(),
            final(log)@ == old(log)@ + spu_power_on_ops(),
    {
        // Reset, and give it time
        MemoryCell::<u16>::new(SPU_CONTROL).set(0xC000, log);
        spin(100000, log);
        // Enable SPU, CD audio off
        MemoryCell::<u16>::new(SPU_CONTROL).set(0xC001, log);
        // Main volume (maximum)
        MemoryCell::<u32>::new(SPU_MAIN_VOL_LEFT).set(0x3FFF, log);
        MemoryCell::<u32>::new(SPU_MAIN_VOL_RIGHT).set(0x3FFF, log);
        // Let the settings take hold
        spin(50000, log);
        assert(log@ =~= old(log)@ + spu_power_on_ops());
        SPU { sample_manager: SampleManager::new() }
    }

    pub fn load_sample(&mut self, vag_data: &[u8], log: &mut Vec<HwOp>) -> (r: Result<Sample, &'static str>)
        requires
            old(self).sample_manager.wf(),
            vag_data@.len() >= VAG_HEADER_LEN ==> old(self).sample_manager.next_id() < u16::MAX,
        ensures
            final(self).sample_manager.wf(),
            vag_data@.len() < VAG_HEADER_LEN ==> {
                &&& r is Err && r->Err_0@ == "Invalid VAG data"@
                &&& final(self).sample_manager == old(self).sample_manager
                &&& final(log)@ == old(log)@
            },
            vag_data@.len() >= VAG_HEADER_LEN ==> ({
                let audio = vag_data@.subrange(VAG_HEADER_LEN as int, vag_data@.len() as int);
                bookkeeping(old(self).sample_manager, final(self).sample_manager, r, audio)
                    && final(log)@ == old(log)@ + paced_transfer_ops(old(self).sample_manager.cursor(), audio)
            }),
            old(self).sample_manager.numbered() ==> final(self).sample_manager.numbered(),
            old(self).sample_manager.numbered() && vag_data@.len() >= VAG_HEADER_LEN ==> {
                &&& first_vacant(old(self).sample_manager.samples()) is Some ==> r is Ok
                &&& r matches Ok(s) ==> first_where(final(self).sample_manager.samples(), has_id(s.id))
                    == first_vacant(old(self).sample_manager.samples())
            },
    {
        self.sample_manager.load_sample(vag_data, log)
    }

    pub fn get_sample(&self, id: u16) -> (r: Option<&Sample>)
        requires
            self.sample_manager.wf(),
        ensures
            r == match first_where(self.sample_manager.samples(), has_id(id)) {
                Some(i) => Some(&self.sample_manager.samples()[i]->0),
                None => None::<&Sample>,
            },
    {
        self.sample_manager.get_sample(id)
    }

    pub fn get_sample_mut(&mut self, id: u16) -> (r: Option<&mut Sample>)
        requires
            old(self).sample_manager.wf(),
        ensures
            match first_where(old(self).sample_manager.samples(), has_id(id)) {
                Some(i) => r is Some && *r->0 == old(self).sample_manager.samples()[i]->0
                    && final(self).sample_manager.samples() == old(self).sample_manager.samples().update(i, Some(*final(r->0)))
                    && final(self).sample_manager.blocks() == old(self).sample_manager.blocks()
                    && final(self).sample_manager.next_id() == old(self).sample_manager.next_id()
                    && final(self).sample_manager.cursor() == old(self).sample_manager.cursor(),
                None => r is None && final(self).sample_manager == old(self).sample_manager,
            },
    {
        self.sample_manager.get_sample_mut(id)
    }
}

} // verus!
