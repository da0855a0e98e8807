//! Sample storage in SPU RAM, bounded above by the reverb work area.

use crate::common::{lemma_len_u16, HwOp};
use crate::spu2::hw::{self, transfer_ops};
use vstd::prelude::*;

verus! {

pub const SPU_RAM_START: u16 = 0x1000;

pub const ADPCM_BLOCK_ALIGN: u16 = 16;

/// Typed sample index used to reference loaded samples.
#[derive(Clone, Copy, PartialEq, Eq, Structural, Debug)]
pub struct SampleId(pub u8);

/// Reference to audio data already loaded into SPU RAM.
#[derive(Clone, Copy, PartialEq, Eq, Structural, Debug)]
pub struct SampleRef {
    pub spu_addr: u16,
    pub size: u16,
}

/// `addr` rounded up to the next multiple of 16.
pub open spec fn align16(addr: int) -> int {
    ((addr + 15) / 16) * 16
}

/// Where a sample of `len` bytes goes when the cursor is at `cursor`: the
/// next 16-byte boundary, with the size truncated to 16 bits; `None` when
/// it would pass the end of the address space or `limit`.
pub open spec fn placement(cursor: u16, limit: u16, len: nat) -> Option<SampleRef> {
    let addr = align16(cursor as int);
    let size = (len % 0x1_0000) as int;
    if addr + size > 0xFFFF || addr + size > limit {
        None
    } else {
        Some(SampleRef { spu_addr: addr as u16, size: size as u16 })
    }
}

/// The slots, cursor and access log after loading `data` under id `id`
/// into a bank of `max` slots (unchanged when the load is refused).
pub open spec fn load_step(
    max: int,
    slots: Seq<Option<SampleRef>>,
    cursor: u16,
    limit: u16,
    id: u8,
    data: Seq<u8>,
    ops: Seq<HwOp>,
) -> (Seq<Option<SampleRef>>, u16, Seq<HwOp>) {
    if id >= max || data.len() == 0 {
        (slots, cursor, ops)
    } else {
        match placement(cursor, limit, data.len()) {
            Some(s) => (slots.update(id as int, Some(s)), (s.spu_addr + s.size) as u16, ops + transfer_ops(s.spu_addr, data)),
            None => (slots, cursor, ops),
        }
    }
}

/// What every call on a bank but `reset` keeps: the cursor never moves
/// back, and a sample handed out lies between the cursor before the call
/// and the cursor after it.
pub open spec fn advances<const MAX: usize>(before: SampleBank<MAX>, after: SampleBank<MAX>, loaded: Option<SampleRef>) -> bool {
    &&& before.cursor() <= after.cursor()
    &&& loaded matches Some(s) ==> before.cursor() <= s.spu_addr && s.spu_addr + s.size <= after.cursor()
}

/// The sample a load result hands out, if any.
pub open spec fn handed_out(r: Result<SampleRef, &'static str>) -> Option<SampleRef> {
    match r {
        Ok(s) => Some(s),
        Err(_) => None,
    }
}

/// Along a history of calls without `reset`, the cursor never moves back.
proof fn lemma_cursor_monotone<const MAX: usize>(banks: Seq<SampleBank<MAX>>, loaded: Seq<Option<SampleRef>>, a: int, b: int)
    requires
        banks.len() == loaded.len() + 1,
        forall|k: int| 0 <= k < loaded.len() ==> #[trigger] advances(banks[k], banks[k + 1], loaded[k]),
        0 <= a <= b < banks.len(),
    ensures
        banks[a].cursor() <= banks[b].cursor(),
    decreases b - a,
{
    if a < b {
        assert(advances(banks[a], banks[a + 1], loaded[a]));
        lemma_cursor_monotone(banks, loaded, a + 1, b);
    }
}

/// Samples loaded since the last reset never overlap: along a history of
/// banks where each call (a load or a change of the limit) took `banks[k]`
/// to `banks[k + 1]` and handed out `loaded[k]`, a sample handed out
/// earlier ends at or before the start of any sample handed out later.
pub proof fn lemma_loads_disjoint<const MAX: usize>(
    banks: Seq<SampleBank<MAX>>,
    loaded: Seq<Option<SampleRef>>,
    i: int,
    j: int,
)
    requires
        banks.len() == loaded.len() + 1,
        forall|k: int| 0 <= k < loaded.len() ==> #[trigger] advances(banks[k], banks[k + 1], loaded[k]),
        0 <= i < j < loaded.len(),
        loaded[i] is Some,
        loaded[j] is Some,
    ensures
        loaded[i]->0.spu_addr + loaded[i]->0.size <= loaded[j]->0.spu_addr,
{
    assert(advances(banks[i], banks[i + 1], loaded[i]));
    assert(advances(banks[j], banks[j + 1], loaded[j]));
    lemma_cursor_monotone(banks, loaded, i + 1, j);
}

/// Manages sample storage in SPU RAM.
///
/// Samples are loaded sequentially into SPU RAM. There is no compaction or
/// block reuse in this version -- call [`reset`](SampleBank::reset) to wipe
/// everything (e.g. when switching sound projects).
pub struct SampleBank<const MAX: usize> {
    slots: Vec<Option<SampleRef>>,
    next_addr: u16,
    /// Upper address bound (exclusive). Set to the reverb work area start
    /// when reverb is enabled, preventing sample data from colliding with it.
    addr_limit: u16,
}

impl<const MAX: usize> SampleBank<MAX> {
    /// The sample registered under each id.
    pub closed spec fn slots(&self) -> Seq<Option<SampleRef>> {
        self.slots@
    }

    /// Where the next sample would be placed before alignment.
    pub closed spec fn cursor(&self) -> u16 {
        self.next_addr
    }

    pub closed spec fn limit(&self) -> u16 {
        self.addr_limit
    }

    /// Every registered sample lies at a 16-aligned address at or above
    /// `SPU_RAM_START`, ends at or before the cursor, and no two overlap.
    pub closed spec fn wf(&self) -> bool {
        &&& self.slots@.len() == MAX
        &&& SPU_RAM_START <= self.next_addr
        &&& forall|i: int| 0 <= i < MAX && (#[trigger] self.slots@[i]) is Some ==> {
            let s = self.slots@[i]->0;
            &&& SPU_RAM_START <= s.spu_addr
            &&& s.spu_addr % 16 == 0
            &&& s.spu_addr + s.size <= self.next_addr
        }
        &&& forall|i: int, j: int|
            0 <= i < MAX && 0 <= j < MAX && i != j && (#[trigger] self.slots@[i]) is Some
                && (#[trigger] self.slots@[j]) is Some ==> {
                let a = self.slots@[i]->0;
                let b = self.slots@[j]->0;
                a.spu_addr + a.size <= b.spu_addr || b.spu_addr + b.size <= a.spu_addr
            }
    }

    pub proof fn lemma_slots_len(self)
        requires
            self.wf(),
        ensures
            self.slots().len() == MAX,
    {
    }

    /// Loaded samples never overlap: every registered sample starts on a
    /// 16-byte boundary at or above `SPU_RAM_START`, ends at or before the
    /// cursor, and the regions of two different ids are disjoint.
    pub proof fn lemma_samples_disjoint(self)
        requires
            self.wf(),
        ensures
            forall|i: int| 0 <= i < MAX && (#[trigger] self.slots()[i]) is Some ==> {
                let s = self.slots()[i]->0;
                &&& SPU_RAM_START <= s.spu_addr
                &&& s.spu_addr % 16 == 0
                &&& s.spu_addr + s.size <= self.cursor()
            },
            forall|i: int, j: int|
                0 <= i < MAX && 0 <= j < MAX && i != j && (#[trigger] self.slots()[i]) is Some
                    && (#[trigger] self.slots()[j]) is Some ==> {
                    let a = self.slots()[i]->0;
                    let b = self.slots()[j]->0;
                    a.spu_addr + a.size <= b.spu_addr || b.spu_addr + b.size <= a.spu_addr
                },
    {
    }

    pub fn new() -> (b: SampleBank<MAX>)
        ensures
            b.wf(),
            b.slots() == Seq::new(MAX as nat, |i: int| None::<SampleRef>),
            b.cursor() == SPU_RAM_START,
            b.limit() == u16::MAX,
    {
        SampleBank { slots: empty_slots(MAX), next_addr: SPU_RAM_START, addr_limit: u16::MAX }
    }

    /// Set the upper address bound to the reverb work area start.
    /// Pass `u16::MAX` to remove the limit (e.g. when reverb is disabled).
    pub fn set_addr_limit(&mut self, limit: u16)
        requires
            old(self).wf(),
        ensures
            final(self).wf(),
            final(self).slots() == old(self).slots(),
            final(self).cursor() == old(self).cursor(),
            final(self).limit() == limit,
            advances(*old(self), *final(self), None),
    {
        self.addr_limit = limit;
    }

    /// Load raw audio bytes into SPU RAM and register them under `id`.
    ///
    /// Returns a reference to the loaded sample, or an error if the slot
    /// is out of range or there is no space left.
    ///
    /// The sample is placed at the cursor rounded up to a 16-byte ADPCM
    /// block; its recorded size is the data length truncated to 16 bits.
    pub fn load(&mut self, id: SampleId, data: &[u8], log: &mut Vec<HwOp>) -> (r: Result<SampleRef, &'static str>)
        requires
            old(self).wf(),
        ensures
            final(self).wf(),
            final(self).limit() == old(self).limit(),
            advances(*old(self), *final(self), handed_out(r)),
            ({
                let (slots, cursor, ops) = load_step(MAX as int, old(self).slots(), old(self).cursor(), old(self).limit(), id.0, data@, old(log)@);
                &&& final(self).slots() == slots
                &&& final(self).cursor() == cursor
                &&& final(log)@ == ops
            }),
            if id.0 >= MAX {
                r is Err && r->Err_0@ == "bad sample id"@
            } else if data@.len() == 0 {
                r is Err && r->Err_0@ == "empty sample"@
            } else {
                match placement(old(self).cursor(), old(self).limit(), data@.len()) {
                    Some(s) => r == Ok::<SampleRef, &'static str>(s),
                    None => r is Err && r->Err_0@ == "spu ram full"@,
                }
            },
    {
        let slot = id.0 as usize;
        if slot >= MAX {
            return Err("bad sample id");
        }
        if data.len() == 0 {
            return Err("empty sample");
        }

        let n = data.len();
        let size = n as u16;
        proof {
            lemma_len_u16(n);
        }
        let addr = match align_up_to(self.next_addr, ADPCM_BLOCK_ALIGN) {
            Some(a) => a,
            None => return Err("spu ram full"),
        };
        let end = match addr.checked_add(size) {
            Some(e) => e,
            None => return Err("spu ram full"),
        };
        if end > self.addr_limit {
            return Err("spu ram full");
        }
        self.next_addr = end;

        hw::transfer_to_spu_ram(addr, data, log);

        let s = SampleRef { spu_addr: addr, size };
        self.slots.set(slot, Some(s));
        proof {
            assert forall|i: int, j: int|
                0 <= i < MAX && 0 <= j < MAX && i != j && (#[trigger] self.slots@[i]) is Some
                    && (#[trigger] self.slots@[j]) is Some implies {
                    let a = self.slots@[i]->0;
                    let b = self.slots@[j]->0;
                    a.spu_addr + a.size <= b.spu_addr || b.spu_addr + b.size <= a.spu_addr
                } by {
                if i != slot as int && j != slot as int {
                    assert(old(self).slots@[i] == self.slots@[i]);
                    assert(old(self).slots@[j] == self.slots@[j]);
                } else if i == slot as int {
                    assert(old(self).slots@[j] == self.slots@[j]);
                } else {
                    assert(old(self).slots@[i] == self.slots@[i]);
                }
            }
        }
        Ok(s)
    }

    pub fn get(&self, id: SampleId) -> (r: Option<&SampleRef>)
        requires
            self.wf(),
        ensures
            match r {
                Some(s) => (id.0 as int) < MAX && self.slots()[id.0 as int] == Some(*s),
                None => (id.0 as int) >= MAX || self.slots()[id.0 as int] is None,
            },
    {
        let slot = id.0 as usize;
        if slot < self.slots.len() {
            self.slots[slot].as_ref()
        } else {
            None
        }
    }

    /// Wipe all loaded samples and reset the RAM cursor.
    /// Use this before loading a new sound project.
    pub fn reset(&mut self)
        requires
            old(self).wf(),
        ensures
            final(self).wf(),
            final(self).slots() == Seq::new(MAX as nat, |i: int| None::<SampleRef>),
            final(self).cursor() == SPU_RAM_START,
            final(self).limit() == old(self).limit(),
    {
        self.slots = empty_slots(MAX);
        self.next_addr = SPU_RAM_START;
        // addr_limit is intentionally preserved across resets
    }
}

/// A table of `n` empty sample slots.
pub fn empty_slots(n: usize) -> (v: Vec<Option<SampleRef>>)
    ensures
        v@ == Seq::new(n as nat, |i: int| None::<SampleRef>),
{
    let mut v: Vec<Option<SampleRef>> = Vec::new();
    let mut i: usize = 0;
    while i < n
        invariant
            i <= n,
            v@ == Seq::new(i as nat, |k: int| None::<SampleRef>),
        decreases n - i,
    {
        v.push(None);
        proof {
            assert(v@ =~= Seq::new((i + 1) as nat, |k: int| None::<SampleRef>));
        }
        i = i + 1;
    }
    v
}

/// Round `addr` up to a multiple of `align`, or `None` when the result
/// does not fit in 16 bits.
fn align_up_to(addr: u16, align: u16) -> (r: Option<u16>)
    requires
        align == ADPCM_BLOCK_ALIGN,
    ensures
        match r {
            Some(a) => a == align16(addr as int),
            None => align16(addr as int) > 0xFFFF,
        },
{
    let mask = (align - 1) as u32;
    let aligned = ((addr as u32) + mask) & !mask;
    assert(aligned == (addr + 15) / 16 * 16) by (bit_vector)
        requires
            mask == 15u32,
            aligned == (((addr as u32) + mask) as u32) & !mask;
    if aligned > u16::MAX as u32 {
        None
    } else {
        Some(aligned as u16)
    }
}

} // verus!
