//! Sample storage in SPU RAM without alignment or an upper bound: each
//! sample goes at the cursor, which then advances modulo 0x10000.

use crate::common::{lemma_len_u16, HwOp};
use crate::spu2::hw::{self, transfer_ops};
use vstd::prelude::*;

verus! {

pub const SPU_RAM_START: u16 = 0x1000;

/// Typed sample index used to reference loaded samples.
#[derive(Clone, Copy, PartialEq, Eq, Structural, Debug)]
pub struct SampleId(pub u8);

/// Reference to audio data already loaded into SPU RAM.
#[derive(Clone, Copy, PartialEq, Eq, Structural, Debug)]
pub struct SampleRef {
    pub spu_addr: u16,
    pub size: u16,
}

/// Manages sample storage in SPU RAM.
///
/// Samples are loaded sequentially into SPU RAM. There is no compaction or
/// block reuse in this version -- call [`reset`](SampleBank::reset) to wipe
/// everything (e.g. when switching sound projects).
pub struct SampleBank<const MAX: usize> {
    slots: Vec<Option<SampleRef>>,
    next_addr: u16,
}

/// A table of `n` empty sample slots.
fn no_samples(n: usize) -> (v: Vec<Option<SampleRef>>)
    ensures
        v@ == Seq::new(n as nat, |i: int| None::<SampleRef>),
{
    let mut v: Vec<Option<SampleRef>> = Vec::new();
    let mut i: usize = 0;
    while i < n
        invariant
            i <= n,
            v@ == Seq::new(i as nat, |k: int| None::<SampleRef>),
        decreases n - i,
    {
        v.push(None);
        proof {
            assert(v@ =~= Seq::new((i + 1) as nat, |k: int| None::<SampleRef>));
        }
        i = i + 1;
    }
    v
}

impl<const MAX: usize> SampleBank<MAX> {
    /// The sample registered under each id.
    pub closed spec fn slots(&self) -> Seq<Option<SampleRef>> {
        self.slots@
    }

    /// Where the next sample goes.
    pub closed spec fn cursor(&self) -> u16 {
        self.next_addr
    }

    pub open spec fn wf(&self) -> bool {
        self.slots().len() == MAX
    }

    pub fn new() -> (b: SampleBank<MAX>)
        ensures
            b.wf(),
            b.slots() == Seq::new(MAX as nat, |i: int| None::<SampleRef>),
            b.cursor() == SPU_RAM_START,
    {
        SampleBank { slots: no_samples(MAX), next_addr: SPU_RAM_START }
    }

    /// Load raw audio bytes into SPU RAM and register them under `id`.
    ///
    /// Returns the loaded sample, or an error if the slot is out of range
    /// or the data is empty.  The sample goes at the cursor with its size
    /// truncated to 16 bits, and the cursor advances by that size modulo
    /// 0x10000.
    pub fn load(&mut self, id: SampleId, data: &[u8], log: &mut Vec<HwOp>) -> (r: Result<SampleRef, &'static str>)
        requires
            old(self).wf(),
        ensures
            final(self).wf(),
            id.0 >= MAX ==> {
                &&& r is Err && r->Err_0@ == "sample id out of range"@
                &&& final(self).slots() == old(self).slots() && final(self).cursor() == old(self).cursor()
                &&& final(log)@ == old(log)@
            },
            id.0 < MAX && data@.len() == 0 ==> {
                &&& r is Err && r->Err_0@ == "empty audio data"@
                &&& final(self).slots() == old(self).slots() && final(self).cursor() == old(self).cursor()
                &&& final(log)@ == old(log)@
            },
            id.0 < MAX && data@.len() > 0 ==> {
                let s = SampleRef { spu_addr: old(self).cursor(), size: (data@.len() % 0x1_0000) as u16 };
                &&& r == Ok::<SampleRef, &'static str>(s)
                &&& final(self).slots() == old(self).slots().update(id.0 as int, Some(s))
                &&& final(self).cursor() == (old(self).cursor() + s.size) % 0x1_0000
                &&& final(log)@ == old(log)@ + transfer_ops(old(self).cursor(), data@)
            },
    {
        let slot = id.0 as usize;
        if slot >= MAX {
            return Err("sample id out of range");
        }
        if data.len() == 0 {
            return Err("empty audio data");
        }

        let n = data.len();
        let size = n as u16;
        proof {
            lemma_len_u16(n);
        }
        let addr = self.next_addr;
        self.next_addr = self.next_addr.wrapping_add(size);

        hw::transfer_to_spu_ram(addr, data, log);

        let s = SampleRef { spu_addr: addr, size };
        self.slots.set(slot, Some(s));
        Ok(s)
    }

    pub fn get(&self, id: SampleId) -> (r: Option<&SampleRef>)
        requires
            self.wf(),
        ensures
            match r {
                Some(s) => (id.0 as int) < MAX && self.slots()[id.0 as int] == Some(*s),
                None => (id.0 as int) >= MAX || self.slots()[id.0 as int] is None,
            },
    {
        let slot = id.0 as usize;
        if slot < self.slots.len() {
            self.slots[slot].as_ref()
        } else {
            None
        }
    }

    /// Wipe all loaded samples and reset the RAM cursor.
    /// Use this before loading a new sound project.
    pub fn reset(&mut self)
        requires
            old(self).wf(),
        ensures
            final(self).wf(),
            final(self).slots() == Seq::new(MAX as nat, |i: int| None::<SampleRef>),
            final(self).cursor() == SPU_RAM_START,
    {
        self.slots = no_samples(MAX);
        self.next_addr = SPU_RAM_START;
    }
}

} // verus!
