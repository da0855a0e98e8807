//! Hardware voices numbered at compile time.

use crate::common::{w16, w32, HwOp, MemoryCell};
use crate::spu::{
    SPU_KEY_ON, SPU_VOICE_ADSR, SPU_VOICE_LEFT_VOL, SPU_VOICE_REPEAT_ADDR, SPU_VOICE_RIGHT_VOL,
    SPU_VOICE_SAMPLE_RATE, SPU_VOICE_START_ADDR,
};
use vstd::prelude::*;

verus! {

/// A hardware voice chosen at compile time (`NUM` < 24).
pub struct Voice<const NUM: u8>;

/// The accesses of [`Voice::new`] for voice `num`.
pub open spec fn voice_setup_ops(num: int, spu_addr: u16, sample_rate: u16, volume: u16) -> Seq<HwOp> {
    seq![
        w16(SPU_VOICE_LEFT_VOL + num * 0x10, volume),
        w16(SPU_VOICE_RIGHT_VOL + num * 0x10, volume),
        w16(SPU_VOICE_START_ADDR + num * 0x10, spu_addr),
        w16(SPU_VOICE_REPEAT_ADDR + num * 0x10, spu_addr),
        w16(SPU_VOICE_SAMPLE_RATE + num * 0x10, sample_rate),
        w32(SPU_VOICE_ADSR + num * 0x10, 0x80FF_8000),
    ]
}

impl<const NUM: u8> Voice<NUM> {
    /// Set up the voice to loop the sample at `spu_addr` (start and repeat
    /// address alike) at `sample_rate`, with `volume` on both sides and
    /// the default envelope.
    pub fn new(spu_addr: u16, sample_rate: u16, volume: u16, log: &mut Vec<HwOp>) -> (v: Voice<NUM>)
        ensures
            final(log)@ == old(log)@ + voice_setup_ops(NUM as int, spu_addr, sample_rate, volume),
    {
        let offset: usize = NUM as usize * 0x10;
        // Channel volumes
        MemoryCell::<u16>::new(SPU_VOICE_LEFT_VOL + offset).set(volume, log);
        MemoryCell::<u16>::new(SPU_VOICE_RIGHT_VOL + offset).set(volume, log);
        // Sample start address (in 8-byte units)
        MemoryCell::<u16>::new(SPU_VOICE_START_ADDR + offset).set(spu_addr, log);
        // Repeat address: the start address, for looping
        MemoryCell::<u16>::new(SPU_VOICE_REPEAT_ADDR + offset).set(spu_addr, log);
        // Sample rate
        MemoryCell::<u16>::new(SPU_VOICE_SAMPLE_RATE + offset).set(sample_rate, log);
        // Envelope: fast attack, slow decay, high sustain, slow release
        MemoryCell::<u32>::new(SPU_VOICE_ADSR + offset).set(0x80FF_8000, log);
        assert(log@ =~= old(log)@ + voice_setup_ops(NUM as int, spu_addr, sample_rate, volume));
        Voice
    }

    /// Key the voice on, keeping the other voices' key-on bits.
    pub fn play(&mut self, log: &mut Vec<HwOp>) -> (r: &Self)
        requires
            NUM < 32,
        ensures
            final(log)@ == old(log)@.push(HwOp::Or32 { addr: SPU_KEY_ON, bits: 1u32 << NUM }),
            *r == *old(self),
    {
        MemoryCell::<u32>::new(SPU_KEY_ON).set_bits(1u32 << NUM, log);
        self
    }
}

} // verus!
