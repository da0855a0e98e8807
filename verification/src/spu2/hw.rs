//! SPU and root-counter register access.
//!
//! Each routine appends the register accesses it makes to the access log.

use crate::common::{w16, w32, HwOp, MemoryCell};
use vstd::prelude::*;

verus! {

pub const VOICE_BASE: usize = 0x1F80_1C00;
pub const VOICE_STRIDE: usize = 0x10;

pub const SPU_KEY_ON: usize = 0x1F80_1D88;
pub const SPU_KEY_OFF: usize = 0x1F80_1D8C;
pub const SPU_CONTROL: usize = 0x1F80_1DAA;
pub const SPU_MAIN_VOL_LEFT: usize = 0x1F80_1D80;
pub const SPU_MAIN_VOL_RIGHT: usize = 0x1F80_1D82;
pub const SPU_RAM_TRANSFER_ADDR: usize = 0x1F80_1DA6;
pub const SPU_RAM_TRANSFER_FIFO: usize = 0x1F80_1DA8;
pub const SPU_RAM_TRANSFER_CTRL: usize = 0x1F80_1DAC;

pub const REVERB_OUT_VOL_LEFT: usize = 0x1F80_1D84;
pub const REVERB_OUT_VOL_RIGHT: usize = 0x1F80_1D86;
pub const SPU_REVERB_ON: usize = 0x1F80_1D98;
pub const SPU_REVERB_BASE: usize = 0x1F80_1DA2;
pub const REVERB_CONFIG_BASE: usize = 0x1F80_1DC0;
pub const REVERB_IN_VOL_LEFT: usize = 0x1F80_1DFC;
pub const REVERB_IN_VOL_RIGHT: usize = 0x1F80_1DFE;

pub const RCNT1_VALUE: usize = 0x1F80_1110;
pub const RCNT1_MODE: usize = 0x1F80_1114;

/// Approximate HBlank rate in Hz (NTSC ≈ 15734, PAL ≈ 15625).
/// Using a rounded average that gives < 1% error on either standard.
pub const HBLANK_RATE: u32 = 15700;

/// Hardware voice handle with runtime index (0..23).
///
/// Register addresses are computed at runtime, enabling dynamic voice
/// allocation without match-arm dispatch.
#[derive(Clone, Copy, PartialEq, Eq, Structural, Debug)]
pub struct VoiceHw(u8);

/// Base address of the register block of voice `num`.
pub open spec fn voice_base(num: u8) -> int {
    VOICE_BASE + num * VOICE_STRIDE
}

/// The accesses of [`VoiceHw::prepare`].
pub open spec fn prepare_ops(num: u8, spu_addr: u16, pitch: u16, left: u16, right: u16, adsr: u32) -> Seq<HwOp> {
    seq![
        w16(voice_base(num), left),
        w16(voice_base(num) + 0x02, right),
        w16(voice_base(num) + 0x06, spu_addr),
        w16(voice_base(num) + 0x0E, spu_addr),
        w16(voice_base(num) + 0x04, pitch),
        w32(voice_base(num) + 0x08, adsr),
    ]
}

/// The halfword that the transfer FIFO receives for bytes `2*i` and `2*i + 1`
/// (little-endian; a trailing odd byte is sent alone).
pub open spec fn fifo_word(data: Seq<u8>, i: int) -> u16 {
    if 2 * i + 1 < data.len() {
        (data[2 * i] + 256 * data[2 * i + 1]) as u16
    } else {
        data[2 * i] as u16
    }
}

/// Two bytes as one little-endian halfword.
pub proof fn lemma_halfword(lo: u8, hi: u8)
    by (bit_vector)
    ensures
        ((hi as u16) << 8u16 | lo as u16) == (lo + 256 * hi) as u16,
{
}

/// The accesses of [`transfer_to_spu_ram`].
pub open spec fn transfer_ops(addr: u16, data: Seq<u8>) -> Seq<HwOp> {
    seq![w16(SPU_RAM_TRANSFER_ADDR as int, addr), w16(SPU_RAM_TRANSFER_CTRL as int, 4)]
        + Seq::new(((data.len() + 1) / 2) as nat, |i: int| w16(SPU_RAM_TRANSFER_FIFO as int, fifo_word(data, i)))
}

/// The accesses of [`clear_spu_ram`].
pub open spec fn clear_ops(start: u16, halfwords: nat) -> Seq<HwOp> {
    seq![w16(SPU_RAM_TRANSFER_ADDR as int, start), w16(SPU_RAM_TRANSFER_CTRL as int, 4)]
        + Seq::new(halfwords, |i: int| w16(SPU_RAM_TRANSFER_FIFO as int, 0))
}

/// The accesses of [`write_reverb_config`].
pub open spec fn reverb_config_ops(regs: Seq<u16>) -> Seq<HwOp> {
    Seq::new(regs.len(), |i: int| w16(REVERB_CONFIG_BASE + 2 * i, regs[i]))
}

/// The value written to the EON register for a voice mask.
pub open spec fn reverb_on_value(mask: u32) -> u32 {
    mask & 0x00FF_FFFF
}

impl VoiceHw {
    /// The voice number.
    pub closed spec fn num(self) -> u8 {
        self.0
    }

    pub fn new(id: u8) -> (v: VoiceHw)
        requires
            id < 24,
        ensures
            v.num() == id,
    {
        VoiceHw(id)
    }

    pub fn id(&self) -> (r: u8)
        ensures
            r == self.num(),
    {
        self.0
    }

    fn base(&self) -> (r: usize)
        requires
            self.num() < 24,
        ensures
            r == voice_base(self.num()),
    {
        VOICE_BASE + self.0 as usize * VOICE_STRIDE
    }

    pub fn set_volume(&self, left: u16, right: u16, log: &mut Vec<HwOp>)
        requires
            self.num() < 24,
        ensures
            final(log)@ == old(log)@ + seq![
                w16(voice_base(self.num()), left),
                w16(voice_base(self.num()) + 0x02, right),
            ],
    {
        MemoryCell::<u16>::new(self.base()).set(left, log);
        MemoryCell::<u16>::new(self.base() + 0x02).set(right, log);
    }

    pub fn set_pitch(&self, rate: u16, log: &mut Vec<HwOp>)
        requires
            self.num() < 24,
        ensures
            final(log)@ == old(log)@.push(w16(voice_base(self.num()) + 0x04, rate)),
    {
        MemoryCell::<u16>::new(self.base() + 0x04).set(rate, log);
    }

    pub fn set_sample_addr(&self, addr: u16, log: &mut Vec<HwOp>)
        requires
            self.num() < 24,
        ensures
            final(log)@ == old(log)@.push(w16(voice_base(self.num()) + 0x06, addr)),
    {
        MemoryCell::<u16>::new(self.base() + 0x06).set(addr, log);
    }

    pub fn set_adsr(&self, adsr: u32, log: &mut Vec<HwOp>)
        requires
            self.num() < 24,
        ensures
            final(log)@ == old(log)@.push(w32(voice_base(self.num()) + 0x08, adsr)),
    {
        MemoryCell::<u32>::new(self.base() + 0x08).set(adsr, log);
    }

    pub fn set_repeat_addr(&self, addr: u16, log: &mut Vec<HwOp>)
        requires
            self.num() < 24,
        ensures
            final(log)@ == old(log)@.push(w16(voice_base(self.num()) + 0x0E, addr)),
    {
        MemoryCell::<u16>::new(self.base() + 0x0E).set(addr, log);
    }

    pub fn key_on(&self, log: &mut Vec<HwOp>)
        requires
            self.num() < 24,
        ensures
            final(log)@ == old(log)@.push(w32(SPU_KEY_ON as int, 1u32 << self.num())),
    {
        MemoryCell::<u32>::new(SPU_KEY_ON).set(1u32 << self.0, log);
    }

    pub fn key_off(&self, log: &mut Vec<HwOp>)
        requires
            self.num() < 24,
        ensures
            final(log)@ == old(log)@.push(w32(SPU_KEY_OFF as int, 1u32 << self.num())),
    {
        MemoryCell::<u32>::new(SPU_KEY_OFF).set(1u32 << self.0, log);
    }

    /// Configure voice registers without triggering key-on.
    ///
    /// Use this when batching multiple voice triggers into a single
    /// `key_on_mask` write to avoid the SPU latch race.
    pub fn prepare(&self, spu_addr: u16, pitch: u16, volume: u16, adsr: u32, log: &mut Vec<HwOp>)
        requires
            self.num() < 24,
        ensures
            final(log)@ == old(log)@ + prepare_ops(self.num(), spu_addr, pitch, volume, volume, adsr),
    {
        self.prepare_stereo(spu_addr, pitch, volume, volume, adsr, log);
    }

    /// Configure voice registers like [`prepare`](Self::prepare), with
    /// separate left and right volumes (a panned note).
    pub fn prepare_stereo(&self, spu_addr: u16, pitch: u16, left: u16, right: u16, adsr: u32, log: &mut Vec<HwOp>)
        requires
            self.num() < 24,
        ensures
            final(log)@ == old(log)@ + prepare_ops(self.num(), spu_addr, pitch, left, right, adsr),
    {
        self.set_volume(left, right, log);
        self.set_sample_addr(spu_addr, log);
        self.set_repeat_addr(spu_addr, log);
        self.set_pitch(pitch, log);
        self.set_adsr(adsr, log);
    }

    /// Configure and trigger a sample in one call.
    pub fn trigger(&self, spu_addr: u16, pitch: u16, volume: u16, adsr: u32, log: &mut Vec<HwOp>)
        requires
            self.num() < 24,
        ensures
            final(log)@ == old(log)@ + prepare_ops(self.num(), spu_addr, pitch, volume, volume, adsr).push(
                w32(SPU_KEY_ON as int, 1u32 << self.num()),
            ),
    {
        self.prepare(spu_addr, pitch, volume, adsr, log);
        self.key_on(log);
    }
}

pub fn key_on_mask(mask: u32, log: &mut Vec<HwOp>)
    ensures
        final(log)@ == old(log)@.push(w32(SPU_KEY_ON as int, mask)),
{
    MemoryCell::<u32>::new(SPU_KEY_ON).set(mask, log);
}

pub fn key_off_mask(mask: u32, log: &mut Vec<HwOp>)
    ensures
        final(log)@ == old(log)@.push(w32(SPU_KEY_OFF as int, mask)),
{
    MemoryCell::<u32>::new(SPU_KEY_OFF).set(mask, log);
}

pub fn key_off_all(log: &mut Vec<HwOp>)
    ensures
        final(log)@ == old(log)@.push(w32(SPU_KEY_OFF as int, 0x00FF_FFFF)),
{
    MemoryCell::<u32>::new(SPU_KEY_OFF).set(0x00FF_FFFF, log);
}

pub fn set_master_volume(left: u16, right: u16, log: &mut Vec<HwOp>)
    ensures
        final(log)@ == old(log)@ + seq![
            w16(SPU_MAIN_VOL_LEFT as int, left),
            w16(SPU_MAIN_VOL_RIGHT as int, right),
        ],
{
    MemoryCell::<u16>::new(SPU_MAIN_VOL_LEFT).set(left, log);
    MemoryCell::<u16>::new(SPU_MAIN_VOL_RIGHT).set(right, log);
}

/// Write raw audio data into SPU RAM at the given address.
pub fn transfer_to_spu_ram(addr: u16, data: &[u8], log: &mut Vec<HwOp>)
    ensures
        final(log)@ == old(log)@ + transfer_ops(addr, data@),
{
    MemoryCell::<u16>::new(SPU_RAM_TRANSFER_ADDR).set(addr, log);
    MemoryCell::<u16>::new(SPU_RAM_TRANSFER_CTRL).set(0x0004, log);
    let fifo = MemoryCell::<u16>::new(SPU_RAM_TRANSFER_FIFO);
    let ghost start = log@;
    let mut i: usize = 0;
    while i < data.len()
        invariant
            i <= data.len(),
            i % 2 == 0 || i == data.len(),
            fifo.addr() == SPU_RAM_TRANSFER_FIFO,
            start == old(log)@ + seq![w16(SPU_RAM_TRANSFER_ADDR as int, addr), w16(SPU_RAM_TRANSFER_CTRL as int, 4)],
            log@ == start + Seq::new(((i + 1) / 2) as nat, |k: int| w16(SPU_RAM_TRANSFER_FIFO as int, fifo_word(data@, k))),
        decreases data.len() - i,
    {
        if i + 1 < data.len() {
            let lo = data[i];
            let hi = data[i + 1];
            proof {
                lemma_halfword(lo, hi);
            }
            let word: u16 = (hi as u16) << 8 | lo as u16;
            fifo.set(word, log);
            proof {
                assert(word == fifo_word(data@, (i / 2) as int));
                assert(log@ =~= start + Seq::new(((i + 3) / 2) as nat, |k: int| w16(SPU_RAM_TRANSFER_FIFO as int, fifo_word(data@, k))));
            }
            i = i + 2;
        } else {
            let word: u16 = data[i] as u16;
            fifo.set(word, log);
            proof {
                assert(word == fifo_word(data@, (i / 2) as int));
                assert(log@ =~= start + Seq::new(((i + 2) / 2) as nat, |k: int| w16(SPU_RAM_TRANSFER_FIFO as int, fifo_word(data@, k))));
            }
            i = i + 1;
        }
    }
    proof {
        assert(log@ =~= old(log)@ + transfer_ops(addr, data@));
    }
}

/// The accesses of [`init_spu_hardware`].
pub open spec fn init_spu_ops() -> Seq<HwOp> {
    seq![
        w16(SPU_CONTROL as int, 0xC000),
        w16(SPU_CONTROL as int, 0xC001),
        w16(SPU_MAIN_VOL_LEFT as int, 0x3FFF),
        w16(SPU_MAIN_VOL_RIGHT as int, 0x3FFF),
        w16(REVERB_OUT_VOL_LEFT as int, 0),
        w16(REVERB_OUT_VOL_RIGHT as int, 0),
    ]
}

/// Power-on SPU and set master volume to max.
pub fn init_spu_hardware(log: &mut Vec<HwOp>)
    ensures
        final(log)@ == old(log)@ + init_spu_ops(),
{
    MemoryCell::<u16>::new(SPU_CONTROL).set(0xC000, log);
    MemoryCell::<u16>::new(SPU_CONTROL).set(0xC001, log);
    set_master_volume(0x3FFF, 0x3FFF, log);
    MemoryCell::<u16>::new(REVERB_OUT_VOL_LEFT).set(0, log);
    MemoryCell::<u16>::new(REVERB_OUT_VOL_RIGHT).set(0, log);
    assert(log@ =~= old(log)@ + init_spu_ops());
}

/// Set the reverb work area start address (N×8 byte addressing).
/// The reverb buffer extends from this address to the end of SPU RAM.
pub fn set_reverb_base(addr: u16, log: &mut Vec<HwOp>)
    ensures
        final(log)@ == old(log)@.push(w16(SPU_REVERB_BASE as int, addr)),
{
    MemoryCell::<u16>::new(SPU_REVERB_BASE).set(addr, log);
}

/// Write all 30 reverb configuration registers (`$1F801DC0`–`$1F801DFA`).
pub fn write_reverb_config(regs: &[u16; 30], log: &mut Vec<HwOp>)
    ensures
        final(log)@ == old(log)@ + reverb_config_ops(regs@),
{
    let mut i: usize = 0;
    while i < 30
        invariant
            i <= 30,
            regs@.len() == 30,
            log@ == old(log)@ + Seq::new(i as nat, |k: int| w16(REVERB_CONFIG_BASE + 2 * k, regs@[k])),
        decreases 30 - i,
    {
        MemoryCell::<u16>::new(REVERB_CONFIG_BASE + i * 2).set(regs[i], log);
        proof {
            assert(log@ =~= old(log)@ + Seq::new((i + 1) as nat, |k: int| w16(REVERB_CONFIG_BASE + 2 * k, regs@[k])));
        }
        i = i + 1;
    }
    proof {
        assert(log@ =~= old(log)@ + reverb_config_ops(regs@));
    }
}

/// Set reverb input volume (signed 16-bit, scale N / 0x8000).
pub fn set_reverb_volume_in(left: u16, right: u16, log: &mut Vec<HwOp>)
    ensures
        final(log)@ == old(log)@ + seq![
            w16(REVERB_IN_VOL_LEFT as int, left),
            w16(REVERB_IN_VOL_RIGHT as int, right),
        ],
{
    MemoryCell::<u16>::new(REVERB_IN_VOL_LEFT).set(left, log);
    MemoryCell::<u16>::new(REVERB_IN_VOL_RIGHT).set(right, log);
}

/// Set reverb output volume (signed 16-bit, scale N / 0x8000).
pub fn set_reverb_volume_out(left: u16, right: u16, log: &mut Vec<HwOp>)
    ensures
        final(log)@ == old(log)@ + seq![
            w16(REVERB_OUT_VOL_LEFT as int, left),
            w16(REVERB_OUT_VOL_RIGHT as int, right),
        ],
{
    MemoryCell::<u16>::new(REVERB_OUT_VOL_LEFT).set(left, log);
    MemoryCell::<u16>::new(REVERB_OUT_VOL_RIGHT).set(right, log);
}

/// Set which of the 24 voices feed into the reverb unit (bits 0–23).
pub fn set_reverb_on_mask(mask: u32, log: &mut Vec<HwOp>)
    ensures
        final(log)@ == old(log)@.push(w32(SPU_REVERB_ON as int, reverb_on_value(mask))),
{
    MemoryCell::<u32>::new(SPU_REVERB_ON).set(mask & 0x00FF_FFFF, log);
}

/// Enable reverb RAM writes (SPUCNT bit 7).
pub fn enable_reverb_master(log: &mut Vec<HwOp>)
    ensures
        final(log)@ == old(log)@.push(HwOp::Or16 { addr: SPU_CONTROL, bits: 0x0080 }),
{
    MemoryCell::<u16>::new(SPU_CONTROL).set_bits(0x0080, log);
}

/// Disable reverb RAM writes (SPUCNT bit 7).
/// Note: output volume must also be set to 0 to fully mute reverb.
pub fn disable_reverb_master(log: &mut Vec<HwOp>)
    ensures
        final(log)@ == old(log)@.push(HwOp::And16 { addr: SPU_CONTROL, bits: 0xFF7F }),
{
    MemoryCell::<u16>::new(SPU_CONTROL).mask_bits(!0x0080u16, log);
    assert(!0x0080u16 == 0xFF7Fu16) by (bit_vector);
}

/// Zero-fill a region of SPU RAM via the manual-write FIFO.
/// `start` is in N×8 byte addressing; `halfwords` is the number of
/// 16-bit words to clear.
pub fn clear_spu_ram(start: u16, halfwords: u32, log: &mut Vec<HwOp>)
    ensures
        final(log)@ == old(log)@ + clear_ops(start, halfwords as nat),
{
    MemoryCell::<u16>::new(SPU_RAM_TRANSFER_ADDR).set(start, log);
    MemoryCell::<u16>::new(SPU_RAM_TRANSFER_CTRL).set(0x0004, log);
    let fifo = MemoryCell::<u16>::new(SPU_RAM_TRANSFER_FIFO);
    let ghost prefix = log@;
    let mut n: u32 = 0;
    while n < halfwords
        invariant
            n <= halfwords,
            fifo.addr() == SPU_RAM_TRANSFER_FIFO,
            prefix == old(log)@ + seq![w16(SPU_RAM_TRANSFER_ADDR as int, start), w16(SPU_RAM_TRANSFER_CTRL as int, 4)],
            log@ == prefix + Seq::new(n as nat, |i: int| w16(SPU_RAM_TRANSFER_FIFO as int, 0)),
        decreases halfwords - n,
    {
        fifo.set(0, log);
        proof {
            assert(log@ =~= prefix + Seq::new((n + 1) as nat, |i: int| w16(SPU_RAM_TRANSFER_FIFO as int, 0)));
        }
        n = n + 1;
    }
    proof {
        assert(log@ =~= old(log)@ + clear_ops(start, halfwords as nat));
    }
}

/// Start Root Counter 1 in free-running HBlank mode.
pub fn init_hblank_timer(log: &mut Vec<HwOp>)
    ensures
        final(log)@ == old(log)@.push(w16(RCNT1_MODE as int, 0x0100)),
{
    // Bit 8 = 1: clock source = HBlank
    // All other bits 0: free run, no IRQ, wrap at 0xFFFF
    MemoryCell::<u16>::new(RCNT1_MODE).set(0x0100, log);
}

} // verus!
