//! The SPU control register, SPUCNT.

use vstd::prelude::*;

verus! {

#[derive(Clone, Copy, PartialEq, Eq, Structural, Debug)]
pub enum NoiseFrequencyShift {
    Low0,
    Low1,
    Low2,
    Low3,
    Low4,
    Low5,
    Low6,
    Low7,
    Medium8,
    Medium9,
    Medium10,
    Medium11,
    Medium12,
    Medium13,
    Medium14,
    High15,
}

impl NoiseFrequencyShift {
    /// The shift amount, 0..15.
    #[verifier::allow_in_spec]
    pub fn code(&self) -> u16
        returns
            match self {
                NoiseFrequencyShift::Low0 => 0u16,
                NoiseFrequencyShift::Low1 => 1,
                NoiseFrequencyShift::Low2 => 2,
                NoiseFrequencyShift::Low3 => 3,
                NoiseFrequencyShift::Low4 => 4,
                NoiseFrequencyShift::Low5 => 5,
                NoiseFrequencyShift::Low6 => 6,
                NoiseFrequencyShift::Low7 => 7,
                NoiseFrequencyShift::Medium8 => 8,
                NoiseFrequencyShift::Medium9 => 9,
                NoiseFrequencyShift::Medium10 => 10,
                NoiseFrequencyShift::Medium11 => 11,
                NoiseFrequencyShift::Medium12 => 12,
                NoiseFrequencyShift::Medium13 => 13,
                NoiseFrequencyShift::Medium14 => 14,
                NoiseFrequencyShift::High15 => 15,
            },
    {
        match self {
            NoiseFrequencyShift::Low0 => 0,
            NoiseFrequencyShift::Low1 => 1,
            NoiseFrequencyShift::Low2 => 2,
            NoiseFrequencyShift::Low3 => 3,
            NoiseFrequencyShift::Low4 => 4,
            NoiseFrequencyShift::Low5 => 5,
            NoiseFrequencyShift::Low6 => 6,
            NoiseFrequencyShift::Low7 => 7,
            NoiseFrequencyShift::Medium8 => 8,
            NoiseFrequencyShift::Medium9 => 9,
            NoiseFrequencyShift::Medium10 => 10,
            NoiseFrequencyShift::Medium11 => 11,
            NoiseFrequencyShift::Medium12 => 12,
            NoiseFrequencyShift::Medium13 => 13,
            NoiseFrequencyShift::Medium14 => 14,
            NoiseFrequencyShift::High15 => 15,
        }
    }
}

#[derive(Clone, Copy, PartialEq, Eq, Structural, Debug)]
pub enum NoiseFrequencyStep {
    Step4,
    Step5,
    Step6,
    Step7,
}

impl NoiseFrequencyStep {
    /// The register value, 0..3.
    #[verifier::allow_in_spec]
    pub fn code(&self) -> u16
        returns
            match self {
                NoiseFrequencyStep::Step4 => 0u16,
                NoiseFrequencyStep::Step5 => 1,
                NoiseFrequencyStep::Step6 => 2,
                NoiseFrequencyStep::Step7 => 3,
            },
    {
        match self {
            NoiseFrequencyStep::Step4 => 0,
            NoiseFrequencyStep::Step5 => 1,
            NoiseFrequencyStep::Step6 => 2,
            NoiseFrequencyStep::Step7 => 3,
        }
    }
}

#[derive(Clone, Copy, PartialEq, Eq, Structural, Debug)]
pub enum SpuRamTransferMode {
    Stop,
    ManualWrite,
    DMAWrite,
    DMARead,
}

impl SpuRamTransferMode {
    /// The register value, 0..3.
    #[verifier::allow_in_spec]
    pub fn code(&self) -> u16
        returns
            match self {
                SpuRamTransferMode::Stop => 0u16,
                SpuRamTransferMode::ManualWrite => 1,
                SpuRamTransferMode::DMAWrite => 2,
                SpuRamTransferMode::DMARead => 3,
            },
    {
        match self {
            SpuRamTransferMode::Stop => 0,
            SpuRamTransferMode::ManualWrite => 1,
            SpuRamTransferMode::DMAWrite => 2,
            SpuRamTransferMode::DMARead => 3,
        }
    }
}

/// 1 for `true`, 0 for `false`.
#[verifier::allow_in_spec]
pub fn flag(b: bool) -> u16
    returns
        if b { 1u16 } else { 0u16 },
{
    if b { 1 } else { 0 }
}

pub struct SpuControl {
    pub spu_enable: bool,
    pub mute_spu: bool,
    pub noise_freq_shift: NoiseFrequencyShift,
    pub noise_freq_step: NoiseFrequencyStep,
    pub reverb_master_enable: bool,
    pub irq9_enable: bool,
    pub sound_ram_transfer_mode: SpuRamTransferMode,
    pub external_audio_reverb: bool,
    pub cd_audio_reverb: bool,
    pub external_audio_enable: bool,
    pub cd_audio_enable: bool,
}

impl SpuControl {
    /// The register word: enable at bit 15, mute 14, noise shift 10..13,
    /// noise step 8..9, reverb master 7, IRQ9 6, transfer mode 4..5,
    /// external reverb 3, CD reverb 2, external audio 1, CD audio 0.
    pub open spec fn word(&self) -> u16 {
        (flag(self.spu_enable) << 15u16) | (flag(self.mute_spu) << 14u16) | (self.noise_freq_shift.code() << 10u16)
            | (self.noise_freq_step.code() << 8u16) | (flag(self.reverb_master_enable) << 7u16) | (flag(
            self.irq9_enable,
        ) << 6u16) | (self.sound_ram_transfer_mode.code() << 4u16) | (flag(self.external_audio_reverb) << 3u16)
            | (flag(self.cd_audio_reverb) << 2u16) | (flag(self.external_audio_enable) << 1u16) | flag(
            self.cd_audio_enable,
        )
    }

    /// Everything off, lowest noise settings, transfers stopped.
    pub fn new() -> (c: SpuControl)
        ensures
            !c.spu_enable && !c.mute_spu && !c.reverb_master_enable && !c.irq9_enable,
            c.noise_freq_shift == NoiseFrequencyShift::Low0,
            c.noise_freq_step == NoiseFrequencyStep::Step4,
            c.sound_ram_transfer_mode == SpuRamTransferMode::Stop,
            !c.external_audio_reverb && !c.cd_audio_reverb && !c.external_audio_enable && !c.cd_audio_enable,
            c.word() == 0,
    {
        let c = SpuControl {
            spu_enable: false,
            mute_spu: false,
            noise_freq_shift: NoiseFrequencyShift::Low0,
            noise_freq_step: NoiseFrequencyStep::Step4,
            reverb_master_enable: false,
            irq9_enable: false,
            sound_ram_transfer_mode: SpuRamTransferMode::Stop,
            external_audio_reverb: false,
            cd_audio_reverb: false,
            external_audio_enable: false,
            cd_audio_enable: false,
        };
        let z: u16 = 0;
        assert((z << 15u16) | (z << 14u16) | (z << 10u16) | (z << 8u16) | (z << 7u16) | (z << 6u16) | (z << 4u16)
            | (z << 3u16) | (z << 2u16) | (z << 1u16) | z == 0) by (bit_vector)
            requires z == 0;
        c
    }

    pub fn to_u16(&self) -> (r: u16)
        ensures
            r == self.word(),
    {
        let mut value: u16 = flag(self.spu_enable) << 15u16;
        value |= flag(self.mute_spu) << 14u16;
        value |= self.noise_freq_shift.code() << 10u16;
        value |= self.noise_freq_step.code() << 8u16;
        value |= flag(self.reverb_master_enable) << 7u16;
        value |= flag(self.irq9_enable) << 6u16;
        value |= self.sound_ram_transfer_mode.code() << 4u16;
        value |= flag(self.external_audio_reverb) << 3u16;
        value |= flag(self.cd_audio_reverb) << 2u16;
        value |= flag(self.external_audio_enable) << 1u16;
        value |= flag(self.cd_audio_enable);
        value
    }
}

/// Every setting of the control word sits in its own bits: reading each
/// field back from [`SpuControl::word`] gives the setting.
pub proof fn lemma_control_fields(c: SpuControl)
    ensures
        (c.word() >> 15u16) & 1 == flag(c.spu_enable),
        (c.word() >> 14u16) & 1 == flag(c.mute_spu),
        (c.word() >> 10u16) & 15 == c.noise_freq_shift.code(),
        (c.word() >> 8u16) & 3 == c.noise_freq_step.code(),
        (c.word() >> 7u16) & 1 == flag(c.reverb_master_enable),
        (c.word() >> 6u16) & 1 == flag(c.irq9_enable),
        (c.word() >> 4u16) & 3 == c.sound_ram_transfer_mode.code(),
        (c.word() >> 3u16) & 1 == flag(c.external_audio_reverb),
        (c.word() >> 2u16) & 1 == flag(c.cd_audio_reverb),
        (c.word() >> 1u16) & 1 == flag(c.external_audio_enable),
        c.word() & 1 == flag(c.cd_audio_enable),
{
    let w = c.word();
    let a = flag(c.spu_enable);
    let b = flag(c.mute_spu);
    let ns = c.noise_freq_shift.code();
    let st = c.noise_freq_step.code();
    let rv = flag(c.reverb_master_enable);
    let iq = flag(c.irq9_enable);
    let m = c.sound_ram_transfer_mode.code();
    let er = flag(c.external_audio_reverb);
    let cr = flag(c.cd_audio_reverb);
    let ee = flag(c.external_audio_enable);
    let ce = flag(c.cd_audio_enable);
    assert((w >> 15u16) & 1 == a && (w >> 14u16) & 1 == b && (w >> 10u16) & 15 == ns && (w >> 8u16) & 3 == st
        && (w >> 7u16) & 1 == rv && (w >> 6u16) & 1 == iq && (w >> 4u16) & 3 == m && (w >> 3u16) & 1 == er
        && (w >> 2u16) & 1 == cr && (w >> 1u16) & 1 == ee && w & 1 == ce) by (bit_vector)
        requires
            a <= 1 && b <= 1 && ns < 16 && st < 4 && rv <= 1 && iq <= 1 && m < 4 && er <= 1 && cr <= 1 && ee <= 1
                && ce <= 1,
            w == (a << 15u16) | (b << 14u16) | (ns << 10u16) | (st << 8u16) | (rv << 7u16) | (iq << 6u16) | (m << 4u16)
                | (er << 3u16) | (cr << 2u16) | (ee << 1u16) | ce,
    ;
}

} // verus!
