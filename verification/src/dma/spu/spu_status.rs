//! The SPU status register, SPUSTAT.

use crate::dma::spu::spu_control::{flag, SpuControl, SpuRamTransferMode};
use vstd::prelude::*;

verus! {

pub struct SpuStatus {
    pub unknown15: bool,
    pub unknown14: bool,
    pub unknown13: bool,
    pub unknown12: bool,
    pub writing_to_first_second_half_of_capture_buffers: bool,
    pub data_transfer_busy_flag: bool,
    pub data_transfer_dma_read_request: bool,
    pub data_transfer_dma_write_request: bool,
    pub data_transfer_dma_read_write_request: bool,
    pub irq9_flag_interrupt_request: bool,
    pub sound_ram_transfer_mode: SpuRamTransferMode,
    pub external_audio_reverb: bool,
    pub cd_audio_reverb: bool,
    pub external_audio_enable: bool,
    pub cd_audio_enable: bool,
}

/// Bit `n` of `value`.
pub open spec fn bit(value: u16, n: u16) -> bool {
    (value >> n) & 1 == 1
}

/// The transfer mode in bits 4..5.
pub open spec fn mode_of(value: u16) -> SpuRamTransferMode {
    let m = (value >> 4u16) & 3;
    if m == 0 {
        SpuRamTransferMode::Stop
    } else if m == 1 {
        SpuRamTransferMode::ManualWrite
    } else if m == 2 {
        SpuRamTransferMode::DMAWrite
    } else {
        SpuRamTransferMode::DMARead
    }
}

impl SpuStatus {
    /// Each flag is its own bit (15 down to 6, then 3 down to 0); the
    /// transfer mode is bits 4..5.
    pub open spec fn decode(value: u16) -> SpuStatus {
        SpuStatus {
            unknown15: bit(value, 15),
            unknown14: bit(value, 14),
            unknown13: bit(value, 13),
            unknown12: bit(value, 12),
            writing_to_first_second_half_of_capture_buffers: bit(value, 11),
            data_transfer_busy_flag: bit(value, 10),
            data_transfer_dma_read_request: bit(value, 9),
            data_transfer_dma_write_request: bit(value, 8),
            data_transfer_dma_read_write_request: bit(value, 7),
            irq9_flag_interrupt_request: bit(value, 6),
            sound_ram_transfer_mode: mode_of(value),
            external_audio_reverb: bit(value, 3),
            cd_audio_reverb: bit(value, 2),
            external_audio_enable: bit(value, 1),
            cd_audio_enable: bit(value, 0),
        }
    }

    pub fn from_u16(value: &u16) -> (s: SpuStatus)
        ensures
            s == SpuStatus::decode(*value),
    {
        let v = *value;
        SpuStatus {
            unknown15: (v >> 15u16) & 1 == 1,
            unknown14: (v >> 14u16) & 1 == 1,
            unknown13: (v >> 13u16) & 1 == 1,
            unknown12: (v >> 12u16) & 1 == 1,
            writing_to_first_second_half_of_capture_buffers: (v >> 11u16) & 1 == 1,
            data_transfer_busy_flag: (v >> 10u16) & 1 == 1,
            data_transfer_dma_read_request: (v >> 9u16) & 1 == 1,
            data_transfer_dma_write_request: (v >> 8u16) & 1 == 1,
            data_transfer_dma_read_write_request: (v >> 7u16) & 1 == 1,
            irq9_flag_interrupt_request: (v >> 6u16) & 1 == 1,
            sound_ram_transfer_mode: Self::get_sound_ram_transfer_mode(value),
            external_audio_reverb: (v >> 3u16) & 1 == 1,
            cd_audio_reverb: (v >> 2u16) & 1 == 1,
            external_audio_enable: (v >> 1u16) & 1 == 1,
            cd_audio_enable: (v >> 0u16) & 1 == 1,
        }
    }

    pub fn get_sound_ram_transfer_mode(value: &u16) -> (m: SpuRamTransferMode)
        ensures
            m == mode_of(*value),
    {
        let code = (*value >> 4u16) & 0b11;
        if code == 0 {
            SpuRamTransferMode::Stop
        } else if code == 1 {
            SpuRamTransferMode::ManualWrite
        } else if code == 2 {
            SpuRamTransferMode::DMAWrite
        } else {
            SpuRamTransferMode::DMARead
        }
    }
}

/// SPUSTAT mirrors bits 0..5 of SPUCNT: the status read back from a control
/// word has the control's transfer mode and its four CD/external audio
/// flags.
pub proof fn lemma_status_mirrors_control(c: SpuControl)
    ensures
        SpuStatus::decode(c.word()).sound_ram_transfer_mode == c.sound_ram_transfer_mode,
        SpuStatus::decode(c.word()).external_audio_reverb == c.external_audio_reverb,
        SpuStatus::decode(c.word()).cd_audio_reverb == c.cd_audio_reverb,
        SpuStatus::decode(c.word()).external_audio_enable == c.external_audio_enable,
        SpuStatus::decode(c.word()).cd_audio_enable == c.cd_audio_enable,
{
    let w = c.word();
    let a = flag(c.spu_enable);
    let b = flag(c.mute_spu);
    let ns = c.noise_freq_shift.code();
    let st = c.noise_freq_step.code();
    let rv = flag(c.reverb_master_enable);
    let iq = flag(c.irq9_enable);
    let m = c.sound_ram_transfer_mode.code();
    let er = flag(c.external_audio_reverb);
    let cr = flag(c.cd_audio_reverb);
    let ee = flag(c.external_audio_enable);
    let ce = flag(c.cd_audio_enable);
    assert(((w >> 4u16) & 3 == m) && (((w >> 3u16) & 1 == 1) == (er == 1)) && (((w >> 2u16) & 1 == 1) == (cr == 1))
        && (((w >> 1u16) & 1 == 1) == (ee == 1)) && (((w >> 0u16) & 1 == 1) == (ce == 1))) by (bit_vector)
        requires
            a <= 1 && b <= 1 && ns < 16 && st < 4 && rv <= 1 && iq <= 1 && m < 4 && er <= 1 && cr <= 1 && ee <= 1
                && ce <= 1,
            w == (a << 15u16) | (b << 14u16) | (ns << 10u16) | (st << 8u16) | (rv << 7u16) | (iq << 6u16) | (m << 4u16)
                | (er << 3u16) | (cr << 2u16) | (ee << 1u16) | ce,
    ;
}

} // verus!
