use ps1_audio::common::HwOp;
use ps1_audio::spu2::hw::{
    self, transfer_to_spu_ram, VoiceHw, SPU_KEY_OFF, SPU_KEY_ON, SPU_RAM_TRANSFER_ADDR, SPU_RAM_TRANSFER_CTRL,
    SPU_RAM_TRANSFER_FIFO,
};
use ps1_audio::spu2::voice::{VoiceAlloc, VoiceLayout};

fn w16(addr: usize, value: u16) -> HwOp {
    HwOp::Write16 { addr, value }
}

fn w32(addr: usize, value: u32) -> HwOp {
    HwOp::Write32 { addr, value }
}

#[test]
fn layout_new_keeps_ranges() {
    let l = VoiceLayout::new((0, 16), (16, 8));
    assert_eq!(l.music_start, 0);
    assert_eq!(l.music_count, 16);
    assert_eq!(l.sfx_start, 16);
    assert_eq!(l.sfx_count, 8);
}

#[test]
fn claim_music_hands_out_lowest_free_voice() {
    let mut a = VoiceAlloc::with_layout(VoiceLayout::new((0, 2), (2, 1)));
    assert_eq!(a.claim_music().map(|v| v.id()), Some(0));
    assert_eq!(a.claim_music().map(|v| v.id()), Some(1));
    assert_eq!(a.claim_music().map(|v| v.id()), None);
}

#[test]
fn claimed_voice_is_not_handed_out_twice_until_released() {
    let mut a = VoiceAlloc::with_layout(VoiceLayout::new((4, 3), (20, 2)));
    let mut log = Vec::new();
    let first = a.claim_music().unwrap();
    let second = a.claim_music().unwrap();
    assert_eq!((first.id(), second.id()), (4, 5));
    a.release_music(&first, &mut log);
    assert_eq!(log, vec![w32(SPU_KEY_OFF, 1 << 4)]);
    assert_eq!(a.claim_music().map(|v| v.id()), Some(4));
    assert_eq!(a.claim_music().map(|v| v.id()), Some(6));
}

#[test]
fn sfx_and_music_groups_are_independent() {
    let mut a = VoiceAlloc::with_layout(VoiceLayout::new((0, 1), (23, 1)));
    assert_eq!(a.claim_sfx().map(|v| v.id()), Some(23));
    assert_eq!(a.claim_sfx().map(|v| v.id()), None);
    assert_eq!(a.claim_music().map(|v| v.id()), Some(0));
}

#[test]
fn release_music_deferred_returns_bit_without_log() {
    let mut a = VoiceAlloc::with_layout(VoiceLayout::new((8, 4), (16, 8)));
    let v = a.claim_music().unwrap();
    assert_eq!(a.release_music_deferred(&v), 1 << 8);
    assert_eq!(a.claim_music().map(|v| v.id()), Some(8));
}

#[test]
fn release_all_keys_off_everything_in_use() {
    let mut a = VoiceAlloc::with_layout(VoiceLayout::new((0, 16), (16, 8)));
    let mut log = Vec::new();
    a.claim_music();
    a.claim_music();
    a.claim_sfx();
    a.release_all(&mut log);
    assert_eq!(log, vec![w32(SPU_KEY_OFF, 0b11 | (1 << 16))]);
    assert_eq!(a.claim_music().map(|v| v.id()), Some(0));
    assert_eq!(a.claim_sfx().map(|v| v.id()), Some(16));
}

#[test]
fn release_all_with_nothing_in_use_writes_nothing() {
    let mut a = VoiceAlloc::with_layout(VoiceLayout::new((0, 16), (16, 8)));
    let mut log = Vec::new();
    a.release_all(&mut log);
    assert!(log.is_empty());
}

#[test]
fn set_layout_releases_voices_first() {
    let mut a = VoiceAlloc::with_layout(VoiceLayout::new((0, 16), (16, 8)));
    let mut log = Vec::new();
    a.claim_sfx();
    a.set_layout(VoiceLayout::new((0, 24), (0, 0)), &mut log);
    assert_eq!(log, vec![w32(SPU_KEY_OFF, 1 << 16)]);
    assert_eq!(a.claim_sfx().map(|v| v.id()), None);
    assert_eq!(a.claim_music().map(|v| v.id()), Some(0));
}

#[test]
fn voice_trigger_programs_registers_then_keys_on() {
    let v = VoiceHw::new(2);
    let mut log = Vec::new();
    v.trigger(0x1200, 0x1000, 0x3FFF, 0x80FF_8000, &mut log);
    let base = 0x1F80_1C20;
    assert_eq!(
        log,
        vec![
            w16(base, 0x3FFF),
            w16(base + 2, 0x3FFF),
            w16(base + 6, 0x1200),
            w16(base + 0xE, 0x1200),
            w16(base + 4, 0x1000),
            w32(base + 8, 0x80FF_8000),
            w32(SPU_KEY_ON, 1 << 2),
        ]
    );
}

#[test]
fn key_off_all_masks_24_voices() {
    let mut log = Vec::new();
    hw::key_off_all(&mut log);
    assert_eq!(log, vec![w32(SPU_KEY_OFF, 0x00FF_FFFF)]);
}

#[test]
fn transfer_packs_bytes_little_endian_with_odd_tail() {
    let mut log = Vec::new();
    transfer_to_spu_ram(0x1000, &[0x11, 0x22, 0x33], &mut log);
    assert_eq!(
        log,
        vec![
            w16(SPU_RAM_TRANSFER_ADDR, 0x1000),
            w16(SPU_RAM_TRANSFER_CTRL, 4),
            w16(SPU_RAM_TRANSFER_FIFO, 0x2211),
            w16(SPU_RAM_TRANSFER_FIFO, 0x0033),
        ]
    );
}

#[test]
fn clear_spu_ram_writes_zero_halfwords() {
    let mut log = Vec::new();
    hw::clear_spu_ram(0x2000, 3, &mut log);
    assert_eq!(log.len(), 5);
    assert_eq!(log[0], w16(SPU_RAM_TRANSFER_ADDR, 0x2000));
    assert_eq!(log[4], w16(SPU_RAM_TRANSFER_FIFO, 0));
}
