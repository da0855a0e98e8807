use ps1_audio::common::HwOp;
use ps1_audio::spu::sampler::Sampler;

fn load(s: &mut Sampler, len: usize) -> (u16, u16, u16) {
    let mut log = Vec::new();
    let smp = s.load(&vec![0x11u8; len], &mut log).unwrap();
    (smp.id, smp.spu_addr, smp.size)
}

#[test]
fn empty_data_is_rejected() {
    let mut s = Sampler::new();
    let mut log = Vec::new();
    assert_eq!(s.load(&[], &mut log).err(), Some("Empty audio data"));
    assert!(log.is_empty());
}

#[test]
fn samples_go_back_to_back_while_nothing_is_released() {
    let mut s = Sampler::new();
    assert_eq!(load(&mut s, 100), (1, 0x1000, 100));
    assert_eq!(load(&mut s, 50), (2, 0x1064, 50));
    assert_eq!(load(&mut s, 1), (3, 0x1096, 1));
}

#[test]
fn load_writes_the_data_at_the_chosen_address() {
    let mut s = Sampler::new();
    let mut log = Vec::new();
    s.load(&[1, 2, 3, 4], &mut log).unwrap();
    s.load(&[5, 6], &mut log).unwrap();
    assert_eq!(
        &log[4..],
        &[
            HwOp::Write16 { addr: 0x1F80_1DA6, value: 0x1004 },
            HwOp::Write16 { addr: 0x1F80_1DAC, value: 4 },
            HwOp::Write16 { addr: 0x1F80_1DA8, value: 0x0605 },
        ]
    );
}

#[test]
fn released_room_is_reused() {
    let mut s = Sampler::new();
    let mut log = Vec::new();
    let a = s.load(&[0u8; 100], &mut log).unwrap();
    load(&mut s, 50);
    s.deactivate(a);
    // fits in the room of the first sample
    assert_eq!(load(&mut s, 80), (3, 0x1000, 80));
    // the cursor did not move: the next sample goes after the second one
    assert_eq!(load(&mut s, 10), (4, 0x1096, 10));
}

#[test]
fn too_small_room_is_not_reused() {
    let mut s = Sampler::new();
    let mut log = Vec::new();
    let a = s.load(&[0u8; 20], &mut log).unwrap();
    load(&mut s, 50);
    s.deactivate(a);
    assert_eq!(load(&mut s, 21), (3, 0x1046, 21));
}

#[test]
fn adjacent_released_blocks_are_merged() {
    let mut s = Sampler::new();
    let mut log = Vec::new();
    let a = s.load(&[0u8; 100], &mut log).unwrap();
    let b = s.load(&[0u8; 50], &mut log).unwrap();
    load(&mut s, 30);
    s.deactivate(a);
    s.deactivate(b);
    // 100 + 50 bytes of adjacent released room hold 120 bytes
    let d = s.load(&[0u8; 120], &mut log).unwrap();
    assert_eq!((d.id, d.spu_addr, d.size), (4, 0x1000, 120));
    // the merged block now has the new sample's size: releasing it again
    // leaves room for 120 bytes only
    s.deactivate(d);
    assert_eq!(load(&mut s, 121), (5, 0x10B4, 121));
    assert_eq!(load(&mut s, 120), (6, 0x1000, 120));
}

#[test]
fn lowest_address_run_wins() {
    let mut s = Sampler::new();
    let mut log = Vec::new();
    let a = s.load(&[0u8; 40], &mut log).unwrap();
    load(&mut s, 10);
    let c = s.load(&[0u8; 40], &mut log).unwrap();
    // release the later block first: the search still goes by address
    s.deactivate(c);
    s.deactivate(a);
    assert_eq!(load(&mut s, 30), (4, 0x1000, 30));
    assert_eq!(load(&mut s, 30), (5, 0x1032, 30));
}

#[test]
fn deactivating_an_unknown_sample_changes_nothing() {
    let mut s = Sampler::new();
    let mut log = Vec::new();
    let a = s.load(&[0u8; 40], &mut log).unwrap();
    let mut stranger = a;
    stranger.id = 99;
    s.deactivate(stranger);
    assert_eq!(load(&mut s, 10), (2, 0x1028, 10));
}

#[test]
fn bind_to_voice_sets_up_registers() {
    let mut s = Sampler::new();
    let mut log = Vec::new();
    let smp = s.load(&[0u8; 16], &mut log).unwrap();
    log.clear();
    let mut v = smp.bind_to_voice::<3>(0x1000, 0x3FFF, &mut log);
    v.play(&mut log);
    let base = 0x1F80_1C30;
    assert_eq!(
        log,
        vec![
            HwOp::Write16 { addr: base, value: 0x3FFF },
            HwOp::Write16 { addr: base + 2, value: 0x3FFF },
            HwOp::Write16 { addr: base + 6, value: 0x1000 },
            HwOp::Write16 { addr: base + 0xE, value: 0x1000 },
            HwOp::Write16 { addr: base + 4, value: 0x1000 },
            HwOp::Write32 { addr: base + 8, value: 0x80FF_8000 },
            HwOp::Or32 { addr: 0x1F80_1D88, bits: 1 << 3 },
        ]
    );
}

#[test]
fn full_block_table_fails_after_writing() {
    let mut s = Sampler::new();
    for i in 0..64u16 {
        assert_eq!(load(&mut s, 2).0, i + 1);
    }
    let mut log = Vec::new();
    assert_eq!(s.load(&[7u8; 2], &mut log).err(), Some("No free block slots"));
    // the data was still written at the cursor
    assert_eq!(log[0], HwOp::Write16 { addr: 0x1F80_1DA6, value: 0x1080 });
}

#[test]
fn full_sample_table_fails_even_when_room_is_reused() {
    let mut s = Sampler::new();
    let mut log = Vec::new();
    let first = s.load(&[0u8; 2], &mut log).unwrap();
    for _ in 1..64 {
        load(&mut s, 2);
    }
    s.deactivate(first);
    assert_eq!(s.load(&[7u8; 2], &mut log).err(), Some("No free sample slots"));
}

#[test]
fn samples_in_use_never_share_an_address() {
    let mut s = Sampler::new();
    let mut log = Vec::new();
    let a = s.load(&vec![1u8; 32], &mut log).unwrap();
    let b = s.load(&vec![2u8; 32], &mut log).unwrap();
    s.deactivate(a);
    let c = s.load(&vec![3u8; 16], &mut log).unwrap();
    let d = s.load(&vec![4u8; 40], &mut log).unwrap();
    // the released room of `a` is reused, the rest goes after `b`
    assert_eq!(c.spu_addr, a.spu_addr);
    assert_eq!(d.spu_addr, b.spu_addr + b.size);
    let live = [b, c, d];
    for (i, x) in live.iter().enumerate() {
        for y in live.iter().skip(i + 1) {
            assert!(x.spu_addr + x.size <= y.spu_addr || y.spu_addr + y.size <= x.spu_addr);
        }
    }
}
