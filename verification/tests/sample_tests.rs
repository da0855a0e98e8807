use ps1_audio::common::HwOp;
use ps1_audio::spu::sample::{SampleBank, SampleId, SampleRef};
use ps1_audio::spu::sample_manager::{Sample as PlainSample, SampleManager as PlainManager};
use ps1_audio::spu::{SampleManager, SPU};
use ps1_audio::spu2::sample::{SampleBank as WrappingBank, SampleId as WrapId, SampleRef as WrapRef};

#[test]
fn bank_aligns_samples_to_16_bytes() {
    let mut bank: SampleBank<4> = SampleBank::new();
    let mut log = Vec::new();
    assert_eq!(bank.load(SampleId(0), &[1u8; 10], &mut log), Ok(SampleRef { spu_addr: 0x1000, size: 10 }));
    assert_eq!(bank.load(SampleId(1), &[2u8; 4], &mut log), Ok(SampleRef { spu_addr: 0x1010, size: 4 }));
    assert_eq!(bank.get(SampleId(1)), Some(&SampleRef { spu_addr: 0x1010, size: 4 }));
    assert_eq!(bank.get(SampleId(2)), None);
    assert_eq!(bank.get(SampleId(9)), None);
}

#[test]
fn bank_errors() {
    let mut bank: SampleBank<2> = SampleBank::new();
    let mut log = Vec::new();
    assert_eq!(bank.load(SampleId(2), &[1u8; 4], &mut log), Err("bad sample id"));
    assert_eq!(bank.load(SampleId(0), &[], &mut log), Err("empty sample"));
    assert!(log.is_empty());
}

#[test]
fn bank_respects_reverb_limit() {
    let mut bank: SampleBank<2> = SampleBank::new();
    let mut log = Vec::new();
    bank.set_addr_limit(0x1008);
    assert_eq!(bank.load(SampleId(0), &[1u8; 9], &mut log), Err("spu ram full"));
    assert_eq!(bank.load(SampleId(0), &[1u8; 8], &mut log), Ok(SampleRef { spu_addr: 0x1000, size: 8 }));
    bank.set_addr_limit(u16::MAX);
    assert_eq!(bank.load(SampleId(1), &[1u8; 8], &mut log), Ok(SampleRef { spu_addr: 0x1010, size: 8 }));
}

#[test]
fn bank_refuses_data_past_address_space() {
    let mut bank: SampleBank<2> = SampleBank::new();
    let mut log = Vec::new();
    let big = vec![0u8; 0xF000];
    assert_eq!(bank.load(SampleId(0), &big, &mut log), Err("spu ram full"));
}

#[test]
fn bank_reset_rewinds_cursor_and_clears_slots() {
    let mut bank: SampleBank<2> = SampleBank::new();
    let mut log = Vec::new();
    bank.load(SampleId(0), &[1u8; 40], &mut log).unwrap();
    bank.reset();
    assert_eq!(bank.get(SampleId(0)), None);
    assert_eq!(bank.load(SampleId(1), &[1u8; 4], &mut log), Ok(SampleRef { spu_addr: 0x1000, size: 4 }));
}

#[test]
fn bank_load_writes_data_through_fifo() {
    let mut bank: SampleBank<1> = SampleBank::new();
    let mut log = Vec::new();
    bank.load(SampleId(0), &[0xAA, 0xBB], &mut log).unwrap();
    assert_eq!(
        log,
        vec![
            HwOp::Write16 { addr: 0x1F80_1DA6, value: 0x1000 },
            HwOp::Write16 { addr: 0x1F80_1DAC, value: 4 },
            HwOp::Write16 { addr: 0x1F80_1DA8, value: 0xBBAA },
        ]
    );
}

#[test]
fn wrapping_bank_places_samples_back_to_back() {
    let mut bank: WrappingBank<4> = WrappingBank::new();
    let mut log = Vec::new();
    assert_eq!(bank.load(WrapId(0), &[1u8; 10], &mut log), Ok(WrapRef { spu_addr: 0x1000, size: 10 }));
    assert_eq!(bank.load(WrapId(3), &[1u8; 3], &mut log), Ok(WrapRef { spu_addr: 0x100A, size: 3 }));
    assert_eq!(bank.get(WrapId(3)), Some(&WrapRef { spu_addr: 0x100A, size: 3 }));
    assert_eq!(bank.load(WrapId(4), &[1u8; 3], &mut log), Err("sample id out of range"));
    assert_eq!(bank.load(WrapId(1), &[], &mut log), Err("empty audio data"));
}

#[test]
fn wrapping_bank_cursor_wraps() {
    let mut bank: WrappingBank<2> = WrappingBank::new();
    let mut log = Vec::new();
    let big = vec![0u8; 0xF000];
    assert_eq!(bank.load(WrapId(0), &big, &mut log), Ok(WrapRef { spu_addr: 0x1000, size: 0xF000 }));
    assert_eq!(bank.load(WrapId(1), &[1u8; 2], &mut log), Ok(WrapRef { spu_addr: 0x0000, size: 2 }));
    bank.reset();
    assert_eq!(bank.get(WrapId(0)), None);
    assert_eq!(bank.load(WrapId(1), &[1u8; 2], &mut log), Ok(WrapRef { spu_addr: 0x1000, size: 2 }));
}

#[test]
fn vag_header_is_skipped() {
    let mut m = SampleManager::new();
    let mut log = Vec::new();
    let mut vag = vec![0xFFu8; 48];
    vag.extend_from_slice(&[0x01, 0x02, 0x03, 0x04]);
    let s = m.load_sample(&vag, &mut log).unwrap();
    assert_eq!((s.id, s.spu_addr, s.size, s.in_use), (1, 0x1000, 4, true));
    assert_eq!(log[2], HwOp::Write16 { addr: 0x1F80_1DA8, value: 0x0201 });
    assert_eq!(log[3], HwOp::Spin { iterations: 10 });
    assert_eq!(log[4], HwOp::Write16 { addr: 0x1F80_1DA8, value: 0x0403 });
    assert_eq!(log.len(), 6);
    let s2 = m.load_sample(&vag, &mut log).unwrap();
    assert_eq!((s2.id, s2.spu_addr), (2, 0x1004));
}

#[test]
fn short_vag_is_invalid() {
    let mut m = SampleManager::new();
    let mut log = Vec::new();
    assert_eq!(m.load_sample(&[0u8; 47], &mut log).err(), Some("Invalid VAG data"));
    assert!(log.is_empty());
}

#[test]
fn header_only_vag_is_an_empty_sample() {
    let mut m = SampleManager::new();
    let mut log = Vec::new();
    let s = m.load_sample(&[0u8; 48], &mut log).unwrap();
    assert_eq!((s.id, s.spu_addr, s.size), (1, 0x1000, 0));
}

#[test]
fn samples_are_found_by_id_and_can_be_deactivated() {
    let mut m = SampleManager::new();
    let mut log = Vec::new();
    m.load_sample(&[0u8; 60], &mut log).unwrap();
    m.load_sample(&[0u8; 52], &mut log).unwrap();
    assert_eq!(m.get_sample(2).map(|s| s.spu_addr), Some(0x100C));
    assert!(m.get_sample(3).is_none());
    m.get_sample_mut(2).unwrap().deactivate();
    assert!(!m.get_sample(2).unwrap().is_active());
    assert!(m.get_sample(1).unwrap().is_active());
}

#[test]
fn spu_powers_on_and_loads() {
    let mut log = Vec::new();
    let mut spu = SPU::new(&mut log);
    assert_eq!(
        log,
        vec![
            HwOp::Write16 { addr: 0x1F80_1DAA, value: 0xC000 },
            HwOp::Spin { iterations: 100000 },
            HwOp::Write16 { addr: 0x1F80_1DAA, value: 0xC001 },
            HwOp::Write32 { addr: 0x1F80_1D80, value: 0x3FFF },
            HwOp::Write32 { addr: 0x1F80_1D82, value: 0x3FFF },
            HwOp::Spin { iterations: 50000 },
        ]
    );
    let s = spu.load_sample(&[0u8; 50], &mut log).unwrap();
    assert_eq!(spu.get_sample(s.id).map(|x| x.size), Some(2));
    spu.get_sample_mut(s.id).unwrap().deactivate();
    assert!(!spu.get_sample(s.id).unwrap().is_active());
}

#[test]
fn plain_manager_loads_back_to_back() {
    let mut m = PlainManager::new();
    let mut log = Vec::new();
    assert_eq!(m.load(&[], &mut log).err(), Some("Empty audio data"));
    let a = m.load(&[1u8; 30], &mut log).unwrap();
    let b = m.load(&[1u8; 5], &mut log).unwrap();
    assert_eq!((a.id, a.spu_addr, a.size), (1, 0x1000, 30));
    assert_eq!((b.id, b.spu_addr, b.size), (2, 0x101E, 5));
    assert!(a.is_active());
    m.deactivate(&a);
}

#[test]
fn plain_manager_runs_out_of_sample_slots() {
    let mut m = PlainManager::new();
    let mut log = Vec::new();
    for i in 0..64u16 {
        let s: PlainSample = m.load(&[1u8; 2], &mut log).unwrap();
        assert_eq!(s.id, i + 1);
    }
    assert_eq!(m.load(&[1u8; 2], &mut log).err(), Some("No free sample slots"));
}

#[test]
fn bank_loads_since_reset_never_overlap() {
    let mut bank: SampleBank<4> = SampleBank::new();
    let mut log = Vec::new();
    let a = bank.load(SampleId(0), &[1u8; 5], &mut log).unwrap();
    bank.set_addr_limit(0x2000);
    let b = bank.load(SampleId(0), &[1u8; 20], &mut log).unwrap();
    let c = bank.load(SampleId(3), &[1u8; 3], &mut log).unwrap();
    assert!(a.spu_addr + a.size <= b.spu_addr);
    assert!(b.spu_addr + b.size <= c.spu_addr);
    assert_eq!((b.spu_addr, c.spu_addr), (0x1010, 0x1030));
}

#[test]
fn successive_vag_loads_are_numbered_and_back_to_back() {
    let mut m = SampleManager::new();
    let mut log = Vec::new();
    let mut ends = 0x1000u16;
    for k in 1..=3u16 {
        let s = m.load_sample(&vec![0u8; 48 + 10 * k as usize], &mut log).unwrap();
        assert_eq!(s.id, k);
        assert_eq!(s.spu_addr, ends);
        ends = s.spu_addr + s.size;
        assert_eq!(m.get_sample(k), Some(&s));
    }
}
