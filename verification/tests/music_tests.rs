use ps1_audio::spu::bus::{AudioStatus, Command, CommandBus};
use ps1_audio::spu::music::{
    Adsr, AdsrDir, AdsrMode, Cell, Effect, Pan, Pattern, Pitch, Song, Track, Volume, MAX_EVENTS,
};
use ps1_audio::spu::reverb::ReverbConfig;
use ps1_audio::spu::sample::SampleId;

#[test]
fn pan_center_keeps_both_sides() {
    assert_eq!(Pan(0).apply(0x3FFF), (0x3FFF, 0x3FFF));
}

#[test]
fn pan_hard_left_and_right() {
    assert_eq!(Pan(Pan::LEFT).apply(0x3FFF), (0x3FFF, 0));
    assert_eq!(Pan(Pan::RIGHT).apply(0x3FFF), (0, 0x3FFF));
}

#[test]
fn pan_half_attenuates_far_side() {
    assert_eq!(Pan(-32).apply(0x2000), (0x2000, 0x1000));
    assert_eq!(Pan(16).apply(0x1000), (0x0C00, 0x1000));
}

#[test]
fn pan_of_silence_is_silence() {
    assert_eq!(Pan(100).apply(0), (0, 0));
}

#[test]
fn adsr_builder_packs_fields() {
    let a = Adsr::new()
        .attack(AdsrMode::Exp, 0x0A)
        .decay(0x04)
        .sustain_level(0x0A)
        .sustain(AdsrMode::Exp, AdsrDir::Decrease, 0x12)
        .release(AdsrMode::Exp, 0x0E);
    assert_eq!(a.raw(), 0x722E_A84A);
}

#[test]
fn adsr_fields_are_independent() {
    let a = Adsr::from_raw(0xFFFF_FFFF).decay(0);
    assert_eq!(a.raw(), 0xFFFF_FF0F);
    let b = Adsr::new().sustain_level(0x1F);
    assert_eq!(b.raw(), 0x0F);
    let c = Adsr::new().attack_step(AdsrMode::Lin, 0x1F, 3);
    assert_eq!(c.raw(), (0x1F << 10) | (3 << 8));
    let d = Adsr::new().sustain_step(AdsrMode::Lin, AdsrDir::Increase, 0x03, 2);
    assert_eq!(d.raw(), (0x03 << 24) | (2 << 22));
    assert_eq!(Adsr::DEFAULT, 0x80FF_8000);
}

#[test]
fn cell_builders() {
    let c = Cell::note_vol(SampleId(2), Pitch(0x1000), Volume(Volume::HALF))
        .with_pan(Pan(-16))
        .with_adsr(Adsr::from_raw(7));
    assert_eq!(c.sample, Some(SampleId(2)));
    assert_eq!(c.pitch, Some(Pitch(0x1000)));
    assert_eq!(c.volume, Some(Volume(0x1FFF)));
    assert_eq!(c.pan, Some(Pan(-16)));
    assert_eq!(c.adsr, Some(Adsr::from_raw(7)));
    assert_eq!(c.effect, Effect::NoEffect);
    let n = Cell::note(SampleId(1), Pitch(Pitch::C4));
    assert_eq!(n.volume, Some(Volume(Volume::MAX)));
    let e = Cell::empty();
    assert_eq!(e.sample, None);
    assert_eq!(e.pitch, None);
}

#[test]
fn pattern_set_records_events_in_order() {
    let p: Pattern<16> = Pattern::new()
        .set(0, 1, Cell::note(SampleId(0), Pitch(0x1000)))
        .set(4, 2, Cell::note(SampleId(1), Pitch(0x1000)));
    assert_eq!(p.rows(), 16);
    assert_eq!(p.event_count(), 2);
    assert_eq!(p.event(0).row, 0);
    assert_eq!(p.event(0).ch, 1);
    assert_eq!(p.event(1).row, 4);
    assert_eq!(p.event(1).ch, 2);
    assert!(p.fits_channels(0));
    assert!(p.fits_channels(4));
}

#[test]
fn pattern_drops_rows_past_end() {
    let p: Pattern<4> = Pattern::new().set(4, 0, Cell::note(SampleId(0), Pitch(0x1000)));
    assert_eq!(p.event_count(), 0);
}

#[test]
fn pattern_drops_events_past_capacity() {
    let mut p: Pattern<64> = Pattern::new();
    for i in 0..MAX_EVENTS + 3 {
        p = p.set(i % 64, 0, Cell::note(SampleId(0), Pitch(0x1000)));
    }
    assert_eq!(p.event_count(), MAX_EVENTS);
}

#[test]
fn pattern_with_out_of_range_channel_does_not_fit() {
    let p: Pattern<4> = Pattern::new().set(0, 30, Cell::note(SampleId(0), Pitch(0x1000)));
    assert!(!p.fits_channels(0));
    // other rows never reach the event
    assert!(p.fits_channels(1));
    let q: Pattern<4> = Pattern::new().set(0, 30, Cell::empty());
    assert!(q.fits_channels(0));
}

#[test]
fn track_order_is_truncated_to_bank_size() {
    let t: Track<2, 4> = Track::new().with_order(&[1, 0, 1]);
    assert_eq!(t.order_len, 2);
    assert_eq!(t.order, vec![1, 0]);
    let u: Track<3, 4> = Track::new().with_order(&[2]);
    assert_eq!(u.order_len, 1);
    assert_eq!(u.order, vec![2, 0, 0]);
}

#[test]
fn song_with_track_ignores_out_of_range() {
    let s: Song<1, 1, 4> = Song::new(90).with_track(3, Track::new().with_order(&[0]));
    assert_eq!(s.bpm, 90);
    assert_eq!(s.tracks[0].order_len, 0);
    let s: Song<1, 1, 4> = Song::new(90).with_track(0, Track::new().with_order(&[0]));
    assert_eq!(s.tracks[0].order_len, 1);
}

#[test]
fn bus_is_fifo_and_keeps_one_slot_free() {
    let mut bus: CommandBus<4> = CommandBus::new();
    assert!(bus.send(Command::SetBpm(100)));
    assert!(bus.send(Command::Interrupt));
    assert!(bus.send(Command::StopAll));
    assert!(!bus.send(Command::Interrupt));
    assert_eq!(bus.poll(), Some(Command::SetBpm(100)));
    assert!(bus.send(Command::PlaySfx(SampleId(1), Pitch(0x800))));
    assert_eq!(bus.poll(), Some(Command::Interrupt));
    assert_eq!(bus.poll(), Some(Command::StopAll));
    assert_eq!(bus.poll(), Some(Command::PlaySfx(SampleId(1), Pitch(0x800))));
    assert_eq!(bus.poll(), None);
}

#[test]
fn idle_status() {
    let s = AudioStatus::idle();
    assert!(!s.playing);
    assert_eq!(s.current_pattern, 0);
    assert_eq!(s.current_row, 0);
}

#[test]
fn reverb_registers_in_write_order() {
    let hall = ReverbConfig::hall();
    assert_eq!(hall.buffer_start, 0xEA44);
    let regs = hall.as_registers();
    assert_eq!(regs[0], 0x01A5);
    assert_eq!(regs[1], 0x0139);
    assert_eq!(regs[2], 0x6000);
    assert_eq!(regs[29], 0x013A);
}

#[test]
fn reverb_presets_have_distinct_work_areas() {
    let presets = [
        ReverbConfig::room(),
        ReverbConfig::studio_small(),
        ReverbConfig::studio_medium(),
        ReverbConfig::studio_large(),
        ReverbConfig::hall(),
        ReverbConfig::space(),
    ];
    for p in presets.iter() {
        assert!(p.buffer_start >= 0x1000);
    }
}
