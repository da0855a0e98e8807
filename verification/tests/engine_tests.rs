use ps1_audio::common::HwOp;
use ps1_audio::spu::bus::{AudioStatus, Command, CommandBus};
use ps1_audio::spu::music::{Adsr, Cell, Pan, Pattern, Pitch, Song, SoundProject, Track, Volume};
use ps1_audio::spu::sample::SampleId;
use ps1_audio::spu2::engine::{after_row_wait, song_row_fits, Engine, RowStep, WaitResult};
use ps1_audio::spu2::hw::{SPU_KEY_OFF, SPU_KEY_ON, SPU_REVERB_ON};
use ps1_audio::spu2::voice::VoiceLayout;

fn w16(addr: usize, value: u16) -> HwOp {
    HwOp::Write16 { addr, value }
}

fn w32(addr: usize, value: u32) -> HwOp {
    HwOp::Write32 { addr, value }
}

fn data(len: usize) -> &'static [u8] {
    Box::leak(vec![0x55u8; len].into_boxed_slice())
}

fn engine() -> Engine {
    let mut taken = false;
    let mut log = Vec::new();
    Engine::take(&mut taken, &mut log).unwrap()
}

fn project() -> SoundProject<2> {
    SoundProject { samples: [data(100), data(40)], layout: VoiceLayout::new((0, 16), (16, 8)) }
}

fn loaded_engine() -> Engine {
    let mut e = engine();
    let mut log = Vec::new();
    e.load_project(&project(), &mut log);
    e
}

/// The six register writes that program voice `v` for a sample.
fn prepare(v: usize, addr: u16, pitch: u16, vol: u16) -> Vec<HwOp> {
    let base = 0x1F80_1C00 + v * 0x10;
    vec![
        w16(base, vol),
        w16(base + 2, vol),
        w16(base + 6, addr),
        w16(base + 0xE, addr),
        w16(base + 4, pitch),
        w32(base + 8, 0x80FF_8000),
    ]
}

#[test]
fn take_hands_out_one_engine_and_initialises_hardware() {
    let mut taken = false;
    let mut log = Vec::new();
    assert!(Engine::take(&mut taken, &mut log).is_some());
    assert!(taken);
    assert_eq!(log[0], w16(0x1F80_1DAA, 0xC000));
    assert_eq!(log[1], w16(0x1F80_1DAA, 0xC001));
    assert_eq!(*log.last().unwrap(), w16(0x1F80_1114, 0x0100));
    let mut log2 = Vec::new();
    assert!(Engine::take(&mut taken, &mut log2).is_none());
    assert!(log2.is_empty());
}

#[test]
fn hblanks_per_row_at_120_bpm() {
    let e = engine();
    assert_eq!(e.hblanks_per_row(), 1962);
}

#[test]
fn note_claims_voice_and_programs_it() {
    let mut e = loaded_engine();
    let mut log = Vec::new();
    let cell = Cell::note(SampleId(1), Pitch(0x1000));
    let (on, off) = e.apply_cell(0, &cell, &mut log);
    assert_eq!((on, off), (1, 0));
    // sample 0 takes 0x1000..0x1064, sample 1 starts at the next 16-byte boundary
    assert_eq!(log, prepare(0, 0x1070, 0x1000, 0x3FFF));
}

#[test]
fn retrigger_releases_previous_voice_of_channel() {
    let mut e = loaded_engine();
    let mut log = Vec::new();
    e.apply_cell(3, &Cell::note(SampleId(0), Pitch(0x1000)), &mut log);
    let (on, off) = e.apply_cell(3, &Cell::note_vol(SampleId(0), Pitch(0x0800), Volume(0x2000)), &mut log);
    // voice 0 was freed and is claimed again for the new note
    assert_eq!((on, off), (1, 1));
}

#[test]
fn zero_pitch_keys_channel_off() {
    let mut e = loaded_engine();
    let mut log = Vec::new();
    e.apply_cell(0, &Cell::note(SampleId(0), Pitch(0x1000)), &mut log);
    e.apply_cell(1, &Cell::note(SampleId(0), Pitch(0x1000)), &mut log);
    let (on, off) = e.apply_cell(1, &Cell::note(SampleId(0), Pitch(0)), &mut log);
    assert_eq!((on, off), (0, 1 << 1));
}

#[test]
fn unknown_sample_is_ignored() {
    let mut e = loaded_engine();
    let mut log = Vec::new();
    let (on, off) = e.apply_cell(0, &Cell::note(SampleId(9), Pitch(0x1000)), &mut log);
    assert_eq!((on, off), (0, 0));
    assert!(log.is_empty());
}

#[test]
fn volume_only_cell_adjusts_playing_voice() {
    let mut e = loaded_engine();
    let mut log = Vec::new();
    e.apply_cell(0, &Cell::note(SampleId(0), Pitch(0x1000)), &mut log);
    log.clear();
    let mut cell = Cell::empty();
    cell.volume = Some(Volume(0x1000));
    assert_eq!(e.apply_cell(0, &cell, &mut log), (0, 0));
    assert_eq!(log, vec![w16(0x1F80_1C00, 0x1000), w16(0x1F80_1C02, 0x1000)]);
}

#[test]
fn trigger_row_batches_key_on_and_writes_reverb_mask() {
    let mut e = loaded_engine();
    let mut log = Vec::new();
    let pat: Pattern<4> = Pattern::new()
        .set(0, 0, Cell::note(SampleId(0), Pitch(0x1000)))
        .set(0, 1, Cell::note(SampleId(1), Pitch(0x1000)))
        .set(2, 2, Cell::note(SampleId(1), Pitch(0x1000)));
    e.trigger_row(&pat, 0, &mut log);
    let mut expected = prepare(0, 0x1000, 0x1000, 0x3FFF);
    expected.extend(prepare(1, 0x1070, 0x1000, 0x3FFF));
    expected.push(w32(SPU_KEY_ON, 0b11));
    expected.push(w32(SPU_REVERB_ON, 0));
    assert_eq!(log, expected);
}

#[test]
fn reverb_channel_routes_its_voice() {
    let mut e = loaded_engine();
    let mut log = Vec::new();
    e.set_channel_reverb(1, true);
    let pat: Pattern<1> = Pattern::new()
        .set(0, 0, Cell::note(SampleId(0), Pitch(0x1000)))
        .set(0, 1, Cell::note(SampleId(0), Pitch(0x1000)));
    e.trigger_row(&pat, 0, &mut log);
    assert_eq!(*log.last().unwrap(), w32(SPU_REVERB_ON, 1 << 1));
}

#[test]
fn release_music_voices_keys_off_and_clears_routing() {
    let mut e = loaded_engine();
    let mut log = Vec::new();
    e.set_channel_reverb(0, true);
    e.apply_cell(0, &Cell::note(SampleId(0), Pitch(0x1000)), &mut log);
    log.clear();
    e.release_music_voices(&mut log);
    assert_eq!(log, vec![w32(SPU_KEY_OFF, 1), w32(SPU_REVERB_ON, 0)]);
}

#[test]
fn play_sfx_triggers_and_releases_an_sfx_voice() {
    let mut e = loaded_engine();
    let mut log = Vec::new();
    e.play_sfx(SampleId(0), Pitch(0x0800), &mut log);
    let mut expected = prepare(16, 0x1000, 0x0800, 0x3FFF);
    expected.push(w32(SPU_KEY_ON, 1 << 16));
    expected.push(w32(SPU_KEY_OFF, 1 << 16));
    assert_eq!(log, expected);
}

#[test]
fn commands_are_handled_in_order() {
    let mut e = loaded_engine();
    let mut bus: CommandBus<8> = CommandBus::new();
    let mut log = Vec::new();
    assert!(bus.send(Command::SetBpm(240)));
    assert!(bus.send(Command::Interrupt));
    e.process_commands(&mut bus, &mut log);
    assert!(e.is_interrupted());
    assert_eq!(e.hblanks_per_row(), 981);
    assert_eq!(bus.poll(), None);
    e.clear_interrupt();
    assert!(!e.is_interrupted());
}

#[test]
fn stop_all_silences_everything_and_interrupts() {
    let mut e = loaded_engine();
    let mut log = Vec::new();
    e.apply_cell(0, &Cell::note(SampleId(0), Pitch(0x1000)), &mut log);
    log.clear();
    e.process_command(Command::StopAll, &mut log);
    assert!(e.is_interrupted());
    assert_eq!(log, vec![w32(SPU_KEY_OFF, 1), w32(SPU_REVERB_ON, 0)]);
}

#[test]
fn row_wait_counts_hblanks_with_wraparound() {
    let mut e = loaded_engine();
    e.resync_clock(65530);
    let left = e.advance_clock(10, 100);
    assert_eq!(left, 84);
    assert_eq!(e.wait_outcome(left), None);
    let left = e.advance_clock(200, left);
    assert_eq!(left, 0);
    assert_eq!(e.wait_outcome(left), Some(WaitResult::Complete));
    e.process_command(Command::Interrupt, &mut Vec::new());
    assert_eq!(e.wait_outcome(5), Some(WaitResult::Interrupted));
    assert!(WaitResult::Interrupted.interrupted());
    assert!(!WaitResult::Complete.interrupted());
}

#[test]
fn begin_song_reports_longest_order() {
    let mut e = loaded_engine();
    let song: Song<2, 2, 4> = Song::new(150)
        .with_track(0, Track::new().with_order(&[0]))
        .with_track(1, Track::new().with_order(&[0, 1]));
    assert_eq!(e.begin_song(&song), 2);
    assert_eq!(e.hblanks_per_row(), 15700 * 60 / (150 * 4));
}

#[test]
fn begin_pattern_counts_patterns() {
    let mut e = loaded_engine();
    assert_eq!(e.begin_pattern(), 0);
    assert_eq!(e.begin_pattern(), 1);
    e.load_project(&project(), &mut Vec::new());
    assert_eq!(e.begin_pattern(), 0);
}

#[test]
fn song_row_layers_tracks() {
    let mut e = loaded_engine();
    let mut log = Vec::new();
    let p0: Pattern<2> = Pattern::new().set(1, 0, Cell::note(SampleId(0), Pitch(0x1000)));
    let p1: Pattern<2> = Pattern::new().set(1, 5, Cell::note(SampleId(1), Pitch(0x2000)));
    let song: Song<2, 1, 2> = Song::new(120)
        .with_track(0, Track::new().with_pattern(0, p0).with_order(&[0]))
        .with_track(1, Track::new().with_pattern(0, p1).with_order(&[0]));
    e.trigger_song_row(&song, 0, 1, &mut log);
    let mut expected = prepare(0, 0x1000, 0x1000, 0x3FFF);
    expected.extend(prepare(1, 0x1070, 0x2000, 0x3FFF));
    expected.push(w32(SPU_KEY_ON, 0b11));
    expected.push(w32(SPU_REVERB_ON, 0));
    assert_eq!(log, expected);
}

#[test]
fn layered_patterns_share_channels() {
    let mut e = loaded_engine();
    let mut log = Vec::new();
    let a: Pattern<1> = Pattern::new().set(0, 2, Cell::note(SampleId(0), Pitch(0x1000)));
    let b: Pattern<1> = Pattern::new().set(0, 3, Cell::note(SampleId(0), Pitch(0x1000)));
    e.trigger_layered_row(&[&a, &b], 0, &mut log);
    assert_eq!(log[log.len() - 2], w32(SPU_KEY_ON, 0b11));
}

#[test]
fn disable_reverb_clears_routing() {
    let mut e = loaded_engine();
    let mut log = Vec::new();
    e.set_channel_reverb(0, true);
    e.disable_reverb(&mut log);
    assert_eq!(
        log,
        vec![
            w16(0x1F80_1D84, 0),
            w16(0x1F80_1D86, 0),
            w32(SPU_REVERB_ON, 0),
            HwOp::And16 { addr: 0x1F80_1DAA, bits: 0xFF7F },
        ]
    );
}

#[test]
fn note_plays_with_its_own_envelope() {
    let mut e = loaded_engine();
    let mut log = Vec::new();
    let cell = Cell::note(SampleId(0), Pitch(0x1000)).with_adsr(Adsr::from_raw(0x1234_5678));
    assert_eq!(e.apply_cell(0, &cell, &mut log), (1, 0));
    let mut expected = prepare(0, 0x1000, 0x1000, 0x3FFF);
    expected[5] = w32(0x1F80_1C08, 0x1234_5678);
    assert_eq!(log, expected);
}

#[test]
fn panned_note_sets_left_and_right_volumes() {
    let mut e = loaded_engine();
    let mut log = Vec::new();
    let cell = Cell::note_vol(SampleId(0), Pitch(0x1000), Volume(0x2000)).with_pan(Pan(-32));
    assert_eq!(e.apply_cell(0, &cell, &mut log), (1, 0));
    let mut expected = prepare(0, 0x1000, 0x1000, 0x2000);
    // left-biased: the right side is scaled by (64 - 32) / 64
    expected[1] = w16(0x1F80_1C02, 0x1000);
    assert_eq!(log, expected);

    log.clear();
    let right = Cell::note_vol(SampleId(0), Pitch(0x1000), Volume(0x2000)).with_pan(Pan(48));
    e.apply_cell(1, &right, &mut log);
    assert_eq!(log[0], w16(0x1F80_1C10, 0x0800));
    assert_eq!(log[1], w16(0x1F80_1C12, 0x2000));
}

#[test]
fn pan_beyond_the_range_is_held_at_its_edge() {
    let mut e = loaded_engine();
    let mut log = Vec::new();
    let cell = Cell::note_vol(SampleId(0), Pitch(0x1000), Volume(0x2000)).with_pan(Pan(100));
    e.apply_cell(0, &cell, &mut log);
    assert_eq!(log[0], w16(0x1F80_1C00, 0));
    assert_eq!(log[1], w16(0x1F80_1C02, 0x2000));
}

#[test]
fn volume_only_cell_keeps_its_panning() {
    let mut e = loaded_engine();
    let mut log = Vec::new();
    e.apply_cell(0, &Cell::note(SampleId(0), Pitch(0x1000)), &mut log);
    log.clear();
    let mut cell = Cell::empty().with_pan(Pan(Pan::LEFT));
    cell.volume = Some(Volume(0x1000));
    assert_eq!(e.apply_cell(0, &cell, &mut log), (0, 0));
    assert_eq!(log, vec![w16(0x1F80_1C00, 0x1000), w16(0x1F80_1C02, 0)]);
}

#[test]
fn loading_a_project_clears_reverb_routing() {
    let mut e = loaded_engine();
    let mut log = Vec::new();
    e.set_channel_reverb(0, true);
    e.apply_cell(0, &Cell::note(SampleId(0), Pitch(0x1000)), &mut log);
    e.set_channel_reverb(0, false);
    e.load_project(&project(), &mut log);
    log.clear();
    let pat: Pattern<1> = Pattern::new().set(0, 1, Cell::note(SampleId(0), Pitch(0x1000)));
    e.trigger_row(&pat, 0, &mut log);
    assert_eq!(*log.last().unwrap(), w32(SPU_REVERB_ON, 0));
}

#[test]
fn row_step_goes_on_until_the_last_row_or_an_interrupt() {
    assert_eq!(after_row_wait(0, 4, WaitResult::Complete), RowStep::Next(1));
    assert_eq!(after_row_wait(3, 4, WaitResult::Complete), RowStep::Stop(WaitResult::Complete));
    assert_eq!(after_row_wait(1, 4, WaitResult::Interrupted), RowStep::Stop(WaitResult::Interrupted));
}

#[test]
fn status_of_a_playing_row() {
    let s = AudioStatus::at_row(2, 5);
    assert!(s.playing);
    assert_eq!((s.current_pattern, s.current_row), (2, 5));
    let wide = AudioStatus::at_row(0x1_0003, 7);
    assert_eq!(wide.current_pattern, 3);
}

#[test]
fn song_row_fits_checks_only_the_row_played() {
    let p0: Pattern<2> = Pattern::new().set(1, 0, Cell::note(SampleId(0), Pitch(0x1000)));
    let p1: Pattern<2> = Pattern::new().set(1, 30, Cell::note(SampleId(1), Pitch(0x2000)));
    let song: Song<2, 1, 2> = Song::new(120)
        .with_track(0, Track::new().with_pattern(0, p0).with_order(&[0]))
        .with_track(1, Track::new().with_pattern(0, p1).with_order(&[0]));
    assert!(song_row_fits(&song, 0, 0));
    assert!(!song_row_fits(&song, 0, 1));
    // past the end of the order lists no pattern plays
    assert!(song_row_fits(&song, 1, 1));
}
