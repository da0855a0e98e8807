use ps1_audio::common::HwOp;
use ps1_audio::spu::sampler::Sampler;
use ps1_audio::spu::tracker::{Note, Pattern, PatternEntry, Sequencer, Song, Track};

fn setup_ops(voice: usize, addr: u16, pitch: u16, vol: u16) -> Vec<HwOp> {
    let base = 0x1F80_1C00 + voice * 0x10;
    vec![
        HwOp::Write16 { addr: base, value: vol },
        HwOp::Write16 { addr: base + 2, value: vol },
        HwOp::Write16 { addr: base + 6, value: addr },
        HwOp::Write16 { addr: base + 0xE, value: addr },
        HwOp::Write16 { addr: base + 4, value: pitch },
        HwOp::Write32 { addr: base + 8, value: 0x80FF_8000 },
        HwOp::Or32 { addr: 0x1F80_1D88, bits: 1 << voice },
    ]
}

fn one_note_song(tempo: u16) -> Song<1, 1, 4> {
    let pat: Pattern<4> = Pattern::new().with_note(0, Note::new(1, 0x1000)).with_note(2, Note::with_volume(1, 0x0800, 0x1000));
    Song::new(tempo).with_track(0, Track::new().with_pattern(0, pat).with_order(&[0]))
}

#[test]
fn note_constructors() {
    assert_eq!(Note::new(3, 0x1000), Note { sample_id: 3, pitch: 0x1000, volume: 0x3FFF });
    assert_eq!(Note::with_volume(3, 0x1000, 7), Note { sample_id: 3, pitch: 0x1000, volume: 7 });
    assert_eq!(PatternEntry::empty().note, None);
    assert_eq!(PatternEntry::note(Note::new(1, 2)).note, Some(Note::new(1, 2)));
}

#[test]
fn pattern_with_note_ignores_rows_past_end() {
    let p: Pattern<2> = Pattern::new().with_note(1, Note::new(1, 5)).with_note(2, Note::new(1, 6));
    assert_eq!(p.entries.len(), 2);
    assert_eq!(p.entries[1].note, Some(Note::new(1, 5)));
    assert_eq!(p.entries[0].note, None);
}

#[test]
fn track_with_order_takes_at_most_the_bank_size() {
    let t: Track<2, 4> = Track::new().with_order(&[1, 1, 0]);
    assert_eq!(t.length, 2);
    assert_eq!(t.pattern_order, vec![1, 1]);
    let t: Track<2, 4> = Track::new().with_pattern(5, Pattern::new());
    assert_eq!(t.patterns.len(), 2);
}

#[test]
fn song_defaults_and_builders() {
    let s: Song<2, 1, 4> = Song::new(120);
    assert_eq!(s.tempo, 120);
    assert_eq!(s.ticks_per_row, 6);
    let s = s.with_ticks_per_row(3);
    assert_eq!(s.ticks_per_row, 3);
    assert_eq!(s.tracks.len(), 2);
}

#[test]
fn load_sample_checks_slot() {
    let mut sampler = Sampler::new();
    let mut seq: Sequencer<4> = Sequencer::new(&mut sampler);
    let mut log = Vec::new();
    assert_eq!(seq.load_sample(4, &[1u8; 8], &mut log), Err("Invalid slot"));
    assert_eq!(seq.load_sample(0, &[], &mut log), Err("Empty audio data"));
    assert_eq!(seq.load_sample(0, &[1u8; 8], &mut log), Ok(()));
}

#[test]
fn sequencer_plays_first_row_on_first_tick() {
    let mut sampler = Sampler::new();
    let mut seq: Sequencer<4> = Sequencer::new(&mut sampler);
    let mut log = Vec::new();
    seq.load_sample(0, &[1u8; 8], &mut log).unwrap();
    let song = one_note_song(360);
    assert!(!seq.is_playing());
    seq.play_song(&song);
    assert!(seq.is_playing());
    log.clear();
    seq.update(&song, &mut log);
    assert_eq!(log, setup_ops(0, 0x1000, 0x1000, 0x3FFF));
    assert_eq!(seq.get_position(), (0, 0));
}

#[test]
fn sequencer_advances_rows_and_patterns() {
    let mut sampler = Sampler::new();
    let mut seq: Sequencer<4> = Sequencer::new(&mut sampler);
    let mut log = Vec::new();
    seq.load_sample(0, &[1u8; 8], &mut log).unwrap();
    let song = one_note_song(360).with_ticks_per_row(2);
    seq.play_song(&song);
    seq.update(&song, &mut log);
    seq.update(&song, &mut log);
    assert_eq!(seq.get_position(), (0, 1));
    seq.update(&song, &mut log);
    seq.update(&song, &mut log);
    assert_eq!(seq.get_position(), (0, 2));
    log.clear();
    // row 2 holds the quieter note
    seq.update(&song, &mut log);
    assert_eq!(log, setup_ops(0, 0x1000, 0x0800, 0x1000));
    for _ in 0..3 {
        seq.update(&song, &mut log);
    }
    assert_eq!(seq.get_position(), (1, 0));
    // past the play order nothing plays
    log.clear();
    seq.update(&song, &mut log);
    assert!(log.is_empty());
}

#[test]
fn frame_divider_delays_ticks() {
    let mut sampler = Sampler::new();
    let mut seq: Sequencer<4> = Sequencer::new(&mut sampler);
    let mut log = Vec::new();
    seq.load_sample(0, &[1u8; 8], &mut log).unwrap();
    // 60 * 6 / 125 = 2 frames per tick
    let song = one_note_song(125);
    seq.play_song(&song);
    log.clear();
    seq.update(&song, &mut log);
    assert!(log.is_empty());
    seq.update(&song, &mut log);
    assert_eq!(log, setup_ops(0, 0x1000, 0x1000, 0x3FFF));
}

#[test]
fn note_without_loaded_sample_is_silent() {
    let mut sampler = Sampler::new();
    let mut seq: Sequencer<4> = Sequencer::new(&mut sampler);
    let mut log = Vec::new();
    let song = one_note_song(360);
    seq.play_song(&song);
    seq.update(&song, &mut log);
    assert!(log.is_empty());
}

#[test]
fn stopped_sequencer_does_nothing() {
    let mut sampler = Sampler::new();
    let mut seq: Sequencer<4> = Sequencer::new(&mut sampler);
    let mut log = Vec::new();
    seq.load_sample(0, &[1u8; 8], &mut log).unwrap();
    let song = one_note_song(360);
    seq.play_song(&song);
    seq.stop();
    assert!(!seq.is_playing());
    log.clear();
    seq.update(&song, &mut log);
    assert!(log.is_empty());
    assert_eq!(seq.get_position(), (0, 0));
}

#[test]
fn tracks_beyond_four_have_no_hardware_voice() {
    let mut sampler = Sampler::new();
    let mut seq: Sequencer<8> = Sequencer::new(&mut sampler);
    let mut log = Vec::new();
    seq.load_sample(0, &[1u8; 8], &mut log).unwrap();
    let pat: Pattern<1> = Pattern::new().with_note(0, Note::new(1, 0x1000));
    let song: Song<6, 1, 1> = Song::new(360)
        .with_track(1, Track::new().with_pattern(0, Pattern::new().with_note(0, Note::new(1, 0x0400))).with_order(&[0]))
        .with_track(5, Track::new().with_pattern(0, pat).with_order(&[0]));
    seq.play_song(&song);
    log.clear();
    seq.update(&song, &mut log);
    assert_eq!(log, setup_ops(1, 0x1000, 0x0400, 0x3FFF));
}
