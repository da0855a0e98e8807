//! A small tracker: songs of tracks, tracks of patterns, patterns of rows,
//! and a sequencer that steps through a song frame by frame and keys on
//! the first four hardware voices.

use crate::common::HwOp;
use crate::spu::sampler::{load_addr, load_outcome, Sample, Sampler};
use crate::spu::voice::voice_setup_ops;
use crate::spu::SPU_KEY_ON;
use crate::spu2::hw::transfer_ops;
use vstd::prelude::*;

verus! {

#[derive(Clone, Copy, PartialEq, Eq, Structural, Debug)]
pub struct Note {
    pub sample_id: u16,
    pub pitch: u16,
    pub volume: u16,
}

impl Note {
    /// A note at full volume (0x3FFF).
    pub fn new(sample_id: u16, pitch: u16) -> (n: Note)
        ensures
            n == (Note { sample_id, pitch, volume: 0x3FFF }),
    {
        Note { sample_id, pitch, volume: 0x3FFF }
    }

    pub fn with_volume(sample_id: u16, pitch: u16, volume: u16) -> (n: Note)
        ensures
            n == (Note { sample_id, pitch, volume }),
    {
        Note { sample_id, pitch, volume }
    }
}

#[derive(Clone, Copy, PartialEq, Eq, Structural, Debug)]
pub struct PatternEntry {
    pub note: Option<Note>,
}

impl PatternEntry {
    pub fn empty() -> (e: PatternEntry)
        ensures
            e.note is None,
    {
        PatternEntry { note: None }
    }

    pub fn note(note: Note) -> (e: PatternEntry)
        ensures
            e.note == Some(note),
    {
        PatternEntry { note: Some(note) }
    }
}

/// `ROWS` rows, each empty or holding one note.
pub struct Pattern<const ROWS: usize> {
    pub entries: Vec<PatternEntry>,
}

/// A pattern of `rows` empty rows.
pub open spec fn empty_rows(rows: nat) -> Seq<PatternEntry> {
    Seq::new(rows, |i: int| PatternEntry { note: None })
}

impl<const ROWS: usize> Pattern<ROWS> {
    pub open spec fn wf(&self) -> bool {
        self.entries@.len() == ROWS
    }

    pub fn new() -> (p: Pattern<ROWS>)
        ensures
            p.wf(),
            p.entries@ == empty_rows(ROWS as nat),
    {
        let mut entries: Vec<PatternEntry> = Vec::new();
        let mut i: usize = 0;
        while i < ROWS
            invariant
                i <= ROWS,
                entries@ == empty_rows(i as nat),
            decreases ROWS - i,
        {
            entries.push(PatternEntry::empty());
            proof {
                assert(entries@ =~= empty_rows((i + 1) as nat));
            }
            i = i + 1;
        }
        Pattern { entries }
    }

    /// Put `note` in `row`; a row past the end is ignored.
    pub fn with_note(self, row: usize, note: Note) -> (p: Pattern<ROWS>)
        requires
            self.wf(),
        ensures
            p.wf(),
            p.entries@ == (if row < ROWS {
                self.entries@.update(row as int, PatternEntry { note: Some(note) })
            } else {
                self.entries@
            }),
    {
        let mut s = self;
        if row < ROWS {
            s.entries.set(row, PatternEntry::note(note));
        }
        s
    }
}

/// `PATTERNS` patterns and the order in which the first `length` of the
/// order entries play them.
pub struct Track<const PATTERNS: usize, const ROWS: usize> {
    pub patterns: Vec<Pattern<ROWS>>,
    pub pattern_order: Vec<u8>,
    pub length: usize,
}

impl<const PATTERNS: usize, const ROWS: usize> Track<PATTERNS, ROWS> {
    pub open spec fn wf(&self) -> bool {
        &&& self.patterns@.len() == PATTERNS
        &&& forall|i: int| 0 <= i < PATTERNS ==> (#[trigger] self.patterns@[i]).wf()
        &&& self.pattern_order@.len() == PATTERNS
        &&& self.length <= PATTERNS
    }

    /// The rows of each pattern.
    pub open spec fn rows(&self) -> Seq<Seq<PatternEntry>> {
        self.patterns@.map_values(|p: Pattern<ROWS>| p.entries@)
    }

    pub fn new() -> (t: Track<PATTERNS, ROWS>)
        ensures
            t.wf(),
            t.rows() == Seq::new(PATTERNS as nat, |i: int| empty_rows(ROWS as nat)),
            t.pattern_order@ == Seq::new(PATTERNS as nat, |i: int| 0u8),
            t.length == 0,
    {
        let mut patterns: Vec<Pattern<ROWS>> = Vec::new();
        let mut pattern_order: Vec<u8> = Vec::new();
        let mut i: usize = 0;
        while i < PATTERNS
            invariant
                i <= PATTERNS,
                patterns@.len() == i,
                forall|k: int| 0 <= k < i ==> (#[trigger] patterns@[k]).wf() && patterns@[k].entries@
                    == empty_rows(ROWS as nat),
                pattern_order@ == Seq::new(i as nat, |k: int| 0u8),
            decreases PATTERNS - i,
        {
            patterns.push(Pattern::new());
            pattern_order.push(0);
            proof {
                assert(pattern_order@ =~= Seq::new((i + 1) as nat, |k: int| 0u8));
            }
            i = i + 1;
        }
        let t = Track { patterns, pattern_order, length: 0 };
        proof {
            assert(t.rows() =~= Seq::new(PATTERNS as nat, |i: int| empty_rows(ROWS as nat)));
        }
        t
    }

    /// Put `pattern` at index `pattern_idx`; an index past the end is ignored.
    pub fn with_pattern(self, pattern_idx: u8, pattern: Pattern<ROWS>) -> (t: Track<PATTERNS, ROWS>)
        requires
            self.wf(),
            pattern.wf(),
        ensures
            t.wf(),
            t.rows() == (if (pattern_idx as int) < PATTERNS {
                self.rows().update(pattern_idx as int, pattern.entries@)
            } else {
                self.rows()
            }),
            t.pattern_order == self.pattern_order,
            t.length == self.length,
    {
        let mut s = self;
        if (pattern_idx as usize) < PATTERNS {
            let ghost before = s.rows();
            let ghost entries = pattern.entries@;
            s.patterns.set(pattern_idx as usize, pattern);
            proof {
                assert(s.rows() =~= before.update(pattern_idx as int, entries));
            }
        }
        s
    }

    /// Play order: the first `PATTERNS` entries of `order` (the rest is
    /// ignored), and as many as were taken.
    pub fn with_order(self, order: &[u8]) -> (t: Track<PATTERNS, ROWS>)
        requires
            self.wf(),
        ensures
            t.wf(),
            t.rows() == self.rows(),
            t.length == (if order@.len() < PATTERNS { order@.len() } else { PATTERNS as nat }),
            t.pattern_order@ == order@.take(t.length as int) + self.pattern_order@.skip(t.length as int),
    {
        let mut s = self;
        let mut i: usize = 0;
        while i < order.len() && i < PATTERNS
            invariant
                s.wf(),
                self.wf(),
                s.rows() == self.rows(),
                s.length == self.length,
                i <= order@.len(),
                i <= PATTERNS,
                s.pattern_order@ == order@.take(i as int) + self.pattern_order@.skip(i as int),
            decreases PATTERNS - i,
        {
            s.pattern_order.set(i, order[i]);
            proof {
                assert(s.pattern_order@ =~= order@.take(i + 1) + self.pattern_order@.skip(i + 1));
            }
            i = i + 1;
        }
        Track { length: i, ..s }
    }
}

/// `TRACKS` tracks played together at `tempo`, `ticks_per_row` ticks a row.
pub struct Song<const TRACKS: usize, const PATTERNS: usize, const ROWS: usize> {
    pub tracks: Vec<Track<PATTERNS, ROWS>>,
    pub tempo: u16,
    pub ticks_per_row: u8,
}

impl<const TRACKS: usize, const PATTERNS: usize, const ROWS: usize> Song<TRACKS, PATTERNS, ROWS> {
    pub open spec fn wf(&self) -> bool {
        &&& self.tracks@.len() == TRACKS
        &&& forall|i: int| 0 <= i < TRACKS ==> (#[trigger] self.tracks@[i]).wf()
    }

    /// Six ticks a row, every track empty.
    pub fn new(tempo: u16) -> (s: Song<TRACKS, PATTERNS, ROWS>)
        ensures
            s.wf(),
            s.tempo == tempo,
            s.ticks_per_row == 6,
            forall|i: int| 0 <= i < TRACKS ==> {
                &&& (#[trigger] s.tracks@[i]).rows() == Seq::new(PATTERNS as nat, |k: int| empty_rows(ROWS as nat))
                &&& s.tracks@[i].pattern_order@ == Seq::new(PATTERNS as nat, |k: int| 0u8)
                &&& s.tracks@[i].length == 0
            },
    {
        let mut tracks: Vec<Track<PATTERNS, ROWS>> = Vec::new();
        let mut i: usize = 0;
        while i < TRACKS
            invariant
                i <= TRACKS,
                tracks@.len() == i,
                forall|k: int| 0 <= k < i ==> {
                    &&& (#[trigger] tracks@[k]).wf()
                    &&& tracks@[k].rows() == Seq::new(PATTERNS as nat, |j: int| empty_rows(ROWS as nat))
                    &&& tracks@[k].pattern_order@ == Seq::new(PATTERNS as nat, |j: int| 0u8)
                    &&& tracks@[k].length == 0
                },
            decreases TRACKS - i,
        {
            tracks.push(Track::new());
            i = i + 1;
        }
        Song { tracks, tempo, ticks_per_row: 6 }
    }

    /// Put `track` at `track_idx`; an index past the end is ignored.
    pub fn with_track(self, track_idx: usize, track: Track<PATTERNS, ROWS>) -> (s: Song<TRACKS, PATTERNS, ROWS>)
        requires
            self.wf(),
            track.wf(),
        ensures
            s.wf(),
            s.tempo == self.tempo,
            s.ticks_per_row == self.ticks_per_row,
            s.tracks@ == (if track_idx < TRACKS { self.tracks@.update(track_idx as int, track) } else { self.tracks@ }),
    {
        let mut s = self;
        if track_idx < TRACKS {
            s.tracks.set(track_idx, track);
        }
        s
    }

    pub fn with_ticks_per_row(self, ticks: u8) -> (s: Song<TRACKS, PATTERNS, ROWS>)
        ensures
            s.tracks == self.tracks,
            s.tempo == self.tempo,
            s.ticks_per_row == ticks,
    {
        Song { ticks_per_row: ticks, ..self }
    }
}

/// Which voice of the sequencer a track has keyed on.
#[derive(Clone, Copy, PartialEq, Eq, Structural, Debug)]
pub struct VoiceInfo {
    pub voice_id: u8,
    pub active: bool,
}

/// The note that track `t` has in `row` of the pattern at entry `pattern`
/// of its play order; none past the order's length or for an order entry
/// that names no pattern.
pub open spec fn note_at<const TRACKS: usize, const PATTERNS: usize, const ROWS: usize>(
    song: Song<TRACKS, PATTERNS, ROWS>,
    t: int,
    pattern: int,
    row: int,
) -> Option<Note> {
    let track = song.tracks@[t];
    if pattern >= track.length {
        None
    } else {
        let pidx = track.pattern_order@[pattern] as int;
        if pidx >= PATTERNS {
            None
        } else {
            track.patterns@[pidx].entries@[row].note
        }
    }
}

/// The sample slot a note names: sample ids count from 1.
pub open spec fn note_slot(note: Note) -> int {
    note.sample_id - 1
}

/// Whether track `t` plays `note`: it has a voice and the note's slot holds a sample.
pub open spec fn plays(loaded: Seq<Option<Sample>>, t: int, note: Note) -> bool {
    &&& 0 <= t < loaded.len()
    &&& 0 <= note_slot(note) < loaded.len()
    &&& loaded[note_slot(note)] is Some
}

/// The accesses of playing `note` on track `t`: only tracks 0..3 have a
/// hardware voice, voice `t`; it is set up for the sample and keyed on.
pub open spec fn note_ops(loaded: Seq<Option<Sample>>, t: int, note: Note) -> Seq<HwOp> {
    if plays(loaded, t, note) && t < 4 {
        let smp = loaded[note_slot(note)]->0;
        voice_setup_ops(t, smp.spu_addr, note.pitch, note.volume).push(
            HwOp::Or32 { addr: SPU_KEY_ON, bits: (1u32 << (t as u32)) },
        )
    } else {
        Seq::empty()
    }
}

/// The accesses of a row for the first `n` tracks, in track order.
pub open spec fn row_ops<const TRACKS: usize, const PATTERNS: usize, const ROWS: usize>(
    song: Song<TRACKS, PATTERNS, ROWS>,
    loaded: Seq<Option<Sample>>,
    pattern: int,
    row: int,
    n: int,
) -> Seq<HwOp>
    decreases n,
{
    if n <= 0 {
        Seq::empty()
    } else {
        row_ops(song, loaded, pattern, row, n - 1) + match note_at(song, n - 1, pattern, row) {
            Some(note) => note_ops(loaded, n - 1, note),
            None => Seq::empty(),
        }
    }
}

/// Whether track `t` plays a note in the row.
pub open spec fn track_plays<const TRACKS: usize, const PATTERNS: usize, const ROWS: usize>(
    song: Song<TRACKS, PATTERNS, ROWS>,
    loaded: Seq<Option<Sample>>,
    t: int,
    pattern: int,
    row: int,
) -> bool {
    &&& 0 <= t < TRACKS
    &&& match note_at(song, t, pattern, row) {
        Some(note) => plays(loaded, t, note),
        None => false,
    }
}

/// The voice table after a row: every track that plays a note marks its
/// voice active.
pub open spec fn row_voices<const TRACKS: usize, const PATTERNS: usize, const ROWS: usize>(
    song: Song<TRACKS, PATTERNS, ROWS>,
    loaded: Seq<Option<Sample>>,
    voices: Seq<Option<VoiceInfo>>,
    pattern: int,
    row: int,
) -> Seq<Option<VoiceInfo>> {
    Seq::new(
        voices.len(),
        |t: int|
            if track_plays(song, loaded, t, pattern, row) {
                Some(VoiceInfo { voice_id: t as u8, active: true })
            } else {
                voices[t]
            },
    )
}

/// Whether track `t` reads a row at entry `pattern` of its play order.
pub open spec fn track_reaches<const TRACKS: usize, const PATTERNS: usize, const ROWS: usize>(
    song: Song<TRACKS, PATTERNS, ROWS>,
    t: int,
    pattern: int,
) -> bool {
    let track = song.tracks@[t];
    pattern < track.length && (track.pattern_order@[pattern] as int) < PATTERNS
}

/// A row can be played: every track with a voice that reads it finds the
/// row inside its pattern, and every note there names a sample id from 1 on.
pub open spec fn row_playable<const TRACKS: usize, const PATTERNS: usize, const ROWS: usize>(
    song: Song<TRACKS, PATTERNS, ROWS>,
    max_voices: int,
    pattern: int,
    row: int,
) -> bool {
    forall|t: int| 0 <= t < TRACKS && t < max_voices && #[trigger] track_reaches(song, t, pattern) ==> {
        &&& row < ROWS
        &&& match note_at(song, t, pattern, row) {
            Some(note) => note.sample_id >= 1,
            None => true,
        }
    }
}

/// The position (tick, row, play-order entry) after one tick.
pub open spec fn next_position(tick: u32, row: usize, pattern: usize, ticks_per_row: u8, rows: usize) -> (u32, usize, usize) {
    if tick + 1 >= ticks_per_row {
        if row + 1 >= rows {
            (0, 0, (pattern + 1) as usize)
        } else {
            (0, (row + 1) as usize, pattern)
        }
    } else {
        ((tick + 1) as u32, row, pattern)
    }
}

pub open spec fn min_len(a: int, b: int) -> int {
    if a < b { a } else { b }
}

/// Steps a song frame by frame, playing notes through a [`Sampler`].
pub struct Sequencer<'a, const MAX_VOICES: usize> {
    sampler: &'a mut Sampler,
    samples: Vec<Option<Sample>>,
    voices: Vec<Option<VoiceInfo>>,
    current_tick: u32,
    current_row: usize,
    current_pattern: usize,
    playing: bool,
    ticks_per_frame: u32,
    frame_counter: u32,
}

impl<'a, const MAX_VOICES: usize> Sequencer<'a, MAX_VOICES> {
    pub closed spec fn sampler(&self) -> Sampler {
        *self.sampler
    }

    pub closed spec fn loaded(&self) -> Seq<Option<Sample>> {
        self.samples@
    }

    pub closed spec fn voices(&self) -> Seq<Option<VoiceInfo>> {
        self.voices@
    }

    pub closed spec fn tick(&self) -> u32 {
        self.current_tick
    }

    pub closed spec fn row(&self) -> usize {
        self.current_row
    }

    pub closed spec fn pattern(&self) -> usize {
        self.current_pattern
    }

    pub closed spec fn playing(&self) -> bool {
        self.playing
    }

    pub closed spec fn ticks_per_frame(&self) -> u32 {
        self.ticks_per_frame
    }

    pub closed spec fn frame_counter(&self) -> u32 {
        self.frame_counter
    }

    pub open spec fn wf(&self) -> bool {
        &&& self.loaded().len() == MAX_VOICES
        &&& self.voices().len() == MAX_VOICES
        &&& self.ticks_per_frame() <= 15300
        &&& self.frame_counter() <= 15300
        &&& self.tick() <= 255
    }

    pub fn new(sampler: &'a mut Sampler) -> (s: Self)
        ensures
            s.wf(),
            s.sampler() == *old(sampler),
            s.loaded() == Seq::new(MAX_VOICES as nat, |i: int| None::<Sample>),
            s.voices() == Seq::new(MAX_VOICES as nat, |i: int| None::<VoiceInfo>),
            s.tick() == 0,
            s.row() == 0,
            s.pattern() == 0,
            !s.playing(),
            s.ticks_per_frame() == 1,
            s.frame_counter() == 0,
    {
        let mut samples: Vec<Option<Sample>> = Vec::new();
        let mut voices: Vec<Option<VoiceInfo>> = Vec::new();
        let mut i: usize = 0;
        while i < MAX_VOICES
            invariant
                i <= MAX_VOICES,
                samples@ == Seq::new(i as nat, |k: int| None::<Sample>),
                voices@ == Seq::new(i as nat, |k: int| None::<VoiceInfo>),
            decreases MAX_VOICES - i,
        {
            samples.push(None);
            voices.push(None);
            proof {
                assert(samples@ =~= Seq::new((i + 1) as nat, |k: int| None::<Sample>));
                assert(voices@ =~= Seq::new((i + 1) as nat, |k: int| None::<VoiceInfo>));
            }
            i = i + 1;
        }
        Sequencer {
            sampler,
            samples,
            voices,
            current_tick: 0,
            current_row: 0,
            current_pattern: 0,
            playing: false,
            ticks_per_frame: 1,
            frame_counter: 0,
        }
    }

    /// Load `audio_data` through the sampler and keep the sample in `slot`.
    pub fn load_sample(&mut self, slot: usize, audio_data: &[u8], log: &mut Vec<HwOp>) -> (r: Result<(), &'static str>)
        requires
            old(self).wf(),
            old(self).sampler().wf(),
            slot < MAX_VOICES && audio_data@.len() > 0 ==> old(self).sampler().next_id() < u16::MAX,
        ensures
            final(self).wf(),
            final(self).sampler().wf(),
            final(self).voices() == old(self).voices(),
            final(self).tick() == old(self).tick() && final(self).row() == old(self).row()
                && final(self).pattern() == old(self).pattern() && final(self).playing() == old(self).playing()
                && final(self).ticks_per_frame() == old(self).ticks_per_frame()
                && final(self).frame_counter() == old(self).frame_counter(),
            slot >= MAX_VOICES ==> {
                &&& r is Err && r->Err_0@ == "Invalid slot"@
                &&& final(self).sampler() == old(self).sampler()
                &&& final(self).loaded() == old(self).loaded()
                &&& final(log)@ == old(log)@
            },
            slot < MAX_VOICES && audio_data@.len() == 0 ==> {
                &&& r is Err && r->Err_0@ == "Empty audio data"@
                &&& final(self).sampler() == old(self).sampler()
                &&& final(self).loaded() == old(self).loaded()
                &&& final(log)@ == old(log)@
            },
            slot < MAX_VOICES && audio_data@.len() > 0 ==> exists|res: Result<Sample, &'static str>| {
                &&& #[trigger] load_outcome(old(self).sampler(), final(self).sampler(), res, audio_data@)
                &&& final(log)@ == old(log)@ + transfer_ops(load_addr(old(self).sampler(), audio_data@), audio_data@)
                &&& match res {
                    Ok(sample) => r is Ok && final(self).loaded() == old(self).loaded().update(slot as int, Some(sample)),
                    Err(e) => r == Err::<(), &'static str>(e) && final(self).loaded() == old(self).loaded(),
                }
            },
            old(self).sampler().laid_out() && (audio_data@.len() == 0
                || old(self).sampler().reuse_addr((audio_data@.len() % 0x1_0000) as u16) is Some
                || old(self).sampler().cursor() + (audio_data@.len() % 0x1_0000) <= 0xFFFF)
                ==> final(self).sampler().laid_out(),
    {
        if slot >= MAX_VOICES {
            return Err("Invalid slot");
        }

        let ghost before = *self.sampler;
        let res = self.sampler.load(audio_data, log);
        let sample = match res {
            Ok(sample) => sample,
            Err(e) => {
                proof {
                    if audio_data@.len() > 0 {
                        assert(load_outcome(before, *self.sampler, res, audio_data@));
                        assert(before == old(self).sampler());
                        assert(*self.sampler == self.sampler());
                        assert(log@ == old(log)@ + transfer_ops(load_addr(old(self).sampler(), audio_data@), audio_data@));
                        assert(self.loaded() == old(self).loaded());
                    }
                }
                return Err(e);
            },
        };
        self.samples.set(slot, Some(sample));
        proof {
            assert(load_outcome(before, *self.sampler, res, audio_data@));
            assert(before == old(self).sampler());
            assert(*self.sampler == self.sampler());
            assert(log@ == old(log)@ + transfer_ops(load_addr(old(self).sampler(), audio_data@), audio_data@));
            assert(self.loaded() == old(self).loaded().update(slot as int, Some(sample)));
        }
        Ok(())
    }

    /// Start `song` from its beginning.  The frame divider becomes
    /// 60 * ticks_per_row / tempo.
    pub fn play_song<const TRACKS: usize, const PATTERNS: usize, const ROWS: usize>(
        &mut self,
        song: &Song<TRACKS, PATTERNS, ROWS>,
    )
        requires
            old(self).wf(),
            song.tempo > 0,
        ensures
            final(self).wf(),
            final(self).playing(),
            final(self).tick() == 0,
            final(self).row() == 0,
            final(self).pattern() == 0,
            final(self).ticks_per_frame() == (60 * song.ticks_per_row as int) / song.tempo as int,
            final(self).frame_counter() == old(self).frame_counter(),
            final(self).sampler() == old(self).sampler(),
            final(self).loaded() == old(self).loaded(),
            final(self).voices() == old(self).voices(),
    {
        self.playing = true;
        self.current_tick = 0;
        self.current_row = 0;
        self.current_pattern = 0;
        let ticks = 60 * song.ticks_per_row as u32;
        assert(ticks / song.tempo as u32 <= ticks) by (nonlinear_arith)
            requires song.tempo > 0;
        self.ticks_per_frame = ticks / song.tempo as u32;
    }

    /// Stop playing and mark every voice inactive.
    pub fn stop(&mut self)
        requires
            old(self).wf(),
        ensures
            final(self).wf(),
            !final(self).playing(),
            final(self).voices() == old(self).voices().map_values(|v: Option<VoiceInfo>| match v {
                Some(info) => Some(VoiceInfo { active: false, ..info }),
                None => None,
            }),
            final(self).sampler() == old(self).sampler(),
            final(self).loaded() == old(self).loaded(),
            final(self).tick() == old(self).tick() && final(self).row() == old(self).row()
                && final(self).pattern() == old(self).pattern()
                && final(self).ticks_per_frame() == old(self).ticks_per_frame()
                && final(self).frame_counter() == old(self).frame_counter(),
    {
        self.playing = false;
        let ghost before = self.voices@;
        let mut i: usize = 0;
        while i < self.voices.len()
            invariant
                i <= before.len(),
                self.voices@.len() == before.len(),
                before == old(self).voices(),
                old(self).wf(),
                !self.playing,
                self.samples == old(self).samples,
                *self.sampler == *old(self).sampler,
                self.current_tick == old(self).current_tick,
                self.current_row == old(self).current_row,
                self.current_pattern == old(self).current_pattern,
                self.ticks_per_frame == old(self).ticks_per_frame,
                self.frame_counter == old(self).frame_counter,
                forall|k: int| 0 <= k < i ==> #[trigger] self.voices@[k] == match before[k] {
                    Some(info) => Some(VoiceInfo { active: false, ..info }),
                    None => None,
                },
                forall|k: int| i <= k < before.len() ==> #[trigger] self.voices@[k] == before[k],
            decreases before.len() - i,
        {
            if let Some(info) = self.voices[i] {
                self.voices.set(i, Some(VoiceInfo { active: false, ..info }));
            }
            i = i + 1;
        }
        proof {
            assert(self.voices@ =~= before.map_values(|v: Option<VoiceInfo>| match v {
                Some(info) => Some(VoiceInfo { active: false, ..info }),
                None => None,
            }));
        }
    }

    /// Whether the next frame runs a tick.
    pub open spec fn tick_due(&self) -> bool {
        self.playing() && self.frame_counter() + 1 >= self.ticks_per_frame()
    }

    /// Whether the next frame starts a row.
    pub open spec fn row_due(&self) -> bool {
        self.tick_due() && self.tick() == 0
    }

    /// The next frame of `song` neither overflows a counter nor reads past
    /// a pattern's rows.
    pub open spec fn update_ok<const TRACKS: usize, const PATTERNS: usize, const ROWS: usize>(
        &self,
        song: Song<TRACKS, PATTERNS, ROWS>,
    ) -> bool {
        self.tick_due() ==> {
            &&& self.row_due() ==> row_playable(song, MAX_VOICES as int, self.pattern() as int, self.row() as int)
            &&& self.tick() + 1 >= song.ticks_per_row ==> self.row() < usize::MAX
            &&& self.tick() + 1 >= song.ticks_per_row && self.row() + 1 >= ROWS ==> self.pattern() < usize::MAX
        }
    }

    /// Advance one frame.  Every `ticks_per_frame` frames a tick runs; the
    /// first tick of a row plays the row's notes, and after
    /// `ticks_per_row` ticks the sequencer moves to the next row, and after
    /// the last row to the next entry of the play order.
    pub fn update<const TRACKS: usize, const PATTERNS: usize, const ROWS: usize>(
        &mut self,
        song: &Song<TRACKS, PATTERNS, ROWS>,
        log: &mut Vec<HwOp>,
    )
        requires
            old(self).wf(),
            song.wf(),
            old(self).update_ok(*song),
        ensures
            final(self).wf(),
            final(self).sampler() == old(self).sampler(),
            final(self).loaded() == old(self).loaded(),
            final(self).playing() == old(self).playing(),
            final(self).ticks_per_frame() == old(self).ticks_per_frame(),
            !old(self).tick_due() ==> {
                &&& final(self).frame_counter() == (if old(self).playing() {
                    old(self).frame_counter() + 1
                } else {
                    old(self).frame_counter() as int
                })
                &&& final(self).tick() == old(self).tick()
                &&& final(self).row() == old(self).row()
                &&& final(self).pattern() == old(self).pattern()
                &&& final(self).voices() == old(self).voices()
                &&& final(log)@ == old(log)@
            },
            old(self).tick_due() ==> {
                &&& final(self).frame_counter() == 0
                &&& (final(self).tick(), final(self).row(), final(self).pattern()) == next_position(
                    old(self).tick(),
                    old(self).row(),
                    old(self).pattern(),
                    song.ticks_per_row,
                    ROWS,
                )
                &&& old(self).row_due() ==> {
                    &&& final(self).voices() == row_voices(*song, old(self).loaded(), old(self).voices(),
                        old(self).pattern() as int, old(self).row() as int)
                    &&& final(log)@ == old(log)@ + row_ops(*song, old(self).loaded(), old(self).pattern() as int,
                        old(self).row() as int, min_len(TRACKS as int, MAX_VOICES as int))
                }
                &&& !old(self).row_due() ==> final(self).voices() == old(self).voices() && final(log)@ == old(log)@
            },
    {
        if !self.playing {
            return;
        }

        self.frame_counter = self.frame_counter + 1;
        if self.frame_counter >= self.ticks_per_frame {
            self.frame_counter = 0;
            self.process_tick(song, log);
        }
    }

    fn process_tick<const TRACKS: usize, const PATTERNS: usize, const ROWS: usize>(
        &mut self,
        song: &Song<TRACKS, PATTERNS, ROWS>,
        log: &mut Vec<HwOp>,
    )
        requires
            old(self).wf(),
            song.wf(),
            old(self).tick() == 0 ==> row_playable(*song, MAX_VOICES as int, old(self).pattern() as int, old(self).row() as int),
            old(self).tick() + 1 >= song.ticks_per_row ==> old(self).row() < usize::MAX,
            old(self).tick() + 1 >= song.ticks_per_row && old(self).row() + 1 >= ROWS ==> old(self).pattern() < usize::MAX,
        ensures
            final(self).wf(),
            final(self).sampler() == old(self).sampler(),
            final(self).loaded() == old(self).loaded(),
            final(self).playing() == old(self).playing(),
            final(self).ticks_per_frame() == old(self).ticks_per_frame(),
            final(self).frame_counter() == old(self).frame_counter(),
            (final(self).tick(), final(self).row(), final(self).pattern()) == next_position(
                old(self).tick(),
                old(self).row(),
                old(self).pattern(),
                song.ticks_per_row,
                ROWS,
            ),
            old(self).tick() == 0 ==> {
                &&& final(self).voices() == row_voices(*song, old(self).loaded(), old(self).voices(),
                    old(self).pattern() as int, old(self).row() as int)
                &&& final(log)@ == old(log)@ + row_ops(*song, old(self).loaded(), old(self).pattern() as int,
                    old(self).row() as int, min_len(TRACKS as int, MAX_VOICES as int))
            },
            old(self).tick() != 0 ==> final(self).voices() == old(self).voices() && final(log)@ == old(log)@,
    {
        if self.current_tick == 0 {
            self.process_row(song, log);
        }

        self.current_tick = self.current_tick + 1;
        if self.current_tick >= song.ticks_per_row as u32 {
            self.current_tick = 0;
            self.current_row = self.current_row + 1;

            if self.current_row >= ROWS {
                self.current_row = 0;
                self.current_pattern = self.current_pattern + 1;
            }
        }
    }

    fn process_row<const TRACKS: usize, const PATTERNS: usize, const ROWS: usize>(
        &mut self,
        song: &Song<TRACKS, PATTERNS, ROWS>,
        log: &mut Vec<HwOp>,
    )
        requires
            old(self).wf(),
            song.wf(),
            row_playable(*song, MAX_VOICES as int, old(self).pattern() as int, old(self).row() as int),
        ensures
            final(self).wf(),
            final(self).sampler() == old(self).sampler(),
            final(self).loaded() == old(self).loaded(),
            final(self).playing() == old(self).playing(),
            final(self).ticks_per_frame() == old(self).ticks_per_frame(),
            final(self).frame_counter() == old(self).frame_counter(),
            final(self).tick() == old(self).tick(),
            final(self).row() == old(self).row(),
            final(self).pattern() == old(self).pattern(),
            final(self).voices() == row_voices(*song, old(self).loaded(), old(self).voices(),
                old(self).pattern() as int, old(self).row() as int),
            final(log)@ == old(log)@ + row_ops(*song, old(self).loaded(), old(self).pattern() as int,
                old(self).row() as int, min_len(TRACKS as int, MAX_VOICES as int)),
    {
        let ghost loaded = self.loaded();
        let ghost voices0 = self.voices();
        let ghost pattern = self.current_pattern as int;
        let ghost row = self.current_row as int;
        let mut track_idx: usize = 0;
        while track_idx < song.tracks.len() && track_idx < MAX_VOICES
            invariant
                self.wf(),
                song.wf(),
                track_idx <= TRACKS,
                track_idx <= MAX_VOICES,
                self.sampler() == old(self).sampler(),
                self.loaded() == loaded,
                loaded == old(self).loaded(),
                voices0 == old(self).voices(),
                pattern == old(self).pattern() as int,
                row == old(self).row() as int,
                self.playing() == old(self).playing(),
                self.ticks_per_frame() == old(self).ticks_per_frame(),
                self.frame_counter() == old(self).frame_counter(),
                self.tick() == old(self).tick(),
                self.row() == old(self).row(),
                self.pattern() == old(self).pattern(),
                row_playable(*song, MAX_VOICES as int, pattern, row),
                log@ == old(log)@ + row_ops(*song, loaded, pattern, row, track_idx as int),
                forall|t: int| 0 <= t < MAX_VOICES ==> #[trigger] self.voices()[t] == if t < track_idx
                    && track_plays(*song, loaded, t, pattern, row) {
                    Some(VoiceInfo { voice_id: t as u8, active: true })
                } else {
                    voices0[t]
                },
            decreases MAX_VOICES - track_idx,
        {
            let track = &song.tracks[track_idx];
            if self.current_pattern < track.length {
                let pattern_idx = track.pattern_order[self.current_pattern] as usize;
                if pattern_idx < PATTERNS {
                    proof {
                        assert(track_reaches(*song, track_idx as int, pattern));
                        assert(song.tracks@[track_idx as int].wf());
                    }
                    let entry = track.patterns[pattern_idx].entries[self.current_row];
                    if let Some(note) = entry.note {
                        self.play_note(track_idx, note, log);
                    }
                }
            }
            proof {
                assert(log@ =~= old(log)@ + row_ops(*song, loaded, pattern, row, track_idx + 1));
            }
            track_idx = track_idx + 1;
        }
        proof {
            assert(self.voices() =~= row_voices(*song, loaded, voices0, pattern, row));
        }
    }

    /// Play `note` on track `voice_idx`: only tracks with a voice and notes
    /// whose sample slot is filled play; tracks 0..3 key on their hardware
    /// voice.
    fn play_note(&mut self, voice_idx: usize, note: Note, log: &mut Vec<HwOp>)
        requires
            old(self).wf(),
            voice_idx < MAX_VOICES ==> note.sample_id >= 1,
        ensures
            final(self).wf(),
            final(self).sampler() == old(self).sampler(),
            final(self).loaded() == old(self).loaded(),
            final(self).playing() == old(self).playing(),
            final(self).ticks_per_frame() == old(self).ticks_per_frame(),
            final(self).frame_counter() == old(self).frame_counter(),
            final(self).tick() == old(self).tick(),
            final(self).row() == old(self).row(),
            final(self).pattern() == old(self).pattern(),
            final(self).voices() == if plays(old(self).loaded(), voice_idx as int, note) {
                old(self).voices().update(voice_idx as int, Some(VoiceInfo { voice_id: voice_idx as u8, active: true }))
            } else {
                old(self).voices()
            },
            final(log)@ == old(log)@ + note_ops(old(self).loaded(), voice_idx as int, note),
    {
        if voice_idx >= MAX_VOICES {
            return;
        }

        let sample_slot = (note.sample_id - 1) as usize;
        if sample_slot >= MAX_VOICES {
            return;
        }

        if let Some(sample) = self.samples[sample_slot] {
            self.voices.set(voice_idx, Some(VoiceInfo { voice_id: voice_idx as u8, active: true }));

            match voice_idx {
                0 => {
                    let mut voice = sample.bind_to_voice::<0>(note.pitch, note.volume, log);
                    voice.play(log);
                    assert(1u32 << 0u8 == 1u32 << 0u32) by (bit_vector);
                },
                1 => {
                    let mut voice = sample.bind_to_voice::<1>(note.pitch, note.volume, log);
                    voice.play(log);
                    assert(1u32 << 1u8 == 1u32 << 1u32) by (bit_vector);
                },
                2 => {
                    let mut voice = sample.bind_to_voice::<2>(note.pitch, note.volume, log);
                    voice.play(log);
                    assert(1u32 << 2u8 == 1u32 << 2u32) by (bit_vector);
                },
                3 => {
                    let mut voice = sample.bind_to_voice::<3>(note.pitch, note.volume, log);
                    voice.play(log);
                    assert(1u32 << 3u8 == 1u32 << 3u32) by (bit_vector);
                },
                _ => {},
            }
        }
    }

    pub fn is_playing(&self) -> (r: bool)
        ensures
            r == self.playing(),
    {
        self.playing
    }

    /// (play-order entry, row).
    pub fn get_position(&self) -> (r: (usize, usize))
        ensures
            r == (self.pattern(), self.row()),
    {
        (self.current_pattern, self.current_row)
    }
}

} // verus!
