//! Coroutine-based audio engine: voice assignment per tracker channel,
//! reverb routing, command handling and row timing.
//!
//! The engine never blocks by itself.  Playback is driven one row at a
//! time: the platform layer publishes the status, asks the engine to
//! trigger the row, then waits for the row duration by yielding, feeding
//! the engine the hardware HBlank counter and the queued commands until
//! [`Engine::wait_outcome`] says the wait is over.

use crate::common::{last_store16, last_store32, lemma_last_store16, lemma_last_store32, stores16_to, stores32_to, w16, w32, HwOp};
use crate::spu::bus::{Command, CommandBus};
use crate::spu::music::{
    events_in_range, pan_volumes, touches_channel, Cell, Event, Pan, Pattern, Pitch, Song, SoundProject, Volume, CHANNELS,
    MAX_EVENTS,
};
use crate::spu::reverb::{register_order, ReverbConfig};
use crate::spu::sample::{load_step, SampleBank, SampleId, SampleRef};
use crate::spu2::hw::{
    self, prepare_ops, voice_base, clear_ops, reverb_config_ops, reverb_on_value, VoiceHw,
    HBLANK_RATE, SPU_KEY_OFF, SPU_KEY_ON, SPU_REVERB_ON, SPU_REVERB_BASE, SPU_CONTROL,
    REVERB_IN_VOL_LEFT, REVERB_IN_VOL_RIGHT, REVERB_OUT_VOL_LEFT, REVERB_OUT_VOL_RIGHT,
};
use crate::spu2::voice::{
    first_free, has_voice, lemma_first_free_is_free, lemma_other_bits, release_all_ops, VoiceAlloc,
    VoiceLayout,
};
use vstd::prelude::*;

verus! {

pub const DEFAULT_ADSR: u32 = 0x80FF_8000;

/// Convention: one beat = 4 rows (standard 4/4 tracker convention).
pub const ROWS_PER_BEAT: u32 = 4;

/// Number of sample slots of the engine's sample bank.
pub const SAMPLE_SLOTS: usize = 32;

/// Result of waiting for a row -- tells the caller whether the wait
/// completed normally or was interrupted by a [`Command::Interrupt`].
#[derive(Clone, Copy, PartialEq, Eq, Structural, Debug)]
pub enum WaitResult {
    Complete,
    Interrupted,
}

impl WaitResult {
    pub fn interrupted(self) -> (r: bool)
        ensures
            r == (self == WaitResult::Interrupted),
    {
        match self {
            WaitResult::Complete => false,
            WaitResult::Interrupted => true,
        }
    }
}

/// What a row loop does once the wait after one of its rows has ended.
#[derive(Clone, Copy, PartialEq, Eq, Structural, Debug)]
pub enum RowStep {
    /// Play this row next.
    Next(usize),
    /// Leave the loop with this result.
    Stop(WaitResult),
}

/// The step after the wait that followed row `row` of a loop over `rows`
/// rows: an interrupt ends the loop, otherwise the next row plays, and
/// after the last row the loop is complete.
pub fn after_row_wait(row: usize, rows: usize, outcome: WaitResult) -> (s: RowStep)
    requires
        row < rows,
    ensures
        s == match outcome {
            WaitResult::Interrupted => RowStep::Stop(WaitResult::Interrupted),
            WaitResult::Complete => if row + 1 < rows {
                RowStep::Next((row + 1) as usize)
            } else {
                RowStep::Stop(WaitResult::Complete)
            },
        },
{
    match outcome {
        WaitResult::Interrupted => RowStep::Stop(WaitResult::Interrupted),
        WaitResult::Complete => {
            if row + 1 < rows {
                RowStep::Next(row + 1)
            } else {
                RowStep::Stop(WaitResult::Complete)
            }
        },
    }
}

/// The bit of voice or channel `n` in a 32-bit mask.
pub open spec fn bit(n: int) -> u32 {
    1u32 << (n as u32)
}

/// The voice-assignment part of the engine state, together with the
/// key-on/key-off masks gathered for the current row and the access log.
pub struct Mix {
    /// The voice number playing on each tracker channel.
    pub channels: Seq<Option<u8>>,
    /// Music voices in use.
    pub music_mask: u32,
    /// Voices routed into the reverb unit.
    pub reverb_mask: u32,
    /// Voices to key on at the end of the row.
    pub on: u32,
    /// Voices to key off at the end of the row.
    pub off: u32,
    /// Register accesses made so far.
    pub ops: Seq<HwOp>,
}

impl Mix {
    /// Every channel voice is a hardware voice marked in use, and no voice
    /// plays on two channels.
    pub open spec fn ok(&self) -> bool {
        &&& self.channels.len() == CHANNELS
        &&& forall|c: int| 0 <= c < CHANNELS && (#[trigger] self.channels[c]) is Some ==> {
            &&& self.channels[c]->0 < 24
            &&& has_voice(self.music_mask, self.channels[c]->0 as int)
        }
        &&& forall|c: int, d: int|
            0 <= c < CHANNELS && 0 <= d < CHANNELS && c != d && (#[trigger] self.channels[c]) is Some
                && (#[trigger] self.channels[d]) is Some ==> self.channels[c] != self.channels[d]
    }

    /// Only voices playing on channels with reverb enabled are routed into
    /// the reverb unit.
    pub open spec fn routed(&self, reverb_channels: u32) -> bool {
        forall|v: int| #[trigger] has_voice(self.reverb_mask, v) ==> exists|c: int|
            0 <= c < CHANNELS && #[trigger] self.channels[c] == Some(v as u8) && has_voice(reverb_channels, c)
    }
}

/// Key off the voice playing on channel `ch`, if any.
pub open spec fn release_channel(m: Mix, ch: int) -> Mix {
    match m.channels[ch] {
        Some(n) => Mix {
            channels: m.channels.update(ch, None),
            music_mask: m.music_mask & !bit(n as int),
            reverb_mask: m.reverb_mask & !bit(n as int),
            off: m.off | bit(n as int),
            ..m
        },
        None => m,
    }
}

/// The volume a note of `cell` is played at.
pub open spec fn cell_volume(cell: Cell) -> u16 {
    match cell.volume {
        Some(v) => v.0,
        None => Volume::MAX,
    }
}

/// A pan position limited to the documented range −64 (hard left) ..= 64
/// (hard right); positions beyond it count as hard left or right.
pub open spec fn clamp_pan(p: i8) -> int {
    if p < -64 {
        -64
    } else if p > 64 {
        64
    } else {
        p as int
    }
}

/// The (left, right) volumes a cell plays `vol` at: its panning when it
/// has one, else `vol` on both sides.
pub open spec fn cell_sides(cell: Cell, vol: u16) -> (u16, u16) {
    match cell.pan {
        Some(p) => (pan_volumes(clamp_pan(p.0), vol as int).0 as u16, pan_volumes(clamp_pan(p.0), vol as int).1 as u16),
        None => (vol, vol),
    }
}

/// The envelope a note of `cell` is played with: its own when it has one,
/// else the default.
pub open spec fn cell_adsr(cell: Cell) -> u32 {
    match cell.adsr {
        Some(a) => a.bits(),
        None => DEFAULT_ADSR,
    }
}

/// Whether handling `cell` reads the channel's voice slot: a note-off, a
/// note of a loaded sample, or a volume change.
pub open spec fn indexes_channel(cell: Cell, samples: Seq<Option<SampleRef>>) -> bool {
    if cell.sample is Some && cell.pitch is Some {
        let id = (cell.sample->0).0 as int;
        (cell.pitch->0).0 == 0 || (id < samples.len() && samples[id] is Some)
    } else {
        cell.volume is Some
    }
}

/// The effect of one cell on channel `ch`:
///
/// * sample and pitch given, pitch 0: the channel's voice is keyed off;
/// * sample and pitch given, sample not loaded: nothing;
/// * sample and pitch given: the channel's voice is keyed off, the first
///   free music voice is prepared with the sample, the cell's volume and
///   envelope (the default envelope when it has none), then panned when
///   the cell has a pan, and keyed on (and routed to reverb when the
///   channel has reverb); without a free voice the channel stays silent;
/// * otherwise a volume change applies, panned, to the channel's voice, if
///   any.
pub open spec fn step_cell(
    m: Mix,
    layout: VoiceLayout,
    samples: Seq<Option<SampleRef>>,
    reverb_channels: u32,
    ch: int,
    cell: Cell,
) -> Mix {
    if cell.sample is Some && cell.pitch is Some {
        let id = (cell.sample->0).0 as int;
        let p = (cell.pitch->0).0;
        if p == 0 {
            release_channel(m, ch)
        } else if !(id < samples.len() && samples[id] is Some) {
            m
        } else {
            let r = release_channel(m, ch);
            match first_free(layout.music_start as int, layout.music_count as int, r.music_mask) {
                None => r,
                Some(n) => Mix {
                    channels: r.channels.update(ch, Some(n as u8)),
                    music_mask: r.music_mask | bit(n),
                    reverb_mask: if has_voice(reverb_channels, ch) {
                        r.reverb_mask | bit(n)
                    } else {
                        r.reverb_mask
                    },
                    on: r.on | bit(n),
                    ops: r.ops + prepare_ops(
                        n as u8,
                        samples[id]->0.spu_addr,
                        p,
                        cell_sides(cell, cell_volume(cell)).0,
                        cell_sides(cell, cell_volume(cell)).1,
                        cell_adsr(cell),
                    ),
                    ..r
                },
            }
        }
    } else if cell.volume is Some {
        let sides = cell_sides(cell, (cell.volume->0).0);
        match m.channels[ch] {
            Some(n) => Mix { ops: m.ops + seq![w16(voice_base(n), sides.0), w16(voice_base(n) + 0x02, sides.1)], ..m },
            None => m,
        }
    } else {
        m
    }
}

/// The effect of the events of `events` that fall on `row`, in order.
pub open spec fn row_mix(
    m: Mix,
    layout: VoiceLayout,
    samples: Seq<Option<SampleRef>>,
    reverb_channels: u32,
    events: Seq<Event>,
    row: int,
) -> Mix
    decreases events.len(),
{
    if events.len() == 0 {
        m
    } else {
        let prev = row_mix(m, layout, samples, reverb_channels, events.drop_last(), row);
        let e = events.last();
        if e.row as int == row {
            step_cell(prev, layout, samples, reverb_channels, e.ch as int, e.cell)
        } else {
            prev
        }
    }
}

/// The register writes that close a row: batched key-off, batched key-on,
/// then the reverb routing mask.
pub open spec fn flush_ops(on: u32, off: u32, reverb_mask: u32) -> Seq<HwOp> {
    (if off != 0 { seq![w32(SPU_KEY_OFF as int, off)] } else { seq![] })
        + (if on != 0 { seq![w32(SPU_KEY_ON as int, on)] } else { seq![] })
        + seq![w32(SPU_REVERB_ON as int, reverb_on_value(reverb_mask))]
}

/// The voice numbers of a table of channel voices.
pub open spec fn voice_nums(vs: Seq<Option<VoiceHw>>) -> Seq<Option<u8>> {
    vs.map_values(|v: Option<VoiceHw>| match v {
        Some(x) => Some(x.num()),
        None => None,
    })
}

/// What handling `cmd` does: the engine goes from `e` to `e1` and the
/// access log from `l0` to `l1`.
pub open spec fn command_step(e: Engine, cmd: Command, e1: Engine, l0: Seq<HwOp>, l1: Seq<HwOp>) -> bool {
    &&& e1.wf()
    &&& e.routed() ==> e1.routed()
    &&& e1.sample_bank() == e.sample_bank()
    &&& e1.voice_alloc().layout() == e.voice_alloc().layout()
    &&& e1.patterns_played() == e.patterns_played()
    &&& e1.clock() == e.clock()
    &&& e1.reverb_channels() == e.reverb_channels()
    &&& match cmd {
        Command::PlaySfx(sample, pitch) => {
            &&& e1.settled(e.mix(Seq::empty()))
            &&& e1.voice_alloc() == e.voice_alloc()
            &&& e1.tempo() == e.tempo()
            &&& e1.interrupt_flag() == e.interrupt_flag()
            &&& {
                let layout = e.voice_alloc().layout();
                let slots = e.sample_bank().slots();
                let id = sample.0 as int;
                if id < SAMPLE_SLOTS && slots[id] is Some {
                    match first_free(layout.sfx_start as int, layout.sfx_count as int, e.voice_alloc().sfx_mask()) {
                        Some(n) => l1 == l0 + prepare_ops(n as u8, slots[id]->0.spu_addr, pitch.0, Volume::MAX, Volume::MAX, DEFAULT_ADSR)
                            + seq![w32(SPU_KEY_ON as int, bit(n)), w32(SPU_KEY_OFF as int, bit(n))],
                        None => l1 == l0,
                    }
                } else {
                    l1 == l0
                }
            }
        },
        Command::Interrupt => {
            &&& e1.settled(e.mix(Seq::empty()))
            &&& e1.voice_alloc() == e.voice_alloc()
            &&& e1.tempo() == e.tempo()
            &&& e1.interrupt_flag()
            &&& l1 == l0
        },
        Command::SetBpm(b) => {
            &&& e1.settled(e.mix(Seq::empty()))
            &&& e1.voice_alloc() == e.voice_alloc()
            &&& e1.tempo() == b
            &&& e1.interrupt_flag() == e.interrupt_flag()
            &&& l1 == l0
        },
        Command::StopAll => {
            &&& e1.silent()
            &&& e1.reverb_voices() == 0
            &&& e1.tempo() == e.tempo()
            &&& e1.interrupt_flag()
            &&& l1 == l0 + release_all_ops(
                e.voice_alloc().music_mask() | e.voice_alloc().sfx_mask(),
            ).push(w32(SPU_REVERB_ON as int, 0))
        },
    }
}

/// Handling `cmds` in order takes the engine from `e` to `e1` and the
/// access log from `l0` to `l1`.
pub open spec fn commands_run(e: Engine, cmds: Seq<Command>, e1: Engine, l0: Seq<HwOp>, l1: Seq<HwOp>) -> bool
    decreases cmds.len(),
{
    if cmds.len() == 0 {
        e1 == e && l1 == l0
    } else {
        exists|em: Engine, lm: Seq<HwOp>|
            commands_run(e, cmds.drop_last(), em, l0, lm) && #[trigger] command_step(em, cmds.last(), e1, lm, l1)
    }
}

/// Whether a command stops playback (sets the interrupt flag).
pub open spec fn stops_playback(cmd: Command) -> bool {
    cmd is Interrupt || cmd is StopAll
}

/// After handling a batch of commands the engine is interrupted exactly
/// when it was before or the batch held an `Interrupt` or a `StopAll`.
pub proof fn lemma_commands_interrupt(e: Engine, cmds: Seq<Command>, e1: Engine, l0: Seq<HwOp>, l1: Seq<HwOp>)
    requires
        commands_run(e, cmds, e1, l0, l1),
    ensures
        e1.interrupt_flag() == (e.interrupt_flag() || exists|i: int| 0 <= i < cmds.len() && stops_playback(#[trigger] cmds[i])),
    decreases cmds.len(),
{
    if cmds.len() > 0 {
        let (em, lm) = choose|em: Engine, lm: Seq<HwOp>|
            commands_run(e, cmds.drop_last(), em, l0, lm) && #[trigger] command_step(em, cmds.last(), e1, lm, l1);
        lemma_commands_interrupt(e, cmds.drop_last(), em, l0, lm);
        let p = cmds.drop_last();
        if stops_playback(cmds.last()) {
            assert(stops_playback(cmds[cmds.len() - 1]));
        } else {
            assert((exists|i: int| 0 <= i < cmds.len() && stops_playback(#[trigger] cmds[i])) == (exists|i: int|
                0 <= i < p.len() && stops_playback(#[trigger] p[i]))) by {
                if exists|i: int| 0 <= i < cmds.len() && stops_playback(#[trigger] cmds[i]) {
                    let i = choose|i: int| 0 <= i < cmds.len() && stops_playback(#[trigger] cmds[i]);
                    assert(p[i] == cmds[i]);
                }
                if exists|i: int| 0 <= i < p.len() && stops_playback(#[trigger] p[i]) {
                    let i = choose|i: int| 0 <= i < p.len() && stops_playback(#[trigger] p[i]);
                    assert(p[i] == cmds[i]);
                }
            }
        }
    }
}

/// Coroutine-based audio engine.
///
/// Owns all audio resources (samples, voices).  Timing is driven by the
/// hardware HBlank counter, not by VBlank or yield counting.  The single
/// timing parameter is **BPM** (beats per minute), where 1 beat = 4 rows
/// by convention.
pub struct Engine {
    samples: SampleBank<SAMPLE_SLOTS>,
    voices: VoiceAlloc,
    bpm: u16,
    interrupted: bool,
    pattern_counter: u16,
    last_hblank: u16,
    channel_voices: Vec<Option<VoiceHw>>,
    /// Per-tracker-channel reverb enable (bit N = channel N feeds reverb).
    channel_reverb: u32,
    /// Current hardware EON mask — tracks which active voices have reverb.
    reverb_voice_mask: u32,
}

impl Engine {
    pub closed spec fn sample_bank(&self) -> SampleBank<SAMPLE_SLOTS> {
        self.samples
    }

    pub closed spec fn voice_alloc(&self) -> VoiceAlloc {
        self.voices
    }

    pub closed spec fn tempo(&self) -> u16 {
        self.bpm
    }

    pub closed spec fn interrupt_flag(&self) -> bool {
        self.interrupted
    }

    pub closed spec fn patterns_played(&self) -> u16 {
        self.pattern_counter
    }

    pub closed spec fn clock(&self) -> u16 {
        self.last_hblank
    }

    pub closed spec fn reverb_channels(&self) -> u32 {
        self.channel_reverb
    }

    pub closed spec fn reverb_voices(&self) -> u32 {
        self.reverb_voice_mask
    }

    pub closed spec fn channels(&self) -> Seq<Option<u8>> {
        voice_nums(self.channel_voices@)
    }

    /// The voice-assignment state with the access log `ops` and empty key masks.
    pub open spec fn mix(&self, ops: Seq<HwOp>) -> Mix {
        Mix {
            channels: self.channels(),
            music_mask: self.voice_alloc().music_mask(),
            reverb_mask: self.reverb_voices(),
            on: 0,
            off: 0,
            ops,
        }
    }

    pub open spec fn wf(&self) -> bool {
        &&& self.sample_bank().wf()
        &&& self.voice_alloc().wf()
        &&& self.mix(Seq::empty()).ok()
    }

    /// The reverb routing follows the per-channel reverb flags.
    pub open spec fn routed(&self) -> bool {
        self.mix(Seq::empty()).routed(self.reverb_channels())
    }

    /// Everything but the voice assignment is as in `other`.
    pub open spec fn same_settings(&self, other: &Engine) -> bool {
        &&& self.sample_bank() == other.sample_bank()
        &&& self.voice_alloc().layout() == other.voice_alloc().layout()
        &&& self.voice_alloc().sfx_mask() == other.voice_alloc().sfx_mask()
        &&& self.tempo() == other.tempo()
        &&& self.interrupt_flag() == other.interrupt_flag()
        &&& self.patterns_played() == other.patterns_played()
        &&& self.clock() == other.clock()
        &&& self.reverb_channels() == other.reverb_channels()
    }
}

proof fn lemma_bit_facts(n: u32)
    requires
        n < 32,
    ensures
        forall|m: u32| #![trigger (m & !(1u32 << n))] (m & !(1u32 << n)) & (1u32 << n) == 0,
        forall|m: u32| #![trigger (m | (1u32 << n))] (m | (1u32 << n)) & (1u32 << n) != 0,
{
    assert forall|m: u32| #![trigger (m & !(1u32 << n))] (m & !(1u32 << n)) & (1u32 << n) == 0 by {
        assert((m & !(1u32 << n)) & (1u32 << n) == 0) by (bit_vector);
    }
    assert forall|m: u32| #![trigger (m | (1u32 << n))] (m | (1u32 << n)) & (1u32 << n) != 0 by {
        assert((m | (1u32 << n)) & (1u32 << n) != 0) by (bit_vector) requires n < 32;
    }
}

/// Keying off a channel keeps the voice-assignment invariant.
proof fn lemma_release_ok(m: Mix, rc: u32, ch: int)
    requires
        m.ok(),
        0 <= ch < CHANNELS,
    ensures
        release_channel(m, ch).ok(),
        m.routed(rc) ==> release_channel(m, ch).routed(rc),
        release_channel(m, ch).channels[ch] is None,
        release_channel(m, ch).on == m.on,
        release_channel(m, ch).ops == m.ops,
{
    if let Some(n) = m.channels[ch] {
        let r = release_channel(m, ch);
        lemma_bit_facts(n as u32);
        assert forall|c: int| 0 <= c < CHANNELS && (#[trigger] r.channels[c]) is Some implies {
            &&& r.channels[c]->0 < 24
            &&& has_voice(r.music_mask, r.channels[c]->0 as int)
        } by {
            assert(m.channels[c] == r.channels[c]);
            assert(c != ch);
            assert(m.channels[c] != m.channels[ch]);
            lemma_other_bits(m.music_mask, n as u32, m.channels[c]->0 as u32);
        }
        if m.routed(rc) {
        assert forall|v: int| #[trigger] has_voice(r.reverb_mask, v) implies exists|c: int|
            0 <= c < CHANNELS && #[trigger] r.channels[c] == Some(v as u8) && has_voice(rc, c) by {
            if v == n as int {
                assert(!has_voice(r.reverb_mask, v));
            } else {
                lemma_other_bits(m.reverb_mask, n as u32, v as u32);
                assert(has_voice(m.reverb_mask, v));
                let c = choose|c: int| 0 <= c < CHANNELS && #[trigger] m.channels[c] == Some(v as u8) && has_voice(rc, c);
                assert(c != ch);
                assert(r.channels[c] == Some(v as u8));
            }
        }
        }
    }
}

/// One cell keeps the voice-assignment invariant.
pub proof fn lemma_step_ok(
    m: Mix,
    layout: VoiceLayout,
    samples: Seq<Option<SampleRef>>,
    rc: u32,
    ch: int,
    cell: Cell,
)
    requires
        m.ok(),
        layout.wf(),
        0 <= ch,
        ch < CHANNELS || !indexes_channel(cell, samples),
    ensures
        step_cell(m, layout, samples, rc, ch, cell).ok(),
        m.routed(rc) ==> step_cell(m, layout, samples, rc, ch, cell).routed(rc),
{
    if cell.sample is Some && cell.pitch is Some {
        let id = (cell.sample->0).0 as int;
        let p = (cell.pitch->0).0;
        if p == 0 {
            lemma_release_ok(m, rc, ch);
        }
        if p != 0 && id < samples.len() && samples[id] is Some {
            lemma_release_ok(m, rc, ch);
            let r = release_channel(m, ch);
            lemma_first_free_is_free(layout.music_start as int, layout.music_count as int, r.music_mask);
            if let Some(n) = first_free(layout.music_start as int, layout.music_count as int, r.music_mask) {
                let s = step_cell(m, layout, samples, rc, ch, cell);
                lemma_bit_facts(n as u32);
                assert forall|c: int| 0 <= c < CHANNELS && (#[trigger] s.channels[c]) is Some implies {
                    &&& s.channels[c]->0 < 24
                    &&& has_voice(s.music_mask, s.channels[c]->0 as int)
                } by {
                    if c != ch {
                        assert(s.channels[c] == r.channels[c]);
                        lemma_other_bits(r.music_mask, n as u32, r.channels[c]->0 as u32);
                        if r.channels[c]->0 as int == n {
                            assert(has_voice(r.music_mask, n));
                        }
                    }
                }
                assert forall|c: int, d: int|
                    0 <= c < CHANNELS && 0 <= d < CHANNELS && c != d && (#[trigger] s.channels[c]) is Some
                        && (#[trigger] s.channels[d]) is Some implies s.channels[c] != s.channels[d] by {
                    if c == ch {
                        assert(s.channels[d] == r.channels[d]);
                        assert(has_voice(r.music_mask, r.channels[d]->0 as int));
                    } else if d == ch {
                        assert(s.channels[c] == r.channels[c]);
                        assert(has_voice(r.music_mask, r.channels[c]->0 as int));
                    } else {
                        assert(s.channels[c] == r.channels[c]);
                        assert(s.channels[d] == r.channels[d]);
                    }
                }
                if m.routed(rc) {
                assert forall|v: int| #[trigger] has_voice(s.reverb_mask, v) implies exists|c: int|
                    0 <= c < CHANNELS && #[trigger] s.channels[c] == Some(v as u8) && has_voice(rc, c) by {
                    if v == n {
                        if has_voice(rc, ch) {
                            assert(s.channels[ch] == Some(v as u8));
                        } else {
                            assert(has_voice(r.reverb_mask, v));
                            let c = choose|c: int| 0 <= c < CHANNELS && #[trigger] r.channels[c] == Some(v as u8) && has_voice(rc, c);
                            assert(has_voice(r.music_mask, n));
                        }
                    } else {
                        if has_voice(rc, ch) {
                            lemma_other_bits(r.reverb_mask, n as u32, v as u32);
                        }
                        assert(has_voice(r.reverb_mask, v));
                        let c = choose|c: int| 0 <= c < CHANNELS && #[trigger] r.channels[c] == Some(v as u8) && has_voice(rc, c);
                        assert(c != ch);
                        assert(s.channels[c] == Some(v as u8));
                    }
                }
                }
            }
        }
    }
}

/// All cells of a row keep the voice-assignment invariant.
pub proof fn lemma_row_ok(
    m: Mix,
    layout: VoiceLayout,
    samples: Seq<Option<SampleRef>>,
    rc: u32,
    events: Seq<Event>,
    row: int,
)
    requires
        m.ok(),
        layout.wf(),
        events_in_range(events, row),
    ensures
        row_mix(m, layout, samples, rc, events, row).ok(),
        m.routed(rc) ==> row_mix(m, layout, samples, rc, events, row).routed(rc),
    decreases events.len(),
{
    if events.len() > 0 {
        assert(events_in_range(events.drop_last(), row)) by {
            assert forall|i: int| 0 <= i < events.drop_last().len() && (#[trigger] events.drop_last()[i]).row == row
                implies (events.drop_last()[i].ch < CHANNELS || !touches_channel(events.drop_last()[i].cell)) by {
                assert(events.drop_last()[i] == events[i]);
            }
        }
        lemma_row_ok(m, layout, samples, rc, events.drop_last(), row);
        let e = events.last();
        assert(e == events[events.len() - 1]);
        if e.row as int == row {
            lemma_step_ok(row_mix(m, layout, samples, rc, events.drop_last(), row), layout, samples, rc, e.ch as int, e.cell);
        }
    }
}

/// The (left, right) volumes `cell` plays `vol` at.
fn panned(cell: &Cell, vol: u16) -> (r: (u16, u16))
    ensures
        r == cell_sides(*cell, vol),
{
    match cell.pan {
        Some(p) => {
            let pos: i8 = if p.0 < -64 {
                -64
            } else if p.0 > 64 {
                64
            } else {
                p.0
            };
            Pan(pos).apply(vol)
        },
        None => (vol, vol),
    }
}

impl Engine {
    /// Process one cell and return `(key_on_mask, key_off_mask)` bits
    /// so the caller can batch all SPU register writes.
    ///
    /// Also keeps the reverb routing of the channel's voice in line with
    /// the per-channel reverb flags.
    pub fn apply_cell(&mut self, ch: usize, cell: &Cell, log: &mut Vec<HwOp>) -> (r: (u32, u32))
        requires
            old(self).wf(),
            ch < CHANNELS || !indexes_channel(*cell, old(self).sample_bank().slots()),
        ensures
            final(self).wf(),
            final(self).same_settings(old(self)),
            old(self).routed() ==> final(self).routed(),
            ({
                let m = step_cell(
                    old(self).mix(old(log)@),
                    old(self).voice_alloc().layout(),
                    old(self).sample_bank().slots(),
                    old(self).reverb_channels(),
                    ch as int,
                    *cell,
                );
                &&& final(self).mix(final(log)@) == Mix { on: 0, off: 0, ..m }
                &&& r == (m.on, m.off)
            }),
            // An unpanned note of a loaded sample that gets voice `v` sets
            // both of its volumes to the cell's volume, or to 0x3FFF when the
            // cell gives none.
            ({
                let id = (cell.sample->0).0 as int;
                let vol: u16 = match cell.volume {
                    Some(v) => v.0,
                    None => 0x3FFF,
                };
                cell.sample is Some && cell.pitch is Some && (cell.pitch->0).0 != 0 && cell.pan is None
                    && id < old(self).sample_bank().slots().len() && old(self).sample_bank().slots()[id] is Some
                    ==> (final(self).channels()[ch as int] matches Some(v) ==> {
                        &&& last_store16(final(log)@, voice_base(v)) == Some(vol)
                        &&& last_store16(final(log)@, voice_base(v) + 2) == Some(vol)
                    })
            }),
    {
        let ghost m0 = self.mix(log@);
        let ghost layout = self.voices.layout();
        let ghost slots = self.samples.slots();
        proof {
            lemma_step_ok(self.mix(Seq::empty()), layout, slots, self.channel_reverb, ch as int, *cell);
            self.samples.lemma_slots_len();
            if cell.sample is Some && cell.pitch is Some && (cell.pitch->0).0 != 0
                && ((cell.sample->0).0 as int) < slots.len() && slots[(cell.sample->0).0 as int] is Some {
                assert(ch < CHANNELS);
                lemma_note_programs_voice(m0, layout, slots, self.channel_reverb, ch as int, *cell);
            }
        }
        match (cell.sample, cell.pitch) {
            (Some(sample_id), Some(pitch)) => {
                if pitch.0 == 0 {
                    let off = self.release_channel_voice(ch);
                    assert(self.mix(log@) =~= Mix { on: 0, off: 0, ..release_channel(m0, ch as int) });
                    return (0, off);
                }
                let sample_ref = match self.samples.get(sample_id) {
                    Some(s) => *s,
                    None => return (0, 0),
                };
                let off = self.release_channel_voice(ch);
                let ghost r = release_channel(m0, ch as int);
                assert(self.mix(log@) =~= Mix { on: 0, off: 0, ..r });
                let voice = match self.voices.claim_music() {
                    Some(v) => v,
                    None => {
                        assert(self.mix(log@) =~= Mix { on: 0, off: 0, ..r });
                        assert(self.mix(Seq::empty()) =~= Mix { on: 0, off: 0, ops: Seq::empty(), ..r });
                        return (0, off);
                    },
                };
                proof {
                    lemma_first_free_is_free(layout.music_start as int, layout.music_count as int, r.music_mask);
                }
                let vol = match cell.volume {
                    Some(v) => v.0,
                    None => Volume::MAX,
                };
                let adsr = match cell.adsr {
                    Some(a) => a.raw(),
                    None => DEFAULT_ADSR,
                };
                let (left, right) = panned(cell, vol);
                voice.prepare_stereo(sample_ref.spu_addr, pitch.0, left, right, adsr, log);
                let voice_bit = 1u32 << (voice.id() as u32);
                if self.channel_reverb & (1u32 << (ch as u32)) != 0 {
                    self.reverb_voice_mask = self.reverb_voice_mask | voice_bit;
                }
                self.channel_voices.set(ch, Some(voice));
                proof {
                    assert(0u32 | voice_bit == voice_bit) by (bit_vector);
                    assert(self.channels() =~= r.channels.update(ch as int, Some(voice.num())));
                    let st = step_cell(m0, layout, slots, self.channel_reverb, ch as int, *cell);
                    let st0 = step_cell(old(self).mix(Seq::empty()), layout, slots, self.channel_reverb, ch as int, *cell);
                    assert(self.mix(Seq::empty()) =~= Mix { on: 0, off: 0, ops: Seq::empty(), ..st0 });
                    assert(self.mix(log@) =~= Mix { on: 0, off: 0, ..st });
                }
                (voice_bit, off)
            },
            _ => {
                if let Some(vol) = cell.volume {
                    if let Some(voice) = self.channel_voices[ch] {
                        let (left, right) = panned(cell, vol.0);
                        voice.set_volume(left, right, log);
                    }
                }
                (0, 0)
            },
        }
    }

    /// Take the voice off channel `ch` (if any): unroute it from reverb and
    /// return it to the music pool without keying it off.  Returns the
    /// voice's bit (0 when the channel was silent).
    fn release_channel_voice(&mut self, ch: usize) -> (off: u32)
        requires
            old(self).wf(),
            ch < CHANNELS,
        ensures
            final(self).sample_bank() == old(self).sample_bank(),
            final(self).voice_alloc().layout() == old(self).voice_alloc().layout(),
            final(self).same_settings(old(self)),
            ({
                let r = release_channel(old(self).mix(Seq::empty()), ch as int);
                &&& final(self).channels() == r.channels
                &&& final(self).voice_alloc().music_mask() == r.music_mask
                &&& final(self).reverb_voices() == r.reverb_mask
                &&& off == r.off
            }),
            final(self).channel_voices@.len() == CHANNELS,
    {
        match self.channel_voices[ch] {
            Some(voice) => {
                assert(self.channels()[ch as int] == Some(voice.num()));
                self.channel_voices.set(ch, None);
                self.reverb_voice_mask = self.reverb_voice_mask & !(1u32 << (voice.id() as u32));
                let bit = self.voices.release_music_deferred(&voice);
                proof {
                    assert(0u32 | bit == bit) by (bit_vector);
                    assert(self.channels() =~= old(self).channels().update(ch as int, None));
                }
                bit
            },
            None => 0,
        }
    }
}

/// The effect of a cell does not depend on the key masks gathered so far:
/// they are only OR-ed into.
proof fn lemma_step_acc(
    m: Mix,
    layout: VoiceLayout,
    samples: Seq<Option<SampleRef>>,
    rc: u32,
    ch: int,
    cell: Cell,
)
    ensures
        ({
            let s0 = step_cell(Mix { on: 0, off: 0, ..m }, layout, samples, rc, ch, cell);
            let s = step_cell(m, layout, samples, rc, ch, cell);
            &&& s == Mix { on: m.on | s0.on, off: m.off | s0.off, ..s0 }
        }),
{
    assert(forall|x: u32| #![trigger (0u32 | x)] 0u32 | x == x) by {
        assert forall|x: u32| #![trigger (0u32 | x)] 0u32 | x == x by {
            assert(0u32 | x == x) by (bit_vector);
        }
    }
    assert(m.on | 0u32 == m.on) by (bit_vector);
    assert(m.off | 0u32 == m.off) by (bit_vector);
}

/// The layered effect of several event lists on one row, in order.
pub open spec fn mix_patterns(
    m: Mix,
    layout: VoiceLayout,
    samples: Seq<Option<SampleRef>>,
    rc: u32,
    pats: Seq<Seq<Event>>,
    row: int,
) -> Mix
    decreases pats.len(),
{
    if pats.len() == 0 {
        m
    } else {
        row_mix(mix_patterns(m, layout, samples, rc, pats.drop_last(), row), layout, samples, rc, pats.last(), row)
    }
}

/// The events a song plays at order position `pos`: for each track, the
/// pattern its order list names there (none past the end of the list or
/// for an index outside the pattern bank).
pub open spec fn song_events<const TRACKS: usize, const PAT: usize, const ROWS: usize>(
    song: &Song<TRACKS, PAT, ROWS>,
    pos: int,
) -> Seq<Seq<Event>> {
    Seq::new(TRACKS as nat, |t: int| {
        let track = song.tracks@[t];
        if pos < track.order_len && (track.order@[pos] as int) < PAT {
            track.patterns@[track.order@[pos] as int].entries()
        } else {
            Seq::empty()
        }
    })
}

/// Keying off every channel voice, channel by channel.
pub open spec fn release_upto(m: Mix, k: int) -> Mix
    decreases k,
{
    if k <= 0 {
        m
    } else {
        let p = release_upto(m, k - 1);
        match p.channels[k - 1] {
            Some(n) => Mix {
                channels: p.channels.update(k - 1, None),
                music_mask: p.music_mask & !bit(n as int),
                reverb_mask: p.reverb_mask & !bit(n as int),
                ops: p.ops.push(w32(SPU_KEY_OFF as int, bit(n as int))),
                ..p
            },
            None => p,
        }
    }
}

impl Engine {
    /// The engine's voice assignment is that of `m`.
    pub open spec fn settled(&self, m: Mix) -> bool {
        &&& self.channels() == m.channels
        &&& self.voice_alloc().music_mask() == m.music_mask
        &&& self.reverb_voices() == m.reverb_mask
    }

    fn flush_keys(key_on: u32, key_off: u32, log: &mut Vec<HwOp>)
        ensures
            final(log)@ == old(log)@ + (if key_off != 0 { seq![w32(SPU_KEY_OFF as int, key_off)] } else { seq![] })
                + (if key_on != 0 { seq![w32(SPU_KEY_ON as int, key_on)] } else { seq![] }),
    {
        if key_off != 0 {
            hw::key_off_mask(key_off, log);
        }
        if key_on != 0 {
            hw::key_on_mask(key_on, log);
        }
        assert(log@ =~= old(log)@ + (if key_off != 0 { seq![w32(SPU_KEY_OFF as int, key_off)] } else { seq![] })
            + (if key_on != 0 { seq![w32(SPU_KEY_ON as int, key_on)] } else { seq![] }));
    }

    fn flush_reverb(&self, log: &mut Vec<HwOp>)
        ensures
            final(log)@ == old(log)@.push(w32(SPU_REVERB_ON as int, reverb_on_value(self.reverb_voices()))),
    {
        hw::set_reverb_on_mask(self.reverb_voice_mask, log);
    }

    /// Apply the events of `pattern` that fall on `row`, gathering the
    /// key-on/key-off masks into `key_on` and `key_off`.
    fn mix_events<const ROWS: usize>(
        &mut self,
        pattern: &Pattern<ROWS>,
        row: usize,
        key_on: &mut u32,
        key_off: &mut u32,
        log: &mut Vec<HwOp>,
    )
        requires
            old(self).wf(),
            events_in_range(pattern.entries(), row as int),
        ensures
            final(self).wf(),
            final(self).same_settings(old(self)),
            old(self).routed() ==> final(self).routed(),
            ({
                let m = row_mix(
                    Mix { on: *old(key_on), off: *old(key_off), ..old(self).mix(old(log)@) },
                    old(self).voice_alloc().layout(),
                    old(self).sample_bank().slots(),
                    old(self).reverb_channels(),
                    pattern.entries(),
                    row as int,
                );
                &&& final(self).settled(m)
                &&& *final(key_on) == m.on
                &&& *final(key_off) == m.off
                &&& final(log)@ == m.ops
            }),
    {
        let ghost m0 = Mix { on: *key_on, off: *key_off, ..self.mix(log@) };
        let ghost layout = self.voices.layout();
        let ghost slots = self.samples.slots();
        let ghost rc = self.channel_reverb;
        let ghost entries = pattern.entries();
        let n = pattern.event_count();
        let mut i: usize = 0;
        while i < n
            invariant
                i <= n,
                n == pattern.count(),
                n <= MAX_EVENTS,
                pattern.slots().len() == MAX_EVENTS,
                entries == pattern.entries(),
                events_in_range(entries, row as int),
                self.wf(),
                self.same_settings(old(self)),
                old(self).routed() ==> self.routed(),
                layout == self.voice_alloc().layout(),
                slots == self.sample_bank().slots(),
                rc == self.reverb_channels(),
                m0 == (Mix { on: *old(key_on), off: *old(key_off), ..old(self).mix(old(log)@) }),
                layout == old(self).voice_alloc().layout(),
                slots == old(self).sample_bank().slots(),
                rc == old(self).reverb_channels(),
                ({
                    let mi = row_mix(m0, layout, slots, rc, entries.take(i as int), row as int);
                    &&& self.settled(mi)
                    &&& *key_on == mi.on
                    &&& *key_off == mi.off
                    &&& log@ == mi.ops
                }),
            decreases n - i,
        {
            let ev = pattern.event(i);
            proof {
                assert(entries.take(i + 1).drop_last() =~= entries.take(i as int));
                assert(entries.take(i + 1).last() == *ev);
                assert(entries[i as int] == *ev);
            }
            if ev.row as usize == row {
                let ghost before = Mix { on: *key_on, off: *key_off, ..self.mix(log@) };
                assert(Mix { on: 0, off: 0, ..before } == self.mix(log@));
                let (on, off) = self.apply_cell(ev.ch as usize, &ev.cell, log);
                proof {
                    lemma_step_acc(before, layout, slots, rc, ev.ch as int, ev.cell);
                }
                *key_on = *key_on | on;
                *key_off = *key_off | off;
            }
            i = i + 1;
        }
        proof {
            assert(entries.take(n as int) =~= entries);
        }
    }
}

impl Engine {
    /// Trigger the events of `pattern` on `row`, batching key-off and
    /// key-on into one write each, then update the reverb routing.
    pub fn trigger_row<const ROWS: usize>(&mut self, pattern: &Pattern<ROWS>, row: usize, log: &mut Vec<HwOp>)
        requires
            old(self).wf(),
            events_in_range(pattern.entries(), row as int),
        ensures
            final(self).wf(),
            final(self).same_settings(old(self)),
            old(self).routed() ==> final(self).routed(),
            ({
                let m = row_mix(
                    old(self).mix(old(log)@),
                    old(self).voice_alloc().layout(),
                    old(self).sample_bank().slots(),
                    old(self).reverb_channels(),
                    pattern.entries(),
                    row as int,
                );
                &&& final(self).settled(m)
                &&& final(log)@ == m.ops + flush_ops(m.on, m.off, m.reverb_mask)
            }),
    {
        let mut key_on: u32 = 0;
        let mut key_off: u32 = 0;
        self.mix_events(pattern, row, &mut key_on, &mut key_off, log);
        let ghost mid = log@;
        Self::flush_keys(key_on, key_off, log);
        self.flush_reverb(log);
        proof {
            assert(log@ =~= mid + flush_ops(key_on, key_off, self.reverb_voices()));
        }
    }

    /// Trigger row `row` of several patterns layered together (one shared
    /// channel namespace), batching key-off and key-on into one write each.
    pub fn trigger_layered_row<const ROWS: usize>(
        &mut self,
        patterns: &[&Pattern<ROWS>],
        row: usize,
        log: &mut Vec<HwOp>,
    )
        requires
            old(self).wf(),
            forall|k: int| 0 <= k < patterns@.len() ==> events_in_range((#[trigger] patterns@[k]).entries(), row as int),
        ensures
            final(self).wf(),
            final(self).same_settings(old(self)),
            old(self).routed() ==> final(self).routed(),
            ({
                let m = mix_patterns(
                    old(self).mix(old(log)@),
                    old(self).voice_alloc().layout(),
                    old(self).sample_bank().slots(),
                    old(self).reverb_channels(),
                    patterns@.map_values(|p: &Pattern<ROWS>| p.entries()),
                    row as int,
                );
                &&& final(self).settled(m)
                &&& final(log)@ == m.ops + flush_ops(m.on, m.off, m.reverb_mask)
            }),
    {
        let ghost m0 = self.mix(log@);
        let ghost layout = self.voices.layout();
        let ghost slots = self.samples.slots();
        let ghost rc = self.channel_reverb;
        let ghost pats = patterns@.map_values(|p: &Pattern<ROWS>| p.entries());
        let mut key_on: u32 = 0;
        let mut key_off: u32 = 0;
        let mut k: usize = 0;
        while k < patterns.len()
            invariant
                k <= patterns@.len(),
                pats == patterns@.map_values(|p: &Pattern<ROWS>| p.entries()),
                forall|j: int| 0 <= j < patterns@.len() ==> events_in_range((#[trigger] patterns@[j]).entries(), row as int),
                self.wf(),
                self.same_settings(old(self)),
                old(self).routed() ==> self.routed(),
                layout == old(self).voice_alloc().layout(),
                slots == old(self).sample_bank().slots(),
                rc == old(self).reverb_channels(),
                m0 == old(self).mix(old(log)@),
                ({
                    let mk = mix_patterns(m0, layout, slots, rc, pats.take(k as int), row as int);
                    &&& self.settled(mk)
                    &&& key_on == mk.on
                    &&& key_off == mk.off
                    &&& log@ == mk.ops
                }),
            decreases patterns@.len() - k,
        {
            proof {
                assert(pats.take(k + 1).drop_last() =~= pats.take(k as int));
                assert(pats.take(k + 1).last() == patterns@[k as int].entries());
            }
            let ghost before = Mix { on: key_on, off: key_off, ..self.mix(log@) };
            self.mix_events(patterns[k], row, &mut key_on, &mut key_off, log);
            k = k + 1;
        }
        proof {
            assert(pats.take(patterns@.len() as int) =~= pats);
        }
        let ghost mid = log@;
        Self::flush_keys(key_on, key_off, log);
        self.flush_reverb(log);
        proof {
            assert(log@ =~= mid + flush_ops(key_on, key_off, self.reverb_voices()));
        }
    }

    /// Trigger row `row` of order position `pos` of a song: every track
    /// layers the pattern its order list names at `pos` (tracks whose list
    /// is shorter, or that name a pattern outside their bank, stay silent).
    pub fn trigger_song_row<const TRACKS: usize, const PAT: usize, const ROWS: usize>(
        &mut self,
        song: &Song<TRACKS, PAT, ROWS>,
        pos: usize,
        row: usize,
        log: &mut Vec<HwOp>,
    )
        requires
            old(self).wf(),
            song.wf(),
            forall|k: int| 0 <= k < TRACKS ==> #[trigger] events_in_range(song_events(song, pos as int)[k], row as int),
        ensures
            final(self).wf(),
            final(self).same_settings(old(self)),
            old(self).routed() ==> final(self).routed(),
            ({
                let m = mix_patterns(
                    old(self).mix(old(log)@),
                    old(self).voice_alloc().layout(),
                    old(self).sample_bank().slots(),
                    old(self).reverb_channels(),
                    song_events(song, pos as int),
                    row as int,
                );
                &&& final(self).settled(m)
                &&& final(log)@ == m.ops + flush_ops(m.on, m.off, m.reverb_mask)
            }),
    {
        let ghost m0 = self.mix(log@);
        let ghost layout = self.voices.layout();
        let ghost slots = self.samples.slots();
        let ghost rc = self.channel_reverb;
        let ghost pats = song_events(song, pos as int);
        let mut key_on: u32 = 0;
        let mut key_off: u32 = 0;
        let mut t: usize = 0;
        while t < TRACKS
            invariant
                t <= TRACKS,
                song.wf(),
                pats == song_events(song, pos as int),
                forall|k: int| 0 <= k < TRACKS ==> #[trigger] events_in_range(pats[k], row as int),
                self.wf(),
                self.same_settings(old(self)),
                old(self).routed() ==> self.routed(),
                layout == old(self).voice_alloc().layout(),
                slots == old(self).sample_bank().slots(),
                rc == old(self).reverb_channels(),
                m0 == old(self).mix(old(log)@),
                ({
                    let mk = mix_patterns(m0, layout, slots, rc, pats.take(t as int), row as int);
                    &&& self.settled(mk)
                    &&& key_on == mk.on
                    &&& key_off == mk.off
                    &&& log@ == mk.ops
                }),
            decreases TRACKS - t,
        {
            proof {
                assert(pats.take(t + 1).drop_last() =~= pats.take(t as int));
                assert(pats.take(t + 1).last() == pats[t as int]);
                assert(events_in_range(pats[t as int], row as int));
            }
            let track = &song.tracks[t];
            if pos < track.order_len {
                let pat_idx = track.order[pos] as usize;
                if pat_idx < PAT {
                    self.mix_events(&track.patterns[pat_idx], row, &mut key_on, &mut key_off, log);
                } else {
                    proof {
                        assert(row_mix(mix_patterns(m0, layout, slots, rc, pats.take(t as int), row as int), layout, slots, rc, pats[t as int], row as int)
                            == mix_patterns(m0, layout, slots, rc, pats.take(t as int), row as int));
                    }
                }
            }
            t = t + 1;
        }
        proof {
            assert(pats.take(TRACKS as int) =~= pats);
        }
        let ghost mid = log@;
        Self::flush_keys(key_on, key_off, log);
        self.flush_reverb(log);
        proof {
            assert(log@ =~= mid + flush_ops(key_on, key_off, self.reverb_voices()));
        }
    }
}

/// Whether, on `row`, the pattern each track plays at order position
/// `pos` fits the tracker channels (see [`Pattern::fits_channels`]).
pub fn song_row_fits<const TRACKS: usize, const PAT: usize, const ROWS: usize>(
    song: &Song<TRACKS, PAT, ROWS>,
    pos: usize,
    row: usize,
) -> (r: bool)
    requires
        song.wf(),
    ensures
        r == forall|k: int| 0 <= k < TRACKS ==> #[trigger] events_in_range(song_events(song, pos as int)[k], row as int),
{
    let ghost pats = song_events(song, pos as int);
    let mut t: usize = 0;
    while t < TRACKS
        invariant
            t <= TRACKS,
            song.wf(),
            pats == song_events(song, pos as int),
            forall|k: int| 0 <= k < t ==> #[trigger] events_in_range(pats[k], row as int),
        decreases TRACKS - t,
    {
        let track = &song.tracks[t];
        if pos < track.order_len {
            let pat_idx = track.order[pos] as usize;
            if pat_idx < PAT {
                if !track.patterns[pat_idx].fits_channels(row) {
                    proof {
                        assert(pats[t as int] == track.patterns@[pat_idx as int].entries());
                        assert(!events_in_range(pats[t as int], row as int));
                    }
                    return false;
                }
            }
        }
        t = t + 1;
    }
    true
}

/// A mask with none of its 32 bits set is zero.
proof fn lemma_mask_zero(m: u32)
    requires
        forall|v: int| 0 <= v < 32 ==> !has_voice(m, v),
    ensures
        m == 0,
{
    assert(!has_voice(m, 0));
    assert(!has_voice(m, 1));
    assert(!has_voice(m, 2));
    assert(!has_voice(m, 3));
    assert(!has_voice(m, 4));
    assert(!has_voice(m, 5));
    assert(!has_voice(m, 6));
    assert(!has_voice(m, 7));
    assert(!has_voice(m, 8));
    assert(!has_voice(m, 9));
    assert(!has_voice(m, 10));
    assert(!has_voice(m, 11));
    assert(!has_voice(m, 12));
    assert(!has_voice(m, 13));
    assert(!has_voice(m, 14));
    assert(!has_voice(m, 15));
    assert(!has_voice(m, 16));
    assert(!has_voice(m, 17));
    assert(!has_voice(m, 18));
    assert(!has_voice(m, 19));
    assert(!has_voice(m, 20));
    assert(!has_voice(m, 21));
    assert(!has_voice(m, 22));
    assert(!has_voice(m, 23));
    assert(!has_voice(m, 24));
    assert(!has_voice(m, 25));
    assert(!has_voice(m, 26));
    assert(!has_voice(m, 27));
    assert(!has_voice(m, 28));
    assert(!has_voice(m, 29));
    assert(!has_voice(m, 30));
    assert(!has_voice(m, 31));
    assert(m == 0) by (bit_vector)
        requires
            m & (1u32 << 0u32) == 0,
            m & (1u32 << 1u32) == 0,
            m & (1u32 << 2u32) == 0,
            m & (1u32 << 3u32) == 0,
            m & (1u32 << 4u32) == 0,
            m & (1u32 << 5u32) == 0,
            m & (1u32 << 6u32) == 0,
            m & (1u32 << 7u32) == 0,
            m & (1u32 << 8u32) == 0,
            m & (1u32 << 9u32) == 0,
            m & (1u32 << 10u32) == 0,
            m & (1u32 << 11u32) == 0,
            m & (1u32 << 12u32) == 0,
            m & (1u32 << 13u32) == 0,
            m & (1u32 << 14u32) == 0,
            m & (1u32 << 15u32) == 0,
            m & (1u32 << 16u32) == 0,
            m & (1u32 << 17u32) == 0,
            m & (1u32 << 18u32) == 0,
            m & (1u32 << 19u32) == 0,
            m & (1u32 << 20u32) == 0,
            m & (1u32 << 21u32) == 0,
            m & (1u32 << 22u32) == 0,
            m & (1u32 << 23u32) == 0,
            m & (1u32 << 24u32) == 0,
            m & (1u32 << 25u32) == 0,
            m & (1u32 << 26u32) == 0,
            m & (1u32 << 27u32) == 0,
            m & (1u32 << 28u32) == 0,
            m & (1u32 << 29u32) == 0,
            m & (1u32 << 30u32) == 0,
            m & (1u32 << 31u32) == 0;
}

/// Keying off channels `0..k` keeps the voice-assignment invariant and
/// silences exactly those channels.
proof fn lemma_release_upto(m: Mix, rc: u32, k: int)
    requires
        m.ok(),
        0 <= k <= CHANNELS,
    ensures
        release_upto(m, k).ok(),
        m.routed(rc) ==> release_upto(m, k).routed(rc),
        release_upto(m, k).channels.len() == CHANNELS,
        forall|j: int| 0 <= j < k ==> release_upto(m, k).channels[j] is None,
        forall|j: int| k <= j < CHANNELS ==> release_upto(m, k).channels[j] == m.channels[j],
    decreases k,
{
    if k > 0 {
        lemma_release_upto(m, rc, k - 1);
        let p = release_upto(m, k - 1);
        lemma_release_ok(p, rc, k - 1);
        let r = release_channel(p, k - 1);
        let q = release_upto(m, k);
        assert(q.channels == r.channels && q.music_mask == r.music_mask && q.reverb_mask == r.reverb_mask);
    }
}

impl Engine {
    /// Key off and release every channel voice, then update the reverb
    /// routing.
    pub fn release_music_voices(&mut self, log: &mut Vec<HwOp>)
        requires
            old(self).wf(),
        ensures
            final(self).wf(),
            final(self).same_settings(old(self)),
            old(self).routed() ==> final(self).routed(),
            ({
                let r = release_upto(old(self).mix(old(log)@), CHANNELS as int);
                &&& final(self).settled(r)
                &&& final(log)@ == r.ops.push(w32(SPU_REVERB_ON as int, reverb_on_value(r.reverb_mask)))
            }),
            final(self).channels() == Seq::new(CHANNELS as nat, |c: int| None::<u8>),
            old(self).routed() ==> final(self).reverb_voices() == 0,
    {
        let ghost m0 = self.mix(log@);
        let mut i: usize = 0;
        while i < CHANNELS
            invariant
                i <= CHANNELS,
                self.wf(),
                self.same_settings(old(self)),
                m0 == old(self).mix(old(log)@),
                old(self).wf(),
                ({
                    let r = release_upto(m0, i as int);
                    &&& self.settled(r)
                    &&& log@ == r.ops
                }),
            decreases CHANNELS - i,
        {
            proof {
                lemma_release_upto(m0, self.channel_reverb, i as int);
            }
            match self.channel_voices[i] {
                Some(voice) => {
                    assert(self.channels()[i as int] == Some(voice.num()));
                    self.channel_voices.set(i, None);
                    self.reverb_voice_mask = self.reverb_voice_mask & !(1u32 << (voice.id() as u32));
                    self.voices.release_music(&voice, log);
                    proof {
                        assert(self.channels() =~= release_upto(m0, i + 1).channels);
                        lemma_release_upto(m0, self.channel_reverb, i + 1);
                        assert(self.mix(Seq::empty()) == Mix { ops: Seq::empty(), on: 0, off: 0, ..release_upto(m0, i + 1) });
                    }
                },
                None => {},
            }
            i = i + 1;
        }
        proof {
            lemma_release_upto(m0, self.channel_reverb, CHANNELS as int);
            assert(self.channels() =~= Seq::new(CHANNELS as nat, |c: int| None::<u8>));
            if old(self).routed() {
                assert(old(self).mix(Seq::empty()).routed(self.channel_reverb));
                assert(m0.channels == old(self).mix(Seq::empty()).channels);
                assert(m0.reverb_mask == old(self).mix(Seq::empty()).reverb_mask);
                assert(m0.routed(self.channel_reverb));
                assert forall|v: int| 0 <= v < 32 implies !has_voice(self.reverb_voice_mask, v) by {
                    if has_voice(self.reverb_voice_mask, v) {
                        let c = choose|c: int| 0 <= c < CHANNELS && #[trigger] self.channels()[c] == Some(v as u8)
                            && has_voice(self.channel_reverb, c);
                    }
                }
                lemma_mask_zero(self.reverb_voice_mask);
            }
        }
        hw::set_reverb_on_mask(self.reverb_voice_mask, log);
    }
}

/// The sample bank after loading `datas[i]` under id `i` (as a byte), in order.
pub open spec fn load_all(
    slots: Seq<Option<SampleRef>>,
    cursor: u16,
    limit: u16,
    datas: Seq<Seq<u8>>,
    ops: Seq<HwOp>,
) -> (Seq<Option<SampleRef>>, u16, Seq<HwOp>)
    decreases datas.len(),
{
    if datas.len() == 0 {
        (slots, cursor, ops)
    } else {
        let (s, c, o) = load_all(slots, cursor, limit, datas.drop_last(), ops);
        load_step(SAMPLE_SLOTS as int, s, c, limit, ((datas.len() - 1) % 256) as u8, datas.last(), o)
    }
}

/// The voice layout the engine starts with: voices 0..15 for music,
/// 16..23 for SFX.
pub open spec fn default_layout() -> VoiceLayout {
    VoiceLayout { music_start: 0, music_count: 16, sfx_start: 16, sfx_count: 8 }
}

/// Row duration in HBlank ticks: `HBLANK_RATE * 60 / (bpm * ROWS_PER_BEAT)`.
pub open spec fn row_ticks(bpm: u16) -> u32 {
    (HBLANK_RATE * 60 / (bpm * ROWS_PER_BEAT)) as u32
}

impl Engine {
    pub open spec fn silent(&self) -> bool {
        &&& self.channels() == Seq::new(CHANNELS as nat, |c: int| None::<u8>)
        &&& self.voice_alloc().music_mask() == 0
        &&& self.voice_alloc().sfx_mask() == 0
    }

    /// Acquire the engine, initialising SPU hardware and timer.
    ///
    /// `taken` is the singleton flag: returns `None` if the engine was
    /// already taken.  The HBlank reference starts at 0; call
    /// [`resync_clock`](Self::resync_clock) with the counter once the
    /// accesses are performed.
    pub fn take(taken: &mut bool, log: &mut Vec<HwOp>) -> (r: Option<Engine>)
        ensures
            *final(taken),
            *old(taken) ==> r is None && final(log)@ == old(log)@,
            !*old(taken) ==> (r matches Some(e) && {
                &&& e.wf()
                &&& e.routed()
                &&& e.silent()
                &&& e.voice_alloc().layout() == default_layout()
                &&& e.sample_bank().slots() == Seq::new(SAMPLE_SLOTS as nat, |i: int| None::<SampleRef>)
                &&& e.sample_bank().cursor() == 0x1000
                &&& e.sample_bank().limit() == u16::MAX
                &&& e.tempo() == 120
                &&& !e.interrupt_flag()
                &&& e.patterns_played() == 0
                &&& e.clock() == 0
                &&& e.reverb_channels() == 0
                &&& e.reverb_voices() == 0
                &&& final(log)@ == old(log)@ + hw::init_spu_ops().push(w16(hw::RCNT1_MODE as int, 0x0100))
            }),
    {
        if *taken {
            return None;
        }
        *taken = true;

        hw::init_spu_hardware(log);
        hw::init_hblank_timer(log);

        let mut channel_voices: Vec<Option<VoiceHw>> = Vec::new();
        let mut i: usize = 0;
        while i < CHANNELS
            invariant
                i <= CHANNELS,
                channel_voices@ == Seq::new(i as nat, |c: int| None::<VoiceHw>),
            decreases CHANNELS - i,
        {
            channel_voices.push(None);
            proof {
                assert(channel_voices@ =~= Seq::new((i + 1) as nat, |c: int| None::<VoiceHw>));
            }
            i = i + 1;
        }
        let e = Engine {
            samples: SampleBank::new(),
            voices: VoiceAlloc::with_layout(VoiceLayout::new((0, 16), (16, 8))),
            bpm: 120,
            interrupted: false,
            pattern_counter: 0,
            last_hblank: 0,
            channel_voices,
            channel_reverb: 0,
            reverb_voice_mask: 0,
        };
        proof {
            assert(e.channels() =~= Seq::new(CHANNELS as nat, |c: int| None::<u8>));
            assert forall|v: int| #[trigger] has_voice(e.reverb_voice_mask, v) implies false by {
                assert(0u32 & (1u32 << (v as u32)) == 0) by (bit_vector);
            }
        }
        Some(e)
    }

    /// Set the HBlank counter reading that the next row wait measures from.
    pub fn resync_clock(&mut self, now: u16)
        requires
            old(self).wf(),
        ensures
            final(self).wf(),
            old(self).routed() ==> final(self).routed(),
            final(self).clock() == now,
            final(self).settled(old(self).mix(Seq::empty())),
            final(self).sample_bank() == old(self).sample_bank(),
            final(self).voice_alloc() == old(self).voice_alloc(),
            final(self).tempo() == old(self).tempo(),
            final(self).interrupt_flag() == old(self).interrupt_flag(),
            final(self).patterns_played() == old(self).patterns_played(),
            final(self).reverb_channels() == old(self).reverb_channels(),
    {
        self.last_hblank = now;
    }

    /// Stop all playback, reload samples and voice layout from a project.
    ///
    /// Sample `i` of the project is loaded under id `i` (as a byte); loads
    /// that fail are skipped.  No voice is left routed into the reverb unit;
    /// the per-channel reverb flags stay.
    pub fn load_project<const N: usize>(&mut self, project: &SoundProject<N>, log: &mut Vec<HwOp>)
        requires
            old(self).wf(),
            project.layout.wf(),
        ensures
            final(self).wf(),
            final(self).silent(),
            final(self).voice_alloc().layout() == project.layout,
            !final(self).interrupt_flag(),
            final(self).patterns_played() == 0,
            final(self).tempo() == old(self).tempo(),
            final(self).clock() == old(self).clock(),
            final(self).reverb_channels() == old(self).reverb_channels(),
            final(self).reverb_voices() == 0,
            final(self).routed(),
            final(self).sample_bank().limit() == old(self).sample_bank().limit(),
            ({
                let (slots, cursor, ops) = load_all(
                    Seq::new(SAMPLE_SLOTS as nat, |i: int| None::<SampleRef>),
                    0x1000,
                    old(self).sample_bank().limit(),
                    project.samples@.map_values(|d: &'static [u8]| d@),
                    old(log)@ + release_all_ops(old(self).voice_alloc().music_mask() | old(self).voice_alloc().sfx_mask()),
                );
                &&& final(self).sample_bank().slots() == slots
                &&& final(self).sample_bank().cursor() == cursor
                &&& final(log)@ == ops
            }),
    {
        self.voices.release_all(log);
        let mut channel_voices: Vec<Option<VoiceHw>> = Vec::new();
        let mut c: usize = 0;
        while c < CHANNELS
            invariant
                c <= CHANNELS,
                channel_voices@ == Seq::new(c as nat, |k: int| None::<VoiceHw>),
            decreases CHANNELS - c,
        {
            channel_voices.push(None);
            proof {
                assert(channel_voices@ =~= Seq::new((c + 1) as nat, |k: int| None::<VoiceHw>));
            }
            c = c + 1;
        }
        self.channel_voices = channel_voices;
        self.samples.reset();
        let ghost mid = log@;
        self.voices.set_layout(project.layout, log);
        proof {
            assert(0u32 | 0u32 == 0u32) by (bit_vector);
            assert(log@ =~= mid);
        }
        self.reverb_voice_mask = 0;
        self.interrupted = false;
        self.pattern_counter = 0;

        let ghost datas = project.samples@.map_values(|d: &'static [u8]| d@);
        let ghost start_ops = log@;
        let ghost limit = self.samples.limit();
        let mut i: usize = 0;
        while i < N
            invariant
                i <= N,
                project.samples@.len() == N,
                datas == project.samples@.map_values(|d: &'static [u8]| d@),
                self.samples.wf(),
                self.samples.limit() == limit,
                self.channel_voices@ == Seq::new(CHANNELS as nat, |k: int| None::<VoiceHw>),
                self.voices.layout() == project.layout,
                self.voices.music_mask() == 0,
                self.voices.sfx_mask() == 0,
                project.layout.wf(),
                !self.interrupted,
                self.pattern_counter == 0,
                self.bpm == old(self).bpm,
                self.last_hblank == old(self).last_hblank,
                self.channel_reverb == old(self).channel_reverb,
                self.reverb_voice_mask == 0,
                limit == old(self).sample_bank().limit(),
                start_ops == old(log)@ + release_all_ops(old(self).voice_alloc().music_mask() | old(self).voice_alloc().sfx_mask()),
                ({
                    let (slots, cursor, ops) = load_all(
                        Seq::new(SAMPLE_SLOTS as nat, |k: int| None::<SampleRef>),
                        0x1000,
                        limit,
                        datas.take(i as int),
                        start_ops,
                    );
                    &&& self.samples.slots() == slots
                    &&& self.samples.cursor() == cursor
                    &&& log@ == ops
                }),
            decreases N - i,
        {
            let id = i as u8;
            proof {
                assert(id == i % 256) by (bit_vector) requires id == i as u8;
                assert(datas.take(i + 1).drop_last() =~= datas.take(i as int));
                assert(datas.take(i + 1).last() == project.samples@[i as int]@);
            }
            let _ = self.samples.load(SampleId(id), project.samples[i], log);
            i = i + 1;
        }
        proof {
            assert(datas.take(N as int) =~= datas);
            assert(self.channels() =~= Seq::new(CHANNELS as nat, |k: int| None::<u8>));
            assert forall|v: int| #[trigger] has_voice(self.reverb_voice_mask, v) implies false by {
                assert(0u32 & (1u32 << (v as u32)) == 0) by (bit_vector);
            }
        }
    }

    /// Prepare to play a song: adopt its tempo, clear the interrupt flag,
    /// and return the number of order positions (the longest track's
    /// order list).
    pub fn begin_song<const TRACKS: usize, const PAT: usize, const ROWS: usize>(
        &mut self,
        song: &Song<TRACKS, PAT, ROWS>,
    ) -> (positions: usize)
        requires
            old(self).wf(),
            song.wf(),
        ensures
            final(self).wf(),
            old(self).routed() ==> final(self).routed(),
            final(self).tempo() == song.bpm,
            !final(self).interrupt_flag(),
            final(self).settled(old(self).mix(Seq::empty())),
            final(self).sample_bank() == old(self).sample_bank(),
            final(self).voice_alloc() == old(self).voice_alloc(),
            final(self).patterns_played() == old(self).patterns_played(),
            final(self).clock() == old(self).clock(),
            final(self).reverb_channels() == old(self).reverb_channels(),
            forall|t: int| 0 <= t < TRACKS ==> (#[trigger] song.tracks@[t]).order_len <= positions,
            TRACKS == 0 ==> positions == 0,
            TRACKS > 0 ==> exists|t: int| 0 <= t < TRACKS && (#[trigger] song.tracks@[t]).order_len == positions,
    {
        self.bpm = song.bpm;
        self.interrupted = false;

        let mut max_len: usize = 0;
        let mut i: usize = 0;
        while i < TRACKS
            invariant
                i <= TRACKS,
                song.wf(),
                forall|t: int| 0 <= t < i ==> (#[trigger] song.tracks@[t]).order_len <= max_len,
                i == 0 ==> max_len == 0,
                i > 0 ==> exists|t: int| 0 <= t < i && (#[trigger] song.tracks@[t]).order_len == max_len,
            decreases TRACKS - i,
        {
            if song.tracks[i].order_len > max_len {
                max_len = song.tracks[i].order_len;
            }
            i = i + 1;
        }
        max_len
    }

    /// Start playing one pattern (or one layered set of patterns): clear
    /// the interrupt flag and return the running pattern index used for
    /// status reporting.
    pub fn begin_pattern(&mut self) -> (idx: u16)
        requires
            old(self).wf(),
        ensures
            final(self).wf(),
            old(self).routed() ==> final(self).routed(),
            idx == old(self).patterns_played(),
            final(self).patterns_played() == (old(self).patterns_played() + 1) % 0x1_0000,
            !final(self).interrupt_flag(),
            final(self).settled(old(self).mix(Seq::empty())),
            final(self).sample_bank() == old(self).sample_bank(),
            final(self).voice_alloc() == old(self).voice_alloc(),
            final(self).tempo() == old(self).tempo(),
            final(self).clock() == old(self).clock(),
            final(self).reverb_channels() == old(self).reverb_channels(),
    {
        self.interrupted = false;
        let idx = self.pattern_counter;
        self.pattern_counter = self.pattern_counter.wrapping_add(1);
        idx
    }
}

/// The accesses of [`Engine::enable_reverb`].
pub open spec fn enable_reverb_ops(config: ReverbConfig, input_vol: u16, output_vol: u16) -> Seq<HwOp> {
    seq![HwOp::And16 { addr: SPU_CONTROL, bits: 0xFF7F }, w16(SPU_REVERB_BASE as int, config.buffer_start)]
        + clear_ops(config.buffer_start, ((0x1_0000 - config.buffer_start) * 4) as nat)
        + reverb_config_ops(register_order(config))
        + seq![
            w16(REVERB_IN_VOL_LEFT as int, input_vol),
            w16(REVERB_IN_VOL_RIGHT as int, input_vol),
            w16(REVERB_OUT_VOL_LEFT as int, output_vol),
            w16(REVERB_OUT_VOL_RIGHT as int, output_vol),
            HwOp::Or16 { addr: SPU_CONTROL, bits: 0x0080 },
        ]
}

/// A filter register written by [`hw::write_reverb_config`] keeps its value
/// while nothing after it stores to it.
proof fn lemma_config_register(pre: Seq<HwOp>, regs: Seq<u16>, tail: Seq<HwOp>, i: int)
    requires
        regs.len() == 30,
        0 <= i < 30,
        forall|t: int| 0 <= t < tail.len() ==> !stores16_to(#[trigger] tail[t], 0x1F80_1DC0 + 2 * i),
    ensures
        last_store16(pre + reverb_config_ops(regs) + tail, 0x1F80_1DC0 + 2 * i) == Some(regs[i]),
{
    let cfg = reverb_config_ops(regs);
    let ops = pre + cfg + tail;
    let k: int = pre.len() + i;
    assert(ops[k] == cfg[i]);
    assert forall|j: int| k < j < ops.len() implies !stores16_to(#[trigger] ops[j], 0x1F80_1DC0 + 2 * i) by {
        if j < pre.len() + 30 {
            assert(ops[j] == cfg[j - pre.len()]);
        } else {
            assert(ops[j] == tail[j - pre.len() - 30]);
        }
    }
    lemma_last_store16(ops, 0x1F80_1DC0 + 2 * i, k, regs[i]);
}

/// What enabling reverb leaves in the reverb registers, whatever was
/// written before: the work-area register (0x1F801DA2) holds the buffer
/// start, both input volumes (0x1F801DFC/E) hold `input_vol`,
/// both output (wet) volumes (0x1F801D84/6) hold `output_vol`, and each of
/// the 30 filter registers, from 0x1F801DC0 up in steps of 2, holds the
/// field of `config` that the hardware reads there.
pub proof fn lemma_enable_reverb_registers(before: Seq<HwOp>, config: ReverbConfig, input_vol: u16, output_vol: u16)
    ensures
        ({
        let ops = before + enable_reverb_ops(config, input_vol, output_vol);
        &&& last_store16(ops, 0x1F80_1DA2) == Some(config.buffer_start)
        &&& last_store16(ops, 0x1F80_1DFC) == Some(input_vol)
        &&& last_store16(ops, 0x1F80_1DFE) == Some(input_vol)
        &&& last_store16(ops, 0x1F80_1D84) == Some(output_vol)
        &&& last_store16(ops, 0x1F80_1D86) == Some(output_vol)
        &&& last_store16(ops, 0x1F80_1DC0) == Some(config.d_apf1)
        &&& last_store16(ops, 0x1F80_1DC2) == Some(config.d_apf2)
        &&& last_store16(ops, 0x1F80_1DC4) == Some(config.v_iir)
        &&& last_store16(ops, 0x1F80_1DC6) == Some(config.v_comb1)
        &&& last_store16(ops, 0x1F80_1DC8) == Some(config.v_comb2)
        &&& last_store16(ops, 0x1F80_1DCA) == Some(config.v_comb3)
        &&& last_store16(ops, 0x1F80_1DCC) == Some(config.v_comb4)
        &&& last_store16(ops, 0x1F80_1DCE) == Some(config.v_wall)
        &&& last_store16(ops, 0x1F80_1DD0) == Some(config.v_apf1)
        &&& last_store16(ops, 0x1F80_1DD2) == Some(config.v_apf2)
        &&& last_store16(ops, 0x1F80_1DD4) == Some(config.m_l_same)
        &&& last_store16(ops, 0x1F80_1DD6) == Some(config.m_r_same)
        &&& last_store16(ops, 0x1F80_1DD8) == Some(config.m_l_comb1)
        &&& last_store16(ops, 0x1F80_1DDA) == Some(config.m_r_comb1)
        &&& last_store16(ops, 0x1F80_1DDC) == Some(config.m_l_comb2)
        &&& last_store16(ops, 0x1F80_1DDE) == Some(config.m_r_comb2)
        &&& last_store16(ops, 0x1F80_1DE0) == Some(config.d_l_same)
        &&& last_store16(ops, 0x1F80_1DE2) == Some(config.d_r_same)
        &&& last_store16(ops, 0x1F80_1DE4) == Some(config.m_l_diff)
        &&& last_store16(ops, 0x1F80_1DE6) == Some(config.m_r_diff)
        &&& last_store16(ops, 0x1F80_1DE8) == Some(config.m_l_comb3)
        &&& last_store16(ops, 0x1F80_1DEA) == Some(config.m_r_comb3)
        &&& last_store16(ops, 0x1F80_1DEC) == Some(config.m_l_comb4)
        &&& last_store16(ops, 0x1F80_1DEE) == Some(config.m_r_comb4)
        &&& last_store16(ops, 0x1F80_1DF0) == Some(config.d_l_diff)
        &&& last_store16(ops, 0x1F80_1DF2) == Some(config.d_r_diff)
        &&& last_store16(ops, 0x1F80_1DF4) == Some(config.m_l_apf1)
        &&& last_store16(ops, 0x1F80_1DF6) == Some(config.m_r_apf1)
        &&& last_store16(ops, 0x1F80_1DF8) == Some(config.m_l_apf2)
        &&& last_store16(ops, 0x1F80_1DFA) == Some(config.m_r_apf2)
    }),
{
    let head = before + seq![HwOp::And16 { addr: SPU_CONTROL, bits: 0xFF7F }, w16(SPU_REVERB_BASE as int, config.buffer_start)]
        + clear_ops(config.buffer_start, ((0x1_0000 - config.buffer_start) * 4) as nat);
    let regs = register_order(config);
    let tail = seq![
        w16(REVERB_IN_VOL_LEFT as int, input_vol),
        w16(REVERB_IN_VOL_RIGHT as int, input_vol),
        w16(REVERB_OUT_VOL_LEFT as int, output_vol),
        w16(REVERB_OUT_VOL_RIGHT as int, output_vol),
        HwOp::Or16 { addr: SPU_CONTROL, bits: 0x0080 },
    ];
    let ops = before + enable_reverb_ops(config, input_vol, output_vol);
    assert(ops =~= head + reverb_config_ops(regs) + tail);
    assert(ops[before.len() + 1int] == w16(SPU_REVERB_BASE as int, config.buffer_start));
    assert forall|j: int| before.len() + 1 < j < ops.len() implies !stores16_to(#[trigger] ops[j], 0x1F80_1DA2) by {
        let c = clear_ops(config.buffer_start, ((0x1_0000 - config.buffer_start) * 4) as nat);
        let p: int = before.len() + 2int;
        if j < p + c.len() {
            assert(ops[j] == c[j - p]);
        } else if j < p + c.len() + 30 {
            assert(ops[j] == reverb_config_ops(regs)[j - p - c.len()]);
        } else {
            assert(ops[j] == tail[j - p - c.len() - 30]);
        }
    }
    lemma_last_store16(ops, 0x1F80_1DA2, before.len() + 1int, config.buffer_start);
    assert forall|i: int| 0 <= i < 30 implies last_store16(ops, 0x1F80_1DC0 + 2 * i) == Some(#[trigger] regs[i]) by {
        lemma_config_register(head, regs, tail, i);
    }
    let body = head + reverb_config_ops(regs);
    assert(ops =~= body + tail);
    assert forall|t: int| 0 <= t < 4 implies last_store16(ops, #[trigger] addr_of(tail[t])) == Some(value_of(tail[t])) by {
        let k: int = body.len() + t;
        assert(ops[k] == tail[t]);
        assert forall|j: int| k < j < ops.len() implies !stores16_to(#[trigger] ops[j], addr_of(tail[t])) by {
            assert(ops[j] == tail[j - body.len()]);
        }
        lemma_last_store16(ops, addr_of(tail[t]), k, value_of(tail[t]));
    }
    assert(addr_of(tail[0]) == 0x1F80_1DFC && value_of(tail[0]) == input_vol);
    assert(addr_of(tail[1]) == 0x1F80_1DFE && value_of(tail[1]) == input_vol);
    assert(addr_of(tail[2]) == 0x1F80_1D84 && value_of(tail[2]) == output_vol);
    assert(addr_of(tail[3]) == 0x1F80_1D86 && value_of(tail[3]) == output_vol);
    assert(regs[0] == config.d_apf1);
    assert(regs[1] == config.d_apf2);
    assert(regs[2] == config.v_iir);
    assert(regs[3] == config.v_comb1);
    assert(regs[4] == config.v_comb2);
    assert(regs[5] == config.v_comb3);
    assert(regs[6] == config.v_comb4);
    assert(regs[7] == config.v_wall);
    assert(regs[8] == config.v_apf1);
    assert(regs[9] == config.v_apf2);
    assert(regs[10] == config.m_l_same);
    assert(regs[11] == config.m_r_same);
    assert(regs[12] == config.m_l_comb1);
    assert(regs[13] == config.m_r_comb1);
    assert(regs[14] == config.m_l_comb2);
    assert(regs[15] == config.m_r_comb2);
    assert(regs[16] == config.d_l_same);
    assert(regs[17] == config.d_r_same);
    assert(regs[18] == config.m_l_diff);
    assert(regs[19] == config.m_r_diff);
    assert(regs[20] == config.m_l_comb3);
    assert(regs[21] == config.m_r_comb3);
    assert(regs[22] == config.m_l_comb4);
    assert(regs[23] == config.m_r_comb4);
    assert(regs[24] == config.d_l_diff);
    assert(regs[25] == config.d_r_diff);
    assert(regs[26] == config.m_l_apf1);
    assert(regs[27] == config.m_r_apf1);
    assert(regs[28] == config.m_l_apf2);
    assert(regs[29] == config.m_r_apf2);
}

/// A note of a loaded sample that gets a voice programs that voice with
/// the cell's volume, or with the maximum 0x3FFF when the cell gives none:
/// the same on both sides without panning, split by [`pan_volumes`] with
/// it.  The voice also gets the note's pitch, the sample's address, and
/// the cell's envelope or the default one, and its bit is in the key-on
/// mask; the voice the channel had before is in the key-off mask.
pub proof fn lemma_note_programs_voice(
    m: Mix,
    layout: VoiceLayout,
    samples: Seq<Option<SampleRef>>,
    rc: u32,
    ch: int,
    cell: Cell,
)
    requires
        m.ok(),
        layout.wf(),
        0 <= ch < CHANNELS,
        cell.sample is Some,
        cell.pitch is Some,
        (cell.pitch->0).0 != 0,
        ((cell.sample->0).0 as int) < samples.len(),
        samples[(cell.sample->0).0 as int] is Some,
    ensures
        ({
            let r = step_cell(m, layout, samples, rc, ch, cell);
            let vol: u16 = match cell.volume {
                Some(v) => v.0,
                None => 0x3FFF,
            };
            let left: u16 = match cell.pan {
                Some(p) => pan_volumes(clamp_pan(p.0), vol as int).0 as u16,
                None => vol,
            };
            let right: u16 = match cell.pan {
                Some(p) => pan_volumes(clamp_pan(p.0), vol as int).1 as u16,
                None => vol,
            };
            &&& m.channels[ch] matches Some(o) ==> has_voice(r.off, o as int)
            &&& r.channels[ch] matches Some(v) ==> {
                &&& has_voice(r.on, v as int)
                &&& last_store16(r.ops, voice_base(v)) == Some(left)
                &&& last_store16(r.ops, voice_base(v) + 2) == Some(right)
                &&& last_store16(r.ops, voice_base(v) + 4) == Some((cell.pitch->0).0)
                &&& last_store16(r.ops, voice_base(v) + 6) == Some(samples[(cell.sample->0).0 as int]->0.spu_addr)
                &&& last_store32(r.ops, voice_base(v) + 8) == Some(match cell.adsr {
                    Some(a) => a.bits(),
                    None => 0x80FF_8000u32,
                })
            }
        }),
{
    let r0 = release_channel(m, ch);
    if let Some(o) = m.channels[ch] {
        lemma_bit_facts(o as u32);
    }
    lemma_first_free_is_free(layout.music_start as int, layout.music_count as int, r0.music_mask);
    if let Some(n) = first_free(layout.music_start as int, layout.music_count as int, r0.music_mask) {
        let id = (cell.sample->0).0 as int;
        let pr = prepare_ops(
            n as u8,
            samples[id]->0.spu_addr,
            (cell.pitch->0).0,
            cell_sides(cell, cell_volume(cell)).0,
            cell_sides(cell, cell_volume(cell)).1,
            cell_adsr(cell),
        );
        let ops = r0.ops + pr;
        assert(step_cell(m, layout, samples, rc, ch, cell).ops == ops);
        assert forall|t: int| 0 <= t < 5 && t != 3 implies last_store16(ops, #[trigger] addr_of(pr[t]))
            == Some(value_of(pr[t])) by {
            let k: int = r0.ops.len() + t;
            assert(ops[k] == pr[t]);
            assert forall|j: int| k < j < ops.len() implies !stores16_to(#[trigger] ops[j], addr_of(pr[t])) by {
                assert(ops[j] == pr[j - r0.ops.len()]);
            }
            lemma_last_store16(ops, addr_of(pr[t]), k, value_of(pr[t]));
        }
        assert(addr_of(pr[0]) == voice_base(n as u8));
        assert(addr_of(pr[1]) == voice_base(n as u8) + 2);
        assert(addr_of(pr[2]) == voice_base(n as u8) + 6);
        assert(addr_of(pr[4]) == voice_base(n as u8) + 4);
        lemma_bit_facts(n as u32);
        let k5: int = r0.ops.len() + 5int;
        assert(ops[k5] == pr[5]);
        lemma_last_store32(ops, voice_base(n as u8) + 8, k5, cell_adsr(cell));
    }
}

/// A cell without a note that gives a volume sets both volumes of the
/// channel's voice, when the channel has one: to that volume without
/// panning, split by [`pan_volumes`] with it.  No voice is claimed,
/// released, keyed on or keyed off.
pub proof fn lemma_volume_cell_sets_voice(
    m: Mix,
    layout: VoiceLayout,
    samples: Seq<Option<SampleRef>>,
    rc: u32,
    ch: int,
    cell: Cell,
)
    requires
        m.ok(),
        0 <= ch < CHANNELS,
        !(cell.sample is Some && cell.pitch is Some),
        cell.volume is Some,
    ensures
        ({
            let r = step_cell(m, layout, samples, rc, ch, cell);
            let vol = (cell.volume->0).0;
            let left: u16 = match cell.pan {
                Some(p) => pan_volumes(clamp_pan(p.0), vol as int).0 as u16,
                None => vol,
            };
            let right: u16 = match cell.pan {
                Some(p) => pan_volumes(clamp_pan(p.0), vol as int).1 as u16,
                None => vol,
            };
            &&& r.channels == m.channels
            &&& r.on == m.on
            &&& r.off == m.off
            &&& m.channels[ch] is None ==> r.ops == m.ops
            &&& m.channels[ch] matches Some(v) ==> {
                &&& last_store16(r.ops, voice_base(v)) == Some(left)
                &&& last_store16(r.ops, voice_base(v) + 2) == Some(right)
            }
        }),
{
    if let Some(v) = m.channels[ch] {
        let r = step_cell(m, layout, samples, rc, ch, cell);
        let k: int = m.ops.len() as int;
        assert(r.ops[k] == r.ops[k]);
        lemma_last_store16(r.ops, voice_base(v), k, r.ops[k]->Write16_value);
        lemma_last_store16(r.ops, voice_base(v) + 2, k + 1, r.ops[k + 1]->Write16_value);
    }
}

/// The address of a halfword store.
spec fn addr_of(op: HwOp) -> int {
    match op {
        HwOp::Write16 { addr, .. } => addr as int,
        _ => 0,
    }
}

/// The value of a halfword store.
spec fn value_of(op: HwOp) -> u16 {
    match op {
        HwOp::Write16 { value, .. } => value,
        _ => 0,
    }
}

/// The accesses of [`Engine::disable_reverb`].
pub open spec fn disable_reverb_ops() -> Seq<HwOp> {
    seq![
        w16(REVERB_OUT_VOL_LEFT as int, 0),
        w16(REVERB_OUT_VOL_RIGHT as int, 0),
        w32(SPU_REVERB_ON as int, 0),
        HwOp::And16 { addr: SPU_CONTROL, bits: 0xFF7F },
    ]
}

/// Disabling reverb, whatever was written before, leaves both output (wet)
/// volumes at 0 and no voice routed into the reverb unit.
pub proof fn lemma_disable_reverb_silences(before: Seq<HwOp>)
    ensures
        last_store16(before + disable_reverb_ops(), 0x1F80_1D84) == Some(0u16),
        last_store16(before + disable_reverb_ops(), 0x1F80_1D86) == Some(0u16),
        last_store32(before + disable_reverb_ops(), 0x1F80_1D98) == Some(0u32),
{
    let ops = before + disable_reverb_ops();
    let b: int = before.len() as int;
    assert(ops[b] == disable_reverb_ops()[0]);
    assert(ops[b + 1] == disable_reverb_ops()[1]);
    assert(ops[b + 2] == disable_reverb_ops()[2]);
    assert(ops[b + 3] == disable_reverb_ops()[3]);
    lemma_last_store16(ops, 0x1F80_1D84, b, 0);
    lemma_last_store16(ops, 0x1F80_1D86, b + 1, 0);
    lemma_last_store32(ops, 0x1F80_1D98, b + 2, 0);
}

impl Engine {
    /// Everything is as in `other` except possibly the sample bank's limit.
    pub open spec fn same_but_limit(&self, other: &Engine) -> bool {
        &&& self.settled(other.mix(Seq::empty()))
        &&& self.sample_bank().slots() == other.sample_bank().slots()
        &&& self.sample_bank().cursor() == other.sample_bank().cursor()
        &&& self.voice_alloc() == other.voice_alloc()
        &&& self.tempo() == other.tempo()
        &&& self.interrupt_flag() == other.interrupt_flag()
        &&& self.patterns_played() == other.patterns_played()
        &&& self.clock() == other.clock()
    }

    /// Configure and enable the SPU reverb unit.
    ///
    /// Writes the full reverb register set, clears the work area in SPU RAM,
    /// and enables reverb master writes. Use [`set_channel_reverb`](Self::set_channel_reverb)
    /// to select which tracker channels feed into the reverb unit.
    ///
    /// `input_vol` scales audio entering the reverb (0..`0x7FFF`).
    /// `output_vol` scales the wet signal mixed back into the output
    /// (0..`0x7FFF`). Both are applied symmetrically to L and R.
    ///
    /// Later sample loads are kept below the reverb work area.
    pub fn enable_reverb(&mut self, config: &ReverbConfig, input_vol: u16, output_vol: u16, log: &mut Vec<HwOp>)
        requires
            old(self).wf(),
        ensures
            final(self).wf(),
            old(self).routed() ==> final(self).routed(),
            final(self).same_but_limit(old(self)),
            final(self).reverb_channels() == old(self).reverb_channels(),
            final(self).sample_bank().limit() == config.buffer_start,
            final(log)@ == old(log)@ + enable_reverb_ops(*config, input_vol, output_vol),
            // The input volumes end up holding `input_vol`, the output (wet)
            // volumes `output_vol`.
            last_store16(final(log)@, 0x1F80_1DFC) == Some(input_vol),
            last_store16(final(log)@, 0x1F80_1DFE) == Some(input_vol),
            last_store16(final(log)@, 0x1F80_1D84) == Some(output_vol),
            last_store16(final(log)@, 0x1F80_1D86) == Some(output_vol),
    {
        hw::disable_reverb_master(log);

        hw::set_reverb_base(config.buffer_start, log);

        let buffer_halfwords = (0x1_0000u32 - config.buffer_start as u32) * 4;
        hw::clear_spu_ram(config.buffer_start, buffer_halfwords, log);

        let regs = config.as_registers();
        hw::write_reverb_config(&regs, log);
        hw::set_reverb_volume_in(input_vol, input_vol, log);
        hw::set_reverb_volume_out(output_vol, output_vol, log);

        self.samples.set_addr_limit(config.buffer_start);

        hw::enable_reverb_master(log);
        assert(log@ =~= old(log)@ + enable_reverb_ops(*config, input_vol, output_vol));
        proof {
            lemma_enable_reverb_registers(old(log)@, *config, input_vol, output_vol);
        }
    }

    /// Enable or disable reverb for a single tracker channel.
    ///
    /// When enabled, any voice assigned to this channel later will have its
    /// EON (Echo On) bit set automatically; when disabled, the channel's
    /// current voice is taken out of the reverb routing at once.  The
    /// hardware mask is flushed on every row together with key-on/key-off.
    /// Channels past the last are ignored.
    pub fn set_channel_reverb(&mut self, channel: usize, enabled: bool)
        requires
            old(self).wf(),
        ensures
            final(self).wf(),
            old(self).routed() ==> final(self).routed(),
            final(self).channels() == old(self).channels(),
            final(self).voice_alloc() == old(self).voice_alloc(),
            final(self).sample_bank() == old(self).sample_bank(),
            final(self).tempo() == old(self).tempo(),
            final(self).interrupt_flag() == old(self).interrupt_flag(),
            final(self).patterns_played() == old(self).patterns_played(),
            final(self).clock() == old(self).clock(),
            channel >= CHANNELS ==> final(self).reverb_channels() == old(self).reverb_channels()
                && final(self).reverb_voices() == old(self).reverb_voices(),
            channel < CHANNELS && enabled ==> final(self).reverb_channels() == old(self).reverb_channels()
                | bit(channel as int) && final(self).reverb_voices() == old(self).reverb_voices(),
            channel < CHANNELS && !enabled ==> final(self).reverb_channels() == old(self).reverb_channels()
                & !bit(channel as int) && final(self).reverb_voices() == match old(self).channels()[channel as int] {
                    Some(n) => old(self).reverb_voices() & !bit(n as int),
                    None => old(self).reverb_voices(),
                },
    {
        let ghost m0 = self.mix(Seq::empty());
        if channel < CHANNELS {
            let cbit = 1u32 << (channel as u32);
            if enabled {
                self.channel_reverb = self.channel_reverb | cbit;
                proof {
                    if old(self).routed() {
                        assert forall|v: int| #[trigger] has_voice(self.reverb_voice_mask, v) implies exists|c: int|
                            0 <= c < CHANNELS && #[trigger] self.channels()[c] == Some(v as u8)
                                && has_voice(self.channel_reverb, c) by {
                            assert(m0.routed(old(self).channel_reverb));
                            assert(has_voice(m0.reverb_mask, v));
                            let c = choose|c: int| 0 <= c < CHANNELS && #[trigger] m0.channels[c] == Some(v as u8)
                                && has_voice(old(self).channel_reverb, c);
                            assert(self.channels()[c] == Some(v as u8));
                            let oc = old(self).channel_reverb;
                            let cc = c as u32;
                            let ch32 = channel as u32;
                            assert((oc | (1u32 << ch32)) & (1u32 << cc) != 0) by (bit_vector)
                                requires oc & (1u32 << cc) != 0, cc < 32;
                        }
                    }
                }
            } else {
                self.channel_reverb = self.channel_reverb & !cbit;
                match self.channel_voices[channel] {
                    Some(voice) => {
                        assert(self.channels()[channel as int] == Some(voice.num()));
                        self.reverb_voice_mask = self.reverb_voice_mask & !(1u32 << (voice.id() as u32));
                    },
                    None => {},
                }
                proof {
                    if old(self).routed() {
                        assert forall|v: int| #[trigger] has_voice(self.reverb_voice_mask, v) implies exists|c: int|
                            0 <= c < CHANNELS && #[trigger] self.channels()[c] == Some(v as u8)
                                && has_voice(self.channel_reverb, c) by {
                            assert(m0.routed(old(self).channel_reverb));
                            let rm = old(self).reverb_voice_mask;
                            let vv = v as u32;
                            if let Some(n) = m0.channels[channel as int] {
                                let nn = n as u32;
                                assert(vv != nn) by {
                                    if vv == nn {
                                        assert((rm & !(1u32 << nn)) & (1u32 << nn) == 0) by (bit_vector);
                                    }
                                };
                                lemma_other_bits(rm, nn, vv);
                            }
                            assert(has_voice(rm, v));
                            assert(has_voice(m0.reverb_mask, v));
                            let c = choose|c: int| 0 <= c < CHANNELS && #[trigger] m0.channels[c] == Some(v as u8)
                                && has_voice(old(self).channel_reverb, c);
                            assert(c != channel as int) by {
                                if c == channel as int {
                                    assert(m0.channels[channel as int] == Some(v as u8));
                                    let nn = v as u32;
                                    assert((rm & !(1u32 << nn)) & (1u32 << nn) == 0) by (bit_vector);
                                }
                            }
                            lemma_other_bits(old(self).channel_reverb, channel as u32, c as u32);
                            assert(self.channels()[c] == Some(v as u8));
                            assert(has_voice(self.channel_reverb, c));
                        }
                    }
                }
            }
        }
    }

    /// Adjust the reverb input volume (L, R).
    pub fn set_reverb_input_volume(&self, left: u16, right: u16, log: &mut Vec<HwOp>)
        ensures
            final(log)@ == old(log)@ + seq![
                w16(REVERB_IN_VOL_LEFT as int, left),
                w16(REVERB_IN_VOL_RIGHT as int, right),
            ],
    {
        hw::set_reverb_volume_in(left, right, log);
    }

    /// Adjust the reverb output (wet) volume (L, R).
    pub fn set_reverb_output_volume(&self, left: u16, right: u16, log: &mut Vec<HwOp>)
        ensures
            final(log)@ == old(log)@ + seq![
                w16(REVERB_OUT_VOL_LEFT as int, left),
                w16(REVERB_OUT_VOL_RIGHT as int, right),
            ],
    {
        hw::set_reverb_volume_out(left, right, log);
    }

    /// Fully disable the reverb unit: mute output, clear voice mask,
    /// stop reverb RAM writes, and lift the sample address limit.
    pub fn disable_reverb(&mut self, log: &mut Vec<HwOp>)
        requires
            old(self).wf(),
        ensures
            final(self).wf(),
            final(self).routed(),
            final(self).channels() == old(self).channels(),
            final(self).voice_alloc() == old(self).voice_alloc(),
            final(self).sample_bank().slots() == old(self).sample_bank().slots(),
            final(self).sample_bank().cursor() == old(self).sample_bank().cursor(),
            final(self).sample_bank().limit() == u16::MAX,
            final(self).tempo() == old(self).tempo(),
            final(self).interrupt_flag() == old(self).interrupt_flag(),
            final(self).patterns_played() == old(self).patterns_played(),
            final(self).clock() == old(self).clock(),
            final(self).reverb_channels() == 0,
            final(self).reverb_voices() == 0,
            final(log)@ == old(log)@ + disable_reverb_ops(),
    {
        hw::set_reverb_volume_out(0, 0, log);
        self.channel_reverb = 0;
        self.reverb_voice_mask = 0;
        hw::set_reverb_on_mask(0, log);
        hw::disable_reverb_master(log);
        self.samples.set_addr_limit(u16::MAX);
        proof {
            assert(0u32 & 0x00FF_FFFFu32 == 0) by (bit_vector);
            assert forall|v: int| #[trigger] has_voice(self.reverb_voice_mask, v) implies false by {
                assert(0u32 & (1u32 << (v as u32)) == 0) by (bit_vector);
            }
        }
        assert(log@ =~= old(log)@ + disable_reverb_ops());
    }

    /// Play a one-shot sample on the SFX pool.
    ///
    /// If the sample is not loaded or no SFX voice is free the call is
    /// silently dropped.  Otherwise the first free SFX voice is prepared,
    /// keyed on, and returned to the pool right away.
    pub fn play_sfx(&mut self, sample: SampleId, pitch: Pitch, log: &mut Vec<HwOp>)
        requires
            old(self).wf(),
        ensures
            final(self).wf(),
            old(self).routed() ==> final(self).routed(),
            final(self).same_settings(old(self)),
            final(self).settled(old(self).mix(Seq::empty())),
            final(self).voice_alloc() == old(self).voice_alloc(),
            ({
                let layout = old(self).voice_alloc().layout();
                let slots = old(self).sample_bank().slots();
                let id = sample.0 as int;
                if id < SAMPLE_SLOTS && slots[id] is Some {
                    match first_free(layout.sfx_start as int, layout.sfx_count as int, old(self).voice_alloc().sfx_mask()) {
                        Some(n) => final(log)@ == old(log)@ + prepare_ops(n as u8, slots[id]->0.spu_addr, pitch.0, Volume::MAX, Volume::MAX, DEFAULT_ADSR)
                            + seq![w32(SPU_KEY_ON as int, bit(n)), w32(SPU_KEY_OFF as int, bit(n))],
                        None => final(log)@ == old(log)@,
                    }
                } else {
                    final(log)@ == old(log)@
                }
            }),
    {
        proof {
            self.samples.lemma_slots_len();
        }
        let sample_ref = match self.samples.get(sample) {
            Some(s) => *s,
            None => return,
        };
        let ghost layout = self.voices.layout();
        let ghost sfx0 = self.voices.sfx_mask();
        let ghost alloc0 = self.voices;
        let voice = match self.voices.claim_sfx() {
            Some(v) => v,
            None => {
                proof {
                    self.voices.lemma_view_eq(alloc0);
                }
                return;
            },
        };
        proof {
            lemma_first_free_is_free(layout.sfx_start as int, layout.sfx_count as int, sfx0);
        }
        voice.trigger(sample_ref.spu_addr, pitch.0, Volume::MAX, DEFAULT_ADSR, log);
        self.voices.release_sfx(&voice, log);
        proof {
            let nn = voice.num() as u32;
            assert((sfx0 | (1u32 << nn)) & !(1u32 << nn) == sfx0) by (bit_vector)
                requires sfx0 & (1u32 << nn) == 0;
            assert(log@ =~= old(log)@ + prepare_ops(voice.num(), sample_ref.spu_addr, pitch.0, Volume::MAX, Volume::MAX, DEFAULT_ADSR)
                + seq![w32(SPU_KEY_ON as int, bit(voice.num() as int)), w32(SPU_KEY_OFF as int, bit(voice.num() as int))]);
            assert(self.voices.layout() == alloc0.layout());
            assert(self.voices.music_mask() == alloc0.music_mask());
            assert(self.voices.sfx_mask() == alloc0.sfx_mask());
        }
        proof {
            self.voices.lemma_view_eq(alloc0);
        }
    }
}

/// HBlank ticks elapsed from reading `last` to reading `now` on the
/// 16-bit wrapping counter.
pub open spec fn ticks_between(last: u16, now: u16) -> int {
    (now - last + 0x1_0000) % 0x1_0000
}

impl Engine {
    /// Everything but the clock is as in `other`.
    pub open spec fn same_but_clock(&self, other: &Engine) -> bool {
        &&& self.settled(other.mix(Seq::empty()))
        &&& self.sample_bank() == other.sample_bank()
        &&& self.voice_alloc() == other.voice_alloc()
        &&& self.tempo() == other.tempo()
        &&& self.interrupt_flag() == other.interrupt_flag()
        &&& self.patterns_played() == other.patterns_played()
        &&& self.reverb_channels() == other.reverb_channels()
    }

    /// Compute how many HBlank ticks one row should last at the current BPM.
    ///
    /// Formula: `HBLANK_RATE * 60 / (bpm * ROWS_PER_BEAT)`
    ///
    /// At 120 BPM: 15700 * 60 / 480 = 1962 hblanks ≈ 125 ms per row.
    pub fn hblanks_per_row(&self) -> (r: u32)
        requires
            self.tempo() > 0,
        ensures
            r == row_ticks(self.tempo()),
    {
        HBLANK_RATE * 60 / (self.bpm as u32 * ROWS_PER_BEAT)
    }

    /// Account for the time elapsed since the last counter reading: take
    /// the ticks from the previous reading to `now` off `remaining`
    /// (stopping at 0) and remember `now`.
    pub fn advance_clock(&mut self, now: u16, remaining: u32) -> (left: u32)
        requires
            old(self).wf(),
        ensures
            final(self).wf(),
            old(self).routed() ==> final(self).routed(),
            final(self).same_but_clock(old(self)),
            final(self).clock() == now,
            left == if remaining >= ticks_between(old(self).clock(), now) {
                remaining - ticks_between(old(self).clock(), now)
            } else {
                0
            },
    {
        let delta = now.wrapping_sub(self.last_hblank) as u32;
        self.last_hblank = now;
        remaining.saturating_sub(delta)
    }

    /// Whether a row wait is over: interrupted, or the row time has run out.
    pub fn wait_outcome(&self, remaining: u32) -> (r: Option<WaitResult>)
        ensures
            r == if self.interrupt_flag() {
                Some(WaitResult::Interrupted)
            } else if remaining == 0 {
                Some(WaitResult::Complete)
            } else {
                None::<WaitResult>
            },
    {
        if self.interrupted {
            Some(WaitResult::Interrupted)
        } else if remaining == 0 {
            Some(WaitResult::Complete)
        } else {
            None
        }
    }

    /// Handle one command from the bus.
    ///
    /// * `PlaySfx` plays a one-shot sample on the SFX pool;
    /// * `Interrupt` sets the interrupt flag;
    /// * `SetBpm` changes the tempo;
    /// * `StopAll` keys off every voice, silences all channels, clears the
    ///   reverb routing and sets the interrupt flag.
    pub fn process_command(&mut self, cmd: Command, log: &mut Vec<HwOp>)
        requires
            old(self).wf(),
        ensures
            command_step(*old(self), cmd, *final(self), old(log)@, final(log)@),
    {
        match cmd {
            Command::PlaySfx(sample, pitch) => {
                self.play_sfx(sample, pitch, log);
            },
            Command::Interrupt => {
                self.interrupted = true;
            },
            Command::SetBpm(bpm) => {
                self.bpm = bpm;
            },
            Command::StopAll => {
                self.voices.release_all(log);
                let mut channel_voices: Vec<Option<VoiceHw>> = Vec::new();
                let mut c: usize = 0;
                while c < CHANNELS
                    invariant
                        c <= CHANNELS,
                        channel_voices@ == Seq::new(c as nat, |k: int| None::<VoiceHw>),
                    decreases CHANNELS - c,
                {
                    channel_voices.push(None);
                    proof {
                        assert(channel_voices@ =~= Seq::new((c + 1) as nat, |k: int| None::<VoiceHw>));
                    }
                    c = c + 1;
                }
                self.channel_voices = channel_voices;
                self.reverb_voice_mask = 0;
                hw::set_reverb_on_mask(0, log);
                self.interrupted = true;
                proof {
                    assert(0u32 & 0x00FF_FFFFu32 == 0) by (bit_vector);
                    assert(self.channels() =~= Seq::new(CHANNELS as nat, |k: int| None::<u8>));
                    assert forall|v: int| #[trigger] has_voice(self.reverb_voice_mask, v) implies false by {
                        assert(0u32 & (1u32 << (v as u32)) == 0) by (bit_vector);
                    }
                }
            },
        }
    }

    /// Handle every command waiting on `bus`, oldest first, leaving the
    /// bus empty.
    pub fn process_commands<const CAP: usize>(&mut self, bus: &mut CommandBus<CAP>, log: &mut Vec<HwOp>)
        requires
            old(self).wf(),
            old(bus).wf(),
        ensures
            final(self).wf(),
            final(bus).wf(),
            final(bus).queue() == Seq::<Command>::empty(),
            commands_run(*old(self), old(bus).queue(), *final(self), old(log)@, final(log)@),
    {
        let ghost e0 = *self;
        let ghost l0 = log@;
        let ghost q0 = bus.queue();
        let ghost mut k: int = 0;
        loop
            invariant
                self.wf(),
                bus.wf(),
                0 <= k <= q0.len(),
                q0 == old(bus).queue(),
                e0 == *old(self),
                l0 == old(log)@,
                bus.queue() == q0.skip(k),
                commands_run(e0, q0.take(k), *self, l0, log@),
            ensures
                self.wf(),
                bus.wf(),
                bus.queue() == Seq::<Command>::empty(),
                commands_run(e0, q0, *self, l0, log@),
            decreases q0.len() - k,
        {
            let next = bus.poll();
            match next {
                Some(cmd) => {
                    let ghost em = *self;
                    let ghost lm = log@;
                    self.process_command(cmd, log);
                    proof {
                        assert(q0.take(k + 1).drop_last() =~= q0.take(k));
                        assert(q0.take(k + 1).last() == cmd);
                        assert(command_step(em, q0.take(k + 1).last(), *self, lm, log@));
                        k = k + 1;
                        assert(bus.queue() =~= q0.skip(k));
                    }
                },
                None => {
                    proof {
                        assert(q0.take(k) =~= q0);
                    }
                    break;
                },
            }
        }
    }

    /// Clear the interrupt flag.  Call after handling an interruption
    /// at the top-level coroutine before starting new playback.
    pub fn clear_interrupt(&mut self)
        requires
            old(self).wf(),
        ensures
            final(self).wf(),
            old(self).routed() ==> final(self).routed(),
            !final(self).interrupt_flag(),
            final(self).settled(old(self).mix(Seq::empty())),
            final(self).sample_bank() == old(self).sample_bank(),
            final(self).voice_alloc() == old(self).voice_alloc(),
            final(self).tempo() == old(self).tempo(),
            final(self).patterns_played() == old(self).patterns_played(),
            final(self).clock() == old(self).clock(),
            final(self).reverb_channels() == old(self).reverb_channels(),
    {
        self.interrupted = false;
    }

    pub fn is_interrupted(&self) -> (r: bool)
        ensures
            r == self.interrupt_flag(),
    {
        self.interrupted
    }

    /// The current tempo in beats per minute.
    pub fn bpm(&self) -> (r: u16)
        ensures
            r == self.tempo(),
    {
        self.bpm
    }

    /// Set the BPM (beats per minute, where 1 beat = 4 rows).
    pub fn set_bpm(&mut self, bpm: u16)
        requires
            old(self).wf(),
        ensures
            final(self).wf(),
            old(self).routed() ==> final(self).routed(),
            final(self).tempo() == bpm,
            final(self).settled(old(self).mix(Seq::empty())),
            final(self).sample_bank() == old(self).sample_bank(),
            final(self).voice_alloc() == old(self).voice_alloc(),
            final(self).interrupt_flag() == old(self).interrupt_flag(),
            final(self).patterns_played() == old(self).patterns_played(),
            final(self).clock() == old(self).clock(),
            final(self).reverb_channels() == old(self).reverb_channels(),
    {
        self.bpm = bpm;
    }
}

} // verus!
