//! Notes, envelopes, cells, patterns and songs.

use crate::spu::sample::SampleId;
use crate::spu2::voice::VoiceLayout;
use vstd::prelude::*;

verus! {

/// SPU pitch register value.
///
/// The PS1 SPU pitch register maps `0x1000` to 44100 Hz playback rate.
/// The note values are tuned to A4 = 440 Hz with equal temperament,
/// pre-computed as `round(freq / 44100 * 4096)`.
#[derive(Clone, Copy, PartialEq, Eq, Structural, Debug)]
pub struct Pitch(pub u16);

impl Pitch {
    pub const REST: u16 = 0;

    // Octave 2
    pub const C2: u16 = 0x0060; // 65.41 Hz
    pub const CS2: u16 = 0x0066; // 69.30 Hz
    pub const D2: u16 = 0x006C; // 73.42 Hz
    pub const DS2: u16 = 0x0073; // 77.78 Hz
    pub const E2: u16 = 0x007A; // 82.41 Hz
    pub const F2: u16 = 0x0081; // 87.31 Hz
    pub const FS2: u16 = 0x0089; // 92.50 Hz
    pub const G2: u16 = 0x0091; // 98.00 Hz
    pub const GS2: u16 = 0x009A; // 103.83 Hz
    pub const A2: u16 = 0x00A3; // 110.00 Hz
    pub const AS2: u16 = 0x00AD; // 116.54 Hz
    pub const B2: u16 = 0x00B7; // 123.47 Hz

    // Octave 3
    pub const C3: u16 = 0x00C1; // 130.81 Hz
    pub const CS3: u16 = 0x00CD; // 138.59 Hz
    pub const D3: u16 = 0x00D9; // 146.83 Hz
    pub const DS3: u16 = 0x00E6; // 155.56 Hz
    pub const E3: u16 = 0x00F4; // 164.81 Hz
    pub const F3: u16 = 0x0103; // 174.61 Hz
    pub const FS3: u16 = 0x0112; // 185.00 Hz
    pub const G3: u16 = 0x0122; // 196.00 Hz
    pub const GS3: u16 = 0x0134; // 207.65 Hz
    pub const A3: u16 = 0x0146; // 220.00 Hz
    pub const AS3: u16 = 0x015A; // 233.08 Hz
    pub const B3: u16 = 0x016F; // 246.94 Hz

    // Octave 4 (middle octave, A4 = 440 Hz)
    pub const C4: u16 = 0x0183; // 261.63 Hz
    pub const CS4: u16 = 0x019A; // 277.18 Hz
    pub const D4: u16 = 0x01B2; // 293.66 Hz
    pub const DS4: u16 = 0x01CC; // 311.13 Hz
    pub const E4: u16 = 0x01E8; // 329.63 Hz
    pub const F4: u16 = 0x0206; // 349.23 Hz
    pub const FS4: u16 = 0x0225; // 369.99 Hz
    pub const G4: u16 = 0x0247; // 392.00 Hz
    pub const GS4: u16 = 0x026B; // 415.30 Hz
    pub const A4: u16 = 0x028D; // 440.00 Hz
    pub const AS4: u16 = 0x02B4; // 466.16 Hz
    pub const B4: u16 = 0x02DE; // 493.88 Hz

    // Octave 5
    pub const C5: u16 = 0x0306; // 523.25 Hz
    pub const CS5: u16 = 0x0334; // 554.37 Hz
    pub const D5: u16 = 0x0364; // 587.33 Hz
    pub const DS5: u16 = 0x0399; // 622.25 Hz
    pub const E5: u16 = 0x03D1; // 659.26 Hz
    pub const F5: u16 = 0x040C; // 698.46 Hz
    pub const FS5: u16 = 0x044A; // 739.99 Hz
    pub const G5: u16 = 0x048D; // 783.99 Hz
    pub const GS5: u16 = 0x04D5; // 830.61 Hz
    pub const A5: u16 = 0x051B; // 880.00 Hz
    pub const AS5: u16 = 0x0568; // 932.33 Hz
    pub const B5: u16 = 0x05BB; // 987.77 Hz

    // Octave 6
    pub const C6: u16 = 0x060C; // 1046.50 Hz
    pub const CS6: u16 = 0x0668; // 1108.73 Hz
    pub const D6: u16 = 0x06C9; // 1174.66 Hz
    pub const DS6: u16 = 0x0732; // 1244.51 Hz
    pub const E6: u16 = 0x07A2; // 1318.51 Hz
    pub const F6: u16 = 0x0818; // 1396.91 Hz
    pub const FS6: u16 = 0x0894; // 1479.98 Hz
    pub const G6: u16 = 0x091B; // 1567.98 Hz
    pub const GS6: u16 = 0x09AB; // 1661.22 Hz
    pub const A6: u16 = 0x0A36; // 1760.00 Hz
    pub const AS6: u16 = 0x0AD0; // 1864.66 Hz
    pub const B6: u16 = 0x0B76; // 1975.53 Hz

    // Octave 7
    pub const C7: u16 = 0x0C19; // 2093.00 Hz
    pub const CS7: u16 = 0x0CD0; // 2217.46 Hz
    pub const D7: u16 = 0x0D92; // 2349.32 Hz
    pub const DS7: u16 = 0x0E64; // 2489.02 Hz
    pub const E7: u16 = 0x0F44; // 2637.02 Hz
    pub const F7: u16 = 0x1030; // 2793.83 Hz
    pub const FS7: u16 = 0x1128; // 2959.96 Hz
    pub const G7: u16 = 0x1236; // 3135.96 Hz
    pub const GS7: u16 = 0x1356; // 3322.44 Hz
    pub const A7: u16 = 0x146C; // 3520.00 Hz
    pub const AS7: u16 = 0x15A0; // 3729.31 Hz
    pub const B7: u16 = 0x16EC; // 3951.07 Hz
}

/// Volume level for the SPU (0..0x3FFF).
#[derive(Clone, Copy, PartialEq, Eq, Structural, Debug)]
pub struct Volume(pub u16);

impl Volume {
    pub const MAX: u16 = 0x3FFF;
    pub const HALF: u16 = 0x1FFF;
    pub const QUARTER: u16 = 0x0FFF;
    pub const OFF: u16 = 0;
}

/// Stereo panning position.
///
/// `0` = centre, negative = left, positive = right.
/// The full range is `−64` (hard left) to `+64` (hard right).
#[derive(Clone, Copy, PartialEq, Eq, Structural, Debug)]
pub struct Pan(pub i8);

/// The (left, right) volume pair that `pan` derives from `vol`: the side
/// away from the pan position is scaled by `(64 - |pan|) / 64`.
pub open spec fn pan_volumes(pan: int, vol: int) -> (int, int) {
    if pan <= 0 {
        (vol, vol * (64 + pan) / 64)
    } else {
        (vol * (64 - pan) / 64, vol)
    }
}

/// Panning keeps the side it leans to at the full volume and never raises
/// the other side above it: at or left of centre the left side plays
/// `vol`, at or right of centre the right side does, and at the edge
/// (−64 or +64) the far side is silent.
pub proof fn lemma_pan_sides(pan: int, vol: int)
    requires
        -64 <= pan <= 64,
        0 <= vol,
    ensures
        pan <= 0 ==> pan_volumes(pan, vol).0 == vol,
        pan >= 0 ==> pan_volumes(pan, vol).1 == vol,
        0 <= pan_volumes(pan, vol).0 <= vol,
        0 <= pan_volumes(pan, vol).1 <= vol,
        pan == -64 ==> pan_volumes(pan, vol).1 == 0,
        pan == 64 ==> pan_volumes(pan, vol).0 == 0,
{
    if pan <= 0 {
        assert(0 <= vol * (64 + pan) / 64 <= vol) by (nonlinear_arith)
            requires -64 <= pan <= 0, 0 <= vol;
        if pan == 0 {
            assert(vol * 64 / 64 == vol) by (nonlinear_arith);
        }
        if pan == -64 {
            assert(vol * (64 + pan) == 0) by (nonlinear_arith)
                requires pan == -64;
        }
    } else {
        assert(0 <= vol * (64 - pan) / 64 <= vol) by (nonlinear_arith)
            requires 0 < pan <= 64, 0 <= vol;
        if pan == 64 {
            assert(vol * (64 - pan) == 0) by (nonlinear_arith)
                requires pan == 64;
        }
    }
}

impl Pan {
    pub const CENTER: i8 = 0;
    pub const LEFT: i8 = -64;
    pub const RIGHT: i8 = 64;

    /// Derive (left, right) volume pair from a base volume.
    pub fn apply(self, vol: u16) -> (r: (u16, u16))
        requires
            vol == 0 || -64 <= self.0 <= 64,
        ensures
            r.0 == pan_volumes(self.0 as int, vol as int).0,
            r.1 == pan_volumes(self.0 as int, vol as int).1,
    {
        let p = self.0 as i16;
        if p <= 0 {
            // left-biased: right side attenuated
            if vol == 0 {
                return (0, 0);
            }
            assert(0 <= (vol as int) * (64 + p) <= 0xFFFF * 64) by (nonlinear_arith)
                requires 0 <= vol <= 0xFFFF, -64 <= p <= 0;
            let r = vol as u32 * (64 + p) as u32 / 64;
            assert((vol as int) * (64 + p) / 64 <= 0xFFFF) by (nonlinear_arith)
                requires 0 <= vol <= 0xFFFF, -64 <= p <= 0;
            (vol, r as u16)
        } else {
            // right-biased: left side attenuated
            if vol == 0 {
                return (0, 0);
            }
            assert(0 <= (vol as int) * (64 - p) <= 0xFFFF * 64) by (nonlinear_arith)
                requires 0 <= vol <= 0xFFFF, 0 < p <= 64;
            let l = vol as u32 * (64 - p) as u32 / 64;
            assert((vol as int) * (64 - p) / 64 <= 0xFFFF) by (nonlinear_arith)
                requires 0 <= vol <= 0xFFFF, 0 < p <= 64;
            (l as u16, vol)
        }
    }
}

/// Extensible effect slot.
///
/// Starts with only `NoEffect`; future variants (portamento, vibrato, etc.)
/// can be added without breaking existing patterns.
#[derive(Clone, Copy, PartialEq, Eq, Structural, Debug)]
pub enum Effect {
    NoEffect,
}

// ---------------------------------------------------------------------------
// ADSR envelope
//
// SPU register format (32-bit, two halfwords at voice base + 0x08):
//
//   Lower halfword: [Am:1][Ash:5][As:2][Dsh:4][Sl:4]
//   Upper halfword: [_:1][Sm:1][Sd:1][Ssh:5][Ss:2][Rm:1][Rsh:5]
//
// Packed u32 bit positions:
//    0- 3  Sustain Level          4- 7  Decay Shift
//    8- 9  Attack Step           10-14  Attack Shift
//   15     Attack Mode           16-20  Release Shift
//   21     Release Mode          22-23  Sustain Step
//   24-28  Sustain Shift         29     Sustain Direction
//   30     Sustain Mode
// ---------------------------------------------------------------------------

/// Envelope curve shape.
#[derive(Clone, Copy, PartialEq, Eq, Structural, Debug)]
pub enum AdsrMode {
    Lin,
    Exp,
}

/// Sustain slope direction.
#[derive(Clone, Copy, PartialEq, Eq, Structural, Debug)]
pub enum AdsrDir {
    Increase,
    Decrease,
}

/// The register bit of an envelope curve shape.
pub open spec fn mode_bit(mode: AdsrMode) -> u32 {
    match mode {
        AdsrMode::Lin => 0,
        AdsrMode::Exp => 1,
    }
}

/// The register bit of a sustain direction.
pub open spec fn dir_bit(dir: AdsrDir) -> u32 {
    match dir {
        AdsrDir::Increase => 0,
        AdsrDir::Decrease => 1,
    }
}

fn mode_value(mode: AdsrMode) -> (b: u32)
    ensures
        b == mode_bit(mode),
{
    match mode {
        AdsrMode::Lin => 0,
        AdsrMode::Exp => 1,
    }
}

fn dir_value(dir: AdsrDir) -> (b: u32)
    ensures
        b == dir_bit(dir),
{
    match dir {
        AdsrDir::Increase => 0,
        AdsrDir::Decrease => 1,
    }
}

pub open spec fn sustain_level_of(raw: u32) -> u32 { raw & 0x0F }
pub open spec fn decay_shift_of(raw: u32) -> u32 { (raw >> 4) & 0x0F }
pub open spec fn attack_step_of(raw: u32) -> u32 { (raw >> 8) & 0x03 }
pub open spec fn attack_shift_of(raw: u32) -> u32 { (raw >> 10) & 0x1F }
pub open spec fn attack_mode_of(raw: u32) -> u32 { (raw >> 15) & 1 }
pub open spec fn release_shift_of(raw: u32) -> u32 { (raw >> 16) & 0x1F }
pub open spec fn release_mode_of(raw: u32) -> u32 { (raw >> 21) & 1 }
pub open spec fn sustain_step_of(raw: u32) -> u32 { (raw >> 22) & 0x03 }
pub open spec fn sustain_shift_of(raw: u32) -> u32 { (raw >> 24) & 0x1F }
pub open spec fn sustain_dir_of(raw: u32) -> u32 { (raw >> 29) & 1 }
pub open spec fn sustain_mode_of(raw: u32) -> u32 { (raw >> 30) & 1 }

/// ADSR envelope packed into the PS1 SPU register format.
///
/// Construct with a builder chain:
///
/// ```ignore
/// let bell = Adsr::new()
///     .decay(0x0A)
///     .sustain_level(0x0A)
///     .sustain(Exp, Decrease, 0x0F)
///     .release(Exp, 0x08);
/// ```
///
/// Omitted phases default to zero (instant / off).
#[derive(Clone, Copy, PartialEq, Eq, Structural, Debug)]
pub struct Adsr(u32);

impl Adsr {
    /// The default envelope used by the engine.
    pub const DEFAULT: u32 = 0x80FF_8000;

    /// The packed register value.
    pub closed spec fn bits(self) -> u32 {
        self.0
    }

    /// All zeros: instant attack, no decay, sustain level 0, instant release.
    pub fn new() -> (a: Adsr)
        ensures
            a.bits() == 0,
    {
        Adsr(0)
    }

    pub fn from_raw(raw: u32) -> (a: Adsr)
        ensures
            a.bits() == raw,
    {
        Adsr(raw)
    }

    pub fn raw(self) -> (r: u32)
        ensures
            r == self.bits(),
    {
        self.0
    }

    /// Set attack curve and speed.
    ///
    /// `shift`: 0-31 — higher is slower.
    pub fn attack(self, mode: AdsrMode, shift: u8) -> (a: Adsr)
        ensures
            attack_mode_of(a.bits()) == mode_bit(mode),
            attack_shift_of(a.bits()) == shift & 0x1F,
            attack_step_of(a.bits()) == 0,
            a.bits() & !0xFF00u32 == self.bits() & !0xFF00u32,
    {
        assert(0u8 & 0x03u8 == 0) by (bit_vector);
        self.attack_step(mode, shift, 0)
    }

    /// Set attack with fine-grained step (0-3, rarely needed).
    pub fn attack_step(self, mode: AdsrMode, shift: u8, step: u8) -> (a: Adsr)
        ensures
            attack_mode_of(a.bits()) == mode_bit(mode),
            attack_shift_of(a.bits()) == shift & 0x1F,
            attack_step_of(a.bits()) == step & 0x03,
            a.bits() & !0xFF00u32 == self.bits() & !0xFF00u32,
    {
        let raw = self.0;
        let cleared = raw & !0xFF00u32;
        let m = mode_value(mode);
        let am = m << 15;
        let ash = ((shift as u32) & 0x1F) << 10;
        let a_s = ((step as u32) & 0x03) << 8;
        let r = cleared | am | ash | a_s;
        let sh = shift as u32;
        let st = step as u32;
        assert({
            &&& (r >> 15) & 1 == m
            &&& (r >> 10) & 0x1F == sh & 0x1F
            &&& (r >> 8) & 0x03 == st & 0x03
            &&& r & !0xFF00u32 == raw & !0xFF00u32
        }) by (bit_vector)
            requires
                m <= 1,
                sh < 256,
                st < 256,
                cleared == raw & !0xFF00u32,
                r == cleared | (m << 15) | ((sh & 0x1F) << 10) | ((st & 0x03) << 8);
        Adsr(r)
    }

    /// Set decay speed (always exponential decrease toward sustain level).
    ///
    /// `shift`: 0-15 — higher is slower.
    pub fn decay(self, shift: u8) -> (a: Adsr)
        ensures
            decay_shift_of(a.bits()) == shift & 0x0F,
            a.bits() & !0x00F0u32 == self.bits() & !0x00F0u32,
    {
        let raw = self.0;
        let cleared = raw & !0x00F0u32;
        let sh = shift as u32;
        let r = cleared | ((sh & 0x0F) << 4);
        assert({
            &&& (r >> 4) & 0x0F == sh & 0x0F
            &&& r & !0x00F0u32 == raw & !0x00F0u32
        }) by (bit_vector)
            requires
                cleared == raw & !0x00F0u32,
                r == cleared | ((sh & 0x0F) << 4);
        Adsr(r)
    }

    /// Set the sustain level the decay phase targets.
    ///
    /// `level`: 0-15 (0 ≈ 6%, 7 ≈ 50%, 10 ≈ 69%, 15 = 100%).
    pub fn sustain_level(self, level: u8) -> (a: Adsr)
        ensures
            sustain_level_of(a.bits()) == level & 0x0F,
            a.bits() & !0x000Fu32 == self.bits() & !0x000Fu32,
    {
        let raw = self.0;
        let cleared = raw & !0x000Fu32;
        let lv = level as u32;
        let r = cleared | (lv & 0x0F);
        assert({
            &&& r & 0x0F == lv & 0x0F
            &&& r & !0x000Fu32 == raw & !0x000Fu32
        }) by (bit_vector)
            requires
                cleared == raw & !0x000Fu32,
                r == cleared | (lv & 0x0F);
        Adsr(r)
    }

    /// Set the sustain phase curve, direction, and speed.
    ///
    /// `shift`: 0-31 — higher is slower.
    pub fn sustain(self, mode: AdsrMode, dir: AdsrDir, shift: u8) -> (a: Adsr)
        ensures
            sustain_mode_of(a.bits()) == mode_bit(mode),
            sustain_dir_of(a.bits()) == dir_bit(dir),
            sustain_shift_of(a.bits()) == shift & 0x1F,
            sustain_step_of(a.bits()) == 0,
            a.bits() & !0x7FC0_0000u32 == self.bits() & !0x7FC0_0000u32,
    {
        assert(0u8 & 0x03u8 == 0) by (bit_vector);
        self.sustain_step(mode, dir, shift, 0)
    }

    /// Set sustain with fine-grained step (0-3, rarely needed).
    pub fn sustain_step(self, mode: AdsrMode, dir: AdsrDir, shift: u8, step: u8) -> (a: Adsr)
        ensures
            sustain_mode_of(a.bits()) == mode_bit(mode),
            sustain_dir_of(a.bits()) == dir_bit(dir),
            sustain_shift_of(a.bits()) == shift & 0x1F,
            sustain_step_of(a.bits()) == step & 0x03,
            a.bits() & !0x7FC0_0000u32 == self.bits() & !0x7FC0_0000u32,
    {
        let raw = self.0;
        let cleared = raw & !0x7FC0_0000u32;
        let m = mode_value(mode);
        let d = dir_value(dir);
        let sh = shift as u32;
        let st = step as u32;
        let sm = (m & 1) << 30;
        let sd = (d & 1) << 29;
        let ssh = (sh & 0x1F) << 24;
        let ss = (st & 0x03) << 22;
        let r = cleared | sm | sd | ssh | ss;
        assert({
            &&& (r >> 30) & 1 == m
            &&& (r >> 29) & 1 == d
            &&& (r >> 24) & 0x1F == sh & 0x1F
            &&& (r >> 22) & 0x03 == st & 0x03
            &&& r & !0x7FC0_0000u32 == raw & !0x7FC0_0000u32
        }) by (bit_vector)
            requires
                m <= 1,
                d <= 1,
                cleared == raw & !0x7FC0_0000u32,
                r == cleared | ((m & 1) << 30) | ((d & 1) << 29) | ((sh & 0x1F) << 24) | ((st & 0x03) << 22);
        Adsr(r)
    }

    /// Set release curve and speed.
    ///
    /// `shift`: 0-31 — higher is slower.
    pub fn release(self, mode: AdsrMode, shift: u8) -> (a: Adsr)
        ensures
            release_mode_of(a.bits()) == mode_bit(mode),
            release_shift_of(a.bits()) == shift & 0x1F,
            a.bits() & !0x003F_0000u32 == self.bits() & !0x003F_0000u32,
    {
        let raw = self.0;
        let cleared = raw & !0x003F_0000u32;
        let m = mode_value(mode);
        let sh = shift as u32;
        let r = cleared | ((m & 1) << 21) | ((sh & 0x1F) << 16);
        assert({
            &&& (r >> 21) & 1 == m
            &&& (r >> 16) & 0x1F == sh & 0x1F
            &&& r & !0x003F_0000u32 == raw & !0x003F_0000u32
        }) by (bit_vector)
            requires
                m <= 1,
                cleared == raw & !0x003F_0000u32,
                r == cleared | ((m & 1) << 21) | ((sh & 0x1F) << 16);
        Adsr(r)
    }
}

/// One cell in a pattern grid.
///
/// Each field is optional so that a cell can express partial updates
/// (e.g. change volume without re-triggering the note).
#[derive(Clone, Copy, PartialEq, Eq, Structural, Debug)]
pub struct Cell {
    pub pitch: Option<Pitch>,
    pub sample: Option<SampleId>,
    pub volume: Option<Volume>,
    pub effect: Effect,
    pub pan: Option<Pan>,
    pub adsr: Option<Adsr>,
}

impl Cell {
    /// The cell that does nothing.
    pub open spec fn blank() -> Cell {
        Cell { pitch: None, sample: None, volume: None, effect: Effect::NoEffect, pan: None, adsr: None }
    }

    pub fn empty() -> (c: Cell)
        ensures
            c == Cell::blank(),
    {
        Cell { pitch: None, sample: None, volume: None, effect: Effect::NoEffect, pan: None, adsr: None }
    }

    /// Note-on with default max volume.
    pub fn note(sample: SampleId, pitch: Pitch) -> (c: Cell)
        ensures
            c == (Cell {
                pitch: Some(pitch),
                sample: Some(sample),
                volume: Some(Volume(Volume::MAX)),
                effect: Effect::NoEffect,
                pan: None,
                adsr: None,
            }),
    {
        Cell {
            pitch: Some(pitch),
            sample: Some(sample),
            volume: Some(Volume(Volume::MAX)),
            effect: Effect::NoEffect,
            pan: None,
            adsr: None,
        }
    }

    /// Note-on with explicit volume.
    pub fn note_vol(sample: SampleId, pitch: Pitch, vol: Volume) -> (c: Cell)
        ensures
            c == (Cell {
                pitch: Some(pitch),
                sample: Some(sample),
                volume: Some(vol),
                effect: Effect::NoEffect,
                pan: None,
                adsr: None,
            }),
    {
        Cell {
            pitch: Some(pitch),
            sample: Some(sample),
            volume: Some(vol),
            effect: Effect::NoEffect,
            pan: None,
            adsr: None,
        }
    }

    /// Override the stereo panning for this cell.
    pub fn with_pan(self, pan: Pan) -> (c: Cell)
        ensures
            c == (Cell { pan: Some(pan), ..self }),
    {
        let mut c = self;
        c.pan = Some(pan);
        c
    }

    /// Override the ADSR envelope for this cell.
    pub fn with_adsr(self, adsr: Adsr) -> (c: Cell)
        ensures
            c == (Cell { adsr: Some(adsr), ..self }),
    {
        let mut c = self;
        c.adsr = Some(adsr);
        c
    }
}

// ---------------------------------------------------------------------------
// Event-based Pattern
// ---------------------------------------------------------------------------

/// Maximum events (non-empty cells) per pattern.
pub const MAX_EVENTS: usize = 48;

/// Number of tracker channels (one per hardware voice).
pub const CHANNELS: usize = 24;

/// Whether `cell` addresses its channel's voice (a note, a rest, or a
/// volume change).
pub open spec fn touches_channel(cell: Cell) -> bool {
    (cell.sample is Some && cell.pitch is Some) || cell.volume is Some
}

/// Every event of `events` on `row` that addresses its channel's voice
/// names one of the tracker channels.
pub open spec fn events_in_range(events: Seq<Event>, row: int) -> bool {
    forall|i: int| 0 <= i < events.len() && (#[trigger] events[i]).row == row
        ==> (events[i].ch < CHANNELS || !touches_channel(events[i].cell))
}


/// One event in a pattern: a [`Cell`] placed at a specific row and
/// **global** tracker channel.
#[derive(Clone, Copy, PartialEq, Eq, Structural, Debug)]
pub struct Event {
    pub row: u8,
    pub ch: u8,
    pub cell: Cell,
}

impl Event {
    /// The filler of unused event slots.
    pub open spec fn blank() -> Event {
        Event { row: 0, ch: 0, cell: Cell::blank() }
    }

    fn empty() -> (e: Event)
        ensures
            e == Event::blank(),
    {
        Event { row: 0, ch: 0, cell: Cell::empty() }
    }
}

/// A pattern: a sparse list of [`Event`]s on a timeline of `ROWS` rows.
///
/// Channel indices are **global** tracker channels (0–23).  Multiple
/// patterns played together share the same channel namespace —
/// no automatic offsetting occurs.
///
/// ```ignore
/// let pat: Pattern<16> = Pattern::new()
///     .set(0, 0, Cell::note(HAT,   Pitch(0x1000)))   // row 0, channel 0
///     .set(0, 1, Cell::note(KICK,  Pitch(0x1000)))   // row 0, channel 1
///     .set(4, 2, Cell::note(SNARE, Pitch(0x1000)));  // row 4, channel 2
/// ```
#[derive(Debug)]
pub struct Pattern<const ROWS: usize> {
    events: Vec<Event>,
    len: u8,
}

impl<const ROWS: usize> Pattern<ROWS> {
    #[verifier::type_invariant]
    closed spec fn storage_ok(&self) -> bool {
        &&& self.events@.len() == MAX_EVENTS
        &&& self.len <= MAX_EVENTS
    }

    /// All event slots, the used ones first and blank filler after them.
    pub closed spec fn slots(&self) -> Seq<Event> {
        self.events@
    }

    /// Number of events placed.
    pub closed spec fn count(&self) -> nat {
        self.len as nat
    }

    /// The events placed, in the order they were set.
    pub open spec fn entries(&self) -> Seq<Event> {
        self.slots().take(self.count() as int)
    }

    pub fn new() -> (p: Pattern<ROWS>)
        ensures
            p.count() == 0,
            p.slots() == Seq::new(MAX_EVENTS as nat, |i: int| Event::blank()),
    {
        let mut events: Vec<Event> = Vec::new();
        let mut i: usize = 0;
        while i < MAX_EVENTS
            invariant
                i <= MAX_EVENTS,
                events@ == Seq::new(i as nat, |k: int| Event::blank()),
            decreases MAX_EVENTS - i,
        {
            events.push(Event::empty());
            proof {
                assert(events@ =~= Seq::new((i + 1) as nat, |k: int| Event::blank()));
            }
            i = i + 1;
        }
        Pattern { events, len: 0 }
    }

    /// Place a cell at (`row`, `ch`).  `ch` is a global tracker channel.
    ///
    /// Cells on rows past the end, or beyond [`MAX_EVENTS`] events, are
    /// dropped.  Row and channel are stored as bytes (truncated).
    pub fn set(self, row: usize, ch: usize, cell: Cell) -> (p: Pattern<ROWS>)
        ensures
            if row < ROWS && self.count() < MAX_EVENTS {
                &&& p.count() == self.count() + 1
                &&& p.slots() == self.slots().update(
                    self.count() as int,
                    Event { row: row as u8, ch: ch as u8, cell },
                )
            } else {
                &&& p.count() == self.count()
                &&& p.slots() == self.slots()
            },
    {
        proof {
            use_type_invariant(&self);
        }
        let Pattern { mut events, len } = self;
        if row < ROWS && (len as usize) < MAX_EVENTS {
            events.set(len as usize, Event { row: row as u8, ch: ch as u8, cell });
            Pattern { events, len: len + 1 }
        } else {
            Pattern { events, len }
        }
    }

    pub fn rows(&self) -> (r: usize)
        ensures
            r == ROWS,
    {
        ROWS
    }

    /// Whether every event on `row` that addresses its channel's voice
    /// names one of the [`CHANNELS`] tracker channels; the engine can only
    /// play such rows.
    pub fn fits_channels(&self, row: usize) -> (r: bool)
        ensures
            r == events_in_range(self.entries(), row as int),
    {
        proof {
            use_type_invariant(self);
        }
        let n = self.len as usize;
        let mut i: usize = 0;
        while i < n
            invariant
                i <= n,
                n == self.count(),
                self.events@.len() == MAX_EVENTS,
                n <= MAX_EVENTS,
                forall|k: int| 0 <= k < i && (#[trigger] self.entries()[k]).row == row
                    ==> (self.entries()[k].ch < CHANNELS || !touches_channel(self.entries()[k].cell)),
            decreases n - i,
        {
            let e = &self.events[i];
            let touches = (e.cell.sample.is_some() && e.cell.pitch.is_some()) || e.cell.volume.is_some();
            if e.row as usize == row && (e.ch as usize) >= CHANNELS && touches {
                assert(self.entries()[i as int] == *e);
                return false;
            }
            i = i + 1;
        }
        true
    }

    pub fn event_count(&self) -> (n: usize)
        ensures
            n == self.count(),
            n <= MAX_EVENTS,
            self.slots().len() == MAX_EVENTS,
    {
        proof {
            use_type_invariant(self);
        }
        self.len as usize
    }

    pub fn event(&self, idx: usize) -> (e: &Event)
        requires
            idx < MAX_EVENTS,
        ensures
            *e == self.slots()[idx as int],
    {
        proof {
            use_type_invariant(self);
        }
        &self.events[idx]
    }
}

/// Type-erased access to pattern data.
pub trait PatternSource {
    fn rows(&self) -> usize;

    fn event_count(&self) -> (n: usize)
        ensures
            n <= MAX_EVENTS;

    fn event(&self, idx: usize) -> &Event
        requires
            idx < MAX_EVENTS;
}

impl<const ROWS: usize> PatternSource for Pattern<ROWS> {
    fn rows(&self) -> (r: usize)
        ensures
            r == ROWS,
    {
        ROWS
    }

    fn event_count(&self) -> (n: usize)
        ensures
            n == self.count(),
    {
        proof {
            use_type_invariant(self);
        }
        self.len as usize
    }

    fn event(&self, idx: usize) -> (e: &Event)
        ensures
            *e == self.slots()[idx as int],
    {
        proof {
            use_type_invariant(self);
        }
        &self.events[idx]
    }
}

/// A complete, swappable audio configuration.
///
/// Bundles sample data references and a voice layout so that the engine
/// can atomically switch to a new set of sounds (e.g. on level change).
pub struct SoundProject<const SAMPLES: usize> {
    pub samples: [&'static [u8]; SAMPLES],
    pub layout: VoiceLayout,
}

/// One track of a [`Song`]: a bank of patterns and the order to play them in.
pub struct Track<const PAT: usize, const ROWS: usize> {
    pub patterns: Vec<Pattern<ROWS>>,
    pub order: Vec<u8>,
    pub order_len: usize,
}

impl<const PAT: usize, const ROWS: usize> Track<PAT, ROWS> {
    pub open spec fn wf(&self) -> bool {
        &&& self.patterns@.len() == PAT
        &&& self.order@.len() == PAT
        &&& self.order_len <= PAT
    }

    pub fn new() -> (t: Track<PAT, ROWS>)
        ensures
            t.wf(),
            t.order_len == 0,
            t.order@ == Seq::new(PAT as nat, |i: int| 0u8),
            forall|i: int| 0 <= i < PAT ==> (#[trigger] t.patterns@[i]).count() == 0,
    {
        let mut patterns: Vec<Pattern<ROWS>> = Vec::new();
        let mut order: Vec<u8> = Vec::new();
        let mut i: usize = 0;
        while i < PAT
            invariant
                i <= PAT,
                patterns@.len() == i,
                order@ == Seq::new(i as nat, |k: int| 0u8),
                forall|k: int| 0 <= k < i ==> (#[trigger] patterns@[k]).count() == 0,
            decreases PAT - i,
        {
            patterns.push(Pattern::new());
            order.push(0);
            proof {
                assert(order@ =~= Seq::new((i + 1) as nat, |k: int| 0u8));
            }
            i = i + 1;
        }
        Track { patterns, order, order_len: 0 }
    }

    /// Store `pattern` in bank slot `pattern_idx` (ignored when out of range).
    pub fn with_pattern(self, pattern_idx: u8, pattern: Pattern<ROWS>) -> (t: Track<PAT, ROWS>)
        requires
            self.wf(),
        ensures
            t.wf(),
            t.order == self.order,
            t.order_len == self.order_len,
            t.patterns@ == if (pattern_idx as int) < PAT {
                self.patterns@.update(pattern_idx as int, pattern)
            } else {
                self.patterns@
            },
    {
        let mut t = self;
        if (pattern_idx as usize) < PAT {
            t.patterns.set(pattern_idx as usize, pattern);
        }
        t
    }

    /// Set the play order; entries beyond the bank size are dropped.
    pub fn with_order(self, order: &[u8]) -> (t: Track<PAT, ROWS>)
        requires
            self.wf(),
        ensures
            t.wf(),
            t.patterns == self.patterns,
            t.order_len == if order@.len() < PAT { order@.len() } else { PAT as nat },
            t.order@ == order@.take(t.order_len as int) + self.order@.skip(t.order_len as int),
    {
        let mut t = self;
        let mut i: usize = 0;
        while i < order.len() && i < PAT
            invariant
                i <= PAT,
                i <= order@.len(),
                t.patterns == self.patterns,
                t.order@.len() == PAT,
                self.order@.len() == PAT,
                t.order@ == order@.take(i as int) + self.order@.skip(i as int),
            decreases PAT - i,
        {
            t.order.set(i, order[i]);
            proof {
                assert(t.order@ =~= order@.take(i + 1) + self.order@.skip(i + 1));
            }
            i = i + 1;
        }
        t.order_len = i;
        t
    }
}

/// A multi-track song: all tracks advance in lockstep.
pub struct Song<const TRACKS: usize, const PAT: usize, const ROWS: usize> {
    pub tracks: Vec<Track<PAT, ROWS>>,
    pub bpm: u16,
}

impl<const TRACKS: usize, const PAT: usize, const ROWS: usize> Song<TRACKS, PAT, ROWS> {
    pub open spec fn wf(&self) -> bool {
        &&& self.tracks@.len() == TRACKS
        &&& forall|i: int| 0 <= i < TRACKS ==> (#[trigger] self.tracks@[i]).wf()
    }

    pub fn new(bpm: u16) -> (s: Song<TRACKS, PAT, ROWS>)
        ensures
            s.wf(),
            s.bpm == bpm,
            forall|i: int| 0 <= i < TRACKS ==> (#[trigger] s.tracks@[i]).order_len == 0,
    {
        let mut tracks: Vec<Track<PAT, ROWS>> = Vec::new();
        let mut i: usize = 0;
        while i < TRACKS
            invariant
                i <= TRACKS,
                tracks@.len() == i,
                forall|k: int| 0 <= k < i ==> (#[trigger] tracks@[k]).wf() && tracks@[k].order_len == 0,
            decreases TRACKS - i,
        {
            tracks.push(Track::new());
            i = i + 1;
        }
        Song { tracks, bpm }
    }

    /// Store `track` at index `track_idx` (ignored when out of range).
    pub fn with_track(self, track_idx: usize, track: Track<PAT, ROWS>) -> (s: Song<TRACKS, PAT, ROWS>)
        requires
            self.wf(),
            track.wf(),
        ensures
            s.wf(),
            s.bpm == self.bpm,
            s.tracks@ == if track_idx < TRACKS {
                self.tracks@.update(track_idx as int, track)
            } else {
                self.tracks@
            },
    {
        let mut s = self;
        if track_idx < TRACKS {
            s.tracks.set(track_idx, track);
        }
        s
    }
}

} // verus!
