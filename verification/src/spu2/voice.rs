//! Partitioning of the 24 SPU voices between music and sound effects.

use crate::common::HwOp;
use crate::spu2::hw::{self, VoiceHw, SPU_KEY_OFF};
use crate::common::w32;
use vstd::prelude::*;

verus! {

/// Whether voice `id` is marked in `mask`.
pub open spec fn has_voice(mask: u32, id: int) -> bool {
    0 <= id < 32 && mask & (1u32 << (id as u32)) != 0
}

/// The lowest voice of `start .. start + count` that `mask` does not mark.
pub open spec fn first_free(start: int, count: int, mask: u32) -> Option<int>
    decreases count,
{
    if count <= 0 {
        None
    } else if !has_voice(mask, start) {
        Some(start)
    } else {
        first_free(start + 1, count - 1, mask)
    }
}

/// Defines how the 24 SPU voices are partitioned between music and SFX.
///
/// Constructed at compile time, but can be swapped at runtime via
/// [`VoiceAlloc::set_layout`].
#[derive(Clone, Copy, PartialEq, Eq, Structural, Debug)]
pub struct VoiceLayout {
    pub music_start: u8,
    pub music_count: u8,
    pub sfx_start: u8,
    pub sfx_count: u8,
}

impl VoiceLayout {
    /// Both voice ranges fit within the 24 hardware voices.
    pub open spec fn wf(&self) -> bool {
        &&& self.music_start + self.music_count <= 24
        &&& self.sfx_start + self.sfx_count <= 24
    }

    /// Create a layout.  `music` and `sfx` are `(start_voice, count)` pairs.
    ///
    /// Voices 0..15 for music, 16..23 for SFX: `VoiceLayout::new((0, 16), (16, 8))`.
    pub fn new(music: (u8, u8), sfx: (u8, u8)) -> (l: VoiceLayout)
        requires
            music.0 + music.1 <= 24,
            sfx.0 + sfx.1 <= 24,
        ensures
            l == (VoiceLayout { music_start: music.0, music_count: music.1, sfx_start: sfx.0, sfx_count: sfx.1 }),
            l.wf(),
    {
        VoiceLayout {
            music_start: music.0,
            music_count: music.1,
            sfx_start: sfx.0,
            sfx_count: sfx.1,
        }
    }
}

/// Allocates hardware voices from a [`VoiceLayout`].
///
/// Uses bitmasks for claim/release on a 24-bit mask.
pub struct VoiceAlloc {
    layout: VoiceLayout,
    music_mask: u32,
    sfx_mask: u32,
}

proof fn lemma_shift_bits(id: u32)
    requires
        id < 24,
    ensures
        1u32 << id != 0,
        (1u32 << id) < 0x0100_0000,
        forall|m: u32| #![trigger (m | (1u32 << id))] (m | (1u32 << id)) & (1u32 << id) != 0,
        forall|m: u32| #![trigger (m & !(1u32 << id))] (m & !(1u32 << id)) & (1u32 << id) == 0,
{
    assert(1u32 << id != 0) by (bit_vector) requires id < 24;
    assert((1u32 << id) < 0x0100_0000) by (bit_vector) requires id < 24;
    assert forall|m: u32| #![trigger (m | (1u32 << id))] (m | (1u32 << id)) & (1u32 << id) != 0 by {
        assert((m | (1u32 << id)) & (1u32 << id) != 0) by (bit_vector) requires id < 24;
    }
    assert forall|m: u32| #![trigger (m & !(1u32 << id))] (m & !(1u32 << id)) & (1u32 << id) == 0 by {
        assert((m & !(1u32 << id)) & (1u32 << id) == 0) by (bit_vector);
    }
}

/// Setting or clearing the bit of voice `id` leaves the other voices as they were.
pub proof fn lemma_other_bits(m: u32, id: u32, j: u32)
    requires
        id < 32,
        j < 32,
        j != id,
    ensures
        ((m | (1u32 << id)) & (1u32 << j) != 0) == (m & (1u32 << j) != 0),
        ((m & !(1u32 << id)) & (1u32 << j) != 0) == (m & (1u32 << j) != 0),
{
    assert(((m | (1u32 << id)) & (1u32 << j) != 0) == (m & (1u32 << j) != 0)) by (bit_vector)
        requires id < 32, j < 32, j != id;
    assert(((m & !(1u32 << id)) & (1u32 << j) != 0) == (m & (1u32 << j) != 0)) by (bit_vector)
        requires id < 32, j < 32, j != id;
}

impl VoiceAlloc {
    pub closed spec fn layout(&self) -> VoiceLayout {
        self.layout
    }

    /// Voices of the music group that are in use.
    pub closed spec fn music_mask(&self) -> u32 {
        self.music_mask
    }

    /// Voices of the SFX group that are in use.
    pub closed spec fn sfx_mask(&self) -> u32 {
        self.sfx_mask
    }

    pub open spec fn wf(&self) -> bool {
        self.layout().wf()
    }

    /// An allocator is determined by its layout and its two masks.
    pub proof fn lemma_view_eq(self, other: VoiceAlloc)
        requires
            self.layout() == other.layout(),
            self.music_mask() == other.music_mask(),
            self.sfx_mask() == other.sfx_mask(),
        ensures
            self == other,
    {
    }

    pub fn with_layout(layout: VoiceLayout) -> (a: VoiceAlloc)
        ensures
            a.layout() == layout,
            a.music_mask() == 0,
            a.sfx_mask() == 0,
    {
        VoiceAlloc { layout, music_mask: 0, sfx_mask: 0 }
    }

    /// Replace the current layout.  Releases all voices first.
    pub fn set_layout(&mut self, layout: VoiceLayout, log: &mut Vec<HwOp>)
        ensures
            final(self).layout() == layout,
            final(self).music_mask() == 0,
            final(self).sfx_mask() == 0,
            final(log)@ == old(log)@ + release_all_ops(old(self).music_mask() | old(self).sfx_mask()),
    {
        self.release_all(log);
        self.layout = layout;
    }

    /// Claim the first free music voice, or `None` if all are in use.
    pub fn claim_music(&mut self) -> (v: Option<VoiceHw>)
        requires
            old(self).wf(),
        ensures
            final(self).layout() == old(self).layout(),
            final(self).sfx_mask() == old(self).sfx_mask(),
            claim_result(
                old(self).layout().music_start as int,
                old(self).layout().music_count as int,
                old(self).music_mask(),
                v,
                final(self).music_mask(),
            ),
    {
        Self::claim_from_group(self.layout.music_start, self.layout.music_count, &mut self.music_mask)
    }

    /// Return a music voice to the pool.
    pub fn release_music(&mut self, voice: &VoiceHw, log: &mut Vec<HwOp>)
        requires
            voice.num() < 24,
        ensures
            final(self).layout() == old(self).layout(),
            final(self).sfx_mask() == old(self).sfx_mask(),
            final(self).music_mask() == old(self).music_mask() & !(1u32 << voice.num()),
            final(log)@ == old(log)@.push(w32(SPU_KEY_OFF as int, 1u32 << voice.num())),
    {
        voice.key_off(log);
        self.music_mask = self.music_mask & !(1u32 << voice.id());
    }

    /// Return a music voice to the pool without writing KEY_OFF.
    ///
    /// Returns the voice's bit mask so the caller can batch all
    /// KEY_OFF writes into a single register store.
    pub fn release_music_deferred(&mut self, voice: &VoiceHw) -> (bit: u32)
        requires
            voice.num() < 24,
        ensures
            bit == 1u32 << voice.num(),
            final(self).layout() == old(self).layout(),
            final(self).sfx_mask() == old(self).sfx_mask(),
            final(self).music_mask() == old(self).music_mask() & !bit,
    {
        let bit = 1u32 << voice.id();
        self.music_mask = self.music_mask & !bit;
        bit
    }

    /// Claim the first free SFX voice, or `None` if all are in use.
    pub fn claim_sfx(&mut self) -> (v: Option<VoiceHw>)
        requires
            old(self).wf(),
        ensures
            final(self).layout() == old(self).layout(),
            final(self).music_mask() == old(self).music_mask(),
            claim_result(
                old(self).layout().sfx_start as int,
                old(self).layout().sfx_count as int,
                old(self).sfx_mask(),
                v,
                final(self).sfx_mask(),
            ),
    {
        Self::claim_from_group(self.layout.sfx_start, self.layout.sfx_count, &mut self.sfx_mask)
    }

    /// Return a SFX voice to the pool.
    pub fn release_sfx(&mut self, voice: &VoiceHw, log: &mut Vec<HwOp>)
        requires
            voice.num() < 24,
        ensures
            final(self).layout() == old(self).layout(),
            final(self).music_mask() == old(self).music_mask(),
            final(self).sfx_mask() == old(self).sfx_mask() & !(1u32 << voice.num()),
            final(log)@ == old(log)@.push(w32(SPU_KEY_OFF as int, 1u32 << voice.num())),
    {
        voice.key_off(log);
        self.sfx_mask = self.sfx_mask & !(1u32 << voice.id());
    }

    /// Stop and release every voice in both groups.
    pub fn release_all(&mut self, log: &mut Vec<HwOp>)
        ensures
            final(self).layout() == old(self).layout(),
            final(self).music_mask() == 0,
            final(self).sfx_mask() == 0,
            final(log)@ == old(log)@ + release_all_ops(old(self).music_mask() | old(self).sfx_mask()),
    {
        let all = self.music_mask | self.sfx_mask;
        if all != 0 {
            hw::key_off_mask(all, log);
        }
        self.music_mask = 0;
        self.sfx_mask = 0;
    }

    fn claim_from_group(start: u8, count: u8, mask: &mut u32) -> (v: Option<VoiceHw>)
        requires
            start + count <= 24,
        ensures
            claim_result(start as int, count as int, *old(mask), v, *final(mask)),
    {
        let ghost m0 = *mask;
        let mut i: u8 = 0;
        while i < count
            invariant
                start + count <= 24,
                i <= count,
                *mask == m0,
                m0 == *old(mask),
                first_free(start as int, count as int, m0) == first_free((start + i) as int, (count - i) as int, m0),
            decreases count - i,
        {
            let id = start + i;
            let bit = 1u32 << (id as u32);
            if *mask & bit == 0 {
                assert(!has_voice(m0, (start + i) as int));
                *mask = *mask | bit;
                proof {
                    lemma_shift_bits(id as u32);
                }
                return Some(VoiceHw::new(id));
            }
            i = i + 1;
        }
        None
    }
}

/// The outcome of claiming the first free voice of `start .. start + count`
/// from `mask`: the voice found (if any) and the mask afterwards.
pub open spec fn claim_result(start: int, count: int, mask: u32, v: Option<VoiceHw>, mask_after: u32) -> bool {
    match first_free(start, count, mask) {
        Some(id) => v is Some && v->0.num() == id && mask_after == mask | (1u32 << (id as u32)),
        None => v is None && mask_after == mask,
    }
}

/// The accesses of [`VoiceAlloc::release_all`] for the mask of all voices in use.
pub open spec fn release_all_ops(all: u32) -> Seq<HwOp> {
    if all != 0 {
        seq![w32(SPU_KEY_OFF as int, all)]
    } else {
        seq![]
    }
}

/// The voice that a claim hands out lies in the group, was free, and is
/// marked in use afterwards.
pub proof fn lemma_first_free_is_free(start: int, count: int, mask: u32)
    requires
        0 <= start,
        start + count <= 24,
    ensures
        first_free(start, count, mask) matches Some(id) ==> {
            &&& start <= id < start + count
            &&& !has_voice(mask, id)
            &&& has_voice(mask | (1u32 << (id as u32)), id)
            &&& forall|j: int| start <= j < id ==> has_voice(mask, j)
        },
        first_free(start, count, mask) is None ==> forall|j: int| start <= j < start + count ==> has_voice(mask, j),
    decreases count,
{
    if count > 0 {
        lemma_first_free_is_free(start + 1, count - 1, mask);
        if !has_voice(mask, start) {
            lemma_shift_bits(start as u32);
        }
    }
}

} // verus!
