//! Envelope packing for the boot theme's instruments.
//!
//! Register format (32-bit, two halfwords written to 1F801C08h+N*10h):
//!
//!   Lower [Am:1][Ash:5][As:2][Dsh:4][Sl:4]
//!   Upper [_:1][Sm:1][Sd:1][Ssh:5][Ss:2][Rm:1][Rsh:5]

use vstd::prelude::*;

verus! {

/// ADSR envelope parameters matching the SPU register layout.
#[derive(Clone, Copy, PartialEq, Eq, Structural, Debug)]
pub struct Adsr {
    pub am: u32,
    pub ash: u32,
    pub a_s: u32,
    pub dsh: u32,
    pub sl: u32,
    pub sm: u32,
    pub sd: u32,
    pub ssh: u32,
    pub ss: u32,
    pub rm: u32,
    pub rsh: u32,
}

impl Adsr {
    /// Every parameter fits its field of the register.
    pub open spec fn in_range(self) -> bool {
        &&& self.am < 2 && self.ash < 32 && self.a_s < 4 && self.dsh < 16 && self.sl < 16
        &&& self.sm < 2 && self.sd < 2 && self.ssh < 32 && self.ss < 4 && self.rm < 2 && self.rsh < 32
    }

    /// The register word: attack, decay and sustain level in the lower
    /// halfword, sustain and release in the upper one.
    pub open spec fn word(self) -> u32 {
        let lo = (self.am << 15u32) | (self.ash << 10u32) | (self.a_s << 8u32) | (self.dsh << 4u32) | self.sl;
        let hi = (self.sm << 14u32) | (self.sd << 13u32) | (self.ssh << 8u32) | (self.ss << 6u32) | (self.rm << 5u32)
            | self.rsh;
        (hi << 16u32) | lo
    }

    pub fn pack(self) -> (r: u32)
        ensures
            r == self.word(),
    {
        let lo = (self.am << 15u32) | (self.ash << 10u32) | (self.a_s << 8u32) | (self.dsh << 4u32) | self.sl;
        let hi = (self.sm << 14u32) | (self.sd << 13u32) | (self.ssh << 8u32) | (self.ss << 6u32) | (self.rm << 5u32)
            | self.rsh;
        (hi << 16u32) | lo
    }
}

/// With every parameter in range, each one reads back from its own bits of
/// the packed word.
pub proof fn lemma_adsr_fields(a: Adsr)
    requires
        a.in_range(),
    ensures
        (a.word() >> 15u32) & 1 == a.am,
        (a.word() >> 10u32) & 0x1F == a.ash,
        (a.word() >> 8u32) & 3 == a.a_s,
        (a.word() >> 4u32) & 0xF == a.dsh,
        a.word() & 0xF == a.sl,
        (a.word() >> 30u32) & 1 == a.sm,
        (a.word() >> 29u32) & 1 == a.sd,
        (a.word() >> 24u32) & 0x1F == a.ssh,
        (a.word() >> 22u32) & 3 == a.ss,
        (a.word() >> 21u32) & 1 == a.rm,
        (a.word() >> 16u32) & 0x1F == a.rsh,
{
    let (am, ash, a_s, dsh, sl, sm, sd, ssh, ss, rm, rsh) = (a.am, a.ash, a.a_s, a.dsh, a.sl, a.sm, a.sd, a.ssh, a.ss, a.rm, a.rsh);
    let w = a.word();
    assert((w >> 15u32) & 1 == am && (w >> 10u32) & 0x1F == ash && (w >> 8u32) & 3 == a_s && (w >> 4u32) & 0xF == dsh
        && w & 0xF == sl && (w >> 30u32) & 1 == sm && (w >> 29u32) & 1 == sd && (w >> 24u32) & 0x1F == ssh && (w
        >> 22u32) & 3 == ss && (w >> 21u32) & 1 == rm && (w >> 16u32) & 0x1F == rsh) by (bit_vector)
        requires
            am < 2 && ash < 32 && a_s < 4 && dsh < 16 && sl < 16 && sm < 2 && sd < 2 && ssh < 32 && ss < 4 && rm < 2
                && rsh < 32,
            w == ((((sm << 14u32) | (sd << 13u32) | (ssh << 8u32) | (ss << 6u32) | (rm << 5u32) | rsh) << 16u32) | ((am
                << 15u32) | (ash << 10u32) | (a_s << 8u32) | (dsh << 4u32) | sl)),
    ;
}

} // verus!
