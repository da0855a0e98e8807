//! Memory-mapped register cells and the log of hardware accesses that the
//! library hands to the platform layer.
//!
//! Every routine of the library that touches SPU, DMA or timer registers
//! appends the accesses it makes, in program order, to a `Vec<HwOp>`.
//! The platform layer performs them with volatile loads and stores.

use core::marker::PhantomData;
use vstd::prelude::*;

verus! {

/// One access to a memory-mapped hardware register.
#[allow(inconsistent_fields)]
#[derive(Clone, Copy, PartialEq, Eq, Debug)]
pub enum HwOp {
    /// Store a halfword.
    Write16 { addr: usize, value: u16 },
    /// Store a word.
    Write32 { addr: usize, value: u32 },
    /// Read a halfword, OR `bits` into it and store it back.
    Or16 { addr: usize, bits: u16 },
    /// Read a halfword, AND it with `bits` and store it back.
    And16 { addr: usize, bits: u16 },
    /// Read a word, OR `bits` into it and store it back.
    Or32 { addr: usize, bits: u32 },
    /// Busy-wait: run an empty loop this many times, to give the hardware
    /// time to settle.
    Spin { iterations: u32 },
}

/// Log a busy-wait of `iterations` empty loop iterations.
pub fn spin(iterations: u32, log: &mut Vec<HwOp>)
    ensures
        final(log)@ == old(log)@.push(HwOp::Spin { iterations }),
{
    log.push(HwOp::Spin { iterations });
}

/// A register at a fixed address, accessed through the access log.
pub struct MemoryCell<T> {
    address: usize,
    marker: PhantomData<T>,
}

impl<T> MemoryCell<T> {
    /// The register's address.
    pub closed spec fn addr(&self) -> usize {
        self.address
    }

    pub fn new(address: usize) -> (cell: MemoryCell<T>)
        ensures
            cell.addr() == address,
    {
        MemoryCell { address, marker: PhantomData }
    }

    pub fn address(&self) -> (a: usize)
        ensures
            a == self.addr(),
    {
        self.address
    }
}

impl MemoryCell<u16> {
    /// Store `x` into the register.
    pub fn set(&self, x: u16, log: &mut Vec<HwOp>)
        ensures
            final(log)@ == old(log)@.push(HwOp::Write16 { addr: self.addr(), value: x }),
    {
        log.push(HwOp::Write16 { addr: self.address, value: x });
    }

    /// Set the bits of `bits` in the register, keeping the others.
    pub fn set_bits(&self, bits: u16, log: &mut Vec<HwOp>)
        ensures
            final(log)@ == old(log)@.push(HwOp::Or16 { addr: self.addr(), bits }),
    {
        log.push(HwOp::Or16 { addr: self.address, bits });
    }

    /// Keep only the bits of `bits` in the register.
    pub fn mask_bits(&self, bits: u16, log: &mut Vec<HwOp>)
        ensures
            final(log)@ == old(log)@.push(HwOp::And16 { addr: self.addr(), bits }),
    {
        log.push(HwOp::And16 { addr: self.address, bits });
    }
}

impl MemoryCell<u32> {
    /// Store `x` into the register.
    pub fn set(&self, x: u32, log: &mut Vec<HwOp>)
        ensures
            final(log)@ == old(log)@.push(HwOp::Write32 { addr: self.addr(), value: x }),
    {
        log.push(HwOp::Write32 { addr: self.address, value: x });
    }

    /// Set the bits of `bits` in the register, keeping the others.
    pub fn set_bits(&self, bits: u32, log: &mut Vec<HwOp>)
        ensures
            final(log)@ == old(log)@.push(HwOp::Or32 { addr: self.addr(), bits }),
    {
        log.push(HwOp::Or32 { addr: self.address, bits });
    }
}

/// Halfword store, as a spec-level shorthand.
pub open spec fn w16(addr: int, value: u16) -> HwOp {
    HwOp::Write16 { addr: addr as usize, value }
}

/// Word store, as a spec-level shorthand.
pub open spec fn w32(addr: int, value: u32) -> HwOp {
    HwOp::Write32 { addr: addr as usize, value }
}

/// Whether `op` stores a halfword to `addr`.
pub open spec fn stores16_to(op: HwOp, addr: int) -> bool {
    match op {
        HwOp::Write16 { addr: a, .. } => a as int == addr,
        _ => false,
    }
}

/// The value that the last halfword store to `addr` in `ops` writes, if
/// `ops` has one: what the register holds after `ops`, when nothing else
/// writes it.
pub open spec fn last_store16(ops: Seq<HwOp>, addr: int) -> Option<u16>
    decreases ops.len(),
{
    if ops.len() == 0 {
        None
    } else {
        match ops.last() {
            HwOp::Write16 { addr: a, value } => if a as int == addr {
                Some(value)
            } else {
                last_store16(ops.drop_last(), addr)
            },
            _ => last_store16(ops.drop_last(), addr),
        }
    }
}

/// A halfword store to `addr` at position `k` with no later store to
/// `addr` is the last one.
pub proof fn lemma_last_store16(ops: Seq<HwOp>, addr: int, k: int, v: u16)
    requires
        0 <= addr <= usize::MAX,
        0 <= k < ops.len(),
        ops[k] == (HwOp::Write16 { addr: addr as usize, value: v }),
        forall|j: int| k < j < ops.len() ==> !stores16_to(#[trigger] ops[j], addr),
    ensures
        last_store16(ops, addr) == Some(v),
    decreases ops.len(),
{
    if k < ops.len() - 1 {
        assert(!stores16_to(ops[ops.len() - 1], addr));
        assert forall|j: int| k < j < ops.drop_last().len() implies !stores16_to(#[trigger] ops.drop_last()[j], addr) by {
            assert(ops.drop_last()[j] == ops[j]);
        }
        lemma_last_store16(ops.drop_last(), addr, k, v);
    }
}

/// Whether `op` stores a word to `addr`.
pub open spec fn stores32_to(op: HwOp, addr: int) -> bool {
    match op {
        HwOp::Write32 { addr: a, .. } => a as int == addr,
        _ => false,
    }
}

/// The value that the last word store to `addr` in `ops` writes, if any.
pub open spec fn last_store32(ops: Seq<HwOp>, addr: int) -> Option<u32>
    decreases ops.len(),
{
    if ops.len() == 0 {
        None
    } else {
        match ops.last() {
            HwOp::Write32 { addr: a, value } => if a as int == addr {
                Some(value)
            } else {
                last_store32(ops.drop_last(), addr)
            },
            _ => last_store32(ops.drop_last(), addr),
        }
    }
}

/// A word store to `addr` at position `k` with no later word store to
/// `addr` is the last one.
pub proof fn lemma_last_store32(ops: Seq<HwOp>, addr: int, k: int, v: u32)
    requires
        0 <= addr <= usize::MAX,
        0 <= k < ops.len(),
        ops[k] == (HwOp::Write32 { addr: addr as usize, value: v }),
        forall|j: int| k < j < ops.len() ==> !stores32_to(#[trigger] ops[j], addr),
    ensures
        last_store32(ops, addr) == Some(v),
    decreases ops.len(),
{
    if k < ops.len() - 1 {
        assert(!stores32_to(ops[ops.len() - 1], addr));
        assert forall|j: int| k < j < ops.drop_last().len() implies !stores32_to(#[trigger] ops.drop_last()[j], addr) by {
            assert(ops.drop_last()[j] == ops[j]);
        }
        lemma_last_store32(ops.drop_last(), addr, k, v);
    }
}

/// Number of occupied slots.
pub open spec fn some_count<T>(s: Seq<Option<T>>) -> nat
    decreases s.len(),
{
    if s.len() == 0 {
        0
    } else {
        some_count(s.drop_last()) + if s.last() is Some { 1nat } else { 0nat }
    }
}

/// The first empty slot.
pub open spec fn first_vacant<T>(s: Seq<Option<T>>) -> Option<int>
    decreases s.len(),
{
    if s.len() == 0 {
        None
    } else if s[0] is None {
        Some(0)
    } else {
        match first_vacant(s.drop_first()) {
            Some(i) => Some(i + 1),
            None => None,
        }
    }
}

pub proof fn lemma_first_vacant<T>(s: Seq<Option<T>>)
    ensures
        first_vacant(s) matches Some(i) ==> 0 <= i < s.len() && s[i] is None && forall|j: int|
            0 <= j < i ==> s[j] is Some,
        first_vacant(s) is None ==> forall|j: int| 0 <= j < s.len() ==> s[j] is Some,
    decreases s.len(),
{
    if s.len() > 0 {
        lemma_first_vacant(s.drop_first());
        if s[0] is Some {
            assert forall|j: int| 1 <= j < s.len() implies s[j] == s.drop_first()[j - 1] by {}
        }
    }
}

pub proof fn lemma_some_count_bound<T>(s: Seq<Option<T>>)
    ensures
        some_count(s) <= s.len(),
        (exists|j: int| 0 <= j < s.len() && s[j] is None) ==> some_count(s) < s.len(),
    decreases s.len(),
{
    if s.len() > 0 {
        lemma_some_count_bound(s.drop_last());
        if exists|j: int| 0 <= j < s.len() && s[j] is None {
            let j = choose|j: int| 0 <= j < s.len() && s[j] is None;
            if j < s.len() - 1 {
                assert(s.drop_last()[j] is None);
            }
        }
    }
}

/// Filling or vacating one slot moves the count by one.
pub proof fn lemma_some_count_update<T>(s: Seq<Option<T>>, i: int, v: Option<T>)
    requires
        0 <= i < s.len(),
    ensures
        some_count(s.update(i, v)) + (if s[i] is Some { 1int } else { 0int })
            == some_count(s) + (if v is Some { 1int } else { 0int }),
    decreases s.len(),
{
    if i < s.len() - 1 {
        lemma_some_count_update(s.drop_last(), i, v);
        assert(s.update(i, v).drop_last() =~= s.drop_last().update(i, v));
    } else {
        assert(s.update(i, v).drop_last() =~= s.drop_last());
    }
}

/// The first empty slot of `v`.
pub fn find_vacant<T>(v: &Vec<Option<T>>) -> (r: Option<usize>)
    ensures
        r == match first_vacant(v@) {
            Some(i) => Some(i as usize),
            None => None::<usize>,
        },
{
    proof {
        lemma_first_vacant(v@);
    }
    let mut i: usize = 0;
    while i < v.len()
        invariant
            i <= v@.len(),
            forall|j: int| 0 <= j < i ==> v@[j] is Some,
        decreases v.len() - i,
    {
        if v[i].is_none() {
            proof {
                lemma_first_vacant(v@);
                if let Some(k) = first_vacant(v@) {
                    if k < i {
                        assert(v@[k] is Some);
                    }
                    if k > i {
                        assert(v@[i as int] is Some);
                    }
                }
            }
            return Some(i);
        }
        i = i + 1;
    }
    None
}

/// A length kept in 16 bits is the length modulo 2^16.
pub proof fn lemma_len_u16(n: usize)
    by (bit_vector)
    ensures
        (n as u16) == n % 0x1_0000,
{
}

/// A table with no empty slot has every slot in use.
pub proof fn lemma_some_count_full<T>(s: Seq<Option<T>>)
    requires
        forall|j: int| 0 <= j < s.len() ==> s[j] is Some,
    ensures
        some_count(s) == s.len(),
    decreases s.len(),
{
    if s.len() > 0 {
        lemma_some_count_full(s.drop_last());
    }
}

/// The sum of the lengths of the first `k` byte strings of `data`, each
/// taken modulo 2^16.
pub open spec fn total_len(data: Seq<Seq<u8>>, k: int) -> int
    decreases k,
{
    if k <= 0 {
        0
    } else {
        total_len(data, k - 1) + (data[k - 1].len() % 0x1_0000) as int
    }
}

/// Totals grow with the number of strings counted.
pub proof fn lemma_total_len_mono(data: Seq<Seq<u8>>, a: int, b: int)
    requires
        0 <= a <= b,
    ensures
        total_len(data, a) <= total_len(data, b),
    decreases b - a,
{
    if a < b {
        lemma_total_len_mono(data, a, b - 1);
    }
}

/// The first occupied slot whose item satisfies `p`.
pub open spec fn first_where<T>(s: Seq<Option<T>>, p: spec_fn(T) -> bool) -> Option<int>
    decreases s.len(),
{
    if s.len() == 0 {
        None
    } else if s[0] is Some && p(s[0]->0) {
        Some(0)
    } else {
        match first_where(s.drop_first(), p) {
            Some(i) => Some(i + 1),
            None => None,
        }
    }
}

pub proof fn lemma_first_where<T>(s: Seq<Option<T>>, p: spec_fn(T) -> bool)
    ensures
        first_where(s, p) matches Some(i) ==> 0 <= i < s.len() && s[i] is Some && p(s[i]->0)
            && forall|j: int| 0 <= j < i ==> !(s[j] is Some && p(s[j]->0)),
        first_where(s, p) is None ==> forall|j: int| 0 <= j < s.len() ==> !(s[j] is Some && p(s[j]->0)),
    decreases s.len(),
{
    if s.len() > 0 {
        lemma_first_where(s.drop_first(), p);
        if !(s[0] is Some && p(s[0]->0)) {
            assert forall|j: int| 1 <= j < s.len() implies s[j] == s.drop_first()[j - 1] by {}
        }
    }
}

/// `first_where` is determined by the characterisation of `lemma_first_where`.
pub proof fn lemma_first_where_is<T>(s: Seq<Option<T>>, p: spec_fn(T) -> bool, i: int)
    requires
        0 <= i < s.len(),
        s[i] is Some && p(s[i]->0),
        forall|j: int| 0 <= j < i ==> !(s[j] is Some && p(s[j]->0)),
    ensures
        first_where(s, p) == Some(i),
{
    lemma_first_where(s, p);
    if let Some(k) = first_where(s, p) {
        if k < i {
            assert(!(s[k] is Some && p(s[k]->0)));
        }
        if k > i {
            assert(!(s[i] is Some && p(s[i]->0)));
        }
    }
}

} // verus!
