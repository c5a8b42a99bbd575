//! The tagged-pointer witness: an address packed with a generation tag in
//! one compare-and-swap-able word.
//!
//! Hazard protection alone leaves one gap: between a reader's first read and
//! its stabilizing re-read, a node can be freed and a fresh allocation can
//! land on the identical address, so the re-read matches although the chain
//! changed — the ABA problem. The tagged witness closes it: every install
//! increments a generation tag carried beside the address, and the
//! stabilization check compares full (address, tag) pairs, which an
//! intervening install can never leave equal.

use vstd::prelude::*;

verus! {

/// Low 48 bits of a packed word carry the address; the high 16 carry the tag.
pub const ADDR_BITS: u64 = 0x0000_FFFF_FFFF_FFFF;

/// Largest tag a packed word can carry.
pub const TAG_BITS: u64 = 0xFFFF;

/// An address together with the generation tag of the install that wrote it.
#[derive(Clone, Copy, PartialEq, Eq, Structural, Debug)]
pub struct TaggedPtr {
    pub addr: u64,
    pub tag: u64,
}

/// The address half of a packed word.
pub open spec fn word_addr(w: u64) -> u64 {
    w & ADDR_BITS
}

/// The tag half of a packed word.
pub open spec fn word_tag(w: u64) -> u64 {
    w >> 48
}

/// Packs an address and tag into the single word an atomic slot holds.
pub fn pack(p: TaggedPtr) -> (w: u64)
    requires
        p.addr <= ADDR_BITS,
        p.tag <= TAG_BITS,
    ensures
        word_addr(w) == p.addr,
        word_tag(w) == p.tag,
{
    let a = p.addr;
    let t = p.tag;
    let w = (t << 48u64) | a;
    proof {
        assert(((t << 48u64) | a) & 0x0000_FFFF_FFFF_FFFFu64 == a) by (bit_vector)
            requires
                a <= 0x0000_FFFF_FFFF_FFFFu64,
                t <= 0xFFFFu64,
        ;
        assert((((t << 48u64) | a) >> 48u64) == t) by (bit_vector)
            requires
                a <= 0x0000_FFFF_FFFF_FFFFu64,
                t <= 0xFFFFu64,
        ;
    }
    w
}

/// Splits a packed word back into its address and tag.
pub fn unpack(w: u64) -> (p: TaggedPtr)
    ensures
        p.addr == word_addr(w),
        p.tag == word_tag(w),
        p.addr <= ADDR_BITS,
        p.tag <= TAG_BITS,
{
    proof {
        assert((w & 0x0000_FFFF_FFFF_FFFFu64) <= 0x0000_FFFF_FFFF_FFFFu64) by (bit_vector);
        assert((w >> 48u64) <= 0xFFFFu64) by (bit_vector);
    }
    TaggedPtr { addr: w & ADDR_BITS, tag: w >> 48u64 }
}

/// The two halves determine the word: splitting and repacking is the
/// identity, so the packed form loses nothing.
pub proof fn lemma_word_round_trip(w: u64)
    ensures
        (word_tag(w) << 48u64) | word_addr(w) == w,
{
    assert(((w >> 48u64) << 48u64) | (w & 0x0000_FFFF_FFFF_FFFFu64) == w) by (bit_vector);
}

/// The atomic head or next slot under the tagged strategy, modelled as the
/// pair its word packs.
pub struct TaggedSlot {
    addr: u64,
    tag: u64,
}

impl TaggedSlot {
    /// The (address, tag) pair the slot currently holds.
    pub closed spec fn view(self) -> TaggedPtr {
        TaggedPtr { addr: self.addr, tag: self.tag }
    }

    /// A slot holding the null address with the starting tag.
    pub fn new() -> (s: Self)
        ensures
            s@ == (TaggedPtr { addr: 0u64, tag: 0u64 }),
    {
        TaggedSlot { addr: 0, tag: 0 }
    }

    /// Reads the full pair; a stabilization re-read compares everything it
    /// returns, never the address alone.
    pub fn load(&self) -> (p: TaggedPtr)
        ensures
            p == self@,
    {
        TaggedPtr { addr: self.addr, tag: self.tag }
    }

    /// Installs `new_addr` unconditionally. Even a plain store advances the
    /// generation tag.
    pub fn store(&mut self, new_addr: u64)
        requires
            old(self)@.tag < u64::MAX,
        ensures
            final(self)@.addr == new_addr,
            final(self)@.tag == old(self)@.tag + 1,
    {
        self.tag = self.tag + 1;
        self.addr = new_addr;
    }

    /// One compare-and-swap over the full pair: installs `new_addr` exactly
    /// when the slot still holds `expected`, and then advances the tag;
    /// otherwise the slot is untouched.
    pub fn compare_exchange(&mut self, expected: TaggedPtr, new_addr: u64) -> (ok: bool)
        requires
            old(self)@.tag < u64::MAX,
        ensures
            ok == (old(self)@ == expected),
            ok ==> final(self)@.addr == new_addr && final(self)@.tag == old(self)@.tag + 1,
            !ok ==> final(self)@ == old(self)@,
    {
        if self.addr == expected.addr && self.tag == expected.tag {
            self.tag = self.tag + 1;
            self.addr = new_addr;
            true
        } else {
            false
        }
    }
}

/// True of a history in which each pair arose from an install over the one
/// before it: every install advances the tag by one.
pub open spec fn installs(h: Seq<TaggedPtr>) -> bool {
    forall|i: int| 0 <= i < h.len() - 1 ==> (#[trigger] h[i + 1]).tag == h[i].tag + 1
}

/// The generation tag defeats ABA: across any non-empty run of installs the
/// tag strictly increases, so the first and last pairs of the run differ —
/// even when the same address was freed, reallocated and installed again. A
/// stabilization re-read that still shows the protected pair therefore
/// certifies that no install intervened.
pub proof fn lemma_tag_detects_reuse(h: Seq<TaggedPtr>)
    requires
        installs(h),
        h.len() >= 2,
    ensures
        h.last().tag == h.first().tag + h.len() - 1,
        h.last() != h.first(),
    decreases h.len(),
{
    if h.len() == 2 {
        assert(h[0int + 1].tag == h[0int].tag + 1);
    } else {
        let d = h.drop_last();
        assert forall|i: int| 0 <= i < d.len() - 1 implies (#[trigger] d[i + 1]).tag == d[i].tag
            + 1 by {
            assert(d[i + 1] == h[i + 1]);
            assert(d[i] == h[i]);
        }
        lemma_tag_detects_reuse(d);
        assert(h[(h.len() - 2) + 1].tag == h[h.len() - 2].tag + 1);
        assert(d.last() == h[h.len() - 2]);
    }
}

} // verus!
