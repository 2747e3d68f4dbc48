//! The permission lattice: bitsets of per-pointer capabilities.
//!
//! A `PermissionSet` records how one pointer may be used (read through,
//! written through, accessed exclusively, offset forwards or backwards).
//! Sets are ordered by inclusion; the analysis only ever removes flags, so
//! every edit moves a set downwards in the lattice.

use vstd::prelude::*;

verus! {

/// One capability bit of the permission lattice.
#[derive(Clone, Copy, PartialEq, Eq, Structural, Debug, Hash)]
pub enum PermFlag {
    /// The pointee may be read through this pointer.
    Read,
    /// The pointee may be written through this pointer.
    Write,
    /// The pointer may be used for exclusive (mutable) access.
    Unique,
    /// The pointer may be offset forwards.
    OffsetAdd,
    /// The pointer may be offset backwards.
    OffsetSub,
}

/// The bit that stands for `f` inside a `PermissionSet`.
pub open spec fn flag_mask(f: PermFlag) -> u8 {
    match f {
        PermFlag::Read => 0x01,
        PermFlag::Write => 0x02,
        PermFlag::Unique => 0x04,
        PermFlag::OffsetAdd => 0x08,
        PermFlag::OffsetSub => 0x10,
    }
}

/// Runtime counterpart of [`flag_mask`].
pub fn mask(f: PermFlag) -> (r: u8)
    ensures
        r == flag_mask(f),
{
    match f {
        PermFlag::Read => 0x01,
        PermFlag::Write => 0x02,
        PermFlag::Unique => 0x04,
        PermFlag::OffsetAdd => 0x08,
        PermFlag::OffsetSub => 0x10,
    }
}

/// A set of [`PermFlag`]s, stored as a bitset.
#[derive(Clone, Copy, PartialEq, Eq, Structural, Debug, Hash, Default)]
pub struct PermissionSet {
    pub bits: u8,
}

impl PermissionSet {
    /// Whether flag `f` is in the set.
    pub open spec fn spec_has(self, f: PermFlag) -> bool {
        self.bits & flag_mask(f) != 0
    }

    /// Inclusion: every flag of `self` is also in `other`.
    pub open spec fn le(self, other: PermissionSet) -> bool {
        forall|f: PermFlag| self.spec_has(f) ==> other.spec_has(f)
    }

    /// No flag is set.
    pub open spec fn spec_is_empty(self) -> bool {
        forall|f: PermFlag| !self.spec_has(f)
    }

    /// How many flags are set; the termination measure of the refinement loop.
    pub open spec fn flag_count(self) -> nat {
        (if self.spec_has(PermFlag::Read) { 1nat } else { 0nat })
            + (if self.spec_has(PermFlag::Write) { 1nat } else { 0nat })
            + (if self.spec_has(PermFlag::Unique) { 1nat } else { 0nat })
            + (if self.spec_has(PermFlag::OffsetAdd) { 1nat } else { 0nat })
            + (if self.spec_has(PermFlag::OffsetSub) { 1nat } else { 0nat })
    }

    /// The value [`Self::remove`] leaves behind.
    pub open spec fn spec_remove(self, f: PermFlag) -> PermissionSet {
        PermissionSet { bits: self.bits & !flag_mask(f) }
    }

    /// The set with no flags.
    pub fn empty() -> (r: PermissionSet)
        ensures
            r.spec_is_empty(),
            r.flag_count() == 0,
            r.bits == 0,
    {
        proof {
            assert forall|f: PermFlag| !(PermissionSet { bits: 0u8 }).spec_has(f) by {
                let m = flag_mask(f);
                assert(0u8 & m == 0) by (bit_vector);
            }
        }
        PermissionSet { bits: 0 }
    }

    /// Whether flag `f` is in the set.
    pub fn contains(&self, f: PermFlag) -> (r: bool)
        ensures
            r == self.spec_has(f),
    {
        self.bits & mask(f) != 0
    }

    /// Whether no flag is set.
    pub fn is_empty(&self) -> (r: bool)
        ensures
            r == self.spec_is_empty(),
    {
        let b = self.bits;
        let r = b & 0x1f == 0;
        proof {
            assert((b & 0x1f == 0) <==> (b & 0x01 == 0 && b & 0x02 == 0 && b & 0x04 == 0 && b
                & 0x08 == 0 && b & 0x10 == 0)) by (bit_vector);
            if r {
                assert forall|f: PermFlag| !self.spec_has(f) by {
                    lemma_flag_cases(f);
                }
            } else {
                assert(exists|f: PermFlag| self.spec_has(f)) by {
                    if b & 0x01 != 0 {
                        assert(self.spec_has(PermFlag::Read));
                    } else if b & 0x02 != 0 {
                        assert(self.spec_has(PermFlag::Write));
                    } else if b & 0x04 != 0 {
                        assert(self.spec_has(PermFlag::Unique));
                    } else if b & 0x08 != 0 {
                        assert(self.spec_has(PermFlag::OffsetAdd));
                    } else {
                        assert(self.spec_has(PermFlag::OffsetSub));
                    }
                }
            }
        }
        r
    }

    /// Add flag `f` to the set.
    pub fn insert(&mut self, f: PermFlag)
        ensures
            final(self).spec_has(f),
            forall|g: PermFlag| g != f ==> final(self).spec_has(g) == old(self).spec_has(g),
            old(self).le(*final(self)),
            final(self).bits == old(self).bits | flag_mask(f),
    {
        let m = mask(f);
        let b = self.bits;
        self.bits = b | m;
        proof {
            assert(m != 0 ==> (b | m) & m != 0) by (bit_vector);
            lemma_flag_cases(f);
            assert forall|g: PermFlag| g != f implies (PermissionSet { bits: b | m }).spec_has(g)
                == (PermissionSet { bits: b }).spec_has(g) by {
                let n = flag_mask(g);
                lemma_masks_disjoint(f, g);
                assert(m & n == 0 ==> ((b | m) & n == b & n)) by (bit_vector);
            }
        }
    }

    /// Take flag `f` out of the set.  Removing an absent flag is a no-op.
    pub fn remove(&mut self, f: PermFlag)
        ensures
            *final(self) == old(self).spec_remove(f),
            !final(self).spec_has(f),
            forall|g: PermFlag| g != f ==> final(self).spec_has(g) == old(self).spec_has(g),
            final(self).le(*old(self)),
            old(self).spec_has(f) ==> final(self).flag_count() + 1 == old(self).flag_count(),
            !old(self).spec_has(f) ==> *final(self) == *old(self),
    {
        let m = mask(f);
        let b = self.bits;
        self.bits = b & !m;
        proof {
            assert((b & !m) & m == 0) by (bit_vector);
            assert(b & m == 0 ==> b & !m == b) by (bit_vector);
            assert forall|g: PermFlag| g != f implies (PermissionSet { bits: b & !m }).spec_has(g)
                == (PermissionSet { bits: b }).spec_has(g) by {
                let n = flag_mask(g);
                lemma_masks_disjoint(f, g);
                assert(m & n == 0 ==> ((b & !m) & n == b & n)) by (bit_vector);
            }
            lemma_flag_cases(f);
        }
    }
}

/// The masks of two distinct flags share no bit.
proof fn lemma_masks_disjoint(f: PermFlag, g: PermFlag)
    requires
        f != g,
    ensures
        flag_mask(f) & flag_mask(g) == 0,
{
    assert(0x01u8 & 0x02 == 0 && 0x01u8 & 0x04 == 0 && 0x01u8 & 0x08 == 0 && 0x01u8 & 0x10 == 0
        && 0x02u8 & 0x01 == 0 && 0x02u8 & 0x04 == 0 && 0x02u8 & 0x08 == 0 && 0x02u8 & 0x10 == 0
        && 0x04u8 & 0x01 == 0 && 0x04u8 & 0x02 == 0 && 0x04u8 & 0x08 == 0 && 0x04u8 & 0x10 == 0
        && 0x08u8 & 0x01 == 0 && 0x08u8 & 0x02 == 0 && 0x08u8 & 0x04 == 0 && 0x08u8 & 0x10 == 0
        && 0x10u8 & 0x01 == 0 && 0x10u8 & 0x02 == 0 && 0x10u8 & 0x04 == 0 && 0x10u8 & 0x08 == 0)
        by (bit_vector);
}

/// Every flag is one of the five variants; lets a `forall` over flags be
/// settled by five cases.
proof fn lemma_flag_cases(f: PermFlag)
    ensures
        f == PermFlag::Read || f == PermFlag::Write || f == PermFlag::Unique || f
            == PermFlag::OffsetAdd || f == PermFlag::OffsetSub,
{
}

} // verus!
