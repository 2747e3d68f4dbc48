//! The hypothesis store: the analysis's current best guess of each
//! pointer's permission set.
//!
//! A `Hypothesis` is a dense table indexed by [`PointerId`].  It is the only
//! state that survives from one loop iteration to the next, and within the
//! loop it only ever shrinks: flags are removed, never added.

use crate::atoms::PointerId;
use crate::perm::{PermFlag, PermissionSet};
use vstd::prelude::*;

verus! {

/// Pointwise inclusion of two permission tables of equal size.
pub open spec fn hyp_le(a: Seq<PermissionSet>, b: Seq<PermissionSet>) -> bool {
    &&& a.len() == b.len()
    &&& forall|i: int| 0 <= i < a.len() ==> #[trigger] a[i].le(b[i])
}

/// Total number of permission flags held across the table; the termination
/// measure of the refinement loop.
pub open spec fn sum_flags(s: Seq<PermissionSet>) -> nat
    decreases s.len(),
{
    if s.len() == 0 {
        0
    } else {
        sum_flags(s.drop_last()) + s.last().flag_count()
    }
}

/// Inclusion is transitive.
pub proof fn lemma_hyp_le_trans(a: Seq<PermissionSet>, b: Seq<PermissionSet>, c: Seq<
    PermissionSet,
>)
    requires
        hyp_le(a, b),
        hyp_le(b, c),
    ensures
        hyp_le(a, c),
{
    assert forall|i: int| 0 <= i < a.len() implies #[trigger] a[i].le(c[i]) by {
        assert(a[i].le(b[i]));
        assert(b[i].le(c[i]));
    }
}

/// A smaller permission set holds at most as many flags.
pub proof fn lemma_perm_count_le(p: PermissionSet, q: PermissionSet)
    requires
        p.le(q),
    ensures
        p.flag_count() <= q.flag_count(),
{
    assert(p.spec_has(PermFlag::Read) ==> q.spec_has(PermFlag::Read));
    assert(p.spec_has(PermFlag::Write) ==> q.spec_has(PermFlag::Write));
    assert(p.spec_has(PermFlag::Unique) ==> q.spec_has(PermFlag::Unique));
    assert(p.spec_has(PermFlag::OffsetAdd) ==> q.spec_has(PermFlag::OffsetAdd));
    assert(p.spec_has(PermFlag::OffsetSub) ==> q.spec_has(PermFlag::OffsetSub));
}

/// A pointwise-smaller table holds at most as many flags in total.
pub proof fn lemma_sum_flags_le(a: Seq<PermissionSet>, b: Seq<PermissionSet>)
    requires
        hyp_le(a, b),
    ensures
        sum_flags(a) <= sum_flags(b),
    decreases a.len(),
{
    if a.len() > 0 {
        assert forall|i: int| 0 <= i < a.drop_last().len() implies #[trigger] a.drop_last()[i].le(
            b.drop_last()[i],
        ) by {
            assert(a[i].le(b[i]));
        }
        lemma_sum_flags_le(a.drop_last(), b.drop_last());
        assert(a.last().le(b.last()));
        lemma_perm_count_le(a.last(), b.last());
    }
}

/// The flag total is bounded by the number of pointers times the number
/// of permission flags.
pub proof fn lemma_sum_flags_bound(s: Seq<PermissionSet>)
    ensures
        sum_flags(s) <= 5 * s.len(),
    decreases s.len(),
{
    if s.len() > 0 {
        lemma_sum_flags_bound(s.drop_last());
    }
}

/// Replacing one entry changes the flag total by the difference at that
/// entry.
pub proof fn lemma_sum_flags_update(s: Seq<PermissionSet>, i: int, v: PermissionSet)
    requires
        0 <= i < s.len(),
    ensures
        sum_flags(s.update(i, v)) + s[i].flag_count() == sum_flags(s) + v.flag_count(),
    decreases s.len(),
{
    let t = s.update(i, v);
    if i == s.len() - 1 {
        assert(t.drop_last() =~= s.drop_last());
        assert(t.last() == v);
    } else {
        assert(t.drop_last() =~= s.drop_last().update(i, v));
        assert(t.last() == s.last());
        lemma_sum_flags_update(s.drop_last(), i, v);
    }
}

/// The current working mapping from [`PointerId`] to [`PermissionSet`].
#[derive(Clone, PartialEq, Eq, Debug)]
pub struct Hypothesis {
    /// One permission set per pointer, indexed by `PointerId`.
    pub perms: Vec<PermissionSet>,
}

impl View for Hypothesis {
    type V = Seq<PermissionSet>;

    open spec fn view(&self) -> Seq<PermissionSet> {
        self.perms@
    }
}

impl Hypothesis {
    /// Wrap an initial permission table.
    pub fn new(perms: Vec<PermissionSet>) -> (r: Hypothesis)
        ensures
            r@ == perms@,
    {
        Hypothesis { perms }
    }

    /// Number of tracked pointers.
    pub fn len(&self) -> (r: usize)
        ensures
            r == self@.len(),
    {
        self.perms.len()
    }

    /// The permission set currently assigned to `p`.
    pub fn get(&self, p: PointerId) -> (r: PermissionSet)
        requires
            p.0 < self@.len(),
        ensures
            r == self@[p.0 as int],
    {
        self.perms[p.0]
    }

    /// Whether pointer `p` currently holds flag `f`.
    pub fn contains(&self, p: PointerId, f: PermFlag) -> (r: bool)
        requires
            p.0 < self@.len(),
        ensures
            r == self@[p.0 as int].spec_has(f),
    {
        self.perms[p.0].contains(f)
    }

    /// Remove flag `f` from pointer `p`; reports whether the flag was
    /// actually held.  The table never grows: the new value is included in
    /// the old one, and when a flag was removed the flag total drops by
    /// exactly one.
    pub fn remove_flag(&mut self, p: PointerId, f: PermFlag) -> (changed: bool)
        requires
            p.0 < old(self)@.len(),
        ensures
            changed == old(self)@[p.0 as int].spec_has(f),
            final(self)@ == old(self)@.update(p.0 as int, old(self)@[p.0 as int].spec_remove(f)),
            hyp_le(final(self)@, old(self)@),
            changed ==> sum_flags(final(self)@) + 1 == sum_flags(old(self)@),
            !changed ==> final(self)@ == old(self)@,
    {
        let ghost before = self@;
        let i = p.0;
        let had = self.perms[i].contains(f);
        let slot = &mut self.perms[i];
        slot.remove(f);
        proof {
            let after = self@;
            assert(after =~= before.update(i as int, before[i as int].spec_remove(f)));
            assert forall|j: int| 0 <= j < after.len() implies #[trigger] after[j].le(
                before[j],
            ) by {
                if j != i as int {
                    assert(after[j] == before[j]);
                }
            }
            lemma_sum_flags_update(before, i as int, before[i as int].spec_remove(f));
            if !had {
                assert(after =~= before);
            }
        }
        had
    }
}

} // verus!
