//! Origin assignment: rebuilding a type tree with fresh abstract regions.
//!
//! Guided by the current hypothesis, each pointer or reference node whose
//! permission set is non-empty receives a freshly minted [`Origin`];
//! pointers with no surviving permission are left untracked.  Origins are
//! allocated in a fixed outer-to-inner traversal order, so for a fixed
//! hypothesis and type the labeling is deterministic: a tracked node's
//! origin is its position in the pre-order walk of tracked nodes.

use crate::atoms::Origin;
use crate::facts::AtomMaps;
use crate::hypothesis::Hypothesis;
use crate::perm::PermissionSet;
use crate::ty::{is_ptr_desc, ty_wf, Label, LabeledTy, Ty};
use vstd::prelude::*;

verus! {

/// The permission set the hypothesis currently assigns to this node:
/// untracked nodes have none.
pub open spec fn spec_perm_of(t: Ty, h: Seq<PermissionSet>) -> PermissionSet {
    match t.ptr {
        Option::Some(p) => if p.0 < h.len() {
            h[p.0 as int]
        } else {
            PermissionSet { bits: 0 }
        },
        Option::None => PermissionSet { bits: 0 },
    }
}

/// Whether this node receives a fresh origin: a pointer or reference node
/// whose current permission set is non-empty.
pub open spec fn spec_tracked(t: Ty, h: Seq<PermissionSet>) -> bool {
    is_ptr_desc(t.desc) && !spec_perm_of(t, h).spec_is_empty()
}

/// 1 when the node itself consumes an origin.
pub open spec fn spec_node_cost(t: Ty, h: Seq<PermissionSet>) -> nat {
    if spec_tracked(t, h) {
        1nat
    } else {
        0nat
    }
}

/// How many origins relabeling this tree mints.
pub open spec fn spec_track_count(t: Ty, h: Seq<PermissionSet>) -> nat
    decreases t,
{
    spec_node_cost(t, h) + spec_track_count_seq(t.args@, h)
}

/// How many origins relabeling these sibling trees mints.
pub open spec fn spec_track_count_seq(ts: Seq<Ty>, h: Seq<PermissionSet>) -> nat
    decreases ts,
{
    if ts.len() == 0 {
        0
    } else {
        spec_track_count_seq(ts.drop_last(), h) + spec_track_count(ts.last(), h)
    }
}

/// The label of this node when the pre-order walk reaches it with `c`
/// origins already minted.
pub open spec fn spec_label_of(t: Ty, h: Seq<PermissionSet>, c: nat) -> Label {
    Label {
        origin: if spec_tracked(t, h) {
            Option::Some(Origin(c as usize))
        } else {
            Option::<Origin>::None
        },
        perm: spec_perm_of(t, h),
    }
}

/// Where the pre-order origin counter stands when it reaches child `i` of
/// this node.
pub open spec fn spec_child_base(t: Ty, h: Seq<PermissionSet>, c: nat, i: int) -> nat {
    c + spec_node_cost(t, h) + spec_track_count_seq(t.args@.take(i), h)
}

/// The full contract of relabeling: `lt` is the tree `t` rebuilt with the
/// label each node earns when the walk starts with `c` origins minted.
pub open spec fn spec_relabels(t: Ty, h: Seq<PermissionSet>, c: nat, lt: LabeledTy) -> bool
    decreases t,
{
    &&& lt.desc == t.desc
    &&& lt.label == spec_label_of(t, h, c)
    &&& lt.args@.len() == t.args@.len()
    &&& forall|i: int|
        0 <= i < t.args@.len() ==> spec_relabels(
            t.args@[i],
            h,
            spec_child_base(t, h, c, i),
            #[trigger] lt.args@[i],
        )
}

/// Structural equality of labeled trees: same constructors, same labels,
/// matching children.
pub open spec fn lty_like(a: LabeledTy, b: LabeledTy) -> bool
    decreases a,
{
    &&& a.desc == b.desc
    &&& a.label == b.label
    &&& a.args@.len() == b.args@.len()
    &&& forall|i: int| 0 <= i < a.args@.len() ==> lty_like(#[trigger] a.args@[i], b.args@[i])
}

/// Relabeling is a function of the type, the hypothesis and the counter:
/// any two trees meeting the relabeling contract coincide, so re-running
/// origin assignment on unchanged input reproduces the same labeling.
pub proof fn lemma_relabels_functional(
    t: Ty,
    h: Seq<PermissionSet>,
    c: nat,
    a: LabeledTy,
    b: LabeledTy,
)
    requires
        spec_relabels(t, h, c, a),
        spec_relabels(t, h, c, b),
    ensures
        lty_like(a, b),
    decreases t,
{
    assert forall|i: int| 0 <= i < a.args@.len() implies lty_like(
        #[trigger] a.args@[i],
        b.args@[i],
    ) by {
        lemma_relabels_functional(t.args@[i], h, spec_child_base(t, h, c, i), a.args@[i], b.args@[i]);
    }
}

/// Number of nodes of a type tree; an upper bound on the origins its
/// relabeling can mint, whatever the hypothesis says.
pub open spec fn spec_ty_size(t: Ty) -> nat
    decreases t,
{
    1 + spec_ty_size_seq(t.args@)
}

/// Number of nodes of a row of sibling trees.
pub open spec fn spec_ty_size_seq(ts: Seq<Ty>) -> nat
    decreases ts,
{
    if ts.len() == 0 {
        0
    } else {
        spec_ty_size_seq(ts.drop_last()) + spec_ty_size(ts.last())
    }
}

/// Extending a prefix of siblings by one tree adds that tree's nodes.
pub proof fn lemma_ty_size_seq_step(ts: Seq<Ty>, i: int)
    requires
        0 <= i < ts.len(),
    ensures
        spec_ty_size_seq(ts.take(i + 1)) == spec_ty_size_seq(ts.take(i)) + spec_ty_size(ts[i]),
{
    assert(ts.take(i + 1).drop_last() =~= ts.take(i));
    assert(ts.take(i + 1).last() == ts[i]);
}

/// A prefix of siblings never holds more nodes than the whole row.
pub proof fn lemma_ty_size_seq_mono(ts: Seq<Ty>, i: int)
    requires
        0 <= i <= ts.len(),
    ensures
        spec_ty_size_seq(ts.take(i)) <= spec_ty_size_seq(ts),
    decreases ts.len() - i,
{
    if i == ts.len() {
        assert(ts.take(i) =~= ts);
    } else {
        lemma_ty_size_seq_step(ts, i);
        lemma_ty_size_seq_mono(ts, i + 1);
    }
}

/// Runtime evaluation of [`spec_ty_size`]; `None` when the node count
/// does not fit the machine word.
pub fn ty_size_check(t: &Ty) -> (r: Option<usize>)
    ensures
        (match r {
            Option::Some(n) => n as nat == spec_ty_size(*t),
            Option::None => spec_ty_size(*t) > usize::MAX,
        }),
    decreases *t,
{
    let mut total: usize = 1;
    let n = t.args.len();
    let mut i: usize = 0;
    proof {
        assert(t.args@.take(0) =~= Seq::<Ty>::empty());
    }
    while i < n
        invariant
            i <= n,
            n == t.args@.len(),
            total as nat == 1 + spec_ty_size_seq(t.args@.take(i as int)),
        decreases n - i,
    {
        proof {
            lemma_ty_size_seq_step(t.args@, i as int);
            lemma_ty_size_seq_mono(t.args@, i as int + 1);
        }
        match ty_size_check(&t.args[i]) {
            Option::Some(c) => {
                match total.checked_add(c) {
                    Option::Some(s) => {
                        total = s;
                    },
                    Option::None => {
                        return Option::None;
                    },
                }
            },
            Option::None => {
                return Option::None;
            },
        }
        i += 1;
    }
    proof {
        assert(t.args@.take(n as int) =~= t.args@);
    }
    Option::Some(total)
}

/// Relabeling never mints more origins than the tree has nodes.
pub proof fn lemma_track_count_le_size(t: Ty, h: Seq<PermissionSet>)
    ensures
        spec_track_count(t, h) <= spec_ty_size(t),
    decreases t,
{
    lemma_track_count_seq_le_size_seq(t.args@, h);
}

/// Sibling version of [`lemma_track_count_le_size`].
pub proof fn lemma_track_count_seq_le_size_seq(ts: Seq<Ty>, h: Seq<PermissionSet>)
    ensures
        spec_track_count_seq(ts, h) <= spec_ty_size_seq(ts),
    decreases ts,
{
    if ts.len() > 0 {
        lemma_track_count_seq_le_size_seq(ts.drop_last(), h);
        lemma_track_count_le_size(ts.last(), h);
    }
}

/// Extending a prefix of siblings by one tree adds that tree's origins.
pub proof fn lemma_track_count_seq_step(ts: Seq<Ty>, h: Seq<PermissionSet>, i: int)
    requires
        0 <= i < ts.len(),
    ensures
        spec_track_count_seq(ts.take(i + 1), h) == spec_track_count_seq(ts.take(i), h)
            + spec_track_count(ts[i], h),
{
    assert(ts.take(i + 1).drop_last() =~= ts.take(i));
    assert(ts.take(i + 1).last() == ts[i]);
}

/// A prefix of siblings never mints more origins than the whole row.
pub proof fn lemma_track_count_seq_mono(ts: Seq<Ty>, h: Seq<PermissionSet>, i: int)
    requires
        0 <= i <= ts.len(),
    ensures
        spec_track_count_seq(ts.take(i), h) <= spec_track_count_seq(ts, h),
    decreases ts.len() - i,
{
    if i == ts.len() {
        assert(ts.take(i) =~= ts);
    } else {
        lemma_track_count_seq_step(ts, h, i);
        lemma_track_count_seq_mono(ts, h, i + 1);
    }
}

/// Rebuild the type tree `lty` with a fresh label on every node: a newly
/// minted origin on each tracked pointer node, and the node's current
/// permission set read from the hypothesis.
pub fn assign_origins(hypothesis: &Hypothesis, maps: &mut AtomMaps, lty: &Ty) -> (r: LabeledTy)
    requires
        ty_wf(*lty, hypothesis@.len() as nat),
        old(maps).n_origins + spec_track_count(*lty, hypothesis@) <= usize::MAX,
    ensures
        spec_relabels(*lty, hypothesis@, old(maps).n_origins as nat, r),
        final(maps).n_origins == old(maps).n_origins + spec_track_count(*lty, hypothesis@),
        final(maps).points == old(maps).points,
        final(maps).block_offsets == old(maps).block_offsets,
        final(maps).paths == old(maps).paths,
        final(maps).n_loans == old(maps).n_loans,
    decreases *lty,
{
    let ghost h = hypothesis@;
    let ghost c = maps.n_origins as nat;
    let perm = match lty.ptr {
        Option::Some(p) => hypothesis.get(p),
        Option::None => PermissionSet::empty(),
    };
    let tracked_here = match lty.desc {
        crate::ty::TyDesc::Ref(_) => !perm.is_empty(),
        crate::ty::TyDesc::RawPtr(_) => !perm.is_empty(),
        _ => false,
    };
    assert(tracked_here == spec_tracked(*lty, h));
    assert(perm == spec_perm_of(*lty, h));
    let origin = if tracked_here {
        Option::Some(maps.origin())
    } else {
        Option::<Origin>::None
    };
    let label = Label { origin, perm };
    assert(label == spec_label_of(*lty, h, c));
    let n = lty.args.len();
    let mut args: Vec<LabeledTy> = Vec::new();
    let mut i: usize = 0;
    proof {
        assert(lty.args@.take(0) =~= Seq::<Ty>::empty());
    }
    while i < n
        invariant
            i <= n,
            n == lty.args@.len(),
            ty_wf(*lty, h.len() as nat),
            h == hypothesis@,
            c + spec_track_count(*lty, h) <= usize::MAX,
            args@.len() == i,
            maps.n_origins as nat == spec_child_base(*lty, h, c, i as int),
            forall|j: int|
                0 <= j < i ==> spec_relabels(
                    lty.args@[j],
                    h,
                    spec_child_base(*lty, h, c, j),
                    #[trigger] args@[j],
                ),
            maps.points == old(maps).points,
            maps.block_offsets == old(maps).block_offsets,
            maps.paths == old(maps).paths,
            maps.n_loans == old(maps).n_loans,
        decreases n - i,
    {
        proof {
            lemma_track_count_seq_step(lty.args@, h, i as int);
            lemma_track_count_seq_mono(lty.args@, h, i as int + 1);
        }
        let child = assign_origins(hypothesis, maps, &lty.args[i]);
        args.push(child);
        i += 1;
    }
    proof {
        assert(lty.args@.take(n as int) =~= lty.args@);
        lemma_track_count_seq_mono(lty.args@, h, n as int);
    }
    LabeledTy { desc: lty.desc, label, args }
}

} // verus!
