//! The fact translator: from one function body and one hypothesis
//! snapshot to the complete control-flow and initial-state fact set the
//! external solver needs.
//!
//! For every statement and terminator slot two points are emitted (start
//! and mid) with the edges start-to-mid and mid-to-next-start; a
//! terminator's mid point additionally flows to the start of every
//! successor block.  Every formal parameter is assigned at the entry
//! point, every other local starts out moved (deinitialized).  Each
//! local's type is relabeled with fresh origins, and every origin-bearing
//! node contributes one variable-dereferences-origin fact.
//!
//! Every identity produced here is a deterministic function of the body
//! and the hypothesis: re-running the translation yields an equal fact
//! set.

use crate::atoms::{Origin, PathId, Point, SubPoint, Variable};
use crate::body::{BasicBlock, Body, Place, PlaceElem};
use crate::facts::{
    lemma_find_path_missing, spec_points_upto, spec_pt, spec_slots_before, AllFacts, AtomMaps,
};
use crate::hypothesis::Hypothesis;
use crate::perm::PermissionSet;
use crate::relabel::{assign_origins, spec_relabels, spec_track_count};
use crate::ty::{LabeledTy, Ty};
use vstd::prelude::*;

verus! {

/// The edges of the first `k` statement slots of block `b`: start to mid,
/// and mid to the next slot's start.
pub open spec fn spec_stmt_edges(blocks: Seq<BasicBlock>, b: int, k: int) -> Seq<(Point, Point)>
    decreases k,
{
    if k <= 0 {
        Seq::empty()
    } else {
        spec_stmt_edges(blocks, b, k - 1).push(
            (spec_pt(blocks, b, k - 1, SubPoint::Start), spec_pt(blocks, b, k - 1, SubPoint::Mid)),
        ).push(
            (spec_pt(blocks, b, k - 1, SubPoint::Mid), spec_pt(blocks, b, k, SubPoint::Start)),
        )
    }
}

/// The edges from block `b`'s terminator mid point to the start of its
/// first `s` successors.
pub open spec fn spec_succ_edges(blocks: Seq<BasicBlock>, b: int, s: int) -> Seq<(Point, Point)>
    decreases s,
{
    if s <= 0 {
        Seq::empty()
    } else {
        let t = blocks[b].statements@.len() as int;
        spec_succ_edges(blocks, b, s - 1).push(
            (
                spec_pt(blocks, b, t, SubPoint::Mid),
                spec_pt(blocks, blocks[b].terminator.successors@[s - 1] as int, 0, SubPoint::Start),
            ),
        )
    }
}

/// All control-flow edges contributed by block `b`.
pub open spec fn spec_block_edges(blocks: Seq<BasicBlock>, b: int) -> Seq<(Point, Point)> {
    let t = blocks[b].statements@.len() as int;
    spec_stmt_edges(blocks, b, t).push(
        (spec_pt(blocks, b, t, SubPoint::Start), spec_pt(blocks, b, t, SubPoint::Mid)),
    ) + spec_succ_edges(blocks, b, blocks[b].terminator.successors@.len() as int)
}

/// The control-flow edges of the first `b` blocks.
pub open spec fn spec_edges_upto(blocks: Seq<BasicBlock>, b: int) -> Seq<(Point, Point)>
    decreases b,
{
    if b <= 0 {
        Seq::empty()
    } else {
        spec_edges_upto(blocks, b - 1) + spec_block_edges(blocks, b - 1)
    }
}

/// The complete control-flow edge relation of the body.
pub open spec fn spec_cfg_edges(blocks: Seq<BasicBlock>) -> Seq<(Point, Point)> {
    spec_edges_upto(blocks, blocks.len() as int)
}

/// The function's unique entry point: the start point of slot 0 of block
/// 0.
pub open spec fn spec_entry(blocks: Seq<BasicBlock>) -> Point {
    spec_pt(blocks, 0, 0, SubPoint::Start)
}

/// Initial-definedness facts for the first `l` locals that are formal
/// parameters: assigned at the entry point.
pub open spec fn spec_assigned_upto(body: Body, l: int) -> Seq<(PathId, Point)>
    decreases l,
{
    if l <= 0 {
        Seq::empty()
    } else if body.is_arg(l - 1) {
        spec_assigned_upto(body, l - 1).push(
            (PathId((l - 1) as usize), spec_entry(body.blocks@)),
        )
    } else {
        spec_assigned_upto(body, l - 1)
    }
}

/// Initial-definedness facts for the first `l` locals that are not formal
/// parameters: moved (deinitialized) at the entry point.
pub open spec fn spec_moved_upto(body: Body, l: int) -> Seq<(PathId, Point)>
    decreases l,
{
    if l <= 0 {
        Seq::empty()
    } else if body.is_arg(l - 1) {
        spec_moved_upto(body, l - 1)
    } else {
        spec_moved_upto(body, l - 1).push((PathId((l - 1) as usize), spec_entry(body.blocks@)))
    }
}

/// The path-roots-at-variable facts of the first `l` locals' base paths.
pub open spec fn spec_path_var_upto(l: int) -> Seq<(PathId, Variable)>
    decreases l,
{
    if l <= 0 {
        Seq::empty()
    } else {
        spec_path_var_upto(l - 1).push((PathId((l - 1) as usize), Variable((l - 1) as usize)))
    }
}

/// Where the origin counter stands before local `l`'s type is relabeled.
/// The first three origin ids are left unused by convention.
pub open spec fn spec_origin_base(locals: Seq<Ty>, h: Seq<PermissionSet>, l: int) -> nat
    decreases l,
{
    if l <= 0 {
        3
    } else {
        spec_origin_base(locals, h, l - 1) + spec_track_count(locals[l - 1], h)
    }
}

/// The origin counter only moves forward over locals.
pub proof fn lemma_origin_base_mono(locals: Seq<Ty>, h: Seq<PermissionSet>, l: int, m: int)
    requires
        0 <= l <= m,
    ensures
        spec_origin_base(locals, h, l) <= spec_origin_base(locals, h, m),
    decreases m,
{
    if l < m {
        lemma_origin_base_mono(locals, h, l, m - 1);
    }
}

/// A hypothesis-independent upper bound on [`spec_origin_base`]: the
/// reserved ids plus the node count of every earlier local's type.
pub open spec fn spec_size_base(locals: Seq<Ty>, l: int) -> nat
    decreases l,
{
    if l <= 0 {
        3
    } else {
        spec_size_base(locals, l - 1) + crate::relabel::spec_ty_size(locals[l - 1])
    }
}

/// The bound only grows over locals.
pub proof fn lemma_size_base_mono(locals: Seq<Ty>, l: int, m: int)
    requires
        0 <= l <= m,
    ensures
        spec_size_base(locals, l) <= spec_size_base(locals, m),
    decreases m,
{
    if l < m {
        lemma_size_base_mono(locals, l, m - 1);
    }
}

/// Runtime check that the origin counter cannot overflow on these
/// locals: evaluates the hypothesis-independent bound
/// [`spec_size_base`], so that a caller that received the body from an
/// unverified provider can test the machine limit before running the
/// analysis.
pub fn check_size_base(locals: &Vec<Ty>) -> (r: bool)
    ensures
        r == (spec_size_base(locals@, locals@.len() as int) <= usize::MAX),
{
    let n = locals.len();
    let mut total: usize = 3;
    let mut l: usize = 0;
    while l < n
        invariant
            l <= n,
            n == locals@.len(),
            total as nat == spec_size_base(locals@, l as int),
        decreases n - l,
    {
        proof {
            lemma_size_base_mono(locals@, l as int + 1, n as int);
        }
        match crate::relabel::ty_size_check(&locals[l]) {
            Option::Some(c) => {
                match total.checked_add(c) {
                    Option::Some(s) => {
                        total = s;
                    },
                    Option::None => {
                        return false;
                    },
                }
            },
            Option::None => {
                return false;
            },
        }
        l += 1;
    }
    true
}

/// The origin counter never exceeds its hypothesis-independent bound.
pub proof fn lemma_origin_base_le_size_base(locals: Seq<Ty>, h: Seq<PermissionSet>, l: int)
    ensures
        spec_origin_base(locals, h, l) <= spec_size_base(locals, l),
    decreases l,
{
    if l > 0 {
        lemma_origin_base_le_size_base(locals, h, l - 1);
        crate::relabel::lemma_track_count_le_size(locals[l - 1], h);
    }
}

/// The variable-dereferences-origin facts of the first `l` locals: one
/// fact per origin minted while relabeling the local's type.
pub open spec fn spec_var_origin_facts(locals: Seq<Ty>, h: Seq<PermissionSet>, l: int) -> Seq<
    (Variable, Origin),
>
    decreases l,
{
    if l <= 0 {
        Seq::empty()
    } else {
        spec_var_origin_facts(locals, h, l - 1) + Seq::new(
            spec_track_count(locals[l - 1], h),
            |k: int| (Variable((l - 1) as usize), Origin((spec_origin_base(locals, h, l - 1) + k) as usize)),
        )
    }
}

/// The complete characterization of the fact set [`translate`] produces
/// from a body and a hypothesis snapshot.  Loan, invalidation and
/// definition/use facts are left for the statement-level fact populators.
pub open spec fn spec_translated_facts(body: Body, h: Seq<PermissionSet>, facts: AllFacts) -> bool {
    &&& facts.cfg_edge@ == spec_cfg_edges(body.blocks@)
    &&& facts.path_is_var@ == spec_path_var_upto(body.locals@.len() as int)
    &&& facts.path_assigned_at_base@ == spec_assigned_upto(body, body.locals@.len() as int)
    &&& facts.path_moved_at_base@ == spec_moved_upto(body, body.locals@.len() as int)
    &&& facts.use_of_var_derefs_origin@ == spec_var_origin_facts(
        body.locals@,
        h,
        body.locals@.len() as int,
    )
    &&& facts.loan_issued_at@.len() == 0
    &&& facts.loan_killed_at@.len() == 0
    &&& facts.subset_base@.len() == 0
    &&& facts.loan_invalidated_at@.len() == 0
    &&& facts.var_used_at@.len() == 0
    &&& facts.var_defined_at@.len() == 0
    &&& facts.var_dropped_at@.len() == 0
    &&& facts.path_accessed_at_base@.len() == 0
}

/// The fact set is a function of the body and the hypothesis snapshot
/// alone: any two translations of the same input coincide.
pub proof fn lemma_translation_deterministic(
    body: Body,
    h: Seq<PermissionSet>,
    f1: AllFacts,
    f2: AllFacts,
)
    requires
        spec_translated_facts(body, h, f1),
        spec_translated_facts(body, h, f2),
    ensures
        f1.cfg_edge@ == f2.cfg_edge@,
        f1.path_is_var@ == f2.path_is_var@,
        f1.path_assigned_at_base@ == f2.path_assigned_at_base@,
        f1.path_moved_at_base@ == f2.path_moved_at_base@,
        f1.use_of_var_derefs_origin@ == f2.use_of_var_derefs_origin@,
        f1.loan_issued_at@ =~= f2.loan_issued_at@,
{
    assert(f1.loan_issued_at@ =~= f2.loan_issued_at@);
}

/// Translate one function body, under the current hypothesis, into the
/// point/path/origin fact model: the point tables, the control-flow
/// edges, the initial definedness of every local, and each local's
/// relabeled type with its origin facts.
#[verifier::loop_isolation(false)]
pub fn translate(body: &Body, hypothesis: &Hypothesis) -> (r: (AllFacts, AtomMaps, Vec<LabeledTy>))
    requires
        body.wf(hypothesis@.len() as nat),
        spec_origin_base(body.locals@, hypothesis@, body.locals@.len() as int) <= usize::MAX,
    ensures
        spec_translated_facts(*body, hypothesis@, r.0),
        r.1.wf_for(body.blocks@),
        r.1.paths@.len() == body.locals@.len(),
        forall|l: int|
            0 <= l < body.locals@.len() ==> (#[trigger] r.1.paths@[l]).local == l
                && r.1.paths@[l].projection@.len() == 0,
        r.1.n_loans == 0,
        r.1.n_origins as int == spec_origin_base(
            body.locals@,
            hypothesis@,
            body.locals@.len() as int,
        ),
        r.2@.len() == body.locals@.len(),
        forall|l: int|
            0 <= l < body.locals@.len() ==> spec_relabels(
                body.locals@[l],
                hypothesis@,
                spec_origin_base(body.locals@, hypothesis@, l),
                #[trigger] r.2@[l],
            ),
{
    let ghost blocks = body.blocks@;
    let ghost h = hypothesis@;
    let mut facts = AllFacts::new();
    let mut maps = AtomMaps::new();
    proof {
        assert(facts.cfg_edge@ =~= Seq::<(Point, Point)>::empty());
        assert(facts.path_is_var@ =~= Seq::<(PathId, Variable)>::empty());
        assert(facts.path_assigned_at_base@ =~= Seq::<(PathId, Point)>::empty());
        assert(facts.path_moved_at_base@ =~= Seq::<(PathId, Point)>::empty());
        assert(facts.use_of_var_derefs_origin@ =~= Seq::<(Variable, Origin)>::empty());
        assert(maps.points@ =~= spec_points_upto(blocks, 0));
    }

    // Point tables: slots are numbered block by block, two points per
    // slot, start directly before mid.
    let nb = body.blocks.len();
    let mut off: usize = 0;
    let mut b: usize = 0;
    while b < nb
        invariant
            b <= nb,
            maps.block_offsets@.len() == b,
            forall|bb: int|
                0 <= bb < b ==> (#[trigger] maps.block_offsets@[bb]) as int == spec_slots_before(
                    blocks,
                    bb,
                ),
            off as int == spec_slots_before(blocks, b as int),
            maps.points@ == spec_points_upto(blocks, b as int),
            maps.points@.len() == 2 * spec_slots_before(blocks, b as int),
            maps.paths@.len() == 0,
            maps.n_origins == 0,
            maps.n_loans == 0,
        decreases nb - b,
    {
        push_block_points(body, &mut maps, b, off);
        off = maps.points.len() / 2;
        b += 1;
    }
    proof {
        crate::facts::lemma_points_upto_len(blocks, nb as int);
        assert(maps.wf_for(blocks));
    }

    // Control-flow edges.
    let mut b: usize = 0;
    while b < nb
        invariant
            b <= nb,
            facts.cfg_edge@ == spec_edges_upto(blocks, b as int),
            facts.path_is_var@.len() == 0,
            facts.path_assigned_at_base@.len() == 0,
            facts.path_moved_at_base@.len() == 0,
            facts.use_of_var_derefs_origin@.len() == 0,
            facts.loan_issued_at@.len() == 0,
            facts.loan_killed_at@.len() == 0,
            facts.subset_base@.len() == 0,
            facts.loan_invalidated_at@.len() == 0,
            facts.var_used_at@.len() == 0,
            facts.var_defined_at@.len() == 0,
            facts.var_dropped_at@.len() == 0,
            facts.path_accessed_at_base@.len() == 0,
        decreases nb - b,
    {
        push_block_edges(body, &maps, &mut facts, b);
        b += 1;
    }
    proof {
        assert(facts.path_is_var@ =~= Seq::<(PathId, Variable)>::empty());
        assert(facts.path_assigned_at_base@ =~= Seq::<(PathId, Point)>::empty());
        assert(facts.path_moved_at_base@ =~= Seq::<(PathId, Point)>::empty());
        assert(facts.use_of_var_derefs_origin@ =~= Seq::<(Variable, Origin)>::empty());
    }

    // Initial definedness: parameters are assigned at the entry point,
    // all other locals start out moved.
    let entry = maps.point(Ghost(blocks), 0, 0, SubPoint::Start);
    let n_locals = body.locals.len();
    let mut l: usize = 0;
    while l < n_locals
        invariant
            l <= n_locals,
            maps.wf_for(blocks),
            maps.n_origins == 0,
            maps.n_loans == 0,
            maps.paths@.len() == l,
            forall|j: int|
                0 <= j < l ==> (#[trigger] maps.paths@[j]).local == j
                    && maps.paths@[j].projection@.len() == 0,
            facts.cfg_edge@ == spec_cfg_edges(blocks),
            facts.path_is_var@ == spec_path_var_upto(l as int),
            facts.path_assigned_at_base@ == spec_assigned_upto(*body, l as int),
            facts.path_moved_at_base@ == spec_moved_upto(*body, l as int),
            facts.use_of_var_derefs_origin@.len() == 0,
            facts.loan_issued_at@.len() == 0,
            facts.loan_killed_at@.len() == 0,
            facts.subset_base@.len() == 0,
            facts.loan_invalidated_at@.len() == 0,
            facts.var_used_at@.len() == 0,
            facts.var_defined_at@.len() == 0,
            facts.var_dropped_at@.len() == 0,
            facts.path_accessed_at_base@.len() == 0,
        decreases n_locals - l,
    {
        let place = Place { local: l, projection: Vec::<PlaceElem>::new() };
        proof {
            assert forall|j: int| 0 <= j < maps.paths@.len() implies !crate::body::place_matches(
                #[trigger] maps.paths@[j],
                place,
            ) by {}
            lemma_find_path_missing(maps.paths@, place);
        }
        let path = maps.path(&mut facts, place);
        if 1 <= l && l <= body.arg_count {
            facts.path_assigned_at_base.push((path, entry));
        } else {
            facts.path_moved_at_base.push((path, entry));
        }
        l += 1;
    }

    // Leave the first three origin ids unused, by numbering convention.
    proof {
        lemma_origin_base_mono(body.locals@, h, 0, n_locals as int);
    }
    let _ = maps.origin();
    let _ = maps.origin();
    let _ = maps.origin();

    // Relabel every local's type with fresh origins and record which
    // regions each variable's uses may dereference.
    let mut local_ltys: Vec<LabeledTy> = Vec::new();
    let mut l: usize = 0;
    while l < n_locals
        invariant
            l <= n_locals,
            maps.wf_for(blocks),
            maps.n_loans == 0,
            maps.paths@.len() == n_locals,
            forall|j: int|
                0 <= j < n_locals ==> (#[trigger] maps.paths@[j]).local == j
                    && maps.paths@[j].projection@.len() == 0,
            maps.n_origins as int == spec_origin_base(body.locals@, h, l as int),
            local_ltys@.len() == l,
            forall|j: int|
                0 <= j < l ==> spec_relabels(
                    body.locals@[j],
                    h,
                    spec_origin_base(body.locals@, h, j),
                    #[trigger] local_ltys@[j],
                ),
            facts.cfg_edge@ == spec_cfg_edges(blocks),
            facts.path_is_var@ == spec_path_var_upto(n_locals as int),
            facts.path_assigned_at_base@ == spec_assigned_upto(*body, n_locals as int),
            facts.path_moved_at_base@ == spec_moved_upto(*body, n_locals as int),
            facts.use_of_var_derefs_origin@ == spec_var_origin_facts(body.locals@, h, l as int),
            facts.loan_issued_at@.len() == 0,
            facts.loan_killed_at@.len() == 0,
            facts.subset_base@.len() == 0,
            facts.loan_invalidated_at@.len() == 0,
            facts.var_used_at@.len() == 0,
            facts.var_defined_at@.len() == 0,
            facts.var_dropped_at@.len() == 0,
            facts.path_accessed_at_base@.len() == 0,
        decreases n_locals - l,
    {
        proof {
            lemma_origin_base_mono(body.locals@, h, l as int + 1, n_locals as int);
        }
        let c0 = maps.n_origins;
        let lty = assign_origins(hypothesis, &mut maps, &body.locals[l]);
        let c1 = maps.n_origins;
        let ghost count = spec_track_count(body.locals@[l as int], h);
        let ghost segment = Seq::new(
            count,
            |k: int| (Variable(l), Origin((spec_origin_base(body.locals@, h, l as int) + k) as usize)),
        );
        let var = maps.variable(l);
        let mut j: usize = c0;
        proof {
            assert(facts.use_of_var_derefs_origin@ == spec_var_origin_facts(body.locals@, h, l as int)
                + segment.take(0));
        }
        while j < c1
            invariant
                c0 <= j <= c1,
                c1 as int == c0 as int + count,
                maps.n_origins == c1,
                facts.use_of_var_derefs_origin@ == spec_var_origin_facts(
                    body.locals@,
                    h,
                    l as int,
                ) + segment.take(j as int - c0 as int),
                facts.cfg_edge@ == spec_cfg_edges(blocks),
                facts.path_is_var@ == spec_path_var_upto(n_locals as int),
                facts.path_assigned_at_base@ == spec_assigned_upto(*body, n_locals as int),
                facts.path_moved_at_base@ == spec_moved_upto(*body, n_locals as int),
                facts.loan_issued_at@.len() == 0,
                facts.loan_killed_at@.len() == 0,
                facts.subset_base@.len() == 0,
                facts.loan_invalidated_at@.len() == 0,
                facts.var_used_at@.len() == 0,
                facts.var_defined_at@.len() == 0,
                facts.var_dropped_at@.len() == 0,
                facts.path_accessed_at_base@.len() == 0,
            decreases c1 - j,
        {
            facts.use_of_var_derefs_origin.push((var, Origin(j)));
            proof {
                assert(segment.take(j as int - c0 as int + 1) =~= segment.take(
                    j as int - c0 as int,
                ).push(segment[j as int - c0 as int]));
            }
            j += 1;
        }
        proof {
            assert(segment.take(count as int) =~= segment);
        }
        local_ltys.push(lty);
        l += 1;
    }

    (facts, maps, local_ltys)
}

/// Append block `b`'s point descriptors and its slot offset to the
/// tables.
#[verifier::loop_isolation(false)]
fn push_block_points(body: &Body, maps: &mut AtomMaps, b: usize, off: usize)
    requires
        b < body.blocks@.len(),
        off as int == spec_slots_before(body.blocks@, b as int),
        old(maps).block_offsets@.len() == b,
        old(maps).points@ == spec_points_upto(body.blocks@, b as int),
        old(maps).points@.len() == 2 * spec_slots_before(body.blocks@, b as int),
    ensures
        final(maps).block_offsets@ == old(maps).block_offsets@.push(off),
        final(maps).points@ == spec_points_upto(body.blocks@, b as int + 1),
        final(maps).points@.len() == 2 * spec_slots_before(body.blocks@, b as int + 1),
        final(maps).paths == old(maps).paths,
        final(maps).n_origins == old(maps).n_origins,
        final(maps).n_loans == old(maps).n_loans,
{
    let ghost blocks = body.blocks@;
    let ghost bp = crate::facts::spec_block_points(blocks[b as int], b as int);
    maps.block_offsets.push(off);
    let stmts = body.blocks[b].statements.len();
    let mut idx: usize = 0;
    proof {
        assert(maps.points@ =~= spec_points_upto(blocks, b as int) + bp.take(0));
    }
    while idx < stmts
        invariant
            idx <= stmts,
            maps.points@ == spec_points_upto(blocks, b as int) + bp.take(2 * idx as int),
            maps.block_offsets@ == old(maps).block_offsets@.push(off),
            maps.paths == old(maps).paths,
            maps.n_origins == old(maps).n_origins,
            maps.n_loans == old(maps).n_loans,
        decreases stmts - idx,
    {
        maps.points.push((b, idx, SubPoint::Start));
        maps.points.push((b, idx, SubPoint::Mid));
        proof {
            let k = 2 * idx as int;
            assert(bp[k] == (b, idx, SubPoint::Start));
            assert(bp[k + 1] == (b, idx, SubPoint::Mid));
            assert(bp.take(k + 2) =~= bp.take(k).push(bp[k]).push(bp[k + 1]));
        }
        idx += 1;
    }
    maps.points.push((b, stmts, SubPoint::Start));
    maps.points.push((b, stmts, SubPoint::Mid));
    proof {
        let k = 2 * stmts as int;
        assert(bp[k] == (b, stmts, SubPoint::Start));
        assert(bp[k + 1] == (b, stmts, SubPoint::Mid));
        assert(bp.take(k + 2) =~= bp.take(k).push(bp[k]).push(bp[k + 1]));
        assert(bp.take(2 * (stmts + 1) as int) =~= bp);
        assert(maps.points@ == spec_points_upto(blocks, b as int) + bp);
        assert(maps.points@ == spec_points_upto(blocks, b as int + 1));
    }
}

/// Append block `b`'s control-flow edges to the fact set.
#[verifier::loop_isolation(false)]
fn push_block_edges(body: &Body, maps: &AtomMaps, facts: &mut AllFacts, b: usize)
    requires
        maps.wf_for(body.blocks@),
        b < body.blocks@.len(),
        forall|s: int|
            0 <= s < body.blocks@[b as int].terminator.successors@.len() ==> (
            #[trigger] body.blocks@[b as int].terminator.successors@[s]) < body.blocks@.len(),
    ensures
        final(facts).cfg_edge@ == old(facts).cfg_edge@ + spec_block_edges(body.blocks@, b as int),
        final(facts).loan_issued_at == old(facts).loan_issued_at,
        final(facts).loan_killed_at == old(facts).loan_killed_at,
        final(facts).subset_base == old(facts).subset_base,
        final(facts).loan_invalidated_at == old(facts).loan_invalidated_at,
        final(facts).var_used_at == old(facts).var_used_at,
        final(facts).var_defined_at == old(facts).var_defined_at,
        final(facts).var_dropped_at == old(facts).var_dropped_at,
        final(facts).use_of_var_derefs_origin == old(facts).use_of_var_derefs_origin,
        final(facts).path_is_var == old(facts).path_is_var,
        final(facts).path_assigned_at_base == old(facts).path_assigned_at_base,
        final(facts).path_moved_at_base == old(facts).path_moved_at_base,
        final(facts).path_accessed_at_base == old(facts).path_accessed_at_base,
{
    let ghost blocks = body.blocks@;
    let stmts = body.blocks[b].statements.len();
    let mut idx: usize = 0;
    while idx < stmts
        invariant
            idx <= stmts,
            facts.cfg_edge@ == old(facts).cfg_edge@ + spec_stmt_edges(blocks, b as int, idx as int),
            facts.loan_issued_at == old(facts).loan_issued_at,
            facts.loan_killed_at == old(facts).loan_killed_at,
            facts.subset_base == old(facts).subset_base,
            facts.loan_invalidated_at == old(facts).loan_invalidated_at,
            facts.var_used_at == old(facts).var_used_at,
            facts.var_defined_at == old(facts).var_defined_at,
            facts.var_dropped_at == old(facts).var_dropped_at,
            facts.use_of_var_derefs_origin == old(facts).use_of_var_derefs_origin,
            facts.path_is_var == old(facts).path_is_var,
            facts.path_assigned_at_base == old(facts).path_assigned_at_base,
            facts.path_moved_at_base == old(facts).path_moved_at_base,
            facts.path_accessed_at_base == old(facts).path_accessed_at_base,
        decreases stmts - idx,
    {
        let start = maps.point(Ghost(blocks), b, idx, SubPoint::Start);
        let mid = maps.point(Ghost(blocks), b, idx, SubPoint::Mid);
        let next_start = maps.point(Ghost(blocks), b, idx + 1, SubPoint::Start);
        facts.cfg_edge.push((start, mid));
        facts.cfg_edge.push((mid, next_start));
        idx += 1;
    }
    let term_start = maps.point(Ghost(blocks), b, stmts, SubPoint::Start);
    let term_mid = maps.point(Ghost(blocks), b, stmts, SubPoint::Mid);
    facts.cfg_edge.push((term_start, term_mid));
    let n_succ = body.blocks[b].terminator.successors.len();
    let mut s: usize = 0;
    while s < n_succ
        invariant
            s <= n_succ,
            facts.cfg_edge@ == old(facts).cfg_edge@ + spec_stmt_edges(
                blocks,
                b as int,
                stmts as int,
            ).push(
                (
                    spec_pt(blocks, b as int, stmts as int, SubPoint::Start),
                    spec_pt(blocks, b as int, stmts as int, SubPoint::Mid),
                ),
            ) + spec_succ_edges(blocks, b as int, s as int),
            facts.loan_issued_at == old(facts).loan_issued_at,
            facts.loan_killed_at == old(facts).loan_killed_at,
            facts.subset_base == old(facts).subset_base,
            facts.loan_invalidated_at == old(facts).loan_invalidated_at,
            facts.var_used_at == old(facts).var_used_at,
            facts.var_defined_at == old(facts).var_defined_at,
            facts.var_dropped_at == old(facts).var_dropped_at,
            facts.use_of_var_derefs_origin == old(facts).use_of_var_derefs_origin,
            facts.path_is_var == old(facts).path_is_var,
            facts.path_assigned_at_base == old(facts).path_assigned_at_base,
            facts.path_moved_at_base == old(facts).path_moved_at_base,
            facts.path_accessed_at_base == old(facts).path_accessed_at_base,
        decreases n_succ - s,
    {
        let succ = body.blocks[b].terminator.successors[s];
        let succ_start = maps.point(Ghost(blocks), succ, 0, SubPoint::Start);
        facts.cfg_edge.push((term_mid, succ_start));
        s += 1;
    }
}

} // verus!
