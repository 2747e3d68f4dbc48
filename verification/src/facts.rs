//! Fact tables and atom bookkeeping for one loop iteration.
//!
//! All of this is rebuilt from scratch every iteration: the fact vectors
//! handed to the external solver, and the tables that give points and
//! paths their dense identities.  Point and path identities are
//! deterministic functions of `(block, index, sub-position)` and of
//! `(local, access chain)` respectively.

use crate::atoms::{Loan, Origin, PathId, Point, SubPoint, Variable};
use crate::body::{place_matches, BasicBlock, Place};
use vstd::prelude::*;

verus! {

/// The complete fact set handed to the external solver.
#[derive(PartialEq, Eq, Debug)]
pub struct AllFacts {
    /// `loan_issued_at(origin, loan, point)`: the loan was created at the
    /// point, tied to the region.
    pub loan_issued_at: Vec<(Origin, Loan, Point)>,
    /// `cfg_edge(p, q)`: control flows from `p` to `q`.
    pub cfg_edge: Vec<(Point, Point)>,
    /// `loan_killed_at(loan, point)`: the borrowed path was overwritten.
    pub loan_killed_at: Vec<(Loan, Point)>,
    /// `subset_base(o1, o2, point)`: region `o1` must outlive `o2` there.
    pub subset_base: Vec<(Origin, Origin, Point)>,
    /// `loan_invalidated_at(point, loan)`: an incompatible access happens.
    pub loan_invalidated_at: Vec<(Point, Loan)>,
    /// `var_used_at(var, point)`: the variable is read or written.
    pub var_used_at: Vec<(Variable, Point)>,
    /// `var_defined_at(var, point)`: the variable is overwritten.
    pub var_defined_at: Vec<(Variable, Point)>,
    /// `var_dropped_at(var, point)`: the variable is dropped.
    pub var_dropped_at: Vec<(Variable, Point)>,
    /// `use_of_var_derefs_origin(var, origin)`: using the variable may
    /// dereference references of that region.
    pub use_of_var_derefs_origin: Vec<(Variable, Origin)>,
    /// `path_is_var(path, var)`: the path roots at the variable.
    pub path_is_var: Vec<(PathId, Variable)>,
    /// `path_assigned_at_base(path, point)`: the path was initialized.
    pub path_assigned_at_base: Vec<(PathId, Point)>,
    /// `path_moved_at_base(path, point)`: the path was deinitialized.
    pub path_moved_at_base: Vec<(PathId, Point)>,
    /// `path_accessed_at_base(path, point)`: the path was accessed.
    pub path_accessed_at_base: Vec<(PathId, Point)>,
}

impl AllFacts {
    /// The empty fact set.
    pub fn new() -> (r: AllFacts)
        ensures
            r.loan_issued_at@.len() == 0,
            r.cfg_edge@.len() == 0,
            r.loan_killed_at@.len() == 0,
            r.subset_base@.len() == 0,
            r.loan_invalidated_at@.len() == 0,
            r.var_used_at@.len() == 0,
            r.var_defined_at@.len() == 0,
            r.var_dropped_at@.len() == 0,
            r.use_of_var_derefs_origin@.len() == 0,
            r.path_is_var@.len() == 0,
            r.path_assigned_at_base@.len() == 0,
            r.path_moved_at_base@.len() == 0,
            r.path_accessed_at_base@.len() == 0,
    {
        AllFacts {
            loan_issued_at: Vec::new(),
            cfg_edge: Vec::new(),
            loan_killed_at: Vec::new(),
            subset_base: Vec::new(),
            loan_invalidated_at: Vec::new(),
            var_used_at: Vec::new(),
            var_defined_at: Vec::new(),
            var_dropped_at: Vec::new(),
            use_of_var_derefs_origin: Vec::new(),
            path_is_var: Vec::new(),
            path_assigned_at_base: Vec::new(),
            path_moved_at_base: Vec::new(),
            path_accessed_at_base: Vec::new(),
        }
    }
}

/// What the external solver reports back for one fact set.
#[derive(PartialEq, Eq, Debug)]
pub struct SolverOutput {
    /// For each abstract region with a conflict, the loans that escape or
    /// conflict there.  An empty table means the hypothesis is sound.
    pub errors: Vec<(Origin, Vec<Loan>)>,
    /// Move-of-deinitialized-place errors; observed and reported but never
    /// acted on by the refinement loop.
    pub move_errors: Vec<(Point, Vec<PathId>)>,
}

/// Number of point-carrying slots of one block: its statements plus the
/// terminator.
pub open spec fn slots_of(bb: BasicBlock) -> nat {
    bb.statements@.len() + 1
}

/// Number of slots in the blocks before block `b`.
pub open spec fn spec_slots_before(blocks: Seq<BasicBlock>, b: int) -> nat
    decreases b,
{
    if b <= 0 {
        0
    } else {
        spec_slots_before(blocks, b - 1) + slots_of(blocks[b - 1])
    }
}

/// Total number of slots of the whole body.
pub open spec fn spec_total_slots(blocks: Seq<BasicBlock>) -> nat {
    spec_slots_before(blocks, blocks.len() as int)
}

/// The identity of the point at `(block, index, sub)`: slots are numbered
/// block by block in order, and each slot holds its start point directly
/// before its mid point.
pub open spec fn spec_point_id(blocks: Seq<BasicBlock>, b: int, idx: int, sub: SubPoint) -> int {
    2 * (spec_slots_before(blocks, b) + idx) + if sub is Mid {
        1int
    } else {
        0int
    }
}

/// The descriptors of the points of block `b`, in identity order.
pub open spec fn spec_block_points(bb: BasicBlock, b: int) -> Seq<(usize, usize, SubPoint)> {
    Seq::new(
        2 * slots_of(bb),
        |i: int|
            (
                b as usize,
                (i / 2) as usize,
                if i % 2 == 0 {
                    SubPoint::Start
                } else {
                    SubPoint::Mid
                },
            ),
    )
}

/// The point descriptor table of the blocks before block `b`.
pub open spec fn spec_points_upto(blocks: Seq<BasicBlock>, b: int) -> Seq<(usize, usize, SubPoint)>
    decreases b,
{
    if b <= 0 {
        Seq::empty()
    } else {
        spec_points_upto(blocks, b - 1) + spec_block_points(blocks[b - 1], b - 1)
    }
}

/// The whole point descriptor table of a body.
pub open spec fn spec_points(blocks: Seq<BasicBlock>) -> Seq<(usize, usize, SubPoint)> {
    spec_points_upto(blocks, blocks.len() as int)
}

/// The table before block `b` holds two entries per earlier slot.
pub proof fn lemma_points_upto_len(blocks: Seq<BasicBlock>, b: int)
    requires
        b <= blocks.len(),
    ensures
        spec_points_upto(blocks, b).len() == 2 * spec_slots_before(blocks, b),
    decreases b,
{
    if b > 0 {
        lemma_points_upto_len(blocks, b - 1);
    }
}

/// Slot counts accumulate monotonically over blocks.
pub proof fn lemma_slots_before_mono(blocks: Seq<BasicBlock>, b: int, c: int)
    requires
        0 <= b <= c,
    ensures
        spec_slots_before(blocks, b) <= spec_slots_before(blocks, c),
    decreases c,
{
    if b < c {
        lemma_slots_before_mono(blocks, b, c - 1);
    }
}

/// A valid slot's points lie inside the table.
pub proof fn lemma_point_id_in_range(blocks: Seq<BasicBlock>, b: int, idx: int, sub: SubPoint)
    requires
        0 <= b < blocks.len(),
        0 <= idx < slots_of(blocks[b]),
    ensures
        0 <= spec_point_id(blocks, b, idx, sub) < 2 * spec_total_slots(blocks),
{
    assert(spec_slots_before(blocks, b + 1) == spec_slots_before(blocks, b) + slots_of(blocks[b]));
    lemma_slots_before_mono(blocks, b + 1, blocks.len() as int);
}

/// Point identities are consistent with the descriptor table: the table
/// lists each valid slot's points at their computed identity.
pub proof fn lemma_points_lookup(blocks: Seq<BasicBlock>, b: int, idx: int, sub: SubPoint, c: int)
    requires
        0 <= b < c <= blocks.len(),
        0 <= idx < slots_of(blocks[b]),
    ensures
        spec_points_upto(blocks, c)[spec_point_id(blocks, b, idx, sub)] == (
            b as usize,
            idx as usize,
            sub,
        ),
    decreases c,
{
    lemma_points_upto_len(blocks, c - 1);
    lemma_point_id_in_range(blocks, b, idx, sub);
    let id = spec_point_id(blocks, b, idx, sub);
    if c - 1 == b {
        let k = id - 2 * spec_slots_before(blocks, b);
        assert(k == 2 * idx + (if sub is Mid {
            1int
        } else {
            0int
        }));
        assert(k / 2 == idx && k % 2 == (if sub is Mid {
            1int
        } else {
            0int
        }));
        assert(spec_block_points(blocks[b], b)[k] == (b as usize, idx as usize, sub));
    } else {
        assert(spec_slots_before(blocks, b + 1) == spec_slots_before(blocks, b) + slots_of(
            blocks[b],
        ));
        lemma_slots_before_mono(blocks, b + 1, c - 1);
        lemma_points_lookup(blocks, b, idx, sub, c - 1);
    }
}

/// The point value at `(b, idx, sub)`.
pub open spec fn spec_pt(blocks: Seq<BasicBlock>, b: int, idx: int, sub: SubPoint) -> Point {
    Point(spec_point_id(blocks, b, idx, sub) as usize)
}

/// First index of the paths table whose place equals `place`, if any.
pub open spec fn spec_find_path(paths: Seq<Place>, place: Place) -> Option<int>
    decreases paths.len(),
{
    if paths.len() == 0 {
        Option::None
    } else if place_matches(paths[0], place) {
        Option::Some(0)
    } else {
        match spec_find_path(paths.drop_first(), place) {
            Option::Some(i) => Option::Some(i + 1),
            Option::None => Option::None,
        }
    }
}

/// The tables giving points, paths, origins and loans their dense
/// identities within one iteration.
#[derive(PartialEq, Eq, Debug)]
pub struct AtomMaps {
    /// Descriptor `(block, index, sub)` of each point, indexed by point id.
    pub points: Vec<(usize, usize, SubPoint)>,
    /// Number of slots in the blocks before each block.
    pub block_offsets: Vec<usize>,
    /// The place of each interned path, indexed by path id.
    pub paths: Vec<Place>,
    /// How many origins have been minted.
    pub n_origins: usize,
    /// How many loans have been minted.
    pub n_loans: usize,
}

impl AtomMaps {
    /// The point and offset tables describe exactly the blocks of the
    /// translated body.
    pub open spec fn wf_for(self, blocks: Seq<BasicBlock>) -> bool {
        &&& self.block_offsets@.len() == blocks.len()
        &&& forall|b: int|
            0 <= b < blocks.len() ==> (#[trigger] self.block_offsets@[b]) as int
                == spec_slots_before(blocks, b)
        &&& self.points@ == spec_points(blocks)
        &&& self.points@.len() == 2 * spec_total_slots(blocks)
    }

    /// Empty tables, no atom minted yet.
    pub fn new() -> (r: AtomMaps)
        ensures
            r.points@.len() == 0,
            r.block_offsets@.len() == 0,
            r.paths@.len() == 0,
            r.n_origins == 0,
            r.n_loans == 0,
    {
        AtomMaps {
            points: Vec::new(),
            block_offsets: Vec::new(),
            paths: Vec::new(),
            n_origins: 0,
            n_loans: 0,
        }
    }

    /// The point at `(b, idx, sub)` of the body the tables were built for.
    pub fn point(&self, Ghost(blocks): Ghost<Seq<BasicBlock>>, b: usize, idx: usize, sub: SubPoint)
        -> (r: Point)
        requires
            self.wf_for(blocks),
            b < blocks.len(),
            idx < slots_of(blocks[b as int]),
        ensures
            r.0 as int == spec_point_id(blocks, b as int, idx as int, sub),
            r == spec_pt(blocks, b as int, idx as int, sub),
            r.0 < self.points@.len(),
    {
        let plen = self.points.len();
        let off = self.block_offsets[b];
        proof {
            lemma_point_id_in_range(blocks, b as int, idx as int, sub);
            lemma_point_id_in_range(blocks, b as int, idx as int, SubPoint::Mid);
            assert(2 * (off as int + idx as int) + 1 < plen as int);
        }
        let base = 2 * (off + idx);
        match sub {
            SubPoint::Start => Point(base),
            SubPoint::Mid => Point(base + 1),
        }
    }

    /// What [`Self::point_at`] returns, as a function of the tables: the
    /// identity a slot's point would have, when it lies inside the point
    /// table.
    pub open spec fn spec_point_at(self, b: int, idx: int, sub: SubPoint) -> Option<Point> {
        if 0 <= b < self.block_offsets@.len() {
            let id = 2 * (self.block_offsets@[b] + idx) + (if sub is Mid {
                1int
            } else {
                0int
            });
            if id < self.points@.len() {
                Option::Some(Point(id as usize))
            } else {
                Option::None
            }
        } else {
            Option::None
        }
    }

    /// The point at `(b, idx, sub)`, computed from the tables alone and
    /// guarded by runtime bounds checks; for callers that cannot supply
    /// the proof [`Self::point`] asks for.
    pub fn point_at(&self, b: usize, idx: usize, sub: SubPoint) -> (r: Option<Point>)
        ensures
            r == self.spec_point_at(b as int, idx as int, sub),
    {
        if b >= self.block_offsets.len() {
            return Option::None;
        }
        let off = self.block_offsets[b];
        let plen = self.points.len();
        let bit: usize = match sub {
            SubPoint::Start => 0,
            SubPoint::Mid => 1,
        };
        match off.checked_add(idx) {
            Option::Some(slot) => match slot.checked_mul(2) {
                Option::Some(base) => match base.checked_add(bit) {
                    Option::Some(id) => if id < plen {
                        Option::Some(Point(id))
                    } else {
                        Option::None
                    },
                    Option::None => Option::None,
                },
                Option::None => Option::None,
            },
            Option::None => Option::None,
        }
    }

    /// The location a point stands for, if the point is known.
    pub fn get_point_location(&self, p: Point) -> (r: Option<(usize, usize, SubPoint)>)
        ensures
            r == if p.0 < self.points@.len() {
                Option::Some(self.points@[p.0 as int])
            } else {
                Option::<(usize, usize, SubPoint)>::None
            },
    {
        if p.0 < self.points.len() {
            Option::Some(self.points[p.0])
        } else {
            Option::None
        }
    }

    /// Mint a fresh origin.
    pub fn origin(&mut self) -> (r: Origin)
        requires
            old(self).n_origins < usize::MAX,
        ensures
            r == Origin(old(self).n_origins),
            final(self).n_origins == old(self).n_origins + 1,
            final(self).points == old(self).points,
            final(self).block_offsets == old(self).block_offsets,
            final(self).paths == old(self).paths,
            final(self).n_loans == old(self).n_loans,
    {
        let r = Origin(self.n_origins);
        self.n_origins = self.n_origins + 1;
        r
    }

    /// Mint a fresh loan.
    pub fn loan(&mut self) -> (r: Loan)
        requires
            old(self).n_loans < usize::MAX,
        ensures
            r == Loan(old(self).n_loans),
            final(self).n_loans == old(self).n_loans + 1,
            final(self).points == old(self).points,
            final(self).block_offsets == old(self).block_offsets,
            final(self).paths == old(self).paths,
            final(self).n_origins == old(self).n_origins,
    {
        let r = Loan(self.n_loans);
        self.n_loans = self.n_loans + 1;
        r
    }

    /// The solver-side variable standing for a local.
    pub fn variable(&self, l: usize) -> (r: Variable)
        ensures
            r == Variable(l),
    {
        Variable(l)
    }

    /// Intern the path for `place`: the existing identity when the same
    /// place was interned before, else a fresh one.  Interning a fresh
    /// path also records which variable it roots at.
    pub fn path(&mut self, facts: &mut AllFacts, place: Place) -> (r: PathId)
        ensures
            match spec_find_path(old(self).paths@, place) {
                Option::Some(i) => {
                    &&& r.0 as int == i
                    &&& final(self).paths@ == old(self).paths@
                    &&& final(facts).path_is_var@ == old(facts).path_is_var@
                },
                Option::None => {
                    &&& r.0 as int == old(self).paths@.len()
                    &&& final(self).paths@ == old(self).paths@.push(place)
                    &&& final(facts).path_is_var@ == old(facts).path_is_var@.push(
                        (r, Variable(place.local)),
                    )
                },
            },
            final(self).points == old(self).points,
            final(self).block_offsets == old(self).block_offsets,
            final(self).n_origins == old(self).n_origins,
            final(self).n_loans == old(self).n_loans,
            final(facts).loan_issued_at == old(facts).loan_issued_at,
            final(facts).cfg_edge == old(facts).cfg_edge,
            final(facts).loan_killed_at == old(facts).loan_killed_at,
            final(facts).subset_base == old(facts).subset_base,
            final(facts).loan_invalidated_at == old(facts).loan_invalidated_at,
            final(facts).var_used_at == old(facts).var_used_at,
            final(facts).var_defined_at == old(facts).var_defined_at,
            final(facts).var_dropped_at == old(facts).var_dropped_at,
            final(facts).use_of_var_derefs_origin == old(facts).use_of_var_derefs_origin,
            final(facts).path_assigned_at_base == old(facts).path_assigned_at_base,
            final(facts).path_moved_at_base == old(facts).path_moved_at_base,
            final(facts).path_accessed_at_base == old(facts).path_accessed_at_base,
    {
        let n = self.paths.len();
        let mut i: usize = 0;
        while i < n
            invariant
                i <= n,
                n == self.paths@.len(),
                forall|j: int| 0 <= j < i ==> !place_matches(#[trigger] self.paths@[j], place),
            decreases n - i,
        {
            if crate::body::place_eq(&self.paths[i], &place) {
                proof {
                    lemma_find_path_found(self.paths@, place, i as int);
                }
                return PathId(i);
            }
            i += 1;
        }
        proof {
            lemma_find_path_missing(self.paths@, place);
        }
        let r = PathId(n);
        facts.path_is_var.push((r, Variable(place.local)));
        self.paths.push(place);
        r
    }
}

/// If nothing before `i` matches and `paths[i]` does, the first match is
/// at `i`.
pub proof fn lemma_find_path_found(paths: Seq<Place>, place: Place, i: int)
    requires
        0 <= i < paths.len(),
        place_matches(paths[i], place),
        forall|j: int| 0 <= j < i ==> !place_matches(#[trigger] paths[j], place),
    ensures
        spec_find_path(paths, place) == Option::Some(i),
    decreases paths.len(),
{
    if i > 0 {
        lemma_find_path_found(paths.drop_first(), place, i - 1);
    }
}

/// If nothing matches, the lookup fails.
pub proof fn lemma_find_path_missing(paths: Seq<Place>, place: Place)
    requires
        forall|j: int| 0 <= j < paths.len() ==> !place_matches(#[trigger] paths[j], place),
    ensures
        spec_find_path(paths, place) is None,
    decreases paths.len(),
{
    if paths.len() > 0 {
        lemma_find_path_missing(paths.drop_first(), place);
    }
}

} // verus!
