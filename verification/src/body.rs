//! The library's model of one analyzed function body.
//!
//! The upstream compiler front-end supplies a typed control-flow graph:
//! basic blocks of ordered statements closed by one terminator with
//! explicit successors, a declared type per local, and the designated
//! pointer identity for the address of each local.  This module holds that
//! model and the place-to-pointer lookup the culprit resolver relies on.

use crate::atoms::PointerId;
use crate::ty::{ty_wf, Ty};
use vstd::prelude::*;

verus! {

/// One step of an access chain applied to a place.
#[derive(Clone, Copy, PartialEq, Eq, Structural, Debug, Hash)]
pub enum PlaceElem {
    /// Load through the pointer the chain has reached so far.
    Deref,
    /// Select the numbered component.
    Field(usize),
    /// Select an element by a runtime index.
    Index,
}

/// A memory location: a base local plus an access chain.
#[derive(PartialEq, Eq, Debug)]
pub struct Place {
    /// The base local.
    pub local: usize,
    /// The access chain applied to it, outermost first.
    pub projection: Vec<PlaceElem>,
}

/// Structural equality of places; path identities are keyed by it.
pub open spec fn place_matches(a: Place, b: Place) -> bool {
    a.local == b.local && a.projection@ == b.projection@
}

/// Runtime check of [`place_matches`].
pub fn place_eq(a: &Place, b: &Place) -> (r: bool)
    ensures
        r == place_matches(*a, *b),
{
    if a.local != b.local {
        return false;
    }
    if a.projection.len() != b.projection.len() {
        assert(a.projection@.len() != b.projection@.len());
        return false;
    }
    let n = a.projection.len();
    let mut i: usize = 0;
    while i < n
        invariant
            i <= n,
            n == a.projection@.len() == b.projection@.len(),
            forall|j: int| 0 <= j < i ==> a.projection@[j] == b.projection@[j],
        decreases n - i,
    {
        if a.projection[i] != b.projection[i] {
            return false;
        }
        i += 1;
    }
    proof {
        assert(a.projection@ =~= b.projection@);
    }
    true
}

/// The value an assignment stores: what the analysis needs to know of it.
#[derive(PartialEq, Eq, Debug)]
pub enum Operand {
    /// Copy out of a place.
    Copy(Place),
    /// Move out of a place.
    Move(Place),
    /// A constant; never a pointer-producing expression here.
    Constant,
}

/// Access mode of a borrow.
#[derive(Clone, Copy, PartialEq, Eq, Structural, Debug, Hash)]
pub enum BorrowKind {
    /// A shared borrow.
    Shared,
    /// An exclusive borrow.
    Mut,
}

/// A right-hand side of an assignment, as far as the analysis reads it.
#[derive(PartialEq, Eq, Debug)]
pub enum Rvalue {
    /// A bare use of an operand.
    Use(Operand),
    /// A reference taken to a place.
    Ref(BorrowKind, Place),
    /// A raw-pointer address taken of a place.
    AddressOf(crate::ty::Mutability, Place),
    /// Anything else (arithmetic, aggregates, casts, ...).
    Other,
}

/// One statement slot of a basic block.
#[derive(PartialEq, Eq, Debug)]
pub enum Statement {
    /// Store an rvalue into a place.
    Assign(Place, Rvalue),
    /// Any statement the analysis does not read.
    Other,
}

/// The closing slot of a basic block, with its control-flow successors.
#[derive(PartialEq, Eq, Debug)]
pub struct Terminator {
    /// Indices of the blocks control may continue at.
    pub successors: Vec<usize>,
}

/// One basic block: ordered statements plus one terminator.
#[derive(PartialEq, Eq, Debug)]
pub struct BasicBlock {
    /// The ordered statement slots.
    pub statements: Vec<Statement>,
    /// The closing terminator slot.
    pub terminator: Terminator,
}

/// One analyzed function body together with what the provider knows of its
/// locals.
#[derive(PartialEq, Eq, Debug)]
pub struct Body {
    /// The control-flow graph; block 0 is the entry block.
    pub blocks: Vec<BasicBlock>,
    /// The declared type of each local, annotated with pointer identities.
    /// Local 0 is the return place; locals `1..=arg_count` are the formal
    /// parameters.
    pub locals: Vec<Ty>,
    /// How many formal parameters the function has.
    pub arg_count: usize,
    /// The designated pointer identity for the address of each local.
    pub addr_of_local: Vec<PointerId>,
}

impl Body {
    /// Whether local `l` is a formal parameter.
    pub open spec fn is_arg(self, l: int) -> bool {
        1 <= l <= self.arg_count
    }

    /// The contract the upstream provider owes: a well-shaped control-flow
    /// graph whose pointer identities all lie inside a table of `n_ptrs`
    /// entries.
    pub open spec fn wf(self, n_ptrs: nat) -> bool {
        &&& self.blocks@.len() >= 1
        &&& self.locals@.len() > self.arg_count
        &&& self.addr_of_local@.len() == self.locals@.len()
        &&& forall|l: int|
            0 <= l < self.addr_of_local@.len() ==> (#[trigger] self.addr_of_local@[l]).0 < n_ptrs
        &&& forall|l: int| 0 <= l < self.locals@.len() ==> ty_wf(#[trigger] self.locals@[l], n_ptrs)
        &&& forall|b: int, s: int|
            0 <= b < self.blocks@.len() && 0 <= s < self.blocks@[b].terminator.successors@.len()
                ==> #[trigger] self.blocks@[b].terminator.successors@[s] < self.blocks@.len()
    }
}

impl Body {
    /// Runtime check of [`Self::wf`]: lets a caller that received the
    /// body from an unverified provider test the provider's contract
    /// before running the analysis.
    #[verifier::loop_isolation(false)]
    pub fn check_wf(&self, n_ptrs: usize) -> (r: bool)
        ensures
            r == self.wf(n_ptrs as nat),
    {
        if self.blocks.len() < 1 {
            return false;
        }
        if self.locals.len() <= self.arg_count {
            return false;
        }
        if self.addr_of_local.len() != self.locals.len() {
            return false;
        }
        let n_locals = self.locals.len();
        let mut l: usize = 0;
        while l < n_locals
            invariant
                l <= n_locals,
                forall|j: int| 0 <= j < l ==> (#[trigger] self.addr_of_local@[j]).0 < n_ptrs,
                forall|j: int| 0 <= j < l ==> crate::ty::ty_wf(#[trigger] self.locals@[j], n_ptrs as nat),
            decreases n_locals - l,
        {
            if self.addr_of_local[l].0 >= n_ptrs {
                return false;
            }
            if !crate::ty::ty_wf_check(&self.locals[l], n_ptrs) {
                return false;
            }
            l += 1;
        }
        let nb = self.blocks.len();
        let mut b: usize = 0;
        while b < nb
            invariant
                b <= nb,
                forall|bb: int, s: int|
                    0 <= bb < b && 0 <= s < self.blocks@[bb].terminator.successors@.len()
                        ==> #[trigger] self.blocks@[bb].terminator.successors@[s]
                        < self.blocks@.len(),
            decreases nb - b,
        {
            let ns = self.blocks[b].terminator.successors.len();
            let mut si: usize = 0;
            while si < ns
                invariant
                    si <= ns,
                    forall|s: int|
                        0 <= s < si ==> #[trigger] self.blocks@[b as int].terminator.successors@[s]
                            < self.blocks@.len(),
                decreases ns - si,
            {
                if self.blocks[b].terminator.successors[si] >= self.blocks.len() {
                    return false;
                }
                si += 1;
            }
            b += 1;
        }
        true
    }
}

/// The type-tree node an access chain reaches, starting from `t`.
pub open spec fn spec_walk(t: Ty, proj: Seq<PlaceElem>) -> Option<Ty>
    decreases proj.len(),
{
    if proj.len() == 0 {
        Option::Some(t)
    } else {
        let child: int = match proj[0] {
            PlaceElem::Deref => 0,
            PlaceElem::Field(i) => i as int,
            PlaceElem::Index => 0,
        };
        if 0 <= child < t.args@.len() {
            spec_walk(t.args@[child], proj.drop_first())
        } else {
            Option::None
        }
    }
}

/// The pointer identity the provider assigned to the location reached
/// from local `local` through the chain `proj`, read off the annotated
/// type of that local.
pub open spec fn spec_ptr_of_parts(locals: Seq<Ty>, local: int, proj: Seq<PlaceElem>) -> Option<
    PointerId,
> {
    if 0 <= local < locals.len() {
        match spec_walk(locals[local], proj) {
            Option::Some(node) => node.ptr,
            Option::None => Option::None,
        }
    } else {
        Option::None
    }
}

/// The pointer identity the provider assigned to the location `place`
/// denotes.
pub open spec fn spec_ptr_of(locals: Seq<Ty>, place: Place) -> Option<PointerId> {
    spec_ptr_of_parts(locals, place.local as int, place.projection@)
}

/// Look up the pointer identity of the location `place` denotes.
pub fn ptr_of(locals: &Vec<Ty>, place: &Place) -> (r: Option<PointerId>)
    ensures
        r == spec_ptr_of(locals@, *place),
{
    if place.local >= locals.len() {
        return Option::None;
    }
    let mut cur: &Ty = &locals[place.local];
    let n = place.projection.len();
    let mut i: usize = 0;
    proof {
        assert(place.projection@.skip(0) =~= place.projection@);
    }
    while i < n
        invariant
            i <= n,
            n == place.projection@.len(),
            place.local < locals@.len(),
            spec_walk(locals@[place.local as int], place.projection@) == spec_walk(
                *cur,
                place.projection@.skip(i as int),
            ),
        decreases n - i,
    {
        let ghost rest = place.projection@.skip(i as int);
        proof {
            assert(rest[0] == place.projection@[i as int]);
            assert(rest.drop_first() =~= place.projection@.skip(i as int + 1));
        }
        let child: usize = match place.projection[i] {
            PlaceElem::Deref => 0,
            PlaceElem::Field(k) => k,
            PlaceElem::Index => 0,
        };
        if child >= cur.args.len() {
            return Option::None;
        }
        cur = &cur.args[child];
        i += 1;
    }
    proof {
        assert(place.projection@.skip(n as int) =~= Seq::<PlaceElem>::empty());
    }
    cur.ptr
}

} // verus!
