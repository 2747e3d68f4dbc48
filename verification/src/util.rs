//! Classification of right-hand sides and callee types.
//!
//! Two small pure utilities shared with the permission-design layer: decide
//! what kind of pointer-producing expression an assignment's right-hand
//! side is, and recognize the pointer-arithmetic library operations among
//! callee types.

use crate::body::{Operand, Place, PlaceElem, Rvalue};
use crate::ty::{Callee, FnName, FnParent, Ty, TyDesc};
use vstd::prelude::*;

verus! {

/// What a pointer-producing right-hand side denotes.
#[derive(PartialEq, Eq, Debug)]
pub enum RvalueDesc {
    /// A pointer projection, such as `&(*x.y).z`: a base pointer
    /// expression (`x.y`) and the projection applied to it (`.z`).  The
    /// base may itself contain dereferences; only the outermost one is
    /// implicit.  The projection contains no dereference.
    Project {
        /// The base pointer expression of the projection.
        base: Place,
        /// The access chain applied to the pointer.
        proj: Vec<PlaceElem>,
    },
    /// The address of a local or one of its fields, such as `&x.y`: the
    /// base local (`x`) and the projection applied to it (`.y`), which
    /// contains no dereference.
    AddrOfLocal {
        /// The base local.
        local: usize,
        /// The access chain applied to the local.
        proj: Vec<PlaceElem>,
    },
}

/// Index of the last dereference in an access chain, if any.
pub open spec fn spec_last_deref(proj: Seq<PlaceElem>) -> Option<int>
    decreases proj.len(),
{
    if proj.len() == 0 {
        Option::None
    } else if proj.last() is Deref {
        Option::Some(proj.len() - 1)
    } else {
        spec_last_deref(proj.drop_last())
    }
}

/// Whether `r` is `Project { base, proj }` with the given base place and
/// projection chain.
pub open spec fn is_project(
    r: Option<RvalueDesc>,
    base_local: int,
    base_proj: Seq<PlaceElem>,
    proj: Seq<PlaceElem>,
) -> bool {
    match r {
        Option::Some(RvalueDesc::Project { base, proj: p }) => {
            &&& base.local == base_local
            &&& base.projection@ == base_proj
            &&& p@ == proj
        },
        _ => false,
    }
}

/// Whether `r` is `AddrOfLocal { local, proj }` with the given parts.
pub open spec fn is_addr_of_local(r: Option<RvalueDesc>, local: int, proj: Seq<PlaceElem>) -> bool {
    match r {
        Option::Some(RvalueDesc::AddrOfLocal { local: l, proj: p }) => {
            &&& l == local
            &&& p@ == proj
        },
        _ => false,
    }
}

/// The full contract of [`describe_rvalue`]: how a description must relate
/// to the right-hand side it describes.
pub open spec fn rvalue_described(rv: Rvalue, r: Option<RvalueDesc>) -> bool {
    match rv {
        Rvalue::Use(op) => match op {
            Operand::Copy(pl) => is_project(r, pl.local as int, pl.projection@, Seq::empty()),
            Operand::Move(pl) => is_project(r, pl.local as int, pl.projection@, Seq::empty()),
            Operand::Constant => r is None,
        },
        Rvalue::Ref(_, pl) => borrow_described(pl, r),
        Rvalue::AddressOf(_, pl) => borrow_described(pl, r),
        Rvalue::Other => r is None,
    }
}

/// How the description of a borrow or address-of of place `pl` must look:
/// split at the last dereference when there is one, else the address of
/// the base local.
pub open spec fn borrow_described(pl: Place, r: Option<RvalueDesc>) -> bool {
    match spec_last_deref(pl.projection@) {
        Option::Some(i) => is_project(
            r,
            pl.local as int,
            pl.projection@.take(i),
            pl.projection@.skip(i + 1),
        ),
        Option::None => is_addr_of_local(r, pl.local as int, pl.projection@),
    }
}

/// An index `i` holding the last dereference of `proj` is what
/// [`spec_last_deref`] returns.
proof fn lemma_last_deref_at(proj: Seq<PlaceElem>, i: int)
    requires
        0 <= i < proj.len(),
        proj[i] is Deref,
        forall|k: int| i < k < proj.len() ==> !((#[trigger] proj[k]) is Deref),
    ensures
        spec_last_deref(proj) == Option::Some(i),
    decreases proj.len(),
{
    if i == proj.len() - 1 {
    } else {
        lemma_last_deref_at(proj.drop_last(), i);
    }
}

/// A chain with no dereference at all has no last dereference.
proof fn lemma_no_deref(proj: Seq<PlaceElem>)
    requires
        forall|k: int| 0 <= k < proj.len() ==> !((#[trigger] proj[k]) is Deref),
    ensures
        spec_last_deref(proj) is None,
    decreases proj.len(),
{
    if proj.len() > 0 {
        lemma_no_deref(proj.drop_last());
    }
}

/// Copy a place.
pub fn clone_place(p: &Place) -> (r: Place)
    ensures
        r.local == p.local,
        r.projection@ == p.projection@,
{
    let mut projection: Vec<PlaceElem> = Vec::new();
    let n = p.projection.len();
    let mut i: usize = 0;
    while i < n
        invariant
            i <= n,
            n == p.projection@.len(),
            projection@ =~= p.projection@.take(i as int),
        decreases n - i,
    {
        projection.push(p.projection[i]);
        proof {
            assert(projection@ =~= p.projection@.take(i as int + 1));
        }
        i += 1;
    }
    proof {
        assert(p.projection@.take(n as int) =~= p.projection@);
    }
    Place { local: p.local, projection }
}

/// Copy the elements of `proj` with indices in `from..to`.
fn copy_range(proj: &Vec<PlaceElem>, from: usize, to: usize) -> (r: Vec<PlaceElem>)
    requires
        from <= to <= proj@.len(),
    ensures
        r@ == proj@.subrange(from as int, to as int),
{
    let mut out: Vec<PlaceElem> = Vec::new();
    let mut i: usize = from;
    while i < to
        invariant
            from <= i <= to <= proj@.len(),
            out@ =~= proj@.subrange(from as int, i as int),
        decreases to - i,
    {
        out.push(proj[i]);
        proof {
            assert(out@ =~= proj@.subrange(from as int, i as int + 1));
        }
        i += 1;
    }
    proof {
        assert(out@ =~= proj@.subrange(from as int, to as int));
    }
    out
}

/// Split a borrowed place at its last dereference: the base pointer
/// expression before it and the residual projection after it, or the
/// address of the base local when the chain holds no dereference.
fn describe_borrow(pl: &Place) -> (r: Option<RvalueDesc>)
    ensures
        borrow_described(*pl, r),
{
    let n = pl.projection.len();
    let mut j: usize = n;
    while j > 0
        invariant
            j <= n,
            n == pl.projection@.len(),
            forall|k: int| j <= k < n ==> !((#[trigger] pl.projection@[k]) is Deref),
        decreases j,
    {
        j -= 1;
        if pl.projection[j] == PlaceElem::Deref {
            proof {
                lemma_last_deref_at(pl.projection@, j as int);
                assert(pl.projection@.take(j as int) =~= pl.projection@.subrange(0, j as int));
                assert(pl.projection@.skip(j as int + 1) =~= pl.projection@.subrange(
                    j as int + 1,
                    n as int,
                ));
            }
            let base_proj = copy_range(&pl.projection, 0, j);
            let proj = copy_range(&pl.projection, j + 1, n);
            return Option::Some(
                RvalueDesc::Project { base: Place { local: pl.local, projection: base_proj }, proj },
            );
        }
    }
    proof {
        lemma_no_deref(pl.projection@);
        assert(pl.projection@.subrange(0, n as int) =~= pl.projection@);
    }
    Option::Some(
        RvalueDesc::AddrOfLocal { local: pl.local, proj: copy_range(&pl.projection, 0, n) },
    )
}

/// Describe what kind of pointer-producing expression the right-hand side
/// `rv` is, or `None` when it produces no pointer.
pub fn describe_rvalue(rv: &Rvalue) -> (r: Option<RvalueDesc>)
    ensures
        rvalue_described(*rv, r),
{
    match rv {
        Rvalue::Use(op) => match op {
            Operand::Copy(pl) => Option::Some(
                RvalueDesc::Project { base: clone_place(pl), proj: Vec::new() },
            ),
            Operand::Move(pl) => Option::Some(
                RvalueDesc::Project { base: clone_place(pl), proj: Vec::new() },
            ),
            Operand::Constant => Option::None,
        },
        Rvalue::Ref(_, pl) => describe_borrow(pl),
        Rvalue::AddressOf(_, pl) => describe_borrow(pl),
        Rvalue::Other => Option::None,
    }
}

/// What [`ty_callee`] must return for the callee type `ty`: the `offset`
/// pointer-arithmetic method, defined in an inherent impl whose self type
/// is a raw pointer, is recognized and its pointee type and mutability
/// extracted; everything else is rejected.
pub open spec fn spec_ty_callee(ty: Ty) -> Option<Callee> {
    match ty.desc {
        TyDesc::FnDef(name, parent) => {
            if name == FnName::Offset && parent == FnParent::InherentImpl && ty.args@.len() >= 1 {
                let self_ty = ty.args@[0];
                match self_ty.desc {
                    TyDesc::RawPtr(mutbl) => {
                        if self_ty.args@.len() >= 1 {
                            Option::Some(
                                Callee::PtrOffset { pointee_ty: self_ty.args@[0], mutbl },
                            )
                        } else {
                            Option::None
                        }
                    },
                    _ => Option::None,
                }
            } else {
                Option::None
            }
        },
        _ => Option::None,
    }
}

/// Recognize a pointer-arithmetic library operation among callee types:
/// the inherent `offset` method of `*const T` / `*mut T`.
pub fn ty_callee(ty: Ty) -> (r: Option<Callee>)
    ensures
        r == spec_ty_callee(ty),
{
    match ty.desc {
        TyDesc::FnDef(name, parent) => {
            if name == FnName::Offset && parent == FnParent::InherentImpl && ty.args.len() >= 1 {
                let mut outer = ty.args;
                let self_ty = outer.remove(0);
                match self_ty.desc {
                    TyDesc::RawPtr(mutbl) => {
                        let mut inner = self_ty.args;
                        if inner.len() >= 1 {
                            let pointee_ty = inner.remove(0);
                            Option::Some(Callee::PtrOffset { pointee_ty, mutbl })
                        } else {
                            Option::None
                        }
                    },
                    _ => Option::None,
                }
            } else {
                Option::None
            }
        },
        _ => Option::None,
    }
}

} // verus!
