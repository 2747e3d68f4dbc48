//! The library's model of the analyzed program's types.
//!
//! The upstream program-representation provider hands each local's type
//! over as a tree: every node records its head constructor, the
//! [`PointerId`] assigned to it (for pointer-typed nodes under analysis),
//! and the child types.  The origin-assignment pass rebuilds such a tree
//! into a [`LabeledTy`], whose nodes carry a [`Label`] instead of a raw
//! pointer id.

use crate::atoms::{Origin, PointerId};
use crate::perm::PermissionSet;
use vstd::prelude::*;

verus! {

/// Mutability of a reference or raw-pointer type.
#[derive(Clone, Copy, PartialEq, Eq, Structural, Debug, Hash)]
pub enum Mutability {
    /// Shared (`&T`, `*const T`).
    Not,
    /// Exclusive (`&mut T`, `*mut T`).
    Mut,
}

/// The name of the item a `FnDef` type refers to, as far as this analysis
/// cares: the pointer-arithmetic methods are recognized, everything else is
/// anonymous.
#[derive(Clone, Copy, PartialEq, Eq, Structural, Debug, Hash)]
pub enum FnName {
    /// The inherent `offset` method of `*const T` / `*mut T`.
    Offset,
    /// Any other item.
    Other,
}

/// Where the item a `FnDef` type refers to is defined.
#[derive(Clone, Copy, PartialEq, Eq, Structural, Debug, Hash)]
pub enum FnParent {
    /// An inherent impl.  The provider supplies the impl's self type as
    /// the first child of the `FnDef` node.
    InherentImpl,
    /// An impl of a trait.
    TraitImpl,
    /// Not an impl at all (a free function).
    NotImpl,
}

/// The head constructor of one type-tree node.
#[derive(Clone, Copy, PartialEq, Eq, Structural, Debug, Hash)]
pub enum TyDesc {
    /// A reference type; the pointee is the first child.
    Ref(Mutability),
    /// A raw-pointer type; the pointee is the first child.
    RawPtr(Mutability),
    /// The zero-sized type of one particular function item.
    FnDef(FnName, FnParent),
    /// Any other constructor; children are its component types.
    Other,
}

/// A type tree, each node annotated with the pointer identity the analysis
/// assigned to it (if any).
#[derive(PartialEq, Eq, Debug)]
pub struct Ty {
    /// This node's head constructor.
    pub desc: TyDesc,
    /// The pointer identity tracking this node, when the node is a
    /// pointer-typed location under analysis.
    pub ptr: Option<PointerId>,
    /// Child types, outer to inner.
    pub args: Vec<Ty>,
}

/// Whether this node is a pointer or reference type.
pub open spec fn is_ptr_desc(d: TyDesc) -> bool {
    d is Ref || d is RawPtr
}

/// Every pointer identity in the tree is within the hypothesis table.
pub open spec fn ty_wf(t: Ty, n_ptrs: nat) -> bool
    decreases t,
{
    &&& match t.ptr {
        Option::Some(p) => p.0 < n_ptrs,
        Option::None => true,
    }
    &&& forall|i: int| 0 <= i < t.args@.len() ==> ty_wf(#[trigger] t.args@[i], n_ptrs)
}

/// Runtime check of [`ty_wf`], for callers that cannot discharge it by
/// proof.
pub fn ty_wf_check(t: &Ty, n_ptrs: usize) -> (r: bool)
    ensures
        r == ty_wf(*t, n_ptrs as nat),
    decreases *t,
{
    match t.ptr {
        Option::Some(p) => {
            if p.0 >= n_ptrs {
                return false;
            }
        },
        Option::None => {},
    }
    let n = t.args.len();
    let mut i: usize = 0;
    while i < n
        invariant
            i <= n,
            n == t.args@.len(),
            forall|j: int| 0 <= j < i ==> ty_wf(#[trigger] t.args@[j], n_ptrs as nat),
        decreases n - i,
    {
        if !ty_wf_check(&t.args[i], n_ptrs) {
            return false;
        }
        i += 1;
    }
    true
}

/// A recognized pointer-arithmetic library operation, with what the
/// permission-design layer needs to know about it.
#[derive(PartialEq, Eq, Debug)]
pub enum Callee {
    /// The inherent `offset` method of `*const T` / `*mut T`.
    PtrOffset {
        /// The pointee type of the pointer being offset.
        pointee_ty: Ty,
        /// The mutability of the pointer being offset.
        mutbl: Mutability,
    },
}

/// What one node of a relabeled type carries: the abstract region minted
/// for it (for tracked pointer nodes) and its current permission set.
#[derive(Clone, Copy, PartialEq, Eq, Debug, Hash, Default)]
pub struct Label {
    /// The freshly minted region, present exactly on pointer nodes whose
    /// permission set is non-empty.
    pub origin: Option<Origin>,
    /// The node's current permission set, read from the hypothesis.
    pub perm: PermissionSet,
}

/// A type tree where every node carries a [`Label`]; rebuilt from scratch
/// each loop iteration.
#[derive(PartialEq, Eq, Debug)]
pub struct LabeledTy {
    /// This node's head constructor.
    pub desc: TyDesc,
    /// The label attached to this node.
    pub label: Label,
    /// Child types, outer to inner.
    pub args: Vec<LabeledTy>,
}

} // verus!
