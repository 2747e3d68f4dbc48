//! Right-hand-side classification, callee recognition, and place lookup.

use borrowck::atoms::PointerId;
use borrowck::body::{place_eq, ptr_of, Operand, Place, PlaceElem, Rvalue};
use borrowck::ty::{Callee, FnName, FnParent, Mutability, Ty, TyDesc};
use borrowck::util::{describe_rvalue, RvalueDesc};

fn place(local: usize, projection: Vec<PlaceElem>) -> Place {
    Place { local, projection }
}

fn plain_ty() -> Ty {
    Ty { desc: TyDesc::Other, ptr: None, args: vec![] }
}

#[test]
fn use_of_place_is_projection_with_empty_chain() {
    let rv = Rvalue::Use(Operand::Copy(place(4, vec![PlaceElem::Field(2)])));
    match describe_rvalue(&rv) {
        Some(RvalueDesc::Project { base, proj }) => {
            assert_eq!(base.local, 4);
            assert_eq!(base.projection, vec![PlaceElem::Field(2)]);
            assert!(proj.is_empty());
        },
        other => panic!("expected a projection, got {:?}", other),
    }
}

#[test]
fn constant_is_not_pointer_producing() {
    let rv = Rvalue::Use(Operand::Constant);
    assert!(describe_rvalue(&rv).is_none());
    assert!(describe_rvalue(&Rvalue::Other).is_none());
}

#[test]
fn borrow_splits_at_last_deref() {
    // &(**x).y : base is *x, residual projection is .y
    let rv = Rvalue::Ref(
        borrowck::body::BorrowKind::Shared,
        place(0, vec![PlaceElem::Deref, PlaceElem::Deref, PlaceElem::Field(1)]),
    );
    match describe_rvalue(&rv) {
        Some(RvalueDesc::Project { base, proj }) => {
            assert_eq!(base.local, 0);
            assert_eq!(base.projection, vec![PlaceElem::Deref]);
            assert_eq!(proj, vec![PlaceElem::Field(1)]);
        },
        other => panic!("expected a projection, got {:?}", other),
    }
}

#[test]
fn borrow_without_deref_is_address_of_local() {
    // &x.y : the address of a field of a local
    let rv = Rvalue::AddressOf(Mutability::Not, place(3, vec![PlaceElem::Field(0)]));
    match describe_rvalue(&rv) {
        Some(RvalueDesc::AddrOfLocal { local, proj }) => {
            assert_eq!(local, 3);
            assert_eq!(proj, vec![PlaceElem::Field(0)]);
        },
        other => panic!("expected an address-of-local, got {:?}", other),
    }
}

#[test]
fn ty_callee_recognizes_raw_pointer_offset() {
    let pointee = plain_ty();
    let self_ty = Ty {
        desc: TyDesc::RawPtr(Mutability::Mut),
        ptr: None,
        args: vec![pointee],
    };
    let fn_ty = Ty {
        desc: TyDesc::FnDef(FnName::Offset, FnParent::InherentImpl),
        ptr: None,
        args: vec![self_ty],
    };
    match borrowck::util::ty_callee(fn_ty) {
        Some(Callee::PtrOffset { pointee_ty, mutbl }) => {
            assert_eq!(mutbl, Mutability::Mut);
            assert_eq!(pointee_ty, plain_ty());
        },
        None => panic!("expected the offset method to be recognized"),
    }
}

#[test]
fn ty_callee_rejects_trait_impl_and_other_names() {
    let self_ty = Ty {
        desc: TyDesc::RawPtr(Mutability::Not),
        ptr: None,
        args: vec![plain_ty()],
    };
    let trait_offset = Ty {
        desc: TyDesc::FnDef(FnName::Offset, FnParent::TraitImpl),
        ptr: None,
        args: vec![self_ty],
    };
    assert!(borrowck::util::ty_callee(trait_offset).is_none());

    let other_name = Ty {
        desc: TyDesc::FnDef(FnName::Other, FnParent::InherentImpl),
        ptr: None,
        args: vec![
            Ty { desc: TyDesc::RawPtr(Mutability::Not), ptr: None, args: vec![plain_ty()] },
        ],
    };
    assert!(borrowck::util::ty_callee(other_name).is_none());
    assert!(borrowck::util::ty_callee(plain_ty()).is_none());
}

#[test]
fn ty_callee_rejects_non_pointer_self_type() {
    let fn_ty = Ty {
        desc: TyDesc::FnDef(FnName::Offset, FnParent::InherentImpl),
        ptr: None,
        args: vec![plain_ty()],
    };
    assert!(borrowck::util::ty_callee(fn_ty).is_none());
}

#[test]
fn place_equality_is_structural() {
    let a = place(1, vec![PlaceElem::Deref, PlaceElem::Field(0)]);
    let b = place(1, vec![PlaceElem::Deref, PlaceElem::Field(0)]);
    let c = place(1, vec![PlaceElem::Deref]);
    let d = place(2, vec![PlaceElem::Deref, PlaceElem::Field(0)]);
    assert!(place_eq(&a, &b));
    assert!(!place_eq(&a, &c));
    assert!(!place_eq(&a, &d));
}

#[test]
fn ptr_of_walks_the_annotated_type() {
    // local 1: *mut (struct with a *const field)
    let inner_ptr = Ty {
        desc: TyDesc::RawPtr(Mutability::Not),
        ptr: Some(PointerId(7)),
        args: vec![plain_ty()],
    };
    let strukt = Ty { desc: TyDesc::Other, ptr: None, args: vec![plain_ty(), inner_ptr] };
    let outer = Ty {
        desc: TyDesc::RawPtr(Mutability::Mut),
        ptr: Some(PointerId(3)),
        args: vec![strukt],
    };
    let locals = vec![plain_ty(), outer];

    assert_eq!(ptr_of(&locals, &place(1, vec![])), Some(PointerId(3)));
    assert_eq!(
        ptr_of(&locals, &place(1, vec![PlaceElem::Deref, PlaceElem::Field(1)])),
        Some(PointerId(7))
    );
    assert_eq!(ptr_of(&locals, &place(1, vec![PlaceElem::Deref])), None);
    assert_eq!(ptr_of(&locals, &place(9, vec![])), None);
    assert_eq!(ptr_of(&locals, &place(0, vec![PlaceElem::Deref])), None);
}
