//! Culprit resolution: violations resolve to the responsible pointer.

use borrowck::atoms::{Loan, Origin, Point, PointerId};
use borrowck::body::{
    BasicBlock, Body, BorrowKind, Operand, Place, PlaceElem, Rvalue, Statement, Terminator,
};
use borrowck::culprit::{loan_culprit, AnalysisError};
use borrowck::hypothesis::Hypothesis;
use borrowck::perm::{PermFlag, PermissionSet};
use borrowck::translate::translate;
use borrowck::ty::{Mutability, Ty, TyDesc};

fn plain_ty() -> Ty {
    Ty { desc: TyDesc::Other, ptr: None, args: vec![] }
}

fn place(local: usize, projection: Vec<PlaceElem>) -> Place {
    Place { local, projection }
}

fn unique() -> PermissionSet {
    let mut s = PermissionSet::empty();
    s.insert(PermFlag::Unique);
    s
}

/// Locals: the return place, `p` (a pointer to a struct, id 0), `q` (an
/// unrelated pointer, id 1), and a non-pointer temporary.
fn body_with_statement(stmt: Statement) -> Body {
    let strukt = Ty { desc: TyDesc::Other, ptr: None, args: vec![plain_ty()] };
    let p = Ty { desc: TyDesc::RawPtr(Mutability::Mut), ptr: Some(PointerId(0)), args: vec![strukt] };
    let q = Ty {
        desc: TyDesc::RawPtr(Mutability::Mut),
        ptr: Some(PointerId(1)),
        args: vec![plain_ty()],
    };
    Body {
        blocks: vec![
            BasicBlock { statements: vec![stmt], terminator: Terminator { successors: vec![] } },
        ],
        locals: vec![plain_ty(), p, q, plain_ty()],
        arg_count: 2,
        addr_of_local: vec![PointerId(2), PointerId(3), PointerId(4), PointerId(5)],
    }
}

fn hypothesis() -> Hypothesis {
    Hypothesis::new(vec![
        unique(),
        unique(),
        PermissionSet::empty(),
        PermissionSet::empty(),
        PermissionSet::empty(),
        PermissionSet::empty(),
    ])
}

fn resolve(stmt: Statement, loan_point: Option<Point>) -> Result<PointerId, AnalysisError> {
    let body = body_with_statement(stmt);
    let hyp = hypothesis();
    let (mut facts, maps, _ltys) = translate(&body, &hyp);
    if let Some(pt) = loan_point {
        facts.loan_issued_at.push((Origin(3), Loan(42), pt));
    }
    loan_culprit(&body, &facts, &maps, Loan(42))
}

#[test]
fn borrow_of_projection_resolves_to_base_pointer() {
    // &(*p).field must resolve to p's pointer id, not to any other
    // pointer in scope.
    let stmt = Statement::Assign(
        place(0, vec![]),
        Rvalue::Ref(BorrowKind::Shared, place(1, vec![PlaceElem::Deref, PlaceElem::Field(0)])),
    );
    assert_eq!(resolve(stmt, Some(Point(1))), Ok(PointerId(0)));
}

#[test]
fn address_of_local_resolves_to_designated_pointer() {
    // &tmp.field has no dereference: the designated address-of pointer of
    // the base local is responsible.
    let stmt = Statement::Assign(
        place(0, vec![]),
        Rvalue::Ref(BorrowKind::Shared, place(3, vec![PlaceElem::Field(0)])),
    );
    assert_eq!(resolve(stmt, Some(Point(1))), Ok(PointerId(5)));
}

#[test]
fn bare_use_resolves_through_the_used_place() {
    let stmt = Statement::Assign(
        place(0, vec![]),
        Rvalue::Use(Operand::Move(place(2, vec![]))),
    );
    assert_eq!(resolve(stmt, Some(Point(1))), Ok(PointerId(1)));
}

#[test]
fn unissued_loan_is_reported() {
    let stmt = Statement::Other;
    assert_eq!(resolve(stmt, None), Err(AnalysisError::LoanNotIssued(Loan(42))));
}

#[test]
fn unknown_point_is_reported() {
    let stmt = Statement::Other;
    assert_eq!(resolve(stmt, Some(Point(999))), Err(AnalysisError::UnknownPoint(Loan(42))));
}

#[test]
fn loan_from_terminator_is_reported() {
    // Point 3 is the mid point of the terminator slot of the only block.
    let stmt = Statement::Other;
    assert_eq!(resolve(stmt, Some(Point(3))), Err(AnalysisError::LoanFromTerminator(Loan(42))));
}

#[test]
fn loan_from_non_assignment_is_reported() {
    let stmt = Statement::Other;
    assert_eq!(resolve(stmt, Some(Point(1))), Err(AnalysisError::LoanFromNonAssign(Loan(42))));
}

#[test]
fn loan_from_constant_rvalue_is_reported() {
    let stmt = Statement::Assign(place(0, vec![]), Rvalue::Use(Operand::Constant));
    assert_eq!(resolve(stmt, Some(Point(1))), Err(AnalysisError::UnknownRvalue(Loan(42))));
    let stmt = Statement::Assign(place(0, vec![]), Rvalue::Other);
    assert_eq!(resolve(stmt, Some(Point(1))), Err(AnalysisError::UnknownRvalue(Loan(42))));
}

#[test]
fn deref_of_non_pointer_has_no_pointer_id() {
    // &*tmp where tmp's type has no pointee: nothing to resolve to.
    let stmt = Statement::Assign(
        place(0, vec![]),
        Rvalue::Ref(BorrowKind::Shared, place(3, vec![PlaceElem::Deref])),
    );
    assert_eq!(resolve(stmt, Some(Point(1))), Err(AnalysisError::MissingPointerId(Loan(42))));
}
