//! The fact translator: exact fact sets and determinism.

use borrowck::atoms::{Origin, PathId, Point, PointerId, SubPoint, Variable};
use borrowck::body::{BasicBlock, Body, Place, PlaceElem, Statement, Terminator};
use borrowck::facts::{AllFacts, AtomMaps};
use borrowck::hypothesis::Hypothesis;
use borrowck::perm::{PermFlag, PermissionSet};
use borrowck::translate::translate;
use borrowck::ty::{Label, Mutability, Ty, TyDesc};

fn plain_ty() -> Ty {
    Ty { desc: TyDesc::Other, ptr: None, args: vec![] }
}

fn raw_ptr_ty(ptr: usize) -> Ty {
    Ty {
        desc: TyDesc::RawPtr(Mutability::Mut),
        ptr: Some(PointerId(ptr)),
        args: vec![plain_ty()],
    }
}

fn block(statements: Vec<Statement>, successors: Vec<usize>) -> BasicBlock {
    BasicBlock { statements, terminator: Terminator { successors } }
}

fn perms(flags: &[PermFlag]) -> PermissionSet {
    let mut s = PermissionSet::empty();
    for f in flags {
        s.insert(*f);
    }
    s
}

/// Two blocks; the only pointer is the single parameter's value.
fn sample_body() -> Body {
    Body {
        blocks: vec![
            block(vec![Statement::Other], vec![1]),
            block(vec![], vec![]),
        ],
        locals: vec![plain_ty(), raw_ptr_ty(0)],
        arg_count: 1,
        addr_of_local: vec![PointerId(1), PointerId(2)],
    }
}

fn sample_hypothesis() -> Hypothesis {
    Hypothesis::new(vec![perms(&[PermFlag::Read]), perms(&[]), perms(&[])])
}

#[test]
fn points_are_numbered_block_by_block() {
    let body = sample_body();
    let hyp = sample_hypothesis();
    let (_facts, maps, _ltys) = translate(&body, &hyp);
    assert_eq!(maps.block_offsets, vec![0, 2]);
    assert_eq!(
        maps.points,
        vec![
            (0, 0, SubPoint::Start),
            (0, 0, SubPoint::Mid),
            (0, 1, SubPoint::Start),
            (0, 1, SubPoint::Mid),
            (1, 0, SubPoint::Start),
            (1, 0, SubPoint::Mid),
        ]
    );
    assert_eq!(maps.get_point_location(Point(3)), Some((0, 1, SubPoint::Mid)));
    assert_eq!(maps.get_point_location(Point(6)), None);
}

#[test]
fn cfg_edges_cover_slots_and_successors() {
    let body = sample_body();
    let hyp = sample_hypothesis();
    let (facts, _maps, _ltys) = translate(&body, &hyp);
    assert_eq!(
        facts.cfg_edge,
        vec![
            (Point(0), Point(1)),
            (Point(1), Point(2)),
            (Point(2), Point(3)),
            (Point(3), Point(4)),
            (Point(4), Point(5)),
        ]
    );
}

#[test]
fn parameters_start_assigned_and_others_moved() {
    let body = sample_body();
    let hyp = sample_hypothesis();
    let (facts, maps, _ltys) = translate(&body, &hyp);
    assert_eq!(facts.path_assigned_at_base, vec![(PathId(1), Point(0))]);
    assert_eq!(facts.path_moved_at_base, vec![(PathId(0), Point(0))]);
    assert_eq!(facts.path_is_var, vec![(PathId(0), Variable(0)), (PathId(1), Variable(1))]);
    assert_eq!(maps.paths.len(), 2);
    assert_eq!(maps.paths[0].local, 0);
    assert_eq!(maps.paths[1].local, 1);
}

#[test]
fn tracked_pointer_gets_fresh_origin_and_fact() {
    let body = sample_body();
    let hyp = sample_hypothesis();
    let (facts, maps, ltys) = translate(&body, &hyp);
    // The first three origin ids are reserved, so the parameter's pointer
    // node gets origin 3.
    assert_eq!(maps.n_origins, 4);
    assert_eq!(facts.use_of_var_derefs_origin, vec![(Variable(1), Origin(3))]);
    assert_eq!(ltys.len(), 2);
    assert_eq!(ltys[0].label, Label { origin: None, perm: perms(&[]) });
    assert_eq!(ltys[1].label, Label { origin: Some(Origin(3)), perm: perms(&[PermFlag::Read]) });
    assert_eq!(ltys[1].args[0].label, Label { origin: None, perm: perms(&[]) });
}

#[test]
fn pointer_with_empty_permission_is_left_untracked() {
    let body = sample_body();
    let hyp = Hypothesis::new(vec![perms(&[]), perms(&[]), perms(&[])]);
    let (facts, maps, ltys) = translate(&body, &hyp);
    assert_eq!(maps.n_origins, 3);
    assert!(facts.use_of_var_derefs_origin.is_empty());
    assert_eq!(ltys[1].label, Label { origin: None, perm: perms(&[]) });
}

#[test]
fn repeated_places_reuse_their_path_identity() {
    let mut maps = AtomMaps::new();
    let mut facts = AllFacts::new();
    let first = maps.path(&mut facts, Place { local: 2, projection: vec![PlaceElem::Deref] });
    let other = maps.path(&mut facts, Place { local: 2, projection: vec![] });
    let again = maps.path(&mut facts, Place { local: 2, projection: vec![PlaceElem::Deref] });
    assert_eq!(first, PathId(0));
    assert_eq!(other, PathId(1));
    assert_eq!(again, first);
    assert_eq!(maps.paths.len(), 2);
}

#[test]
fn nested_pointers_get_origins_outer_to_inner() {
    // One local of type *mut *mut T with both levels tracked: the outer
    // node is labeled first, then the inner one.
    let inner = Ty {
        desc: TyDesc::RawPtr(Mutability::Mut),
        ptr: Some(PointerId(1)),
        args: vec![plain_ty()],
    };
    let outer = Ty { desc: TyDesc::RawPtr(Mutability::Mut), ptr: Some(PointerId(0)), args: vec![inner] };
    let body = Body {
        blocks: vec![block(vec![], vec![])],
        locals: vec![plain_ty(), outer],
        arg_count: 1,
        addr_of_local: vec![PointerId(2), PointerId(3)],
    };
    let hyp = Hypothesis::new(vec![
        perms(&[PermFlag::Unique]),
        perms(&[PermFlag::Read]),
        perms(&[]),
        perms(&[]),
    ]);
    let (facts, maps, ltys) = translate(&body, &hyp);
    assert_eq!(maps.n_origins, 5);
    assert_eq!(ltys[1].label.origin, Some(Origin(3)));
    assert_eq!(ltys[1].args[0].label.origin, Some(Origin(4)));
    assert_eq!(ltys[1].args[0].label.perm, perms(&[PermFlag::Read]));
    assert_eq!(
        facts.use_of_var_derefs_origin,
        vec![(Variable(1), Origin(3)), (Variable(1), Origin(4))]
    );
}

#[test]
fn translation_is_deterministic() {
    let body = sample_body();
    let hyp = sample_hypothesis();
    let (f1, m1, t1) = translate(&body, &hyp);
    let (f2, m2, t2) = translate(&body, &hyp);
    assert_eq!(f1, f2);
    assert_eq!(m1, m2);
    assert_eq!(t1, t2);
}
