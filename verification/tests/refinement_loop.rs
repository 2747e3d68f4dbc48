//! The permission-hypothesis refinement loop, driven by scripted
//! collaborators.

use borrowck::atoms::{Loan, Origin, Point, PointerId};
use borrowck::body::{
    BasicBlock, Body, BorrowKind, Place, PlaceElem, Rvalue, Statement, Terminator,
};
use borrowck::culprit::AnalysisError;
use borrowck::driver::{borrowck_mir, Collaborators, LoopStatus, MAX_ITERATIONS};
use borrowck::facts::{AllFacts, AtomMaps, SolverOutput};
use borrowck::hypothesis::Hypothesis;
use borrowck::perm::{PermFlag, PermissionSet};
use borrowck::ty::{LabeledTy, Mutability, Ty, TyDesc};

const ALL_FLAGS: [PermFlag; 5] = [
    PermFlag::Read,
    PermFlag::Write,
    PermFlag::Unique,
    PermFlag::OffsetAdd,
    PermFlag::OffsetSub,
];

fn perms(flags: &[PermFlag]) -> PermissionSet {
    let mut s = PermissionSet::empty();
    for f in flags {
        s.insert(*f);
    }
    s
}

fn plain_ty() -> Ty {
    Ty { desc: TyDesc::Other, ptr: None, args: vec![] }
}

fn raw_ptr_ty(ptr: usize) -> Ty {
    Ty {
        desc: TyDesc::RawPtr(Mutability::Mut),
        ptr: Some(PointerId(ptr)),
        args: vec![plain_ty()],
    }
}

fn place(local: usize, projection: Vec<PlaceElem>) -> Place {
    Place { local, projection }
}

/// One parameter `p: *mut T` whose body reborrows `p`; pointer ids 1 and
/// 2 stand for the addresses of the locals.
fn reborrow_body() -> Body {
    Body {
        blocks: vec![
            BasicBlock {
                statements: vec![
                    Statement::Assign(
                        place(0, vec![]),
                        Rvalue::Ref(BorrowKind::Mut, place(1, vec![PlaceElem::Deref])),
                    ),
                ],
                terminator: Terminator { successors: vec![] },
            },
        ],
        locals: vec![plain_ty(), raw_ptr_ty(0)],
        arg_count: 1,
        addr_of_local: vec![PointerId(1), PointerId(2)],
    }
}

/// A collaborator whose solver plays back a fixed list of reports and
/// whose propagator plays back a fixed list of request batches; the
/// populator records one loan-creation fact for the reborrow statement.
struct Scripted {
    reports: Vec<Vec<(Origin, Vec<Loan>)>>,
    solve_calls: usize,
    requests: Vec<Vec<(PointerId, PermFlag)>>,
    request_calls: usize,
}

impl Scripted {
    fn new(
        reports: Vec<Vec<(Origin, Vec<Loan>)>>,
        requests: Vec<Vec<(PointerId, PermFlag)>>,
    ) -> Scripted {
        Scripted { reports, solve_calls: 0, requests, request_calls: 0 }
    }
}

impl Collaborators for Scripted {
    fn populate_facts(
        &mut self,
        facts: &mut AllFacts,
        _maps: &mut AtomMaps,
        _body: &Body,
        _local_ltys: &Vec<LabeledTy>,
    ) {
        // The reborrow statement sits in slot 0 of block 0; its mid point
        // has identity 1.
        facts.loan_issued_at.push((Origin(3), Loan(0), Point(1)));
    }

    fn solve(&mut self, _facts: &AllFacts) -> SolverOutput {
        let idx = self.solve_calls;
        self.solve_calls += 1;
        let errors = if idx < self.reports.len() { self.reports[idx].clone() } else { vec![] };
        SolverOutput { errors, move_errors: vec![] }
    }

    fn propagation_requests(&mut self, _hypothesis: &Hypothesis) -> Vec<(PointerId, PermFlag)> {
        let idx = self.request_calls;
        self.request_calls += 1;
        if idx < self.requests.len() { self.requests[idx].clone() } else { vec![] }
    }
}

#[test]
fn violation_step_edits_exactly_the_culprit_entry() {
    let body = reborrow_body();
    let mut hyp = Hypothesis::new(vec![
        perms(&[PermFlag::Read, PermFlag::Unique]),
        perms(&[PermFlag::Unique]),
        perms(&[PermFlag::Write]),
    ]);
    let (mut facts, maps, _ltys) = borrowck::translate::translate(&body, &hyp);
    facts.loan_issued_at.push((Origin(3), Loan(0), Point(1)));
    let errors = vec![(Origin(3), vec![Loan(0)])];
    let r = borrowck::driver::apply_violations(&body, &facts, &maps, &errors, &mut hyp);
    assert_eq!(r, Ok(true));
    // Only the culprit's entry changed, and only its UNIQUE flag.
    assert_eq!(hyp.get(PointerId(0)), perms(&[PermFlag::Read]));
    assert_eq!(hyp.get(PointerId(1)), perms(&[PermFlag::Unique]));
    assert_eq!(hyp.get(PointerId(2)), perms(&[PermFlag::Write]));
    // Running it again removes nothing: the flag is already gone.
    let r = borrowck::driver::apply_violations(&body, &facts, &maps, &errors, &mut hyp);
    assert_eq!(r, Ok(false));
    assert_eq!(hyp.get(PointerId(0)), perms(&[PermFlag::Read]));
}

#[test]
fn violation_step_applies_the_prefix_before_failing() {
    let body = reborrow_body();
    let mut hyp = Hypothesis::new(vec![perms(&[PermFlag::Unique]), perms(&[]), perms(&[])]);
    let (mut facts, maps, _ltys) = borrowck::translate::translate(&body, &hyp);
    facts.loan_issued_at.push((Origin(3), Loan(0), Point(1)));
    // The first loan resolves; the second was never issued.
    let errors = vec![(Origin(3), vec![Loan(0), Loan(9)])];
    let r = borrowck::driver::apply_violations(&body, &facts, &maps, &errors, &mut hyp);
    assert_eq!(r, Err(AnalysisError::LoanNotIssued(Loan(9))));
    assert!(!hyp.get(PointerId(0)).contains(PermFlag::Unique));
}

#[test]
fn propagation_step_applies_requests_in_order() {
    let mut hyp = Hypothesis::new(vec![
        perms(&[PermFlag::Read, PermFlag::Write]),
        perms(&[PermFlag::OffsetAdd]),
    ]);
    // One held flag, one absent flag, one request outside the table.
    let requests = vec![
        (PointerId(0), PermFlag::Write),
        (PointerId(1), PermFlag::Read),
        (PointerId(9), PermFlag::Unique),
    ];
    let r = borrowck::driver::apply_propagation_requests(&mut hyp, &requests);
    assert!(r);
    assert_eq!(hyp.get(PointerId(0)), perms(&[PermFlag::Read]));
    assert_eq!(hyp.get(PointerId(1)), perms(&[PermFlag::OffsetAdd]));
    // Only absent or out-of-range requests: nothing held, nothing removed.
    let r = borrowck::driver::apply_propagation_requests(&mut hyp, &requests);
    assert!(!r);
    assert_eq!(hyp.get(PointerId(0)), perms(&[PermFlag::Read]));
}

#[test]
fn conflicting_reborrow_loses_unique_and_converges() {
    let body = reborrow_body();
    let mut hyp = Hypothesis::new(vec![
        perms(&[PermFlag::Read, PermFlag::Write, PermFlag::Unique]),
        perms(&[]),
        perms(&[]),
    ]);
    let initial = hyp.clone();
    let mut collab = Scripted::new(
        vec![vec![(Origin(3), vec![Loan(0)])], vec![]],
        vec![],
    );
    let summary = borrowck_mir(&mut collab, &mut hyp, &body).unwrap();

    assert_eq!(summary.status, LoopStatus::Converged);
    assert_eq!(summary.iterations, 2);
    assert_eq!(summary.records.len(), 2);
    assert_eq!(summary.records[0].errors, 1);
    assert!(summary.records[0].removed_permission);
    assert!(!summary.records[0].propagated);
    assert_eq!(summary.records[1].errors, 0);

    // The violation was attributed to p itself: only UNIQUE is gone.
    assert!(!hyp.get(PointerId(0)).contains(PermFlag::Unique));
    assert!(hyp.get(PointerId(0)).contains(PermFlag::Read));
    assert!(hyp.get(PointerId(0)).contains(PermFlag::Write));
    assert_eq!(hyp.get(PointerId(1)), initial.get(PointerId(1)));
    assert_eq!(hyp.get(PointerId(2)), initial.get(PointerId(2)));

    // Monotonicity: every pointer's final set is included in its initial
    // set.
    for p in 0..3 {
        for f in ALL_FLAGS {
            if hyp.get(PointerId(p)).contains(f) {
                assert!(initial.get(PointerId(p)).contains(f));
            }
        }
    }
    // Termination came well within #pointers x #flags iterations.
    assert!(summary.iterations <= 3 * 5);
}

#[test]
fn unborrowed_pointer_keeps_its_permissions() {
    // Two independent pointers; only p (id 0) is ever borrowed.
    let mut body = reborrow_body();
    body.locals.push(raw_ptr_ty(3));
    body.addr_of_local.push(PointerId(4));
    let mut hyp = Hypothesis::new(vec![
        perms(&[PermFlag::Unique]),
        perms(&[]),
        perms(&[]),
        perms(&[PermFlag::Unique, PermFlag::Read]),
        perms(&[]),
    ]);
    let mut collab = Scripted::new(
        vec![vec![(Origin(3), vec![Loan(0)])], vec![]],
        vec![],
    );
    let summary = borrowck_mir(&mut collab, &mut hyp, &body).unwrap();

    assert_eq!(summary.status, LoopStatus::Converged);
    assert!(!hyp.get(PointerId(0)).contains(PermFlag::Unique));
    assert_eq!(hyp.get(PointerId(3)), perms(&[PermFlag::Unique, PermFlag::Read]));
}

#[test]
fn converged_hypothesis_converges_again_untouched() {
    // A hypothesis the solver is already satisfied with: one iteration,
    // no removal, nothing changed.
    let body = reborrow_body();
    let mut hyp = Hypothesis::new(vec![
        perms(&[PermFlag::Read, PermFlag::Write]),
        perms(&[]),
        perms(&[]),
    ]);
    let initial = hyp.clone();
    let mut collab = Scripted::new(vec![vec![]], vec![]);
    let summary = borrowck_mir(&mut collab, &mut hyp, &body).unwrap();

    assert_eq!(summary.status, LoopStatus::Converged);
    assert_eq!(summary.iterations, 1);
    assert_eq!(summary.records.len(), 1);
    assert_eq!(summary.records[0].errors, 0);
    assert!(!summary.records[0].removed_permission);
    assert!(!summary.records[0].propagated);
    assert_eq!(hyp, initial);
}

#[test]
fn no_removable_permission_means_stuck() {
    // The culprit pointer holds no UNIQUE flag and the propagator has
    // nothing to add: zero progress on a non-empty report.
    let body = reborrow_body();
    let mut hyp = Hypothesis::new(vec![perms(&[PermFlag::Read]), perms(&[]), perms(&[])]);
    let initial = hyp.clone();
    let mut collab = Scripted::new(
        vec![vec![(Origin(3), vec![Loan(0)])], vec![(Origin(3), vec![Loan(0)])]],
        vec![],
    );
    let summary = borrowck_mir(&mut collab, &mut hyp, &body).unwrap();

    assert_eq!(summary.status, LoopStatus::Stuck);
    assert_eq!(summary.iterations, 1);
    assert_eq!(summary.records[0].errors, 1);
    assert!(!summary.records[0].removed_permission);
    assert!(!summary.records[0].propagated);
    assert_eq!(hyp, initial);
}

#[test]
fn propagation_requests_keep_the_loop_moving() {
    // The culprit pointer has no UNIQUE flag, but the propagator asks to
    // strip a flag elsewhere; the loop continues and then converges.
    let body = reborrow_body();
    let mut hyp = Hypothesis::new(vec![
        perms(&[PermFlag::Read]),
        perms(&[PermFlag::Write]),
        perms(&[]),
    ]);
    let mut collab = Scripted::new(
        vec![vec![(Origin(3), vec![Loan(0)])], vec![]],
        vec![vec![(PointerId(1), PermFlag::Write)]],
    );
    let summary = borrowck_mir(&mut collab, &mut hyp, &body).unwrap();

    assert_eq!(summary.status, LoopStatus::Converged);
    assert_eq!(summary.iterations, 2);
    assert!(!summary.records[0].removed_permission);
    assert!(summary.records[0].propagated);
    assert!(!hyp.get(PointerId(1)).contains(PermFlag::Write));
    assert!(hyp.get(PointerId(0)).contains(PermFlag::Read));
}

#[test]
fn out_of_range_propagation_requests_are_ignored() {
    let body = reborrow_body();
    let mut hyp = Hypothesis::new(vec![perms(&[PermFlag::Unique]), perms(&[]), perms(&[])]);
    let mut collab = Scripted::new(
        vec![vec![(Origin(3), vec![Loan(0)])], vec![]],
        vec![vec![(PointerId(99), PermFlag::Read)]],
    );
    let summary = borrowck_mir(&mut collab, &mut hyp, &body).unwrap();
    assert_eq!(summary.status, LoopStatus::Converged);
    assert!(!summary.records[0].propagated);
}

#[test]
fn unresolvable_loan_aborts_the_run() {
    // The solver names a loan nobody issued: an internal-invariant
    // failure, not a STUCK outcome.
    let body = reborrow_body();
    let mut hyp = Hypothesis::new(vec![perms(&[PermFlag::Unique]), perms(&[]), perms(&[])]);
    let mut collab = Scripted::new(vec![vec![(Origin(3), vec![Loan(77)])]], vec![]);
    let r = borrowck_mir(&mut collab, &mut hyp, &body);
    assert_eq!(r, Err(AnalysisError::LoanNotIssued(Loan(77))));
}

#[test]
fn iteration_bound_is_reached_only_by_sustained_progress() {
    // A pathological collaborator that keeps reporting violations while
    // always finding one more flag to strip: the run is aborted at the
    // fixed bound.  Four pointers of five flags each give enough room.
    let body = reborrow_body();
    let mut table = vec![perms(&ALL_FLAGS), perms(&ALL_FLAGS), perms(&ALL_FLAGS), perms(
        &ALL_FLAGS,
    )];
    table.push(perms(&[]));
    table.push(perms(&[]));
    let mut hyp = Hypothesis::new(table);

    let mut pairs: Vec<Vec<(PointerId, PermFlag)>> = Vec::new();
    for p in 0..4usize {
        for f in ALL_FLAGS {
            // The culprit step already strips UNIQUE from pointer 0.
            if p == 0 && f == PermFlag::Unique {
                continue;
            }
            pairs.push(vec![(PointerId(p), f)]);
        }
    }
    let reports: Vec<Vec<(Origin, Vec<Loan>)>> =
        (0..MAX_ITERATIONS).map(|_| vec![(Origin(3), vec![Loan(0)])]).collect();
    let mut collab = Scripted::new(reports, pairs);
    let r = borrowck_mir(&mut collab, &mut hyp, &body);
    assert_eq!(r, Err(AnalysisError::IterationBoundExceeded));
}
