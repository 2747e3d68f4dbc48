//! The loan culprit resolver.
//!
//! Given a violation naming an abstract loan, find the statement that
//! created it and identify which concrete pointer is responsible, so the
//! driver knows which hypothesis entry to weaken.  Every way this can
//! fail is a broken contract of an upstream collaborator and is reported
//! as a distinguished internal-error value instead of a crash.

use crate::atoms::{Loan, Origin, Point, PointerId};
use crate::body::{spec_ptr_of_parts, ptr_of, Body, Operand, Place, PlaceElem, Rvalue, Statement};
use crate::facts::{AllFacts, AtomMaps};
use crate::util::{describe_rvalue, spec_last_deref, RvalueDesc};
use vstd::prelude::*;

verus! {

/// An internal-invariant failure: the analysis input broke a contract
/// that the refinement loop relies on, and the whole run is aborted.
#[derive(Clone, Copy, PartialEq, Eq, Structural, Debug, Hash)]
pub enum AnalysisError {
    /// A violation names a loan with no creation fact.
    LoanNotIssued(Loan),
    /// A loan's creation fact points outside the point tables.
    UnknownPoint(Loan),
    /// A loan's creation site is a terminator, which cannot create loans.
    LoanFromTerminator(Loan),
    /// A loan's creation site is not an assignment.
    LoanFromNonAssign(Loan),
    /// A loan was created by a right-hand side that is not a
    /// pointer-producing expression.
    UnknownRvalue(Loan),
    /// The responsible expression resolves to no hypothesis entry.
    MissingPointerId(Loan),
    /// The iteration bound was reached while violations remained and
    /// progress was still being made.
    IterationBoundExceeded,
}

/// The pointer a projection through a base pointer expression resolves
/// to.
pub open spec fn spec_project_culprit(
    body: Body,
    local: int,
    proj: Seq<PlaceElem>,
    loan: Loan,
) -> Result<PointerId, AnalysisError> {
    match spec_ptr_of_parts(body.locals@, local, proj) {
        Option::Some(p) => Result::Ok(p),
        Option::None => Result::Err(AnalysisError::MissingPointerId(loan)),
    }
}

/// The pointer responsible for a borrow or address-of of place `pl`:
/// with a dereference in the chain, the base pointer expression before
/// the last one; otherwise the designated address-of pointer of the base
/// local.
pub open spec fn spec_borrow_culprit(body: Body, pl: Place, loan: Loan) -> Result<
    PointerId,
    AnalysisError,
> {
    match spec_last_deref(pl.projection@) {
        Option::Some(i) => spec_project_culprit(
            body,
            pl.local as int,
            pl.projection@.take(i),
            loan,
        ),
        Option::None => if pl.local < body.addr_of_local@.len() {
            Result::Ok(body.addr_of_local@[pl.local as int])
        } else {
            Result::Err(AnalysisError::MissingPointerId(loan))
        },
    }
}

/// The pointer responsible for the loan a right-hand side created.
pub open spec fn spec_rvalue_culprit(body: Body, rv: Rvalue, loan: Loan) -> Result<
    PointerId,
    AnalysisError,
> {
    match rv {
        Rvalue::Use(op) => match op {
            Operand::Copy(pl) => spec_project_culprit(body, pl.local as int, pl.projection@, loan),
            Operand::Move(pl) => spec_project_culprit(body, pl.local as int, pl.projection@, loan),
            Operand::Constant => Result::Err(AnalysisError::UnknownRvalue(loan)),
        },
        Rvalue::Ref(_, pl) => spec_borrow_culprit(body, pl, loan),
        Rvalue::AddressOf(_, pl) => spec_borrow_culprit(body, pl, loan),
        Rvalue::Other => Result::Err(AnalysisError::UnknownRvalue(loan)),
    }
}

/// First creation fact naming `loan`, if any.
pub open spec fn spec_find_issue(issued: Seq<(Origin, Loan, Point)>, loan: Loan) -> Option<int>
    decreases issued.len(),
{
    if issued.len() == 0 {
        Option::None
    } else if issued[0].1 == loan {
        Option::Some(0)
    } else {
        match spec_find_issue(issued.drop_first(), loan) {
            Option::Some(i) => Option::Some(i + 1),
            Option::None => Option::None,
        }
    }
}

/// The full contract of culprit resolution for one loan.
pub open spec fn spec_loan_culprit(
    body: Body,
    facts: AllFacts,
    maps: AtomMaps,
    loan: Loan,
) -> Result<PointerId, AnalysisError> {
    match spec_find_issue(facts.loan_issued_at@, loan) {
        Option::None => Result::Err(AnalysisError::LoanNotIssued(loan)),
        Option::Some(i) => {
            let point = facts.loan_issued_at@[i].2;
            if point.0 >= maps.points@.len() {
                Result::Err(AnalysisError::UnknownPoint(loan))
            } else {
                let desc = maps.points@[point.0 as int];
                if desc.0 >= body.blocks@.len() {
                    Result::Err(AnalysisError::UnknownPoint(loan))
                } else {
                    let blk = body.blocks@[desc.0 as int];
                    if desc.1 < blk.statements@.len() {
                        match blk.statements@[desc.1 as int] {
                            Statement::Assign(_, rv) => spec_rvalue_culprit(body, rv, loan),
                            Statement::Other => Result::Err(AnalysisError::LoanFromNonAssign(loan)),
                        }
                    } else {
                        Result::Err(AnalysisError::LoanFromTerminator(loan))
                    }
                }
            }
        },
    }
}

/// Culprit resolution reports broken collaborator contracts only; the
/// iteration bound is not its to report.
pub proof fn lemma_culprit_never_reports_bound(body: Body, facts: AllFacts, maps: AtomMaps, loan: Loan)
    ensures
        spec_loan_culprit(body, facts, maps, loan) != Result::<PointerId, AnalysisError>::Err(
            AnalysisError::IterationBoundExceeded,
        ),
{
}

/// A successful creation-fact lookup lands inside the table and names
/// the loan.
pub proof fn lemma_find_issue_in_range(issued: Seq<(Origin, Loan, Point)>, loan: Loan, i: int)
    requires
        spec_find_issue(issued, loan) == Option::Some(i),
    ensures
        0 <= i < issued.len(),
        issued[i].1 == loan,
    decreases issued.len(),
{
    if issued.len() > 0 && issued[0].1 != loan {
        lemma_find_issue_in_range(issued.drop_first(), loan, i - 1);
    }
}

/// Culprit resolution reads the very statement a loan was issued at:
/// when the loan's first creation fact lies at a point of statement slot
/// `(b, idx)` of a body whose point tables `maps` describes, the
/// resolved culprit is decided by that statement's right-hand side
/// alone.
pub proof fn lemma_culprit_reads_issuing_statement(
    body: Body,
    facts: AllFacts,
    maps: AtomMaps,
    loan: Loan,
    b: int,
    idx: int,
    sub: crate::atoms::SubPoint,
    i: int,
)
    requires
        maps.wf_for(body.blocks@),
        0 <= b < body.blocks@.len(),
        0 <= idx < body.blocks@[b].statements@.len(),
        spec_find_issue(facts.loan_issued_at@, loan) == Option::Some(i),
        facts.loan_issued_at@[i].2 == crate::facts::spec_pt(body.blocks@, b, idx, sub),
    ensures
        spec_loan_culprit(body, facts, maps, loan) == (match body.blocks@[b].statements@[idx] {
            Statement::Assign(_, rv) => spec_rvalue_culprit(body, rv, loan),
            Statement::Other => Result::<PointerId, AnalysisError>::Err(
                AnalysisError::LoanFromNonAssign(loan),
            ),
        }),
{
    let blocks = body.blocks@;
    lemma_find_issue_in_range(facts.loan_issued_at@, loan, i);
    crate::facts::lemma_point_id_in_range(blocks, b, idx, sub);
    crate::facts::lemma_points_lookup(blocks, b, idx, sub, blocks.len() as int);
    let point = facts.loan_issued_at@[i].2;
    assert(maps.points@.len() <= usize::MAX) by {
        vstd::std_specs::vec::axiom_spec_len(&maps.points);
    }
    assert(blocks.len() <= usize::MAX) by {
        vstd::std_specs::vec::axiom_spec_len(&body.blocks);
    }
    assert(body.blocks@[b].statements@.len() <= usize::MAX) by {
        vstd::std_specs::vec::axiom_spec_len(&body.blocks@[b].statements);
    }
    assert(point.0 as int == crate::facts::spec_point_id(blocks, b, idx, sub));
    assert(maps.points@[point.0 as int] == (b as usize, idx as usize, sub));
}

/// If nothing before `i` names the loan and entry `i` does, the first
/// creation fact is at `i`.
proof fn lemma_find_issue_found(issued: Seq<(Origin, Loan, Point)>, loan: Loan, i: int)
    requires
        0 <= i < issued.len(),
        issued[i].1 == loan,
        forall|j: int| 0 <= j < i ==> (#[trigger] issued[j]).1 != loan,
    ensures
        spec_find_issue(issued, loan) == Option::Some(i),
    decreases issued.len(),
{
    if i > 0 {
        lemma_find_issue_found(issued.drop_first(), loan, i - 1);
    }
}

/// If no creation fact names the loan, the lookup fails.
proof fn lemma_find_issue_missing(issued: Seq<(Origin, Loan, Point)>, loan: Loan)
    requires
        forall|j: int| 0 <= j < issued.len() ==> (#[trigger] issued[j]).1 != loan,
    ensures
        spec_find_issue(issued, loan) is None,
    decreases issued.len(),
{
    if issued.len() > 0 {
        lemma_find_issue_missing(issued.drop_first(), loan);
    }
}

/// Locate the single statement that created `loan` and resolve the
/// concrete pointer responsible for it.
pub fn loan_culprit(body: &Body, facts: &AllFacts, maps: &AtomMaps, loan: Loan) -> (r: Result<
    PointerId,
    AnalysisError,
>)
    ensures
        r == spec_loan_culprit(*body, *facts, *maps, loan),
{
    let n = facts.loan_issued_at.len();
    let mut i: usize = 0;
    while i < n
        invariant
            i <= n,
            n == facts.loan_issued_at@.len(),
            forall|j: int| 0 <= j < i ==> (#[trigger] facts.loan_issued_at@[j]).1 != loan,
        decreases n - i,
    {
        let entry = facts.loan_issued_at[i];
        if entry.1 == loan {
            proof {
                lemma_find_issue_found(facts.loan_issued_at@, loan, i as int);
            }
            return resolve_at_point(body, maps, entry.2, loan);
        }
        i += 1;
    }
    proof {
        lemma_find_issue_missing(facts.loan_issued_at@, loan);
    }
    Result::Err(AnalysisError::LoanNotIssued(loan))
}

/// Resolve the culprit of a loan created at `point`.
fn resolve_at_point(body: &Body, maps: &AtomMaps, point: Point, loan: Loan) -> (r: Result<
    PointerId,
    AnalysisError,
>)
    ensures
        r == (if point.0 >= maps.points@.len() {
            Result::<PointerId, AnalysisError>::Err(AnalysisError::UnknownPoint(loan))
        } else {
            let desc = maps.points@[point.0 as int];
            if desc.0 >= body.blocks@.len() {
                Result::<PointerId, AnalysisError>::Err(AnalysisError::UnknownPoint(loan))
            } else {
                let blk = body.blocks@[desc.0 as int];
                if desc.1 < blk.statements@.len() {
                    match blk.statements@[desc.1 as int] {
                        Statement::Assign(_, rv) => spec_rvalue_culprit(*body, rv, loan),
                        Statement::Other => Result::<PointerId, AnalysisError>::Err(
                            AnalysisError::LoanFromNonAssign(loan),
                        ),
                    }
                } else {
                    Result::<PointerId, AnalysisError>::Err(AnalysisError::LoanFromTerminator(loan))
                }
            }
        }),
{
    let loc = match maps.get_point_location(point) {
        Option::Some(loc) => loc,
        Option::None => {
            return Result::Err(AnalysisError::UnknownPoint(loan));
        },
    };
    let (b, idx, _sub) = loc;
    if b >= body.blocks.len() {
        return Result::Err(AnalysisError::UnknownPoint(loan));
    }
    let blk = &body.blocks[b];
    if idx < blk.statements.len() {
        match &blk.statements[idx] {
            Statement::Assign(_, rv) => {
                match describe_rvalue(rv) {
                    Option::Some(RvalueDesc::Project { base, proj: _ }) => {
                        match ptr_of(&body.locals, &base) {
                            Option::Some(p) => Result::Ok(p),
                            Option::None => Result::Err(AnalysisError::MissingPointerId(loan)),
                        }
                    },
                    Option::Some(RvalueDesc::AddrOfLocal { local, proj: _ }) => {
                        if local < body.addr_of_local.len() {
                            Result::Ok(body.addr_of_local[local])
                        } else {
                            Result::Err(AnalysisError::MissingPointerId(loan))
                        }
                    },
                    Option::None => Result::Err(AnalysisError::UnknownRvalue(loan)),
                }
            },
            Statement::Other => Result::Err(AnalysisError::LoanFromNonAssign(loan)),
        }
    } else {
        Result::Err(AnalysisError::LoanFromTerminator(loan))
    }
}

} // verus!
