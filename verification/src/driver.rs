//! The fixpoint driver: the permission-hypothesis refinement loop.
//!
//! Each iteration rebuilds the fact model from the current hypothesis,
//! has the collaborators populate the statement-level facts, hands the
//! complete set to the external solver, and interprets the violation
//! report: for every loan named in a violation the culprit pointer is
//! resolved and its exclusive-access permission removed.  The loop stops
//! when the solver reports no violations (CONVERGED), when an iteration
//! makes no progress on a non-empty report (STUCK), or — as an
//! internal-invariant failure — when the iteration bound is reached.
//!
//! The hypothesis only ever shrinks, so the loop provably terminates
//! within one iteration more than the number of permission flags
//! initially held.

use crate::atoms::{Loan, Origin, PointerId};
use crate::body::Body;
use crate::culprit::{loan_culprit, spec_loan_culprit, AnalysisError};
use crate::facts::{AllFacts, AtomMaps, SolverOutput};
use crate::hypothesis::{
    hyp_le, lemma_hyp_le_trans, lemma_sum_flags_bound, lemma_sum_flags_le, sum_flags, Hypothesis,
};
use crate::perm::{PermFlag, PermissionSet};
use crate::translate::{
    lemma_origin_base_le_size_base, spec_size_base, translate,
};
use crate::ty::LabeledTy;
use vstd::prelude::*;

verus! {

/// The iteration bound.  Progress is monotone and bounded, so a
/// well-formed analysis converges far below it; reaching it is a defect.
pub const MAX_ITERATIONS: usize = 20;

/// How one refinement run ended, short of a fatal error.
#[derive(Clone, Copy, PartialEq, Eq, Structural, Debug, Hash)]
pub enum LoopStatus {
    /// The solver reported no violations: the hypothesis is sound.
    Converged,
    /// Violations remain but no permission could be removed; the caller
    /// receives a best-effort, possibly unsound hypothesis.
    Stuck,
}

/// What one iteration observed and did.
#[derive(Clone, Copy, PartialEq, Eq, Structural, Debug, Hash)]
pub struct IterationRecord {
    /// Number of violation entries the solver reported.
    pub errors: usize,
    /// Number of move-error entries; observed but never acted on.
    pub move_errors: usize,
    /// Whether culprit resolution removed at least one permission flag.
    pub removed_permission: bool,
    /// Whether applying the propagator's requests removed at least one
    /// permission flag.
    pub propagated: bool,
}

/// The outcome of one refinement run.
#[derive(PartialEq, Eq, Debug)]
pub struct AnalysisSummary {
    /// How the loop ended.
    pub status: LoopStatus,
    /// How many iterations ran.
    pub iterations: usize,
    /// One record per iteration, in order.
    pub records: Vec<IterationRecord>,
}

/// The external collaborators of one refinement run: the statement-level
/// fact populators, the borrow-check solver, and the dataflow
/// propagator.  The loop promises nothing of what these return; whatever
/// comes back, the hypothesis only shrinks and the loop stays bounded.
pub trait Collaborators {
    /// Populate loan-creation, invalidation and definition/use/drop
    /// facts from the statements of the body, minting loans through the
    /// atom tables.
    fn populate_facts(
        &mut self,
        facts: &mut AllFacts,
        maps: &mut AtomMaps,
        body: &Body,
        local_ltys: &Vec<LabeledTy>,
    );

    /// Evaluate the complete fact set and report every violation.  The
    /// solver is invoked fresh each iteration and must not keep state
    /// that changes what a fact set evaluates to.
    fn solve(&mut self, facts: &AllFacts) -> SolverOutput;

    /// Close the hypothesis under the analysis-wide constraint graph by
    /// naming the flags to remove.  Requests outside the table are
    /// ignored.
    fn propagation_requests(&mut self, hypothesis: &Hypothesis) -> Vec<(PointerId, PermFlag)>;
}

/// One step of violation interpretation: resolve `loan` to its culprit
/// and strip the culprit's exclusive-access flag when held.  Yields the
/// new table and whether a flag was removed, or the resolution error.
pub open spec fn spec_violation_step(
    body: Body,
    facts: AllFacts,
    maps: AtomMaps,
    h: Seq<PermissionSet>,
    loan: Loan,
) -> Result<(Seq<PermissionSet>, bool), AnalysisError> {
    match spec_loan_culprit(body, facts, maps, loan) {
        Result::Ok(ptr) => {
            if ptr.0 < h.len() {
                if h[ptr.0 as int].spec_has(PermFlag::Unique) {
                    Result::Ok(
                        (
                            h.update(
                                ptr.0 as int,
                                h[ptr.0 as int].spec_remove(PermFlag::Unique),
                            ),
                            true,
                        ),
                    )
                } else {
                    Result::Ok((h, false))
                }
            } else {
                Result::Err(AnalysisError::MissingPointerId(loan))
            }
        },
        Result::Err(e) => Result::Err(e),
    }
}

/// Interpretation of a violation report from entry `e`, loan `k` onward:
/// the loans are folded over the table in report order.  On failure the
/// error is the first resolution failure, paired with the table as the
/// already-processed prefix left it.
pub open spec fn spec_apply_violations_from(
    body: Body,
    facts: AllFacts,
    maps: AtomMaps,
    errors: Seq<(Origin, Vec<Loan>)>,
    e: int,
    k: int,
    h: Seq<PermissionSet>,
) -> Result<(Seq<PermissionSet>, bool), (Seq<PermissionSet>, AnalysisError)>
    decreases errors.len() - e, errors[e].1@.len() - k,
{
    if e < 0 || e >= errors.len() {
        Result::Ok((h, false))
    } else if k < 0 || k >= errors[e].1@.len() {
        spec_apply_violations_from(body, facts, maps, errors, e + 1, 0, h)
    } else {
        match spec_violation_step(body, facts, maps, h, errors[e].1@[k]) {
            Result::Ok(step) => {
                match spec_apply_violations_from(body, facts, maps, errors, e, k + 1, step.0) {
                    Result::Ok(rest) => Result::Ok((rest.0, step.1 || rest.1)),
                    Result::Err(rest) => Result::Err(rest),
                }
            },
            Result::Err(err) => Result::Err((h, err)),
        }
    }
}

/// What interpreting a whole violation report does to the table.
pub open spec fn spec_apply_violations(
    body: Body,
    facts: AllFacts,
    maps: AtomMaps,
    errors: Seq<(Origin, Vec<Loan>)>,
    h: Seq<PermissionSet>,
) -> Result<(Seq<PermissionSet>, bool), (Seq<PermissionSet>, AnalysisError)> {
    spec_apply_violations_from(body, facts, maps, errors, 0, 0, h)
}

/// Application of the propagator's removal requests from position `q`
/// onward: in-range requests strip their flag, requests outside the
/// table are skipped, and the flag reports whether any stripped flag was
/// actually held.
pub open spec fn spec_apply_requests_from(
    requests: Seq<(PointerId, PermFlag)>,
    q: int,
    h: Seq<PermissionSet>,
) -> (Seq<PermissionSet>, bool)
    decreases requests.len() - q,
{
    if q < 0 || q >= requests.len() {
        (h, false)
    } else {
        let p = requests[q].0;
        let f = requests[q].1;
        let h1 = if p.0 < h.len() {
            h.update(p.0 as int, h[p.0 as int].spec_remove(f))
        } else {
            h
        };
        let c1 = p.0 < h.len() && h[p.0 as int].spec_has(f);
        let rest = spec_apply_requests_from(requests, q + 1, h1);
        (rest.0, c1 || rest.1)
    }
}

/// What applying a whole request batch does to the table.
pub open spec fn spec_apply_requests(
    requests: Seq<(PointerId, PermFlag)>,
    h: Seq<PermissionSet>,
) -> (Seq<PermissionSet>, bool) {
    spec_apply_requests_from(requests, 0, h)
}

/// Interpret one violation report against the hypothesis: resolve every
/// reported loan to its culprit pointer, in report order, and strip the
/// culprit's exclusive-access permission where held.  The outcome is
/// exactly the fold [`spec_apply_violations`]: on success the table is
/// that fold's table and the flag says whether any entry lost a flag; on
/// failure the error is the first loan whose resolution broke a
/// collaborator contract, and the loans before it have been applied.
/// The hypothesis never grows, and a removal shrinks the flag total.
#[verifier::loop_isolation(false)]
pub fn apply_violations(
    body: &Body,
    facts: &AllFacts,
    maps: &AtomMaps,
    errors: &Vec<(crate::atoms::Origin, Vec<crate::atoms::Loan>)>,
    hypothesis: &mut Hypothesis,
) -> (r: Result<bool, AnalysisError>)
    ensures
        final(hypothesis)@.len() == old(hypothesis)@.len(),
        hyp_le(final(hypothesis)@, old(hypothesis)@),
        (match spec_apply_violations(*body, *facts, *maps, errors@, old(hypothesis)@) {
            Result::Ok(out) => r == Result::<bool, AnalysisError>::Ok(out.1) && final(hypothesis)@
                == out.0,
            Result::Err(out) => r == Result::<bool, AnalysisError>::Err(out.1)
                && final(hypothesis)@ == out.0,
        }),
        r == Result::<bool, AnalysisError>::Ok(false) ==> final(hypothesis)@ == old(hypothesis)@,
        r == Result::<bool, AnalysisError>::Ok(true) ==> sum_flags(final(hypothesis)@) + 1
            <= sum_flags(old(hypothesis)@),
        (r matches Result::Err(e) ==> !(e is IterationBoundExceeded)),
{
    let ghost h_start = hypothesis@;
    let mut removed = false;
    let n_errors = errors.len();
    let mut e: usize = 0;
    while e < n_errors
        invariant
            e <= n_errors,
            hypothesis@.len() == h_start.len(),
            hyp_le(hypothesis@, h_start),
            removed ==> sum_flags(hypothesis@) + 1 <= sum_flags(h_start),
            !removed ==> hypothesis@ == h_start,
            (match spec_apply_violations_from(
                *body,
                *facts,
                *maps,
                errors@,
                e as int,
                0,
                hypothesis@,
            ) {
                Result::Ok(rest) => spec_apply_violations(*body, *facts, *maps, errors@, h_start)
                    == Result::<
                    (Seq<PermissionSet>, bool),
                    (Seq<PermissionSet>, AnalysisError),
                >::Ok((rest.0, removed || rest.1)),
                Result::Err(rest) => spec_apply_violations(*body, *facts, *maps, errors@, h_start)
                    == Result::<
                    (Seq<PermissionSet>, bool),
                    (Seq<PermissionSet>, AnalysisError),
                >::Err(rest),
            }),
        decreases n_errors - e,
    {
        let entry = &errors[e];
        let nl = entry.1.len();
        let mut k: usize = 0;
        while k < nl
            invariant
                k <= nl,
                hypothesis@.len() == h_start.len(),
                hyp_le(hypothesis@, h_start),
                removed ==> sum_flags(hypothesis@) + 1 <= sum_flags(h_start),
                !removed ==> hypothesis@ == h_start,
                (match spec_apply_violations_from(
                    *body,
                    *facts,
                    *maps,
                    errors@,
                    e as int,
                    k as int,
                    hypothesis@,
                ) {
                    Result::Ok(rest) => spec_apply_violations(
                        *body,
                        *facts,
                        *maps,
                        errors@,
                        h_start,
                    ) == Result::<
                        (Seq<PermissionSet>, bool),
                        (Seq<PermissionSet>, AnalysisError),
                    >::Ok((rest.0, removed || rest.1)),
                    Result::Err(rest) => spec_apply_violations(
                        *body,
                        *facts,
                        *maps,
                        errors@,
                        h_start,
                    ) == Result::<
                        (Seq<PermissionSet>, bool),
                        (Seq<PermissionSet>, AnalysisError),
                    >::Err(rest),
                }),
            decreases nl - k,
        {
            let loan = entry.1[k];
            let ghost h_before = hypothesis@;
            match loan_culprit(body, facts, maps, loan) {
                Result::Ok(ptr) => {
                    if ptr.0 >= hypothesis.len() {
                        proof {
                            assert(spec_violation_step(*body, *facts, *maps, h_before, loan)
                                == Result::<(Seq<PermissionSet>, bool), AnalysisError>::Err(
                                AnalysisError::MissingPointerId(loan),
                            ));
                        }
                        return Result::Err(AnalysisError::MissingPointerId(loan));
                    }
                    if hypothesis.contains(ptr, PermFlag::Unique) {
                        let _ = hypothesis.remove_flag(ptr, PermFlag::Unique);
                        proof {
                            lemma_hyp_le_trans(hypothesis@, h_before, h_start);
                            assert(spec_violation_step(*body, *facts, *maps, h_before, loan)
                                == Result::<(Seq<PermissionSet>, bool), AnalysisError>::Ok(
                                (hypothesis@, true),
                            ));
                        }
                        removed = true;
                    } else {
                        proof {
                            assert(spec_violation_step(*body, *facts, *maps, h_before, loan)
                                == Result::<(Seq<PermissionSet>, bool), AnalysisError>::Ok(
                                (h_before, false),
                            ));
                        }
                    }
                },
                Result::Err(err) => {
                    proof {
                        crate::culprit::lemma_culprit_never_reports_bound(
                            *body,
                            *facts,
                            *maps,
                            loan,
                        );
                        assert(spec_violation_step(*body, *facts, *maps, h_before, loan)
                            == Result::<(Seq<PermissionSet>, bool), AnalysisError>::Err(err));
                    }
                    return Result::Err(err);
                },
            }
            k += 1;
        }
        e += 1;
    }
    Result::Ok(removed)
}

/// Apply the propagator's removal requests to the hypothesis, in order,
/// ignoring requests outside the table.  The outcome is exactly the fold
/// [`spec_apply_requests`]: the new table is that fold's table, and the
/// result says whether any requested flag was actually held.  The
/// hypothesis never grows.
#[verifier::loop_isolation(false)]
pub fn apply_propagation_requests(
    hypothesis: &mut Hypothesis,
    requests: &Vec<(PointerId, PermFlag)>,
) -> (r: bool)
    ensures
        final(hypothesis)@.len() == old(hypothesis)@.len(),
        hyp_le(final(hypothesis)@, old(hypothesis)@),
        final(hypothesis)@ == spec_apply_requests(requests@, old(hypothesis)@).0,
        r == spec_apply_requests(requests@, old(hypothesis)@).1,
        !r ==> final(hypothesis)@ == old(hypothesis)@,
        r ==> sum_flags(final(hypothesis)@) + 1 <= sum_flags(old(hypothesis)@),
{
    let ghost h_start = hypothesis@;
    let mut propagated = false;
    let nq = requests.len();
    let mut q: usize = 0;
    while q < nq
        invariant
            q <= nq,
            hypothesis@.len() == h_start.len(),
            hyp_le(hypothesis@, h_start),
            propagated ==> sum_flags(hypothesis@) + 1 <= sum_flags(h_start),
            !propagated ==> hypothesis@ == h_start,
            spec_apply_requests(requests@, h_start).0 == spec_apply_requests_from(
                requests@,
                q as int,
                hypothesis@,
            ).0,
            spec_apply_requests(requests@, h_start).1 == (propagated || spec_apply_requests_from(
                requests@,
                q as int,
                hypothesis@,
            ).1),
        decreases nq - q,
    {
        let pf = requests[q];
        if pf.0.0 < hypothesis.len() {
            let ghost before = hypothesis@;
            let had = hypothesis.remove_flag(pf.0, pf.1);
            proof {
                lemma_hyp_le_trans(hypothesis@, before, h_start);
            }
            if had {
                propagated = true;
            }
        }
        q += 1;
    }
    propagated
}

/// Run the refinement loop for one function body.
///
/// The hypothesis only ever shrinks, pointwise, from its initial value;
/// on success the loop took at most one iteration more than the number
/// of flags initially held, and far below the fixed bound unless the
/// input itself is that large.  A run that converges on its first
/// iteration leaves the hypothesis untouched.
#[verifier::loop_isolation(false)]
pub fn borrowck_mir<C: Collaborators>(
    collab: &mut C,
    hypothesis: &mut Hypothesis,
    body: &Body,
) -> (r: Result<AnalysisSummary, AnalysisError>)
    requires
        body.wf(old(hypothesis)@.len() as nat),
        spec_size_base(body.locals@, body.locals@.len() as int) <= usize::MAX,
    ensures
        final(hypothesis)@.len() == old(hypothesis)@.len(),
        hyp_le(final(hypothesis)@, old(hypothesis)@),
        (match r {
            Result::Ok(s) => {
                &&& 1 <= s.iterations <= MAX_ITERATIONS
                &&& s.records@.len() == s.iterations
                &&& s.iterations as int <= sum_flags(old(hypothesis)@) + 1
                &&& s.iterations as int <= 5 * old(hypothesis)@.len() + 1
                &&& forall|j: int|
                    0 <= j < s.iterations - 1 ==> (#[trigger] s.records@[j]).errors > 0 && (
                    s.records@[j].removed_permission || s.records@[j].propagated)
                &&& (s.status is Converged ==> s.records@.last().errors == 0)
                &&& (s.status is Stuck ==> s.records@.last().errors > 0
                    && !s.records@.last().removed_permission && !s.records@.last().propagated)
                &&& (s.status is Converged && s.iterations == 1 ==> final(hypothesis)@ == old(
                    hypothesis,
                )@)
            },
            Result::Err(e) => e is IterationBoundExceeded ==> sum_flags(old(hypothesis)@) + 1
                >= MAX_ITERATIONS,
        }),
{
    let ghost h0 = old(hypothesis)@;
    proof {
        lemma_sum_flags_bound(h0);
    }
    let mut i: usize = 0;
    let mut records: Vec<IterationRecord> = Vec::new();
    loop
        invariant
            i < MAX_ITERATIONS,
            records@.len() == i,
            hypothesis@.len() == h0.len(),
            hyp_le(hypothesis@, h0),
            sum_flags(hypothesis@) + i <= sum_flags(h0),
            i == 0 ==> hypothesis@ == h0,
            forall|j: int|
                0 <= j < i ==> (#[trigger] records@[j]).errors > 0 && (
                records@[j].removed_permission || records@[j].propagated),
        decreases MAX_ITERATIONS - i,
    {
        proof {
            lemma_origin_base_le_size_base(body.locals@, hypothesis@, body.locals@.len() as int);
        }
        let (mut facts, mut maps, local_ltys) = translate(body, hypothesis);
        collab.populate_facts(&mut facts, &mut maps, body, &local_ltys);
        let output = collab.solve(&facts);
        let n_errors = output.errors.len();
        let n_move_errors = output.move_errors.len();
        i += 1;

        if n_errors == 0 {
            records.push(
                IterationRecord {
                    errors: 0,
                    move_errors: n_move_errors,
                    removed_permission: false,
                    propagated: false,
                },
            );
            return Result::Ok(
                AnalysisSummary { status: LoopStatus::Converged, iterations: i, records },
            );
        }
        if i >= MAX_ITERATIONS {
            return Result::Err(AnalysisError::IterationBoundExceeded);
        }

        // Resolve every reported loan to its culprit pointer and strip
        // its exclusive-access permission.
        let ghost h_iter = hypothesis@;
        let removed = match apply_violations(body, &facts, &maps, &output.errors, hypothesis) {
            Result::Ok(removed) => removed,
            Result::Err(err) => {
                proof {
                    lemma_hyp_le_trans(hypothesis@, h_iter, h0);
                }
                return Result::Err(err);
            },
        };
        proof {
            lemma_hyp_le_trans(hypothesis@, h_iter, h0);
        }

        // Close the hypothesis under the propagator's constraint graph.
        let requests = collab.propagation_requests(hypothesis);
        let ghost h_mid = hypothesis@;
        let propagated = apply_propagation_requests(hypothesis, &requests);
        proof {
            lemma_hyp_le_trans(hypothesis@, h_mid, h_iter);
            lemma_hyp_le_trans(hypothesis@, h_mid, h0);
        }

        if !removed && !propagated {
            records.push(
                IterationRecord {
                    errors: n_errors,
                    move_errors: n_move_errors,
                    removed_permission: false,
                    propagated: false,
                },
            );
            return Result::Ok(
                AnalysisSummary { status: LoopStatus::Stuck, iterations: i, records },
            );
        }

        records.push(
            IterationRecord {
                errors: n_errors,
                move_errors: n_move_errors,
                removed_permission: removed,
                propagated,
            },
        );
        proof {
            if removed {
                lemma_sum_flags_le(hypothesis@, h_mid);
            }
        }
    }
}

} // verus!
