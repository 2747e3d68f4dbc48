//! Permission-hypothesis refinement for pointer analysis.
//!
//! The library infers, for every pointer-typed location of an analyzed
//! function, a set of permissions describing how that pointer may safely be
//! used.  An optimistic hypothesis is repeatedly checked against the
//! function's control-flow and memory-access facts by an external
//! borrow-check solver; each reported violation strips the offending
//! pointer's exclusive-access permission until the solver is satisfied or no
//! further progress can be made.
//!
//! The pieces, leaves first:
//!
//! - [`perm`] and [`hypothesis`]: the permission lattice and the mutable
//!   table mapping each pointer identity to its current permission set —
//!   the only state that survives across loop iterations.
//! - [`body`] and [`ty`]: the model of one analyzed function — its
//!   control-flow graph and its locals' pointer-annotated types — as the
//!   upstream program-representation provider hands it over.
//! - [`translate`] and [`relabel`]: the fact translator and the origin
//!   assignment, rebuilding the point/path/origin fact model from the
//!   current hypothesis every iteration, deterministically.
//! - [`culprit`]: resolution of a violation's loan back to the concrete
//!   pointer responsible for it.
//! - [`driver`]: the fixpoint loop itself, generic over the external
//!   collaborators (fact populators, solver, propagator); it guarantees
//!   that the hypothesis only ever shrinks and that it stops within one
//!   iteration more than the number of permission flags initially held.
//! - [`util`]: classification of right-hand sides and of
//!   pointer-arithmetic callees, shared with the permission-design layer.

pub mod atoms;
pub mod body;
pub mod culprit;
pub mod driver;
pub mod facts;
pub mod hypothesis;
pub mod perm;
pub mod relabel;
pub mod report;
pub mod translate;
pub mod ty;
pub mod util;
