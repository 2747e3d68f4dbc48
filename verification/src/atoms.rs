//! The opaque integer identities used throughout the analysis.
//!
//! Each kind of entity is a newtype around a dense index.  `PointerId`s are
//! allocated once per analyzed unit and stay stable across loop iterations;
//! every other atom is minted fresh each iteration and discarded afterwards.

use vstd::prelude::*;

verus! {

/// Identity of one candidate pointer location in the analyzed function: a
/// local, a field, or a raw-pointer expression site.
#[derive(Clone, Copy, PartialEq, Eq, Structural, Debug, Hash)]
pub struct PointerId(pub usize);

/// An abstract region (lifetime) variable attached to one pointer-typed
/// sub-term; freshly minted each iteration.
#[derive(Clone, Copy, PartialEq, Eq, Structural, Debug, Hash)]
pub struct Origin(pub usize);

/// A token for one borrow-creating event in the analyzed function.
#[derive(Clone, Copy, PartialEq, Eq, Structural, Debug, Hash)]
pub struct Loan(pub usize);

/// A single control-flow location, after splitting each statement slot into
/// a start and a mid sub-position.
#[derive(Clone, Copy, PartialEq, Eq, Structural, Debug, Hash)]
pub struct Point(pub usize);

/// A trackable memory location: a local plus an access chain.
#[derive(Clone, Copy, PartialEq, Eq, Structural, Debug, Hash)]
pub struct PathId(pub usize);

/// A program variable (a local) as the solver sees it.
#[derive(Clone, Copy, PartialEq, Eq, Structural, Debug, Hash)]
pub struct Variable(pub usize);

/// The two sub-positions each statement or terminator slot is split into.
#[derive(Clone, Copy, PartialEq, Eq, Structural, Debug, Hash)]
pub enum SubPoint {
    /// Before the slot's effect.
    Start,
    /// After the slot's effect.
    Mid,
}

} // verus!
