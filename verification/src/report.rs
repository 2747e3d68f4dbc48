//! Selection of what an analysis driver program prints.

use vstd::prelude::*;

verus! {

/// One printable section of an analysis report.
#[derive(Clone, Copy, PartialEq, Eq, Structural, Debug, Hash)]
pub enum ToPrint {
    /// The per-function graphs themselves.
    Graphs,
    /// Counts of graphs and nodes.
    Counts,
    /// The raw event stream.
    Events,
    /// The latest assignment recorded per local.
    LatestAssignments,
    /// Which nodes need write permission.
    WritePermissions,
    /// The compile-time metadata.
    Metadata,
}

/// The command-line name of each section.
pub open spec fn spec_to_print_name(t: ToPrint) -> Seq<char> {
    match t {
        ToPrint::Graphs => "graphs"@,
        ToPrint::Counts => "counts"@,
        ToPrint::Events => "events"@,
        ToPrint::LatestAssignments => "latest-assignments"@,
        ToPrint::WritePermissions => "write-permissions"@,
        ToPrint::Metadata => "metadata"@,
    }
}

impl ToPrint {
    /// The section's command-line name.
    pub fn name(&self) -> (r: String)
        ensures
            r@ == spec_to_print_name(*self),
    {
        match self {
            ToPrint::Graphs => String::from_str("graphs"),
            ToPrint::Counts => String::from_str("counts"),
            ToPrint::Events => String::from_str("events"),
            ToPrint::LatestAssignments => String::from_str("latest-assignments"),
            ToPrint::WritePermissions => String::from_str("write-permissions"),
            ToPrint::Metadata => String::from_str("metadata"),
        }
    }
}

} // verus!
