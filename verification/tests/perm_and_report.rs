//! The permission lattice and the report selectors.

use borrowck::perm::{PermFlag, PermissionSet};
use borrowck::report::ToPrint;

fn set_of(flags: &[PermFlag]) -> PermissionSet {
    let mut s = PermissionSet::empty();
    for f in flags {
        s.insert(*f);
    }
    s
}

#[test]
fn empty_set_has_no_flags() {
    let s = PermissionSet::empty();
    assert!(s.is_empty());
    assert!(!s.contains(PermFlag::Read));
    assert!(!s.contains(PermFlag::Write));
    assert!(!s.contains(PermFlag::Unique));
    assert!(!s.contains(PermFlag::OffsetAdd));
    assert!(!s.contains(PermFlag::OffsetSub));
    assert_eq!(s.bits, 0);
}

#[test]
fn insert_then_contains() {
    let s = set_of(&[PermFlag::Read, PermFlag::Unique]);
    assert!(s.contains(PermFlag::Read));
    assert!(s.contains(PermFlag::Unique));
    assert!(!s.contains(PermFlag::Write));
    assert!(!s.is_empty());
    assert_eq!(s.bits, 0x05);
}

#[test]
fn remove_only_touches_its_flag() {
    let mut s = set_of(&[PermFlag::Read, PermFlag::Write, PermFlag::Unique]);
    s.remove(PermFlag::Unique);
    assert!(!s.contains(PermFlag::Unique));
    assert!(s.contains(PermFlag::Read));
    assert!(s.contains(PermFlag::Write));
}

#[test]
fn remove_absent_flag_is_noop() {
    let mut s = set_of(&[PermFlag::OffsetAdd]);
    let before = s;
    s.remove(PermFlag::Read);
    assert_eq!(s, before);
}

#[test]
fn remove_all_flags_gives_empty() {
    let mut s = set_of(
        &[
            PermFlag::Read,
            PermFlag::Write,
            PermFlag::Unique,
            PermFlag::OffsetAdd,
            PermFlag::OffsetSub,
        ],
    );
    s.remove(PermFlag::Read);
    s.remove(PermFlag::Write);
    s.remove(PermFlag::Unique);
    s.remove(PermFlag::OffsetAdd);
    s.remove(PermFlag::OffsetSub);
    assert!(s.is_empty());
}

#[test]
fn to_print_names() {
    assert_eq!(ToPrint::Graphs.name(), "graphs");
    assert_eq!(ToPrint::Counts.name(), "counts");
    assert_eq!(ToPrint::Events.name(), "events");
    assert_eq!(ToPrint::LatestAssignments.name(), "latest-assignments");
    assert_eq!(ToPrint::WritePermissions.name(), "write-permissions");
    assert_eq!(ToPrint::Metadata.name(), "metadata");
}
