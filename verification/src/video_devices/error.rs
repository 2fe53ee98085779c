//! The failures that end a discovery.

use vstd::prelude::*;

verus! {

/// Why a discovery ended without a list of devices. What goes wrong with one
/// device is no such failure: that device is left out of the list.
#[derive(Clone, Copy, Debug, PartialEq, Eq, Structural)]
pub enum DiscoveryError {
    /// The operating system could not list device sources, for a reason
    /// other than that a source does not exist. `code` is its error number.
    SourceUnreadable { code: i32 },
    /// A listed entry does not lead to a numbered device node, or its own
    /// path does not end in a name.
    MalformedEntry,
    /// The apartment that the enumeration runs in could not be entered.
    /// `code` is the error number of the operating system.
    ApartmentUnavailable { code: i32 },
}

} // verus!
