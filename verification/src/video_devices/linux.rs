//! Discovery on Linux: the scan of the V4L2 backend, and the order that the
//! finished list is put in.

pub mod v4l2;

use crate::video_devices::device::{
    all_well_ranked, ascending_by_identity, handles, identities, lemma_ordered_distinct_identities,
    lemma_ordered_keeps_devices, lemma_ordered_len, ordered, sort_devices, strictly_ascending,
    Device,
};
use crate::video_devices::error::DiscoveryError;
use crate::video_devices::linux::v4l2::laws::{
    fits, lemma_found_is_candidate, lemma_step_keeps_fit, lemma_step_keeps_identities_apart,
};
use crate::video_devices::linux::v4l2::{
    add_capture_devices, collects, pending, step, Action, Event, Scan, ScanView, Source,
};
use vstd::prelude::*;

verus! {

/// A discovery in progress: the devices found so far, and where the scan of
/// the backend stands.
#[derive(Debug)]
pub struct Discovery {
    pub devices: Vec<Device>,
    pub scan: Scan,
}

/// The step from `before` to `after` ends the scan, and ends it well.
pub open spec fn completes(before: ScanView, after: ScanView) -> bool {
    !(before is Done) && after matches ScanView::Done { result: Ok(_) }
}

/// What a discovery in the state `scan` with the devices `devices` has to
/// show: nothing before the scan is over, then the devices or the failure.
pub open spec fn outcome(scan: ScanView, devices: Vec<Device>) -> Option<
    Result<Vec<Device>, DiscoveryError>,
> {
    match scan {
        ScanView::Done { result: Ok(_) } => Some(Ok(devices)),
        ScanView::Done { result: Err(e) } => Some(Err(e)),
        _ => None,
    }
}

/// One step of a discovery leads from `before` to `after`: the scan takes
/// its step, a device that the step completes joins the devices, and the
/// step that ends the scan well puts the devices in order of identity.
pub open spec fn steps_to(before: Discovery, event: Event, after: Discovery) -> bool {
    let taken = step(before.scan@, handles(before.devices@), event);
    &&& after.scan@ == taken.scan
    &&& if completes(before.scan@, after.scan@) {
        ordered(before.devices@, after.devices@)
    } else {
        collects(before.devices@, taken.found, after.devices@)
    }
}

impl Discovery {
    /// The discovery is in order: its devices differ in their handles from
    /// each other and from the candidate of the scan, every list of
    /// geometries holds each geometry once, those of the devices are ranked,
    /// and once the scan has ended well the devices stand in ascending order
    /// of identity.
    pub open spec fn well_formed(&self) -> bool {
        &&& fits(self.scan@, self.devices@)
        &&& (self.scan@ matches ScanView::Done { result: Ok(_) } ==> ascending_by_identity(
            self.devices@,
        ))
    }

    /// A discovery that has not begun.
    pub fn new() -> (discovery: Discovery)
        ensures
            discovery.well_formed(),
            discovery.devices@ == Seq::<Device>::empty(),
            discovery.scan@ == (ScanView::OpeningSource { source: v4l2::Source::ById }),
    {
        Discovery { devices: Vec::new(), scan: Scan::new() }
    }

    /// The request that the discovery awaits the answer to.
    pub fn pending(&self) -> (action: Action)
        ensures
            action@ == pending(self.scan@),
    {
        self.scan.pending()
    }

    /// Ends the discovery: the devices when the scan went through, the
    /// failure when it failed, and nothing while it is not over.
    pub fn into_result(self) -> (result: Option<Result<Vec<Device>, DiscoveryError>>)
        ensures
            result == outcome(self.scan@, self.devices),
            self.well_formed() ==> (result matches Some(Ok(devices)) ==> {
                &&& ascending_by_identity(devices@)
                &&& handles(devices@).no_duplicates()
                &&& all_well_ranked(devices@)
            }),
    {
        match self.scan {
            Scan::Done { result: Ok(()) } => Some(Ok(self.devices)),
            Scan::Done { result: Err(e) } => Some(Err(e)),
            _ => None,
        }
    }
}

/// Takes one step of the discovery: the backend takes the event, and when
/// that ends its scan well, the devices are put in order of identity.
pub fn find_capture_devices(discovery: Discovery, event: Event) -> (next: (Discovery, Action))
    ensures
        steps_to(discovery, event, next.0),
        next.1@ == pending(next.0.scan@),
        discovery.well_formed() ==> next.0.well_formed(),
{
    let Discovery { devices, scan } = discovery;
    let mut devices = devices;
    let was_over = match &scan {
        Scan::Done { .. } => true,
        _ => false,
    };
    let (scan, action) = add_capture_devices(&mut devices, scan, event);
    let ends_well = match &scan {
        Scan::Done { result: Ok(()) } => true,
        _ => false,
    };
    proof {
        if discovery.well_formed() {
            lemma_step_keeps_fit(discovery.scan@, discovery.devices@, event, devices@);
        }
    }
    if !was_over && ends_well {
        let ghost collected = devices@;
        sort_devices(&mut devices);
        proof {
            lemma_ordered_keeps_devices(collected, devices@);
        }
    }
    (Discovery { devices, scan }, action)
}

/// The devices of a discovery differ pairwise in their identities after
/// every step, and the step that ends the scan well leaves them in strictly
/// ascending order, provided that they differ before the step and that the
/// probe which the step completes, if it completes one, is that of a
/// candidate whose identity no device has.
pub proof fn lemma_identities_stay_distinct(before: Discovery, event: Event, after: Discovery)
    requires
        steps_to(before, event, after),
        identities(before.devices@).no_duplicates(),
        step(before.scan@, handles(before.devices@), event).found matches Some(found)
            ==> !identities(before.devices@).contains(found.candidate.unique_id),
    ensures
        identities(after.devices@).no_duplicates(),
        completes(before.scan@, after.scan@) ==> strictly_ascending(after.devices@),
{
    lemma_found_is_candidate(before.scan@, handles(before.devices@), event);
    if completes(before.scan@, after.scan@) {
        lemma_ordered_distinct_identities(before.devices@, after.devices@);
    } else {
        lemma_step_keeps_identities_apart(before.scan@, before.devices@, event, after.devices@);
    }
}

/// A discovery that finds both listings absent ends after two steps, with an
/// empty list of devices and no failure.
pub proof fn lemma_absent_sources_give_nothing(
    begun: Discovery,
    halfway: Discovery,
    ended: Discovery,
)
    requires
        begun.scan@ == (ScanView::OpeningSource { source: Source::ById }),
        begun.devices@.len() == 0,
        steps_to(begun, Event::SourceAbsent, halfway),
        steps_to(halfway, Event::SourceAbsent, ended),
    ensures
        outcome(ended.scan@, ended.devices) == Some(
            Ok::<Vec<Device>, DiscoveryError>(ended.devices),
        ),
        ended.devices@.len() == 0,
{
    assert(halfway.scan@ == (ScanView::OpeningSource { source: Source::ByPath }));
    lemma_ordered_len(halfway.devices@, ended.devices@);
}

} // verus!
