//! What holds of every step of the scan, whatever the driver reports.

use crate::video_devices::device::{
    all_well_ranked, handles, identities, lemma_added_no_duplicates,
    lemma_ranked_no_duplicates, lemma_ranked_same_geometries, well_ranked, Device,
    FrameSizeType,
};
use crate::video_devices::windows::msmf::{
    assembles, collects, has_handle, pending, step, unpacked, Event, ProbeView, ScanView,
    CAP_MSMF, MAX_SOURCE_INDEX,
};
use vstd::prelude::*;

verus! {

/// The probe that a state is busy with.
pub open spec fn probe_of(scan: ScanView) -> Option<ProbeView> {
    match scan {
        ScanView::Activating { probe, .. } => Some(probe),
        ScanView::CountingStreams { probe, .. } => Some(probe),
        ScanView::SelectingStream { probe, .. } => Some(probe),
        ScanView::CountingMediaTypes { probe, .. } => Some(probe),
        ScanView::ReadingFrameSize { probe, .. } => Some(probe),
        _ => None,
    }
}

/// The scan is inside the apartment in this state.
pub open spec fn in_apartment(scan: ScanView) -> bool {
    !(scan is EnteringApartment) && !(scan is Done)
}

/// A source is activated in this state.
pub open spec fn holds_source(scan: ScanView) -> bool {
    scan is CountingStreams || scan is SelectingStream || scan is CountingMediaTypes
        || scan is ReadingFrameSize || scan is ShuttingDown
}

/// The first position whose source the scan has not yet made a device of
/// or passed over for good.
pub open spec fn position(scan: ScanView) -> int {
    match scan {
        ScanView::EnteringApartment => 0,
        ScanView::EnumeratingSources => 0,
        ScanView::ReadingName { index, .. } => index as int,
        ScanView::ReadingLink { index, .. } => index as int,
        ScanView::Activating { probe, .. } => probe.index as int,
        ScanView::CountingStreams { probe, .. } => probe.index as int,
        ScanView::SelectingStream { probe, .. } => probe.index as int,
        ScanView::CountingMediaTypes { probe, .. } => probe.index as int,
        ScanView::ReadingFrameSize { probe, .. } => probe.index as int,
        ScanView::ShuttingDown { index, .. } => index + 1,
        ScanView::LeavingApartment { .. } => MAX_SOURCE_INDEX + 1,
        ScanView::Done { .. } => MAX_SOURCE_INDEX + 1,
    }
}

/// The state and the list of devices are in order: no two devices share a
/// handle, every handle is that of a position that the scan has left behind,
/// each device holds its geometries ranked and once, and the state holds the
/// geometries of its probe once.
pub open spec fn fits(scan: ScanView, devices: Seq<Device>) -> bool {
    &&& handles(devices).no_duplicates()
    &&& forall|i: int|
        0 <= i < devices.len() ==> (#[trigger] handles(devices)[i]) < CAP_MSMF + position(scan)
    &&& all_well_ranked(devices)
    &&& match probe_of(scan) {
        Some(probe) => probe.types.no_duplicates(),
        None => true,
    }
}

/// A step completes a probe only when it goes on to shut the source down,
/// and the probe is that of the state: position, name and link are the
/// same, and its geometries are held once if the state held them once.
pub proof fn lemma_found_is_probe(scan: ScanView, event: Event)
    ensures
        match step(scan, event).found {
            Some(found) => {
                &&& step(scan, event).scan is ShuttingDown
                &&& probe_of(scan) matches Some(probe) && {
                    &&& found.index == probe.index
                    &&& found.name == probe.name
                    &&& found.link == probe.link
                    &&& probe.types.no_duplicates() ==> found.types.no_duplicates()
                }
            },
            None => true,
        },
{
    if let (ScanView::ReadingFrameSize { probe, .. }, Event::FrameSize(Ok(packed))) = (
        scan,
        event,
    ) {
        if probe.types.no_duplicates() {
            lemma_added_no_duplicates(probe.types, unpacked(packed));
        }
    }
}

/// Every step keeps the state and the list of devices in order.
pub proof fn lemma_step_keeps_fit(
    scan: ScanView,
    before: Seq<Device>,
    event: Event,
    after: Seq<Device>,
)
    requires
        fits(scan, before),
        collects(before, step(scan, event).found, after),
    ensures
        fits(step(scan, event).scan, after),
{
    let next = step(scan, event);
    lemma_found_is_probe(scan, event);
    if let (ScanView::ReadingFrameSize { probe, .. }, Event::FrameSize(Ok(packed))) = (
        scan,
        event,
    ) {
        lemma_added_no_duplicates(probe.types, unpacked(packed));
    }
    match next.found {
        Some(found) => {
            let device = after.last();
            lemma_ranked_no_duplicates(found.types, device.frame_size_types@);
            assert(handles(after) =~= handles(before).push(device.opencv_id));
            assert forall|i: int| 0 <= i < after.len() implies well_ranked(
                (#[trigger] after[i]).frame_size_types@,
            ) by {
                if i < before.len() {
                    assert(after[i] == after.drop_last()[i]);
                }
            }
        },
        None => {},
    }
    assert forall|i: int| 0 <= i < after.len() implies (#[trigger] handles(after)[i]) < CAP_MSMF
        + position(next.scan) by {
        if i < before.len() {
            assert(handles(after)[i] == handles(before)[i]);
        }
    }
}

/// Every step keeps the identities of the devices apart, provided that the
/// probe which the step completes, if it completes one, has a symbolic link
/// that no device has as its identity.
pub proof fn lemma_step_keeps_identities_apart(
    scan: ScanView,
    before: Seq<Device>,
    event: Event,
    after: Seq<Device>,
)
    requires
        identities(before).no_duplicates(),
        collects(before, step(scan, event).found, after),
        step(scan, event).found matches Some(found) ==> !identities(before).contains(found.link),
    ensures
        identities(after).no_duplicates(),
{
    match step(scan, event).found {
        Some(found) => {
            let device = after.last();
            assert(identities(after) =~= identities(before).push(device.unique_id@));
        },
        None => {},
    }
}

/// The geometries that a step leaves with the probe: those of the probe
/// that it completes, else those of the probe of the state that it leads to.
pub open spec fn types_after(scan: ScanView, event: Event) -> Seq<FrameSizeType> {
    match step(scan, event).found {
        Some(found) => found.types,
        None => match probe_of(step(scan, event).scan) {
            Some(probe) => probe.types,
            None => Seq::empty(),
        },
    }
}

/// A packed frame size is among the geometries of the probe after the step
/// that reports it, with its width and its height.
pub proof fn lemma_frame_size_joins_the_probe(scan: ScanView, packed: u64)
    requires
        scan is ReadingFrameSize,
        has_handle(probe_of(scan)->0.index),
    ensures
        types_after(scan, Event::FrameSize(Ok(packed))).contains(unpacked(packed)),
{
    let types = probe_of(scan)->0.types;
    if !types.contains(unpacked(packed)) {
        assert(types.push(unpacked(packed))[types.len() as int] == unpacked(packed));
    }
}

/// A geometry that the probe has stays with it, in its place, for as long
/// as the probe goes on, and is among those of the probe when a step
/// completes it.
pub proof fn lemma_met_geometries_stay(scan: ScanView, event: Event, i: int)
    requires
        probe_of(scan) is Some,
        0 <= i < probe_of(scan)->0.types.len(),
        probe_of(step(scan, event).scan) is Some || step(scan, event).found is Some,
    ensures
        i < types_after(scan, event).len(),
        types_after(scan, event)[i] == probe_of(scan)->0.types[i],
{
}

/// The device of a completed probe holds the geometries of the probe, all of
/// them and no others.
pub proof fn lemma_device_holds_what_was_met(probe: ProbeView, device: Device, t: FrameSizeType)
    requires
        assembles(probe, device),
    ensures
        device.frame_size_types@.contains(t) <==> probe.types.contains(t),
{
    lemma_ranked_same_geometries(probe.types, device.frame_size_types@, t);
}

/// A step adds at most one device, at the end of the list, and changes none
/// of those that are there.
pub proof fn lemma_devices_only_grow(
    scan: ScanView,
    before: Seq<Device>,
    event: Event,
    after: Seq<Device>,
)
    requires
        collects(before, step(scan, event).found, after),
    ensures
        before.len() <= after.len() <= before.len() + 1,
        after.subrange(0, before.len() as int) == before,
{
    if step(scan, event).found is Some {
        assert(after.subrange(0, before.len() as int) =~= after.drop_last());
    } else {
        assert(after.subrange(0, before.len() as int) =~= after);
    }
}

/// A source of which a text, the activation, a count, a stream descriptor
/// or a frame size could not be had leaves nothing behind: the list of
/// devices stays as it was, and the source is shut down where it was
/// activated.
pub proof fn lemma_failed_source_leaves_nothing(scan: ScanView, event: Event)
    requires
        match (scan, event) {
            (ScanView::ReadingName { .. }, Event::Text(Err(_))) => true,
            (ScanView::ReadingLink { .. }, Event::Text(Err(_))) => true,
            (ScanView::Activating { .. }, Event::ActivationFailed { .. }) => true,
            (ScanView::CountingStreams { .. }, Event::Count(Err(_))) => true,
            (ScanView::SelectingStream { .. }, Event::Stream(Err(_))) => true,
            (ScanView::CountingMediaTypes { .. }, Event::Count(Err(_))) => true,
            (ScanView::ReadingFrameSize { .. }, Event::FrameSize(Err(_))) => true,
            _ => false,
        },
    ensures
        step(scan, event).found is None,
        holds_source(scan) ==> step(scan, event).scan is ShuttingDown,
        !holds_source(scan) ==> step(scan, event).scan is ReadingName || step(scan, event).scan
            is LeavingApartment,
{
}

/// The apartment is entered once and left on every way out: the scan is
/// inside it after a step exactly when that step reported it entered, or
/// when the scan was inside before and the step did not report it left; the
/// scan ends from inside only by leaving; and no step leads back to the
/// state that asks for the apartment.
pub proof fn lemma_apartment_is_left(scan: ScanView, event: Event)
    ensures
        in_apartment(step(scan, event).scan) <==> (scan is EnteringApartment
            && event is ApartmentEntered) || (in_apartment(scan) && !(scan is LeavingApartment
            && event is ApartmentLeft)),
        step(scan, event).scan is Done ==> scan is Done || scan is LeavingApartment
            || scan is EnteringApartment,
        step(scan, event).scan is EnteringApartment ==> scan is EnteringApartment,
{
}

/// A source stays activated from the step that reports it activated to the
/// step that reports it shut down, and is shut down before the scan looks at
/// another source or leaves the apartment.
pub proof fn lemma_source_is_shut_down(scan: ScanView, event: Event)
    ensures
        holds_source(step(scan, event).scan) <==> (scan is Activating && event is SourceActivated)
            || (holds_source(scan) && !(scan is ShuttingDown && event is SourceShutDown)),
{
}

/// While a source is activated, the scan asks only for what concerns that
/// source and, in the end, for its shutdown.
pub proof fn lemma_activated_source_is_read_or_shut_down(scan: ScanView)
    requires
        holds_source(scan),
    ensures
        pending(scan) is CountStreams || pending(scan) is SelectStream || pending(scan)
            is CountMediaTypes || pending(scan) is ReadFrameSize || pending(scan)
            is ShutdownSource,
{
}

/// A failure of the scan is that of the apartment or of the enumeration;
/// nothing that a source does fails the scan.
pub proof fn lemma_only_enumeration_fails(scan: ScanView, event: Event)
    requires
        !(scan matches ScanView::LeavingApartment { result: Err(_) }),
        !(scan is Done),
        step(scan, event).scan matches ScanView::LeavingApartment { result: Err(_) } || step(
            scan,
            event,
        ).scan matches ScanView::Done { result: Err(_) },
    ensures
        (scan is EnteringApartment && event is ApartmentRefused) || (scan is EnumeratingSources
            && event matches Event::Sources(Err(_))),
{
}

} // verus!
