//! What holds of every step of the scan, whatever the driver reports.

use crate::video_devices::device::{
    all_well_ranked, handles, identities, lemma_added_no_duplicates, lemma_ranked_no_duplicates,
    lemma_ranked_same_geometries, well_ranked, Device, FrameSizeType,
};
use crate::video_devices::linux::v4l2::node::{names_entry, node_handle, node_index, CAP_V4L};
use crate::video_devices::linux::v4l2::ioctl::V4l2Frmsizeenum;
use crate::video_devices::linux::v4l2::{
    after_source, assembles, collects, decoded, ends_enumeration, pending, step,
    CandidateView, Event, ProbeView, ScanView, Source, Transition, UnknownGeometryKind,
};
use vstd::prelude::*;
use vstd::utf8::encode_utf8;

verus! {

/// The candidate that a state is busy with.
pub open spec fn candidate_of(scan: ScanView) -> Option<CandidateView> {
    match scan {
        ScanView::OpeningDevice { candidate, .. } => Some(candidate),
        ScanView::QueryingCapabilities { candidate, .. } => Some(candidate),
        ScanView::EnumeratingFormats { probe, .. } => Some(probe.candidate),
        ScanView::EnumeratingFrameSizes { probe, .. } => Some(probe.candidate),
        _ => None,
    }
}

/// The geometries that a state has met for its candidate.
pub open spec fn types_of(scan: ScanView) -> Seq<FrameSizeType> {
    match scan {
        ScanView::EnumeratingFormats { probe, .. } => probe.types,
        ScanView::EnumeratingFrameSizes { probe, .. } => probe.types,
        _ => Seq::empty(),
    }
}

/// A device is open in this state.
pub open spec fn holds_device(scan: ScanView) -> bool {
    scan is QueryingCapabilities || scan is EnumeratingFormats || scan is EnumeratingFrameSizes
        || scan is Closing
}

/// The state and the list of devices fit each other: no two devices share a
/// handle, the candidate of the state has a handle that no device has, each
/// device holds its geometries ranked and once, and the state holds the
/// geometries of its candidate once.
pub open spec fn fits(scan: ScanView, devices: Seq<Device>) -> bool {
    &&& handles(devices).no_duplicates()
    &&& all_well_ranked(devices)
    &&& types_of(scan).no_duplicates()
    &&& match candidate_of(scan) {
        Some(candidate) => !handles(devices).contains(candidate.opencv_id),
        None => true,
    }
}

/// A step completes a probe only when it goes on to close the device, and
/// the probe is that of the candidate, with its geometries held once if the
/// state held them once.
pub proof fn lemma_found_is_candidate(scan: ScanView, listed: Seq<i32>, event: Event)
    ensures
        match step(scan, listed, event).found {
            Some(probe) => {
                &&& step(scan, listed, event).scan is Closing
                &&& candidate_of(scan) == Some(probe.candidate)
                &&& types_of(scan).no_duplicates() ==> probe.types.no_duplicates()
            },
            None => true,
        },
{
    if let (ScanView::EnumeratingFrameSizes { probe, .. }, Event::FrameSize(Ok(fsz))) = (
        scan,
        event,
    ) {
        if let Ok(t) = decoded(fsz) {
            if probe.types.no_duplicates() {
                lemma_added_no_duplicates(probe.types, t);
            }
        }
    }
}

/// Every step keeps the state and the list of devices fit for each other.
pub proof fn lemma_step_keeps_fit(
    scan: ScanView,
    before: Seq<Device>,
    event: Event,
    after: Seq<Device>,
)
    requires
        fits(scan, before),
        collects(before, step(scan, handles(before), event).found, after),
    ensures
        fits(step(scan, handles(before), event).scan, after),
{
    let listed = handles(before);
    let next = step(scan, listed, event);
    lemma_found_is_candidate(scan, listed, event);
    match next.found {
        Some(probe) => {
            let device = after.last();
            lemma_ranked_no_duplicates(probe.types, device.frame_size_types@);
            assert(handles(after) =~= listed.push(device.opencv_id));
            assert forall|i: int| 0 <= i < after.len() implies well_ranked(
                (#[trigger] after[i]).frame_size_types@,
            ) by {
                if i < before.len() {
                    assert(after[i] == after.drop_last()[i]);
                }
            }
        },
        None => {
            if let (ScanView::EnumeratingFrameSizes { probe, .. }, Event::FrameSize(Ok(fsz))) = (
                scan,
                event,
            ) {
                if let Ok(t) = decoded(fsz) {
                    lemma_added_no_duplicates(probe.types, t);
                }
            }
        },
    }
}

/// Every step keeps the identities of the devices apart, provided that the
/// probe which the step completes, if it completes one, is that of a
/// candidate whose identity no device has.
pub proof fn lemma_step_keeps_identities_apart(
    scan: ScanView,
    before: Seq<Device>,
    event: Event,
    after: Seq<Device>,
)
    requires
        identities(before).no_duplicates(),
        collects(before, step(scan, handles(before), event).found, after),
        step(scan, handles(before), event).found matches Some(found) ==> !identities(
            before,
        ).contains(found.candidate.unique_id),
    ensures
        identities(after).no_duplicates(),
{
    match step(scan, handles(before), event).found {
        Some(found) => {
            let device = after.last();
            assert(identities(after) =~= identities(before).push(device.unique_id@));
        },
        None => {},
    }
}

/// The geometries that a step leaves with the candidate: those of the probe
/// that it completes, else those of the state that it leads to.
pub open spec fn types_after(scan: ScanView, listed: Seq<i32>, event: Event) -> Seq<FrameSizeType> {
    match step(scan, listed, event).found {
        Some(probe) => probe.types,
        None => types_of(step(scan, listed, event).scan),
    }
}

/// A frame size that decodes is among the geometries of the candidate after
/// the step that reports it, exactly as it was decoded, and the step does
/// not end the probe without a device.
pub proof fn lemma_frame_size_joins_the_probe(
    scan: ScanView,
    listed: Seq<i32>,
    fsz: V4l2Frmsizeenum,
    t: FrameSizeType,
)
    requires
        scan is EnumeratingFrameSizes,
        decoded(fsz) == Ok::<FrameSizeType, UnknownGeometryKind>(t),
    ensures
        types_after(scan, listed, Event::FrameSize(Ok(fsz))).contains(t),
        step(scan, listed, Event::FrameSize(Ok(fsz))).scan is Closing ==> step(
            scan,
            listed,
            Event::FrameSize(Ok(fsz)),
        ).found is Some,
{
    let types = types_of(scan);
    if !types.contains(t) {
        assert(types.push(t)[types.len() as int] == t);
    }
}

/// A geometry that the candidate has stays with it, in its place, for as
/// long as the probe goes on, and is among those of the probe when a step
/// completes it.
pub proof fn lemma_met_geometries_stay(scan: ScanView, listed: Seq<i32>, event: Event, i: int)
    requires
        0 <= i < types_of(scan).len(),
        candidate_of(step(scan, listed, event).scan) is Some || step(scan, listed, event).found
            is Some,
    ensures
        i < types_after(scan, listed, event).len(),
        types_after(scan, listed, event)[i] == types_of(scan)[i],
{
}

/// The device of a completed probe holds the geometries of the probe, all of
/// them and no others.
pub proof fn lemma_device_holds_what_was_met(probe: ProbeView, device: Device, t: FrameSizeType)
    requires
        assembles(probe, device),
    ensures
        device.frame_size_types@.contains(t) <==> probe.types.contains(t),
{
    lemma_ranked_same_geometries(probe.types, device.frame_size_types@, t);
}

/// A symlink that resolves to a node from which a device was made already
/// is passed over: no device is opened for it and none is added, so the
/// device stays with the entry that was met first.
pub proof fn lemma_listed_node_is_passed_over(
    source: Source,
    listed: Seq<i32>,
    symlink_path: String,
    device_filepath: String,
)
    requires
        node_index(encode_utf8(device_filepath@)) is Some,
        listed.contains(node_handle(encode_utf8(device_filepath@))),
    ensures
        step(
            ScanView::Listing { source },
            listed,
            Event::Symlink { symlink_path, device_filepath },
        ) == (Transition { scan: ScanView::Listing { source }, found: None }),
{
}

/// A symlink with a name, which resolves to a numbered node from which no
/// device was made, becomes the candidate that is opened next, with the
/// handle of that node: no node is taken for another.
pub proof fn lemma_unlisted_node_becomes_candidate(
    source: Source,
    listed: Seq<i32>,
    symlink_path: String,
    device_filepath: String,
)
    requires
        node_index(encode_utf8(device_filepath@)) is Some,
        names_entry(encode_utf8(symlink_path@)),
        !listed.contains(node_handle(encode_utf8(device_filepath@))),
    ensures
        step(
            ScanView::Listing { source },
            listed,
            Event::Symlink { symlink_path, device_filepath },
        ).scan matches ScanView::OpeningDevice { source: opening, candidate } && {
            &&& opening == source
            &&& candidate.opencv_id == CAP_V4L + node_index(encode_utf8(device_filepath@))->0
            &&& candidate.device_filepath == device_filepath@
        },
{
}

/// A step adds at most one device, at the end of the list, and changes none
/// of those that are there.
pub proof fn lemma_devices_only_grow(
    scan: ScanView,
    before: Seq<Device>,
    event: Event,
    after: Seq<Device>,
)
    requires
        collects(before, step(scan, handles(before), event).found, after),
    ensures
        before.len() <= after.len() <= before.len() + 1,
        after.subrange(0, before.len() as int) == before,
{
    if step(scan, handles(before), event).found is Some {
        assert(after.subrange(0, before.len() as int) =~= after.drop_last());
    } else {
        assert(after.subrange(0, before.len() as int) =~= after);
    }
}

/// A candidate whose capability query fails, whose pixel format or frame
/// size query fails with anything but the sentinel, or which reports a frame
/// size of unknown kind, leaves nothing behind: the device is closed and the
/// list of devices stays as it was.
pub proof fn lemma_failed_probe_leaves_nothing(scan: ScanView, listed: Seq<i32>, event: Event)
    requires
        match (scan, event) {
            (ScanView::QueryingCapabilities { .. }, Event::Capabilities(Err(_))) => true,
            (ScanView::EnumeratingFormats { .. }, Event::Format(Err(code))) => !ends_enumeration(
                code,
            ),
            (ScanView::EnumeratingFrameSizes { .. }, Event::FrameSize(Err(code))) => {
                !ends_enumeration(code)
            },
            (ScanView::EnumeratingFrameSizes { .. }, Event::FrameSize(Ok(fsz))) => decoded(fsz)
                is Err,
            _ => false,
        },
    ensures
        step(scan, listed, event).scan is Closing,
        step(scan, listed, event).found is None,
{
}

/// With both listings absent the scan ends well after two steps, and no
/// step adds a device.
pub proof fn lemma_absent_sources_end_the_scan(listed: Seq<i32>)
    ensures
        ({
            let first = step(
                ScanView::OpeningSource { source: Source::ById },
                listed,
                Event::SourceAbsent,
            );
            let second = step(first.scan, listed, Event::SourceAbsent);
            &&& first.found is None
            &&& second.found is None
            &&& second.scan == (ScanView::Done { result: Ok(()) })
        }),
{
}

/// The state awaits the listing `source` or an entry of it.
pub open spec fn awaits_listing(scan: ScanView, source: Source) -> bool {
    scan == (ScanView::OpeningSource { source }) || scan == (ScanView::Listing { source })
}

/// The listings are read one after the other: the scan turns to the second
/// listing when the first is absent or at its end, and to no listing after
/// the second; it ends well when the second listing is absent or at its
/// end, and at no other time.
pub proof fn lemma_sources_in_order(scan: ScanView, listed: Seq<i32>, event: Event)
    requires
        step(scan, listed, event).scan != scan,
    ensures
        step(scan, listed, event).scan is OpeningSource ==> {
            &&& step(scan, listed, event).scan == after_source(Source::ById)
            &&& awaits_listing(scan, Source::ById)
            &&& event is SourceAbsent || event is EndOfSource
        },
        step(scan, listed, event).scan matches ScanView::Done { result: Ok(_) } ==> {
            &&& awaits_listing(scan, Source::ByPath)
            &&& event is SourceAbsent || event is EndOfSource
        },
{
}

/// A device stays open from the step that reports it open to the step that
/// reports it closed: it is open after a step exactly when that step
/// reported it open, or when it was open before and the step did not report
/// it closed.
pub proof fn lemma_device_is_closed(scan: ScanView, listed: Seq<i32>, event: Event)
    ensures
        holds_device(step(scan, listed, event).scan) <==> (scan is OpeningDevice
            && event is DeviceOpened) || (holds_device(scan) && !(scan is Closing
            && event is DeviceClosed)),
        holds_device(scan) && !(scan is Closing) ==> holds_device(step(scan, listed, event).scan),
{
}

/// While a device is open, the scan asks only for queries of that device
/// and, in the end, for it to be closed.
pub proof fn lemma_open_device_is_queried_or_closed(scan: ScanView)
    requires
        holds_device(scan),
    ensures
        pending(scan) is QueryCapabilities || pending(scan) is QueryFormat || pending(scan)
            is QueryFrameSize || pending(scan) is CloseDevice,
{
}

/// A failure of the scan is that of a listing which could not be read, or
/// that of an entry out of shape; nothing that a device does fails the scan.
pub proof fn lemma_only_listings_fail(scan: ScanView, listed: Seq<i32>, event: Event)
    requires
        !(scan is Done),
        step(scan, listed, event).scan matches ScanView::Done { result: Err(_) },
    ensures
        scan is OpeningSource || scan is Listing,
        event is SourceFailed || event is EntryFailed || event is Symlink,
{
}

} // verus!
