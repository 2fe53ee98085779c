//! Capture devices of Microsoft Media Foundation: the scan that finds them.
//! The scan runs inside a single-threaded apartment, which it enters once
//! and leaves on every way out.

use crate::video_devices::device::{
    add_frame_size_type, added, ranked, sort_frame_size_types, Device, FrameSizeType,
};
use crate::video_devices::error::DiscoveryError;
use vstd::prelude::*;

verus! {

/// The tag that OpenCV gives the Media Foundation backend. A handle is the
/// sum of the tag and the position of a source.
pub const CAP_MSMF: i32 = 1400;

/// The last position that has a handle.
pub const MAX_SOURCE_INDEX: u32 = 0x7fff_ffff - 1400;

/// The position has a handle: the sum of the tag and the position fits the
/// type of a handle.
pub open spec fn has_handle(index: u32) -> bool {
    index <= MAX_SOURCE_INDEX
}

/// The handle of the source at position `index` of the enumeration: the
/// tag of the backend plus the position.
pub open spec fn source_handle(index: u32) -> i32
    recommends
        has_handle(index),
{
    (CAP_MSMF + index) as i32
}

/// Sources at different positions have different handles, and every handle
/// is the tag of the backend or comes after it.
pub proof fn lemma_handles_tell_sources_apart(a: u32, b: u32)
    requires
        has_handle(a),
        has_handle(b),
    ensures
        source_handle(a) == CAP_MSMF + a,
        source_handle(a) == source_handle(b) <==> a == b,
{
}

/// The geometry in a packed frame size: the width in the high 32 bits, the
/// height in the low 32 bits.
pub open spec fn unpacked(packed: u64) -> FrameSizeType {
    FrameSizeType::Discrete { width: (packed >> 32) as u32, height: packed as u32 }
}

/// Unpacks the frame size attribute of a media type.
pub fn get_media_type_size_by_idx(packed: u64) -> (t: FrameSizeType)
    ensures
        t == unpacked(packed),
{
    let height = #[verifier::truncate] (packed as u32);
    let width = #[verifier::truncate] ((packed >> 32) as u32);
    FrameSizeType::Discrete { width, height }
}

/// Unpacking gives back the width and the height that were packed.
pub proof fn lemma_unpacked_round_trip(width: u32, height: u32)
    ensures
        unpacked(((width as u64) << 32) | (height as u64)) == (FrameSizeType::Discrete {
            width,
            height,
        }),
{
    let packed = ((width as u64) << 32) | (height as u64);
    assert((packed >> 32) as u32 == width && packed as u32 == height) by (bit_vector)
        requires
            packed == ((width as u64) << 32) | (height as u64),
    ;
}

/// What is known of a source while it is inspected.
#[derive(Debug)]
pub struct Probe {
    /// The position of the source in the enumeration.
    pub index: u32,
    pub name: String,
    pub link: String,
    /// The geometries met so far, each once, in the order in which they were
    /// met.
    pub types: Vec<FrameSizeType>,
}

/// What a `Probe` holds, as mathematical values.
pub struct ProbeView {
    pub index: u32,
    pub name: Seq<char>,
    pub link: Seq<char>,
    pub types: Seq<FrameSizeType>,
}

impl View for Probe {
    type V = ProbeView;

    open spec fn view(&self) -> ProbeView {
        ProbeView { index: self.index, name: self.name@, link: self.link@, types: self.types@ }
    }
}

/// Where a scan stands. Each state but the last awaits the answer to one
/// request, which `pending` names. `count` is the number of positions of
/// the enumeration.
#[derive(Debug)]
pub enum Scan {
    EnteringApartment,
    EnumeratingSources,
    ReadingName { count: u32, index: u32 },
    ReadingLink { count: u32, index: u32, name: String },
    Activating { count: u32, probe: Probe },
    CountingStreams { count: u32, probe: Probe },
    SelectingStream { count: u32, probe: Probe, streams: u32, stream: u32 },
    CountingMediaTypes { count: u32, probe: Probe, streams: u32, stream: u32 },
    ReadingFrameSize {
        count: u32,
        probe: Probe,
        streams: u32,
        stream: u32,
        media_types: u32,
        media_type: u32,
    },
    ShuttingDown { count: u32, index: u32 },
    LeavingApartment { result: Result<(), DiscoveryError> },
    Done { result: Result<(), DiscoveryError> },
}

/// A state of the scan, as mathematical values.
pub enum ScanView {
    EnteringApartment,
    EnumeratingSources,
    ReadingName { count: u32, index: u32 },
    ReadingLink { count: u32, index: u32, name: Seq<char> },
    Activating { count: u32, probe: ProbeView },
    CountingStreams { count: u32, probe: ProbeView },
    SelectingStream { count: u32, probe: ProbeView, streams: u32, stream: u32 },
    CountingMediaTypes { count: u32, probe: ProbeView, streams: u32, stream: u32 },
    ReadingFrameSize {
        count: u32,
        probe: ProbeView,
        streams: u32,
        stream: u32,
        media_types: u32,
        media_type: u32,
    },
    ShuttingDown { count: u32, index: u32 },
    LeavingApartment { result: Result<(), DiscoveryError> },
    Done { result: Result<(), DiscoveryError> },
}

impl View for Scan {
    type V = ScanView;

    open spec fn view(&self) -> ScanView {
        match *self {
            Scan::EnteringApartment => ScanView::EnteringApartment,
            Scan::EnumeratingSources => ScanView::EnumeratingSources,
            Scan::ReadingName { count, index } => ScanView::ReadingName { count, index },
            Scan::ReadingLink { count, index, name } => ScanView::ReadingLink {
                count,
                index,
                name: name@,
            },
            Scan::Activating { count, probe } => ScanView::Activating { count, probe: probe@ },
            Scan::CountingStreams { count, probe } => ScanView::CountingStreams {
                count,
                probe: probe@,
            },
            Scan::SelectingStream { count, probe, streams, stream } => ScanView::SelectingStream {
                count,
                probe: probe@,
                streams,
                stream,
            },
            Scan::CountingMediaTypes {
                count,
                probe,
                streams,
                stream,
            } => ScanView::CountingMediaTypes { count, probe: probe@, streams, stream },
            Scan::ReadingFrameSize {
                count,
                probe,
                streams,
                stream,
                media_types,
                media_type,
            } => ScanView::ReadingFrameSize {
                count,
                probe: probe@,
                streams,
                stream,
                media_types,
                media_type,
            },
            Scan::ShuttingDown { count, index } => ScanView::ShuttingDown { count, index },
            Scan::LeavingApartment { result } => ScanView::LeavingApartment { result },
            Scan::Done { result } => ScanView::Done { result },
        }
    }
}

/// What the scan asks its driver to do next. The driver does it and hands
/// the outcome back as an `Event`.
#[derive(Clone, Copy, Debug, PartialEq, Eq, Structural)]
pub enum Action {
    /// Enter a single-threaded apartment.
    EnterApartment,
    /// Enumerate the sources that capture video.
    EnumerateSources,
    /// Read the friendly name of the source at position `index`.
    ReadFriendlyName { index: u32 },
    /// Read the symbolic link of the source at position `index`.
    ReadSymbolicLink { index: u32 },
    /// Activate the source at position `index` into a media source.
    ActivateSource { index: u32 },
    /// Count the stream descriptors of the activated source.
    CountStreams,
    /// Get stream descriptor number `stream` of the activated source.
    SelectStream { stream: u32 },
    /// Count the media types of the stream descriptor that was got last.
    CountMediaTypes,
    /// Read the packed frame size of media type number `media_type` of that
    /// stream descriptor.
    ReadFrameSize { media_type: u32 },
    /// Shut the activated source down.
    ShutdownSource,
    /// Leave the apartment.
    LeaveApartment,
    /// Nothing: the scan is over.
    Finished,
}

/// What the driver reports back. An error number is that of the operating
/// system.
#[derive(Debug)]
pub enum Event {
    /// The apartment is entered.
    ApartmentEntered,
    /// The apartment could not be entered.
    ApartmentRefused { code: i32 },
    /// The number of positions of the enumeration, or why there is none.
    Sources(Result<u32, i32>),
    /// The position holds no source.
    NoSource,
    /// The text that was asked for, or why there is none.
    Text(Result<String, i32>),
    /// The source is activated.
    SourceActivated,
    /// The source could not be activated.
    ActivationFailed { code: i32 },
    /// The count that was asked for, or why there is none.
    Count(Result<u32, i32>),
    /// Whether the stream descriptor exists, or why it could not be got.
    Stream(Result<bool, i32>),
    /// The packed frame size that was asked for, or why there is none.
    FrameSize(Result<u64, i32>),
    /// The source is shut down, or could not be: either way it is done with.
    SourceShutDown,
    /// The apartment is left, or could not be: either way it is done with.
    ApartmentLeft,
}

/// The request that a state awaits the answer to.
pub open spec fn pending(scan: ScanView) -> Action {
    match scan {
        ScanView::EnteringApartment => Action::EnterApartment,
        ScanView::EnumeratingSources => Action::EnumerateSources,
        ScanView::ReadingName { index, .. } => Action::ReadFriendlyName { index },
        ScanView::ReadingLink { index, .. } => Action::ReadSymbolicLink { index },
        ScanView::Activating { probe, .. } => Action::ActivateSource { index: probe.index },
        ScanView::CountingStreams { .. } => Action::CountStreams,
        ScanView::SelectingStream { stream, .. } => Action::SelectStream { stream },
        ScanView::CountingMediaTypes { .. } => Action::CountMediaTypes,
        ScanView::ReadingFrameSize { media_type, .. } => Action::ReadFrameSize { media_type },
        ScanView::ShuttingDown { .. } => Action::ShutdownSource,
        ScanView::LeavingApartment { .. } => Action::LeaveApartment,
        ScanView::Done { .. } => Action::Finished,
    }
}

/// One step of the scan: the state that follows, and the probe that the step
/// has completed, if it has completed one.
pub struct Transition {
    pub scan: ScanView,
    pub found: Option<ProbeView>,
}

/// A step to `scan` that completes no probe.
pub open spec fn goes_to(scan: ScanView) -> Transition {
    Transition { scan, found: None }
}

/// The state in which the source at position `index` is looked at, where
/// there is such a position and it has a handle; else the state in which the
/// apartment is left, the enumeration being over.
pub open spec fn source_at(count: u32, index: int) -> ScanView {
    if index < count && index <= MAX_SOURCE_INDEX {
        ScanView::ReadingName { count, index: index as u32 }
    } else {
        ScanView::LeavingApartment { result: Ok(()) }
    }
}

/// The step that ends the look at a source all of whose stream descriptors
/// were read: the probe is complete where the position of the source has a
/// handle. The scan itself looks at no other position.
pub open spec fn completed(count: u32, probe: ProbeView) -> Transition {
    Transition {
        scan: ScanView::ShuttingDown { count, index: probe.index },
        found: if has_handle(probe.index) {
            Some(probe)
        } else {
            None
        },
    }
}

/// The step to stream descriptor number `stream` of the activated source,
/// where there is one; else the step that completes the probe.
pub open spec fn stream_at(count: u32, probe: ProbeView, streams: u32, stream: int) -> Transition {
    if stream < streams {
        goes_to(ScanView::SelectingStream { count, probe, streams, stream: stream as u32 })
    } else {
        completed(count, probe)
    }
}

/// The step to media type number `media_type` of the stream descriptor,
/// where there is one; else the step to the next stream descriptor.
pub open spec fn media_type_at(
    count: u32,
    probe: ProbeView,
    streams: u32,
    stream: u32,
    media_types: u32,
    media_type: int,
) -> Transition {
    if media_type < media_types {
        goes_to(
            ScanView::ReadingFrameSize {
                count,
                probe,
                streams,
                stream,
                media_types,
                media_type: media_type as u32,
            },
        )
    } else {
        stream_at(count, probe, streams, stream + 1)
    }
}

/// One step of the scan. An event that does not answer the pending request
/// changes nothing. What fails for one source ends the look at that source,
/// after it is shut down where it was activated; nothing of it is kept.
pub open spec fn step(scan: ScanView, event: Event) -> Transition {
    match (scan, event) {
        (ScanView::EnteringApartment, Event::ApartmentEntered) => goes_to(
            ScanView::EnumeratingSources,
        ),
        (ScanView::EnteringApartment, Event::ApartmentRefused { code }) => goes_to(
            ScanView::Done { result: Err(DiscoveryError::ApartmentUnavailable { code }) },
        ),
        (ScanView::EnumeratingSources, Event::Sources(Ok(count))) => goes_to(source_at(count, 0)),
        (ScanView::EnumeratingSources, Event::Sources(Err(code))) => goes_to(
            ScanView::LeavingApartment { result: Err(DiscoveryError::SourceUnreadable { code }) },
        ),
        (ScanView::ReadingName { count, index }, Event::Text(Ok(name))) => goes_to(
            ScanView::ReadingLink { count, index, name: name@ },
        ),
        (ScanView::ReadingName { count, index }, Event::Text(Err(_))) => goes_to(
            source_at(count, index + 1),
        ),
        (ScanView::ReadingName { count, index }, Event::NoSource) => goes_to(
            source_at(count, index + 1),
        ),
        (ScanView::ReadingLink { count, index, name }, Event::Text(Ok(link))) => goes_to(
            ScanView::Activating {
                count,
                probe: ProbeView { index, name, link: link@, types: Seq::empty() },
            },
        ),
        (ScanView::ReadingLink { count, index, .. }, Event::Text(Err(_))) => goes_to(
            source_at(count, index + 1),
        ),
        (ScanView::Activating { count, probe }, Event::SourceActivated) => goes_to(
            ScanView::CountingStreams { count, probe },
        ),
        (ScanView::Activating { count, probe }, Event::ActivationFailed { .. }) => goes_to(
            source_at(count, probe.index + 1),
        ),
        (ScanView::CountingStreams { count, probe }, Event::Count(Ok(streams))) => stream_at(
            count,
            probe,
            streams,
            0,
        ),
        (ScanView::CountingStreams { count, probe }, Event::Count(Err(_))) => goes_to(
            ScanView::ShuttingDown { count, index: probe.index },
        ),
        (ScanView::SelectingStream { count, probe, streams, stream }, Event::Stream(Ok(present))) => {
            if present {
                goes_to(ScanView::CountingMediaTypes { count, probe, streams, stream })
            } else {
                stream_at(count, probe, streams, stream + 1)
            }
        },
        (ScanView::SelectingStream { count, probe, .. }, Event::Stream(Err(_))) => goes_to(
            ScanView::ShuttingDown { count, index: probe.index },
        ),
        (
            ScanView::CountingMediaTypes { count, probe, streams, stream },
            Event::Count(Ok(media_types)),
        ) => media_type_at(count, probe, streams, stream, media_types, 0),
        (ScanView::CountingMediaTypes { count, probe, .. }, Event::Count(Err(_))) => goes_to(
            ScanView::ShuttingDown { count, index: probe.index },
        ),
        (
            ScanView::ReadingFrameSize { count, probe, streams, stream, media_types, media_type },
            Event::FrameSize(Ok(packed)),
        ) => media_type_at(
            count,
            ProbeView { types: added(probe.types, unpacked(packed)), ..probe },
            streams,
            stream,
            media_types,
            media_type + 1,
        ),
        (ScanView::ReadingFrameSize { count, probe, .. }, Event::FrameSize(Err(_))) => goes_to(
            ScanView::ShuttingDown { count, index: probe.index },
        ),
        (ScanView::ShuttingDown { count, index }, Event::SourceShutDown) => goes_to(
            source_at(count, index + 1),
        ),
        (ScanView::LeavingApartment { result }, Event::ApartmentLeft) => goes_to(
            ScanView::Done { result },
        ),
        _ => goes_to(scan),
    }
}

/// The device is what the completed probe found: the handle of its
/// position, its symbolic link as identity, its friendly name as label, and
/// its geometries ranked.
pub open spec fn assembles(probe: ProbeView, device: Device) -> bool {
    &&& device@.opencv_id == source_handle(probe.index)
    &&& device@.unique_id == probe.link
    &&& device@.name == probe.name
    &&& ranked(probe.types, device@.frame_size_types)
}

/// The list `after` is `before`, with the device of the completed probe at
/// its end where a probe was completed.
pub open spec fn collects(before: Seq<Device>, found: Option<ProbeView>, after: Seq<Device>) -> bool {
    match found {
        Some(probe) => {
            &&& after.len() == before.len() + 1
            &&& after.drop_last() == before
            &&& assembles(probe, after.last())
        },
        None => after == before,
    }
}

impl Scan {
    /// A scan that has not begun: it awaits the apartment.
    pub fn new() -> (scan: Scan)
        ensures
            scan@ == ScanView::EnteringApartment,
    {
        Scan::EnteringApartment
    }

    /// The request that the scan awaits the answer to.
    pub fn pending(&self) -> (action: Action)
        ensures
            action == pending(self@),
    {
        match self {
            Scan::EnteringApartment => Action::EnterApartment,
            Scan::EnumeratingSources => Action::EnumerateSources,
            Scan::ReadingName { index, .. } => Action::ReadFriendlyName { index: *index },
            Scan::ReadingLink { index, .. } => Action::ReadSymbolicLink { index: *index },
            Scan::Activating { probe, .. } => Action::ActivateSource { index: probe.index },
            Scan::CountingStreams { .. } => Action::CountStreams,
            Scan::SelectingStream { stream, .. } => Action::SelectStream { stream: *stream },
            Scan::CountingMediaTypes { .. } => Action::CountMediaTypes,
            Scan::ReadingFrameSize { media_type, .. } => Action::ReadFrameSize {
                media_type: *media_type,
            },
            Scan::ShuttingDown { .. } => Action::ShutdownSource,
            Scan::LeavingApartment { .. } => Action::LeaveApartment,
            Scan::Done { .. } => Action::Finished,
        }
    }
}

/// Makes the device that a completed probe has found, where the position of
/// the source has a handle: the geometries are ranked, everything else is
/// taken as it is.
pub fn build_device_using_ref(probe: Probe) -> (device: Option<Device>)
    ensures
        match device {
            Some(device) => has_handle(probe.index) && assembles(probe@, device),
            None => !has_handle(probe.index),
        },
{
    let Probe { index, name, link, types } = probe;
    if index > MAX_SOURCE_INDEX {
        return None;
    }
    let mut types = types;
    sort_frame_size_types(&mut types);
    Some(
        Device {
            opencv_id: CAP_MSMF + index as i32,
            unique_id: link,
            name,
            frame_size_types: types,
        },
    )
}

/// Ends the look at a source all of whose stream descriptors were read: the
/// device joins the list.
fn complete(devices: &mut Vec<Device>, count: u32, probe: Probe) -> (next: Scan)
    ensures
        next@ == completed(count, probe@).scan,
        collects(old(devices)@, completed(count, probe@).found, final(devices)@),
{
    let index = probe.index;
    match build_device_using_ref(probe) {
        Some(device) => {
            devices.push(device);
            proof {
                assert(devices@.drop_last() =~= old(devices)@);
            }
        },
        None => {},
    }
    Scan::ShuttingDown { count, index }
}

/// Goes on with the source after the one at position `index`.
fn next_source(count: u32, index: u32) -> (next: Scan)
    ensures
        next@ == source_at(count, index + 1),
{
    if index < MAX_SOURCE_INDEX && index + 1 < count {
        Scan::ReadingName { count, index: index + 1 }
    } else {
        Scan::LeavingApartment { result: Ok(()) }
    }
}

/// Goes on with the stream descriptor after number `stream`. After the last
/// one the device is complete and joins the list.
fn next_stream(devices: &mut Vec<Device>, count: u32, probe: Probe, streams: u32, stream: u32) -> (next:
    Scan)
    ensures
        next@ == stream_at(count, probe@, streams, stream + 1).scan,
        collects(
            old(devices)@,
            stream_at(count, probe@, streams, stream + 1).found,
            final(devices)@,
        ),
{
    if stream < u32::MAX && stream + 1 < streams {
        Scan::SelectingStream { count, probe, streams, stream: stream + 1 }
    } else {
        complete(devices, count, probe)
    }
}

/// Takes the answers of an activated source that concern the media types of
/// one stream descriptor.
fn add_frame_size_types_for_stream(
    devices: &mut Vec<Device>,
    scan: Scan,
    event: Event,
) -> (next: Scan)
    requires
        scan is CountingMediaTypes || scan is ReadingFrameSize,
    ensures
        next@ == step(scan@, event).scan,
        collects(old(devices)@, step(scan@, event).found, final(devices)@),
{
    match scan {
        Scan::CountingMediaTypes { count, probe, streams, stream } => match event {
            Event::Count(Ok(media_types)) => if 0 < media_types {
                Scan::ReadingFrameSize {
                    count,
                    probe,
                    streams,
                    stream,
                    media_types,
                    media_type: 0,
                }
            } else {
                next_stream(devices, count, probe, streams, stream)
            },
            Event::Count(Err(_)) => Scan::ShuttingDown { count, index: probe.index },
            _ => Scan::CountingMediaTypes { count, probe, streams, stream },
        },
        Scan::ReadingFrameSize {
            count,
            probe,
            streams,
            stream,
            media_types,
            media_type,
        } => match event {
            Event::FrameSize(Ok(packed)) => {
                let Probe { index, name, link, types } = probe;
                let mut types = types;
                add_frame_size_type(&mut types, get_media_type_size_by_idx(packed));
                let grown = Probe { index, name, link, types };
                if media_type < u32::MAX && media_type + 1 < media_types {
                    Scan::ReadingFrameSize {
                        count,
                        probe: grown,
                        streams,
                        stream,
                        media_types,
                        media_type: media_type + 1,
                    }
                } else {
                    next_stream(devices, count, grown, streams, stream)
                }
            },
            Event::FrameSize(Err(_)) => Scan::ShuttingDown { count, index: probe.index },
            _ => Scan::ReadingFrameSize { count, probe, streams, stream, media_types, media_type },
        },
        other => other,
    }
}

/// Takes the answers of an activated source that concern its stream
/// descriptors.
fn find_frame_sizes_using_source(devices: &mut Vec<Device>, scan: Scan, event: Event) -> (next:
    Scan)
    requires
        scan is CountingStreams || scan is SelectingStream,
    ensures
        next@ == step(scan@, event).scan,
        collects(old(devices)@, step(scan@, event).found, final(devices)@),
{
    match scan {
        Scan::CountingStreams { count, probe } => match event {
            Event::Count(Ok(streams)) => if 0 < streams {
                Scan::SelectingStream { count, probe, streams, stream: 0 }
            } else {
                complete(devices, count, probe)
            },
            Event::Count(Err(_)) => Scan::ShuttingDown { count, index: probe.index },
            _ => Scan::CountingStreams { count, probe },
        },
        Scan::SelectingStream { count, probe, streams, stream } => match event {
            Event::Stream(Ok(present)) => if present {
                Scan::CountingMediaTypes { count, probe, streams, stream }
            } else {
                next_stream(devices, count, probe, streams, stream)
            },
            Event::Stream(Err(_)) => Scan::ShuttingDown { count, index: probe.index },
            _ => Scan::SelectingStream { count, probe, streams, stream },
        },
        other => other,
    }
}

/// Takes the answers that concern the enumeration and one source of it,
/// up to its activation and from its shutdown on.
fn add_capture_devices_on_com_thread(scan: Scan, event: Event) -> (next: Scan)
    requires
        scan is EnumeratingSources || scan is ReadingName || scan is ReadingLink
            || scan is Activating || scan is ShuttingDown,
    ensures
        next@ == step(scan@, event).scan,
        step(scan@, event).found is None,
{
    match scan {
        Scan::EnumeratingSources => match event {
            Event::Sources(Ok(count)) => if 0 < count {
                Scan::ReadingName { count, index: 0 }
            } else {
                Scan::LeavingApartment { result: Ok(()) }
            },
            Event::Sources(Err(code)) => Scan::LeavingApartment {
                result: Err(DiscoveryError::SourceUnreadable { code }),
            },
            _ => Scan::EnumeratingSources,
        },
        Scan::ReadingName { count, index } => match event {
            Event::Text(Ok(name)) => Scan::ReadingLink { count, index, name },
            Event::Text(Err(_)) => next_source(count, index),
            Event::NoSource => next_source(count, index),
            _ => Scan::ReadingName { count, index },
        },
        Scan::ReadingLink { count, index, name } => match event {
            Event::Text(Ok(link)) => Scan::Activating {
                count,
                probe: Probe { index, name, link, types: Vec::new() },
            },
            Event::Text(Err(_)) => next_source(count, index),
            _ => Scan::ReadingLink { count, index, name },
        },
        Scan::Activating { count, probe } => match event {
            Event::SourceActivated => Scan::CountingStreams { count, probe },
            Event::ActivationFailed { .. } => next_source(count, probe.index),
            _ => Scan::Activating { count, probe },
        },
        Scan::ShuttingDown { count, index } => match event {
            Event::SourceShutDown => next_source(count, index),
            _ => Scan::ShuttingDown { count, index },
        },
        other => other,
    }
}

/// Takes the answers that concern the apartment.
fn using_com_thread(scan: Scan, event: Event) -> (next: Scan)
    requires
        scan is EnteringApartment || scan is LeavingApartment || scan is Done,
    ensures
        next@ == step(scan@, event).scan,
        step(scan@, event).found is None,
{
    match scan {
        Scan::EnteringApartment => match event {
            Event::ApartmentEntered => Scan::EnumeratingSources,
            Event::ApartmentRefused { code } => Scan::Done {
                result: Err(DiscoveryError::ApartmentUnavailable { code }),
            },
            _ => Scan::EnteringApartment,
        },
        Scan::LeavingApartment { result } => match event {
            Event::ApartmentLeft => Scan::Done { result },
            _ => Scan::LeavingApartment { result },
        },
        other => other,
    }
}

/// Takes one step of the scan: hands the event to the state that awaits it,
/// adds to `devices` the device of a probe that the event completes, and
/// returns the state that follows with the request that it awaits.
pub fn add_capture_devices(devices: &mut Vec<Device>, scan: Scan, event: Event) -> (next: (
    Scan,
    Action,
))
    ensures
        next.0@ == step(scan@, event).scan,
        next.1 == pending(next.0@),
        collects(old(devices)@, step(scan@, event).found, final(devices)@),
{
    let next = match &scan {
        Scan::EnteringApartment | Scan::LeavingApartment { .. } | Scan::Done { .. } => {
            using_com_thread(scan, event)
        },
        Scan::EnumeratingSources
        | Scan::ReadingName { .. }
        | Scan::ReadingLink { .. }
        | Scan::Activating { .. }
        | Scan::ShuttingDown { .. } => add_capture_devices_on_com_thread(scan, event),
        Scan::CountingStreams { .. } | Scan::SelectingStream { .. } => {
            find_frame_sizes_using_source(devices, scan, event)
        },
        Scan::CountingMediaTypes { .. } | Scan::ReadingFrameSize { .. } => {
            add_frame_size_types_for_stream(devices, scan, event)
        },
    };
    let action = next.pending();
    (next, action)
}

} // verus!
