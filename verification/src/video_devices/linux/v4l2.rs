//! Capture devices of Video for Linux: how the records of the kernel are
//! read, and the scan that finds the devices.

pub mod enumeration;
pub mod ioctl;
pub mod laws;
pub mod node;

use crate::video_devices::device::{
    add_frame_size_type, added, handles, ranked, sort_frame_size_types, Device, FrameSizeType,
};
use crate::video_devices::error::DiscoveryError;
use crate::video_devices::linux::v4l2::ioctl::{
    V4l2Capability, V4l2Fmtdesc, V4l2Frmsizeenum, V4L2_BUF_TYPE_VIDEO_CAPTURE,
    V4L2_BUF_TYPE_VIDEO_CAPTURE_MPLANE, V4L2_CAP_VIDEO_CAPTURE, V4L2_CAP_VIDEO_CAPTURE_MPLANE,
    V4L2_FRMSIZE_TYPE_CONTINUOUS, V4L2_FRMSIZE_TYPE_DISCRETE, V4L2_FRMSIZE_TYPE_STEPWISE,
};
use crate::video_devices::linux::v4l2::node::{
    final_segment, has_opencv_id, has_unique_id, names_entry, node_handle, node_index,
    to_opencv_id, to_unique_id,
};
use vstd::prelude::*;
use vstd::slice::slice_subrange;
use vstd::string::{StringExecFns, StringSliceAdditionalSpecFns};
use vstd::utf8::{decode_utf8, encode_utf8, valid_utf8};

verus! {

/// Decides that no device in the list was made from the node at
/// `device_filepath`.
pub fn device_is_not_list(devices: &Vec<Device>, device_filepath: &str) -> (r: bool)
    requires
        node_index(device_filepath.spec_bytes()) is Some,
    ensures
        r == !handles(devices@).contains(node_handle(device_filepath.spec_bytes())),
{
    let opencv_id = to_opencv_id(device_filepath);
    let mut i: usize = 0;
    while i < devices.len()
        invariant
            i <= devices.len(),
            opencv_id == node_handle(device_filepath.spec_bytes()),
            forall|j: int| 0 <= j < i ==> handles(devices@)[j] != opencv_id,
        decreases devices.len() - i,
    {
        if devices[i].opencv_id == opencv_id {
            assert(handles(devices@)[i as int] == opencv_id);
            return false;
        }
        i += 1;
    }
    true
}

/// The capability bits say that the device captures video, through the
/// single-plane or the multi-plane API.
pub open spec fn captures_video(device_caps: u32) -> bool {
    device_caps & V4L2_CAP_VIDEO_CAPTURE != 0 || device_caps & V4L2_CAP_VIDEO_CAPTURE_MPLANE != 0
}

/// Decides whether the device captures video.
pub fn is_capture_device(cap: &V4l2Capability) -> (r: bool)
    ensures
        r == captures_video(cap.device_caps),
{
    let caps = cap.device_caps;
    assert(((caps & (0x00000001u32 | 0x00001000u32)) != 0) == (caps & 0x00000001u32 != 0 || caps
        & 0x00001000u32 != 0)) by (bit_vector);
    (caps & (V4L2_CAP_VIDEO_CAPTURE | V4L2_CAP_VIDEO_CAPTURE_MPLANE)) != 0
}

/// Calls `std::str::from_utf8` of the standard library, which takes bytes
/// as text where they are valid UTF-8 and refuses them where they are not.
/// Trusted: the bytes are taken exactly when they are valid UTF-8, and the
/// text is then the one that they encode.
#[verifier::external_body]
fn from_utf8(bytes: &[u8]) -> (text: Option<String>)
    ensures
        match text {
            Some(text) => valid_utf8(bytes@) && text@ == decode_utf8(bytes@),
            None => !valid_utf8(bytes@),
        },
{
    match std::str::from_utf8(bytes) {
        Ok(text) => Some(text.to_owned()),
        Err(_) => None,
    }
}

/// The label of a device whose name field holds `card`: the text that the
/// bytes before the first NUL byte encode, and `UNKNOWN` where the field
/// holds no NUL byte or those bytes are no text.
pub open spec fn device_name(card: Seq<u8>) -> Seq<char> {
    match card.index_of_first(0u8) {
        Some(end) => if valid_utf8(card.subrange(0, end)) {
            decode_utf8(card.subrange(0, end))
        } else {
            "UNKNOWN"@
        },
        None => "UNKNOWN"@,
    }
}

/// Finds where the text of a name field ends: at its first NUL byte.
pub fn text_end(field: &[u8]) -> (end: Option<usize>)
    ensures
        match end {
            Some(n) => n < field.len() && field@.index_of_first(0u8) == Some(n as int),
            None => field@.index_of_first(0u8) is None,
        },
{
    let mut end: usize = 0;
    while end < field.len()
        invariant
            end <= field.len(),
            forall|j: int| 0 <= j < end ==> field@[j] != 0u8,
        decreases field.len() - end,
    {
        if field[end] == 0 {
            proof {
                field@.index_of_first_ensures(0u8);
            }
            return Some(end);
        }
        end += 1;
    }
    proof {
        field@.index_of_first_ensures(0u8);
    }
    None
}

/// Reads the label of a device from its capability record.
pub fn to_device_name(cap: &V4l2Capability) -> (name: String)
    ensures
        name@ == device_name(cap.card@),
        match cap.card@.index_of_first(0u8) {
            Some(end) => if valid_utf8(cap.card@.subrange(0, end)) {
                name@ == decode_utf8(cap.card@.subrange(0, end))
            } else {
                name@ == "UNKNOWN"@
            },
            None => name@ == "UNKNOWN"@,
        },
{
    let card = cap.card.as_slice();
    match text_end(card) {
        Some(end) => match from_utf8(slice_subrange(card, 0, end)) {
            Some(name) => name,
            None => String::from_str("UNKNOWN"),
        },
        None => String::from_str("UNKNOWN"),
    }
}

/// The kernel reported a frame size of a kind that this library does not
/// know.
#[derive(Clone, Copy, Debug, PartialEq, Eq, Structural)]
pub struct UnknownGeometryKind {
    pub typ: u32,
}

/// What a frame size record says: an exact size for the discrete kind, a
/// range for the stepwise and the continuous kind, field by field.
pub open spec fn decoded(fsz: V4l2Frmsizeenum) -> Result<FrameSizeType, UnknownGeometryKind> {
    if fsz.typ == V4L2_FRMSIZE_TYPE_DISCRETE {
        Ok(
            FrameSizeType::Discrete {
                width: fsz.frmsize.discrete().width,
                height: fsz.frmsize.discrete().height,
            },
        )
    } else if fsz.typ == V4L2_FRMSIZE_TYPE_STEPWISE || fsz.typ == V4L2_FRMSIZE_TYPE_CONTINUOUS {
        Ok(
            FrameSizeType::Stepwise {
                min_width: fsz.frmsize.stepwise().min_width,
                max_width: fsz.frmsize.stepwise().max_width,
                step_width: fsz.frmsize.stepwise().step_width,
                min_height: fsz.frmsize.stepwise().min_height,
                max_height: fsz.frmsize.stepwise().max_height,
                step_height: fsz.frmsize.stepwise().step_height,
            },
        )
    } else {
        Err(UnknownGeometryKind { typ: fsz.typ })
    }
}

/// Decodes a frame size record into a geometry.
pub fn to_frame_size_type(fsz: &V4l2Frmsizeenum) -> (r: Result<
    FrameSizeType,
    UnknownGeometryKind,
>)
    ensures
        r == decoded(*fsz),
{
    if fsz.typ == V4L2_FRMSIZE_TYPE_DISCRETE {
        let discrete = fsz.frmsize.discrete();
        Ok(FrameSizeType::Discrete { width: discrete.width, height: discrete.height })
    } else if fsz.typ == V4L2_FRMSIZE_TYPE_STEPWISE || fsz.typ == V4L2_FRMSIZE_TYPE_CONTINUOUS {
        let stepwise = fsz.frmsize.stepwise();
        Ok(
            FrameSizeType::Stepwise {
                min_width: stepwise.min_width,
                max_width: stepwise.max_width,
                step_width: stepwise.step_width,
                min_height: stepwise.min_height,
                max_height: stepwise.max_height,
                step_height: stepwise.step_height,
            },
        )
    } else {
        Err(UnknownGeometryKind { typ: fsz.typ })
    }
}

/// The error number with which an enumerating control call says that the
/// index is past the last entry.
pub open spec fn ends_enumeration(code: i32) -> bool {
    code == 22
}

/// Asks nix, through `Errno::from_raw`, whether the error number is that of
/// `Errno::EINVAL`. Trusted: on Linux, where these control calls exist, nix
/// takes `EINVAL` from libc, where it is 22.
#[verifier::external_body]
fn is_invalid_argument(code: i32) -> (r: bool)
    ensures
        r == ends_enumeration(code),
{
    match nix::errno::Errno::from_raw(code) {
        nix::errno::Errno::EINVAL => true,
        _ => false,
    }
}

/// One of the two listings of symlinks to device nodes.
#[derive(Clone, Copy, Debug, PartialEq, Eq, Structural)]
pub enum Source {
    /// Symlinks named after the device: the names persist when a device is
    /// plugged in elsewhere. This source is read first.
    ById,
    /// Symlinks named after the place of the device: read second, for the
    /// devices that the first listing lacks.
    ByPath,
}

/// The directory that holds a listing.
pub open spec fn source_path(source: Source) -> Seq<char> {
    match source {
        Source::ById => "/dev/v4l/by-id"@,
        Source::ByPath => "/dev/v4l/by-path"@,
    }
}

impl Source {
    /// The directory that holds the listing.
    pub fn path(self) -> (path: &'static str)
        ensures
            path@ == source_path(self),
    {
        match self {
            Source::ById => "/dev/v4l/by-id",
            Source::ByPath => "/dev/v4l/by-path",
        }
    }
}

/// A node that an entry of a listing leads to, before it is probed.
#[derive(Debug)]
pub struct Candidate {
    pub opencv_id: i32,
    pub unique_id: String,
    pub device_filepath: String,
}

/// What a `Candidate` holds, as mathematical values.
pub struct CandidateView {
    pub opencv_id: i32,
    pub unique_id: Seq<char>,
    pub device_filepath: Seq<char>,
}

impl View for Candidate {
    type V = CandidateView;

    open spec fn view(&self) -> CandidateView {
        CandidateView {
            opencv_id: self.opencv_id,
            unique_id: self.unique_id@,
            device_filepath: self.device_filepath@,
        }
    }
}

/// What is known of an open device while its formats are enumerated.
#[derive(Debug)]
pub struct Probe {
    pub candidate: Candidate,
    pub name: String,
    /// The geometries met so far, each once, in the order in which they were
    /// met.
    pub types: Vec<FrameSizeType>,
    /// Which class of buffer types is enumerated: first single-plane, then
    /// multi-plane.
    pub multiplanar: bool,
    /// The index of the pixel format that is asked for.
    pub format_index: u32,
}

/// What a `Probe` holds, as mathematical values.
pub struct ProbeView {
    pub candidate: CandidateView,
    pub name: Seq<char>,
    pub types: Seq<FrameSizeType>,
    pub multiplanar: bool,
    pub format_index: u32,
}

impl View for Probe {
    type V = ProbeView;

    open spec fn view(&self) -> ProbeView {
        ProbeView {
            candidate: self.candidate@,
            name: self.name@,
            types: self.types@,
            multiplanar: self.multiplanar,
            format_index: self.format_index,
        }
    }
}

/// Where a scan stands. Each state but the last awaits the answer to one
/// request, which `pending` names.
#[derive(Debug)]
pub enum Scan {
    OpeningSource { source: Source },
    Listing { source: Source },
    OpeningDevice { source: Source, candidate: Candidate },
    QueryingCapabilities { source: Source, candidate: Candidate },
    EnumeratingFormats { source: Source, probe: Probe },
    EnumeratingFrameSizes { source: Source, probe: Probe, pixel_format: u32, index: u32 },
    Closing { source: Source },
    Done { result: Result<(), DiscoveryError> },
}

/// A state of the scan, as mathematical values.
pub enum ScanView {
    OpeningSource { source: Source },
    Listing { source: Source },
    OpeningDevice { source: Source, candidate: CandidateView },
    QueryingCapabilities { source: Source, candidate: CandidateView },
    EnumeratingFormats { source: Source, probe: ProbeView },
    EnumeratingFrameSizes { source: Source, probe: ProbeView, pixel_format: u32, index: u32 },
    Closing { source: Source },
    Done { result: Result<(), DiscoveryError> },
}

impl View for Scan {
    type V = ScanView;

    open spec fn view(&self) -> ScanView {
        match *self {
            Scan::OpeningSource { source } => ScanView::OpeningSource { source },
            Scan::Listing { source } => ScanView::Listing { source },
            Scan::OpeningDevice { source, candidate } => ScanView::OpeningDevice {
                source,
                candidate: candidate@,
            },
            Scan::QueryingCapabilities { source, candidate } => ScanView::QueryingCapabilities {
                source,
                candidate: candidate@,
            },
            Scan::EnumeratingFormats { source, probe } => ScanView::EnumeratingFormats {
                source,
                probe: probe@,
            },
            Scan::EnumeratingFrameSizes {
                source,
                probe,
                pixel_format,
                index,
            } => ScanView::EnumeratingFrameSizes { source, probe: probe@, pixel_format, index },
            Scan::Closing { source } => ScanView::Closing { source },
            Scan::Done { result } => ScanView::Done { result },
        }
    }
}

/// What the scan asks its driver to do next. The driver does it and hands
/// the outcome back as an `Event`.
#[derive(Debug, PartialEq, Eq)]
pub enum Action {
    /// Open the listing `source`.
    OpenSource { source: Source },
    /// Read the next entry of the open listing.
    NextEntry,
    /// Open the node at `device_filepath` for reading and writing.
    OpenDevice { device_filepath: String },
    /// Ask the open device for its capabilities.
    QueryCapabilities,
    /// Ask the open device for its pixel format number `index` of the
    /// buffer type `fmt_type`.
    QueryFormat { fmt_type: u32, index: u32 },
    /// Ask the open device for frame size number `index` of `pixel_format`.
    QueryFrameSize { pixel_format: u32, index: u32 },
    /// Close the open device.
    CloseDevice,
    /// Nothing: the scan is over.
    Finished,
}

/// An `Action`, as mathematical values.
pub enum ActionView {
    OpenSource { source: Source },
    NextEntry,
    OpenDevice { device_filepath: Seq<char> },
    QueryCapabilities,
    QueryFormat { fmt_type: u32, index: u32 },
    QueryFrameSize { pixel_format: u32, index: u32 },
    CloseDevice,
    Finished,
}

impl View for Action {
    type V = ActionView;

    open spec fn view(&self) -> ActionView {
        match *self {
            Action::OpenSource { source } => ActionView::OpenSource { source },
            Action::NextEntry => ActionView::NextEntry,
            Action::OpenDevice { device_filepath } => ActionView::OpenDevice {
                device_filepath: device_filepath@,
            },
            Action::QueryCapabilities => ActionView::QueryCapabilities,
            Action::QueryFormat { fmt_type, index } => ActionView::QueryFormat { fmt_type, index },
            Action::QueryFrameSize { pixel_format, index } => ActionView::QueryFrameSize {
                pixel_format,
                index,
            },
            Action::CloseDevice => ActionView::CloseDevice,
            Action::Finished => ActionView::Finished,
        }
    }
}

/// What the driver reports back. An error number is that of the operating
/// system.
#[derive(Debug)]
pub enum Event {
    /// The listing exists and is open.
    SourceOpened,
    /// The listing does not exist.
    SourceAbsent,
    /// The listing could not be opened, for another reason.
    SourceFailed { code: i32 },
    /// The next entry is a symlink at `symlink_path`, which resolves to the
    /// node at `device_filepath`.
    Symlink { symlink_path: String, device_filepath: String },
    /// The next entry is no symlink.
    NotSymlink,
    /// The listing has no further entry.
    EndOfSource,
    /// The next entry could not be read.
    EntryFailed { code: i32 },
    /// The device is open.
    DeviceOpened,
    /// The device could not be opened.
    DeviceUnavailable,
    /// The outcome of the capability query.
    Capabilities(Result<V4l2Capability, i32>),
    /// The outcome of a pixel format query.
    Format(Result<V4l2Fmtdesc, i32>),
    /// The outcome of a frame size query.
    FrameSize(Result<V4l2Frmsizeenum, i32>),
    /// The device is closed.
    DeviceClosed,
}

/// The buffer type that stands for a class of buffer types.
pub open spec fn buffer_type(multiplanar: bool) -> u32 {
    if multiplanar {
        V4L2_BUF_TYPE_VIDEO_CAPTURE_MPLANE
    } else {
        V4L2_BUF_TYPE_VIDEO_CAPTURE
    }
}

/// The request that a state awaits the answer to.
pub open spec fn pending(scan: ScanView) -> ActionView {
    match scan {
        ScanView::OpeningSource { source } => ActionView::OpenSource { source },
        ScanView::Listing { .. } => ActionView::NextEntry,
        ScanView::OpeningDevice { candidate, .. } => ActionView::OpenDevice {
            device_filepath: candidate.device_filepath,
        },
        ScanView::QueryingCapabilities { .. } => ActionView::QueryCapabilities,
        ScanView::EnumeratingFormats { probe, .. } => ActionView::QueryFormat {
            fmt_type: buffer_type(probe.multiplanar),
            index: probe.format_index,
        },
        ScanView::EnumeratingFrameSizes { pixel_format, index, .. } => ActionView::QueryFrameSize {
            pixel_format,
            index,
        },
        ScanView::Closing { .. } => ActionView::CloseDevice,
        ScanView::Done { .. } => ActionView::Finished,
    }
}

/// One step of the scan: the state that follows, and the probe that the step
/// has completed, if it has completed one.
pub struct Transition {
    pub scan: ScanView,
    pub found: Option<ProbeView>,
}

/// A step to `scan` that completes no probe.
pub open spec fn goes_to(scan: ScanView) -> Transition {
    Transition { scan, found: None }
}

/// The state after a listing is done with: the second listing follows the
/// first, and the end of the scan follows the second.
pub open spec fn after_source(source: Source) -> ScanView {
    match source {
        Source::ById => ScanView::OpeningSource { source: Source::ByPath },
        Source::ByPath => ScanView::Done { result: Ok(()) },
    }
}

/// The step taken when the pixel formats of a class of buffer types are
/// exhausted: the multi-plane class follows the single-plane class, and the
/// end of the probe follows the multi-plane class.
pub open spec fn after_formats(source: Source, probe: ProbeView) -> Transition {
    if probe.multiplanar {
        Transition { scan: ScanView::Closing { source }, found: Some(probe) }
    } else {
        goes_to(
            ScanView::EnumeratingFormats {
                source,
                probe: ProbeView { multiplanar: true, format_index: 0, ..probe },
            },
        )
    }
}

/// The step taken when the frame sizes of a pixel format are exhausted: the
/// next pixel format is asked for. After the last index that exists, the
/// pixel formats are exhausted too.
pub open spec fn after_frame_sizes(source: Source, probe: ProbeView) -> Transition {
    if probe.format_index < u32::MAX {
        goes_to(
            ScanView::EnumeratingFormats {
                source,
                probe: ProbeView { format_index: (probe.format_index + 1) as u32, ..probe },
            },
        )
    } else {
        after_formats(source, probe)
    }
}

/// The identity that the path of a symlink gives: the text of its final
/// segment.
pub open spec fn identity_of(symlink_path: Seq<char>) -> Seq<char> {
    decode_utf8(final_segment(encode_utf8(symlink_path)))
}

/// The step that an entry of a listing causes. A symlink whose node is
/// listed already is passed over; any other symlink becomes the candidate
/// that is opened next.
pub open spec fn entry_step(
    source: Source,
    listed: Seq<i32>,
    symlink_path: Seq<char>,
    device_filepath: Seq<char>,
) -> ScanView {
    let node = encode_utf8(device_filepath);
    if node_index(node) is None {
        ScanView::Done { result: Err(DiscoveryError::MalformedEntry) }
    } else if listed.contains(node_handle(node)) {
        ScanView::Listing { source }
    } else if !names_entry(encode_utf8(symlink_path)) {
        ScanView::Done { result: Err(DiscoveryError::MalformedEntry) }
    } else {
        ScanView::OpeningDevice {
            source,
            candidate: CandidateView {
                opencv_id: node_handle(node),
                unique_id: identity_of(symlink_path),
                device_filepath,
            },
        }
    }
}

/// The step that the answer to the capability query causes: a device that
/// captures video has its formats enumerated, from the first pixel format of
/// the single-plane class on; any other device, and one that did not answer,
/// is closed.
pub open spec fn capability_step(
    source: Source,
    candidate: CandidateView,
    answer: Result<V4l2Capability, i32>,
) -> ScanView {
    match answer {
        Ok(cap) => if captures_video(cap.device_caps) {
            ScanView::EnumeratingFormats {
                source,
                probe: ProbeView {
                    candidate,
                    name: device_name(cap.card@),
                    types: Seq::empty(),
                    multiplanar: false,
                    format_index: 0,
                },
            }
        } else {
            ScanView::Closing { source }
        },
        Err(_) => ScanView::Closing { source },
    }
}

/// The step that the answer to a pixel format query causes: the frame sizes
/// of a format that exists are asked for, from the first on; the sentinel
/// ends the class of buffer types; any other error ends the probe without a
/// device.
pub open spec fn format_step(
    source: Source,
    probe: ProbeView,
    answer: Result<V4l2Fmtdesc, i32>,
) -> Transition {
    match answer {
        Ok(fmt) => goes_to(
            ScanView::EnumeratingFrameSizes {
                source,
                probe,
                pixel_format: fmt.pixel_format,
                index: 0,
            },
        ),
        Err(code) => if ends_enumeration(code) {
            after_formats(source, probe)
        } else {
            goes_to(ScanView::Closing { source })
        },
    }
}

/// The step that the answer to a frame size query causes: a frame size that
/// decodes joins the geometries of the probe, unless it is among them, and
/// the next one is asked for; the sentinel ends the pixel format; any other
/// error, and a frame size of unknown kind, ends the probe without a device.
pub open spec fn frame_size_step(
    source: Source,
    probe: ProbeView,
    pixel_format: u32,
    index: u32,
    answer: Result<V4l2Frmsizeenum, i32>,
) -> Transition {
    match answer {
        Ok(fsz) => match decoded(fsz) {
            Ok(t) => {
                let grown = ProbeView { types: added(probe.types, t), ..probe };
                if index < u32::MAX {
                    goes_to(
                        ScanView::EnumeratingFrameSizes {
                            source,
                            probe: grown,
                            pixel_format,
                            index: (index + 1) as u32,
                        },
                    )
                } else {
                    after_frame_sizes(source, grown)
                }
            },
            Err(_) => goes_to(ScanView::Closing { source }),
        },
        Err(code) => if ends_enumeration(code) {
            after_frame_sizes(source, probe)
        } else {
            goes_to(ScanView::Closing { source })
        },
    }
}

/// One step of the scan. `listed` holds the handles of the devices found so
/// far. An event that does not answer the pending request changes nothing.
pub open spec fn step(scan: ScanView, listed: Seq<i32>, event: Event) -> Transition {
    match (scan, event) {
        (ScanView::OpeningSource { source }, Event::SourceOpened) => goes_to(
            ScanView::Listing { source },
        ),
        (ScanView::OpeningSource { source }, Event::SourceAbsent) => goes_to(after_source(source)),
        (ScanView::OpeningSource { source }, Event::SourceFailed { code }) => goes_to(
            ScanView::Done { result: Err(DiscoveryError::SourceUnreadable { code }) },
        ),
        (ScanView::Listing { source }, Event::Symlink { symlink_path, device_filepath }) => goes_to(
            entry_step(source, listed, symlink_path@, device_filepath@),
        ),
        (ScanView::Listing { source }, Event::NotSymlink) => goes_to(ScanView::Listing { source }),
        (ScanView::Listing { source }, Event::EndOfSource) => goes_to(after_source(source)),
        (ScanView::Listing { source }, Event::EntryFailed { code }) => goes_to(
            ScanView::Done { result: Err(DiscoveryError::SourceUnreadable { code }) },
        ),
        (ScanView::OpeningDevice { source, candidate }, Event::DeviceOpened) => goes_to(
            ScanView::QueryingCapabilities { source, candidate },
        ),
        (ScanView::OpeningDevice { source, .. }, Event::DeviceUnavailable) => goes_to(
            ScanView::Listing { source },
        ),
        (ScanView::QueryingCapabilities { source, candidate }, Event::Capabilities(answer)) => {
            goes_to(capability_step(source, candidate, answer))
        },
        (ScanView::EnumeratingFormats { source, probe }, Event::Format(answer)) => format_step(
            source,
            probe,
            answer,
        ),
        (
            ScanView::EnumeratingFrameSizes { source, probe, pixel_format, index },
            Event::FrameSize(answer),
        ) => frame_size_step(source, probe, pixel_format, index, answer),
        (ScanView::Closing { source }, Event::DeviceClosed) => goes_to(
            ScanView::Listing { source },
        ),
        _ => goes_to(scan),
    }
}

/// The device is what the completed probe found: its handle, identity and
/// label, and its geometries ranked.
pub open spec fn assembles(probe: ProbeView, device: Device) -> bool {
    &&& device@.opencv_id == probe.candidate.opencv_id
    &&& device@.unique_id == probe.candidate.unique_id
    &&& device@.name == probe.name
    &&& ranked(probe.types, device@.frame_size_types)
}

/// The list `after` is `before`, with the device of the completed probe at
/// its end where a probe was completed.
pub open spec fn collects(before: Seq<Device>, found: Option<ProbeView>, after: Seq<Device>) -> bool {
    match found {
        Some(probe) => {
            &&& after.len() == before.len() + 1
            &&& after.drop_last() == before
            &&& assembles(probe, after.last())
        },
        None => after == before,
    }
}

impl Scan {
    /// A scan that has not begun: it awaits the first listing.
    pub fn new() -> (scan: Scan)
        ensures
            scan@ == (ScanView::OpeningSource { source: Source::ById }),
    {
        Scan::OpeningSource { source: Source::ById }
    }

    /// The request that the scan awaits the answer to.
    pub fn pending(&self) -> (action: Action)
        ensures
            action@ == pending(self@),
    {
        match self {
            Scan::OpeningSource { source } => Action::OpenSource { source: *source },
            Scan::Listing { .. } => Action::NextEntry,
            Scan::OpeningDevice { candidate, .. } => Action::OpenDevice {
                device_filepath: candidate.device_filepath.clone(),
            },
            Scan::QueryingCapabilities { .. } => Action::QueryCapabilities,
            Scan::EnumeratingFormats { probe, .. } => query_format(
                probe.multiplanar,
                probe.format_index,
            ),
            Scan::EnumeratingFrameSizes { pixel_format, index, .. } => query_frame_sizes(
                *pixel_format,
                *index,
            ),
            Scan::Closing { .. } => Action::CloseDevice,
            Scan::Done { .. } => Action::Finished,
        }
    }
}

/// The request for pixel format number `index` of a class of buffer types.
pub fn query_format(multiplanar: bool, index: u32) -> (action: Action)
    ensures
        action@ == (ActionView::QueryFormat { fmt_type: buffer_type(multiplanar), index }),
{
    let fmt_type = if multiplanar {
        V4L2_BUF_TYPE_VIDEO_CAPTURE_MPLANE
    } else {
        V4L2_BUF_TYPE_VIDEO_CAPTURE
    };
    Action::QueryFormat { fmt_type, index }
}

/// The request for frame size number `index` of a pixel format.
pub fn query_frame_sizes(pixel_format: u32, index: u32) -> (action: Action)
    ensures
        action@ == (ActionView::QueryFrameSize { pixel_format, index }),
{
    Action::QueryFrameSize { pixel_format, index }
}

/// Makes the device that a completed probe has found: the geometries are
/// ranked, everything else is taken as it is.
pub fn find_frame_size_types(probe: Probe) -> (device: Device)
    ensures
        assembles(probe@, device),
{
    let Probe { candidate, name, types, .. } = probe;
    let mut types = types;
    sort_frame_size_types(&mut types);
    Device {
        opencv_id: candidate.opencv_id,
        unique_id: candidate.unique_id,
        name,
        frame_size_types: types,
    }
}

/// Goes on after the pixel formats of a class of buffer types are
/// exhausted. After the second class the device is complete and joins the
/// list.
fn next_buffer_class(devices: &mut Vec<Device>, source: Source, probe: Probe) -> (next: Scan)
    ensures
        next@ == after_formats(source, probe@).scan,
        collects(old(devices)@, after_formats(source, probe@).found, final(devices)@),
{
    if probe.multiplanar {
        let device = find_frame_size_types(probe);
        devices.push(device);
        proof {
            assert(devices@.drop_last() =~= old(devices)@);
        }
        Scan::Closing { source }
    } else {
        let Probe { candidate, name, types, .. } = probe;
        Scan::EnumeratingFormats {
            source,
            probe: Probe { candidate, name, types, multiplanar: true, format_index: 0 },
        }
    }
}

/// Goes on after the frame sizes of a pixel format are exhausted.
fn next_format(devices: &mut Vec<Device>, source: Source, probe: Probe) -> (next: Scan)
    ensures
        next@ == after_frame_sizes(source, probe@).scan,
        collects(old(devices)@, after_frame_sizes(source, probe@).found, final(devices)@),
{
    if probe.format_index < u32::MAX {
        let Probe { candidate, name, types, multiplanar, format_index } = probe;
        Scan::EnumeratingFormats {
            source,
            probe: Probe { candidate, name, types, multiplanar, format_index: format_index + 1 },
        }
    } else {
        next_buffer_class(devices, source, probe)
    }
}

/// Takes the answer to a frame size query.
pub fn find_frame_size_types_for_format(
    devices: &mut Vec<Device>,
    source: Source,
    probe: Probe,
    pixel_format: u32,
    index: u32,
    answer: Result<V4l2Frmsizeenum, i32>,
) -> (next: Scan)
    ensures
        next@ == frame_size_step(source, probe@, pixel_format, index, answer).scan,
        collects(
            old(devices)@,
            frame_size_step(source, probe@, pixel_format, index, answer).found,
            final(devices)@,
        ),
{
    match answer {
        Ok(fsz) => match to_frame_size_type(&fsz) {
            Ok(t) => {
                let Probe { candidate, name, types, multiplanar, format_index } = probe;
                let mut types = types;
                add_frame_size_type(&mut types, t);
                let grown = Probe { candidate, name, types, multiplanar, format_index };
                if index < u32::MAX {
                    Scan::EnumeratingFrameSizes {
                        source,
                        probe: grown,
                        pixel_format,
                        index: index + 1,
                    }
                } else {
                    next_format(devices, source, grown)
                }
            },
            Err(_) => Scan::Closing { source },
        },
        Err(code) => if is_invalid_argument(code) {
            next_format(devices, source, probe)
        } else {
            Scan::Closing { source }
        },
    }
}

/// Takes the answer to a pixel format query.
pub fn add_frame_size_types(
    devices: &mut Vec<Device>,
    source: Source,
    probe: Probe,
    answer: Result<V4l2Fmtdesc, i32>,
) -> (next: Scan)
    ensures
        next@ == format_step(source, probe@, answer).scan,
        collects(old(devices)@, format_step(source, probe@, answer).found, final(devices)@),
{
    match answer {
        Ok(fmt) => Scan::EnumeratingFrameSizes {
            source,
            probe,
            pixel_format: fmt.pixel_format,
            index: 0,
        },
        Err(code) => if is_invalid_argument(code) {
            next_buffer_class(devices, source, probe)
        } else {
            Scan::Closing { source }
        },
    }
}

/// Takes the answer to the capability query.
pub fn to_capture_device(
    source: Source,
    candidate: Candidate,
    answer: Result<V4l2Capability, i32>,
) -> (next: Scan)
    ensures
        next@ == capability_step(source, candidate@, answer),
{
    match answer {
        Ok(cap) => if is_capture_device(&cap) {
            Scan::EnumeratingFormats {
                source,
                probe: Probe {
                    candidate,
                    name: to_device_name(&cap),
                    types: Vec::new(),
                    multiplanar: false,
                    format_index: 0,
                },
            }
        } else {
            Scan::Closing { source }
        },
        Err(_) => Scan::Closing { source },
    }
}

/// Takes a symlink of a listing.
pub fn add_capture_devices_for_dir(
    devices: &Vec<Device>,
    source: Source,
    symlink_path: String,
    device_filepath: String,
) -> (next: Scan)
    ensures
        next@ == entry_step(source, handles(devices@), symlink_path@, device_filepath@),
{
    if !has_opencv_id(device_filepath.as_str()) {
        Scan::Done { result: Err(DiscoveryError::MalformedEntry) }
    } else if !device_is_not_list(devices, device_filepath.as_str()) {
        Scan::Listing { source }
    } else if !has_unique_id(symlink_path.as_str()) {
        Scan::Done { result: Err(DiscoveryError::MalformedEntry) }
    } else {
        let opencv_id = to_opencv_id(device_filepath.as_str());
        let unique_id = to_unique_id(symlink_path.as_str());
        Scan::OpeningDevice { source, candidate: Candidate { opencv_id, unique_id, device_filepath } }
    }
}

/// The state after a listing is done with.
fn next_source(source: Source) -> (next: Scan)
    ensures
        next@ == after_source(source),
{
    match source {
        Source::ById => Scan::OpeningSource { source: Source::ByPath },
        Source::ByPath => Scan::Done { result: Ok(()) },
    }
}

/// Takes one step of the scan: hands the event to the state that awaits it,
/// adds to `devices` the device of a probe that the event completes, and
/// returns the state that follows with the request that it awaits.
pub fn add_capture_devices(devices: &mut Vec<Device>, scan: Scan, event: Event) -> (next: (
    Scan,
    Action,
))
    ensures
        next.0@ == step(scan@, handles(old(devices)@), event).scan,
        next.1@ == pending(next.0@),
        collects(old(devices)@, step(scan@, handles(old(devices)@), event).found, final(devices)@),
{
    let next = match scan {
        Scan::OpeningSource { source } => match event {
            Event::SourceOpened => Scan::Listing { source },
            Event::SourceAbsent => next_source(source),
            Event::SourceFailed { code } => Scan::Done {
                result: Err(DiscoveryError::SourceUnreadable { code }),
            },
            _ => Scan::OpeningSource { source },
        },
        Scan::Listing { source } => match event {
            Event::Symlink { symlink_path, device_filepath } => add_capture_devices_for_dir(
                devices,
                source,
                symlink_path,
                device_filepath,
            ),
            Event::EndOfSource => next_source(source),
            Event::EntryFailed { code } => Scan::Done {
                result: Err(DiscoveryError::SourceUnreadable { code }),
            },
            _ => Scan::Listing { source },
        },
        Scan::OpeningDevice { source, candidate } => match event {
            Event::DeviceOpened => Scan::QueryingCapabilities { source, candidate },
            Event::DeviceUnavailable => Scan::Listing { source },
            _ => Scan::OpeningDevice { source, candidate },
        },
        Scan::QueryingCapabilities { source, candidate } => match event {
            Event::Capabilities(answer) => to_capture_device(source, candidate, answer),
            _ => Scan::QueryingCapabilities { source, candidate },
        },
        Scan::EnumeratingFormats { source, probe } => match event {
            Event::Format(answer) => add_frame_size_types(devices, source, probe, answer),
            _ => Scan::EnumeratingFormats { source, probe },
        },
        Scan::EnumeratingFrameSizes { source, probe, pixel_format, index } => match event {
            Event::FrameSize(answer) => find_frame_size_types_for_format(
                devices,
                source,
                probe,
                pixel_format,
                index,
                answer,
            ),
            _ => Scan::EnumeratingFrameSizes { source, probe, pixel_format, index },
        },
        Scan::Closing { source } => match event {
            Event::DeviceClosed => Scan::Listing { source },
            _ => Scan::Closing { source },
        },
        Scan::Done { result } => Scan::Done { result },
    };
    let action = next.pending();
    (next, action)
}

} // verus!
