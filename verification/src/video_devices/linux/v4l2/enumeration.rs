//! What the probe of one device finds, said at once: the steps of the scan,
//! run against everything that a device would answer, end with the frame
//! sizes that the device reports, each once and in the order in which it
//! reports them.

use crate::video_devices::device::{
    added, joined, lemma_joined_no_duplicates, lemma_joined_twice, FrameSizeType,
};
use crate::video_devices::linux::v4l2::ioctl::{V4l2Fmtdesc, V4l2Frmsizeenum};
use crate::video_devices::linux::v4l2::{
    after_frame_sizes, buffer_type, decoded, ends_enumeration, goes_to, pending, step,
    ActionView, CandidateView, Event, ProbeView, ScanView, Source, Transition,
};
use vstd::prelude::*;

verus! {

/// Everything that an open device would answer to the enumerating control
/// calls: to the query for pixel format number `index` of a buffer type,
/// and to the query for frame size number `index` of a pixel format.
pub struct Answers {
    pub format: spec_fn(u32, u32) -> Result<V4l2Fmtdesc, i32>,
    pub frame_size: spec_fn(u32, u32) -> Result<V4l2Frmsizeenum, i32>,
}

/// The event with which the device answers a request.
pub open spec fn answer(answers: Answers, request: ActionView) -> Event {
    match request {
        ActionView::QueryFormat { fmt_type, index } => Event::Format(
            (answers.format)(fmt_type, index),
        ),
        ActionView::QueryFrameSize { pixel_format, index } => Event::FrameSize(
            (answers.frame_size)(pixel_format, index),
        ),
        _ => Event::DeviceClosed,
    }
}

/// The frame sizes that the device reports for a pixel format from number
/// `from` on, up to the sentinel or the last index that exists; nothing
/// where a query fails otherwise or a frame size is of unknown kind.
pub open spec fn frame_sizes_from(answers: Answers, pixel_format: u32, from: u32) -> Option<
    Seq<FrameSizeType>,
>
    decreases u32::MAX - from,
{
    match (answers.frame_size)(pixel_format, from) {
        Ok(fsz) => match decoded(fsz) {
            Ok(t) => if from < u32::MAX {
                match frame_sizes_from(answers, pixel_format, (from + 1) as u32) {
                    Some(rest) => Some(seq![t] + rest),
                    None => None,
                }
            } else {
                Some(seq![t])
            },
            Err(_) => None,
        },
        Err(code) => if ends_enumeration(code) {
            Some(Seq::empty())
        } else {
            None
        },
    }
}

/// The frame sizes that the device reports for the pixel formats of a class
/// of buffer types from format number `from` on, format after format, up to
/// the sentinel or the last index that exists; nothing where a query fails
/// otherwise or a frame size is of unknown kind.
pub open spec fn formats_from(answers: Answers, multiplanar: bool, from: u32) -> Option<
    Seq<FrameSizeType>,
>
    decreases u32::MAX - from,
{
    match (answers.format)(buffer_type(multiplanar), from) {
        Ok(fmt) => match frame_sizes_from(answers, fmt.pixel_format, 0) {
            Some(sizes) => if from < u32::MAX {
                match formats_from(answers, multiplanar, (from + 1) as u32) {
                    Some(rest) => Some(sizes + rest),
                    None => None,
                }
            } else {
                Some(sizes)
            },
            None => None,
        },
        Err(code) => if ends_enumeration(code) {
            Some(Seq::empty())
        } else {
            None
        },
    }
}

/// All frame sizes that the device reports: those of the single-plane
/// class, then those of the multi-plane class.
pub open spec fn reported_sizes(answers: Answers) -> Option<Seq<FrameSizeType>> {
    match (formats_from(answers, false, 0), formats_from(answers, true, 0)) {
        (Some(single), Some(multi)) => Some(single + multi),
        _ => None,
    }
}

/// How far an enumerating state is from the end of its probe: the classes
/// of buffer types that remain, then the pixel formats, then the frame
/// sizes.
pub open spec fn classes_left(scan: ScanView) -> nat {
    match scan {
        ScanView::EnumeratingFormats { probe, .. } => if probe.multiplanar {
            0
        } else {
            1
        },
        ScanView::EnumeratingFrameSizes { probe, .. } => if probe.multiplanar {
            0
        } else {
            1
        },
        _ => 0,
    }
}

/// The pixel formats that an enumerating state may still ask for.
pub open spec fn formats_left(scan: ScanView) -> nat {
    match scan {
        ScanView::EnumeratingFormats { probe, .. } => (u32::MAX - probe.format_index) as nat,
        ScanView::EnumeratingFrameSizes { probe, .. } => (u32::MAX - probe.format_index) as nat,
        _ => 0,
    }
}

/// The queries that an enumerating state may still make for its pixel
/// format.
pub open spec fn queries_left(scan: ScanView) -> nat {
    match scan {
        ScanView::EnumeratingFormats { .. } => 0x1_0000_0001,
        ScanView::EnumeratingFrameSizes { index, .. } => (u32::MAX - index + 1) as nat,
        _ => 0,
    }
}

/// The scan is enumerating the pixel formats or the frame sizes of a
/// device.
pub open spec fn enumerating(scan: ScanView) -> bool {
    scan is EnumeratingFormats || scan is EnumeratingFrameSizes
}

/// The steps of the scan from an enumerating state to the end of the
/// probe, each taking what the device answers to the pending request. The
/// last step is the one that leads to the closing of the device, with or
/// without a completed probe.
pub open spec fn enumerate(answers: Answers, scan: ScanView) -> Transition
    decreases classes_left(scan), formats_left(scan), queries_left(scan),
{
    if enumerating(scan) {
        let taken = step(scan, Seq::empty(), answer(answers, pending(scan)));
        if enumerating(taken.scan) {
            enumerate(answers, taken.scan)
        } else {
            taken
        }
    } else {
        goes_to(scan)
    }
}

/// The end of a probe that has gone through the frame sizes of a pixel
/// format.
pub open spec fn enumerate_after(answers: Answers, taken: Transition) -> Transition {
    if enumerating(taken.scan) {
        enumerate(answers, taken.scan)
    } else {
        taken
    }
}

/// From a state that asks for frame size number `index` of a pixel format,
/// the steps add to the geometries of the probe the frame sizes that the
/// device reports from that number on, and go on with the next pixel format;
/// where the device reports none, the probe ends without a device.
pub proof fn lemma_enumerate_frame_sizes(
    answers: Answers,
    source: Source,
    probe: ProbeView,
    pixel_format: u32,
    index: u32,
)
    ensures
        enumerate(
            answers,
            ScanView::EnumeratingFrameSizes { source, probe, pixel_format, index },
        ) == match frame_sizes_from(answers, pixel_format, index) {
            Some(sizes) => enumerate_after(
                answers,
                after_frame_sizes(source, ProbeView { types: joined(probe.types, sizes), ..probe }),
            ),
            None => goes_to(ScanView::Closing { source }),
        },
    decreases u32::MAX - index,
{
    let scan = ScanView::EnumeratingFrameSizes { source, probe, pixel_format, index };
    match (answers.frame_size)(pixel_format, index) {
        Ok(fsz) => match decoded(fsz) {
            Ok(t) => {
                let grown = ProbeView { types: added(probe.types, t), ..probe };
                if index < u32::MAX {
                    lemma_enumerate_frame_sizes(
                        answers,
                        source,
                        grown,
                        pixel_format,
                        (index + 1) as u32,
                    );
                    match frame_sizes_from(answers, pixel_format, (index + 1) as u32) {
                        Some(rest) => {
                            assert((seq![t] + rest).first() == t);
                            assert((seq![t] + rest).drop_first() =~= rest);
                        },
                        None => {},
                    }
                } else {
                    assert(seq![t].first() == t);
                    assert(seq![t].drop_first() =~= Seq::<FrameSizeType>::empty());
                    assert(joined(grown.types, Seq::empty()) == grown.types);
                    assert(joined(probe.types, seq![t]) == grown.types);
                }
            },
            Err(_) => {},
        },
        Err(code) => {
            if ends_enumeration(code) {
                assert(ProbeView { types: joined(probe.types, Seq::empty()), ..probe } == probe);
            }
        },
    }
}

/// What the steps from a state that asks for a pixel format come to, given
/// the frame sizes that the device reports from that format on: after the
/// single-plane class the steps go on with the multi-plane class, and after
/// the multi-plane class the probe is complete.
pub open spec fn enumerate_formats_to(
    answers: Answers,
    source: Source,
    probe: ProbeView,
    sizes: Seq<FrameSizeType>,
    end: Transition,
) -> bool {
    if probe.multiplanar {
        &&& end.scan == (ScanView::Closing { source })
        &&& end.found matches Some(found) && {
            &&& found.candidate == probe.candidate
            &&& found.name == probe.name
            &&& found.types == joined(probe.types, sizes)
        }
    } else {
        end == enumerate(
            answers,
            ScanView::EnumeratingFormats {
                source,
                probe: ProbeView {
                    types: joined(probe.types, sizes),
                    multiplanar: true,
                    format_index: 0,
                    ..probe
                },
            },
        )
    }
}

/// From a state that asks for a pixel format, the steps add to the
/// geometries of the probe the frame sizes that the device reports from
/// that format on in the class of buffer types; where the device reports
/// none, the probe ends without a device.
pub proof fn lemma_enumerate_formats(answers: Answers, source: Source, probe: ProbeView)
    ensures
        match formats_from(answers, probe.multiplanar, probe.format_index) {
            Some(sizes) => enumerate_formats_to(
                answers,
                source,
                probe,
                sizes,
                enumerate(answers, ScanView::EnumeratingFormats { source, probe }),
            ),
            None => enumerate(answers, ScanView::EnumeratingFormats { source, probe }) == goes_to(
                ScanView::Closing { source },
            ),
        },
    decreases u32::MAX - probe.format_index,
{
    let scan = ScanView::EnumeratingFormats { source, probe };
    match (answers.format)(buffer_type(probe.multiplanar), probe.format_index) {
        Ok(fmt) => {
            lemma_enumerate_frame_sizes(answers, source, probe, fmt.pixel_format, 0);
            match frame_sizes_from(answers, fmt.pixel_format, 0) {
                Some(sizes) => {
                    let grown = ProbeView { types: joined(probe.types, sizes), ..probe };
                    if probe.format_index < u32::MAX {
                        let next = ProbeView {
                            format_index: (probe.format_index + 1) as u32,
                            ..grown
                        };
                        lemma_enumerate_formats(answers, source, next);
                        match formats_from(
                            answers,
                            probe.multiplanar,
                            (probe.format_index + 1) as u32,
                        ) {
                            Some(rest) => {
                                lemma_joined_twice(probe.types, sizes, rest);
                            },
                            None => {},
                        }
                    }
                },
                None => {},
            }
        },
        Err(code) => {},
    }
}

/// The probe of a device that captures video finds the frame sizes that
/// the device reports, each once and in the order of its first report, and
/// keeps the candidate and the label; where the device reports none, because
/// a query fails with anything but the sentinel or a frame size is of unknown
/// kind, the probe ends without a device. Either way it ends with the
/// request to close the device.
pub proof fn lemma_probe_finds_reported_sizes(
    answers: Answers,
    source: Source,
    candidate: CandidateView,
    name: Seq<char>,
)
    ensures
        ({
            let start = ScanView::EnumeratingFormats {
                source,
                probe: ProbeView {
                    candidate,
                    name,
                    types: Seq::empty(),
                    multiplanar: false,
                    format_index: 0,
                },
            };
            let end = enumerate(answers, start);
            &&& end.scan == (ScanView::Closing { source })
            &&& match reported_sizes(answers) {
                Some(sizes) => end.found matches Some(found) && {
                    &&& found.candidate == candidate
                    &&& found.name == name
                    &&& found.types == joined(Seq::empty(), sizes)
                    &&& found.types.no_duplicates()
                    &&& forall|t: FrameSizeType| found.types.contains(t) <==> sizes.contains(t)
                },
                None => end.found is None,
            }
        }),
{
    if let Some(sizes) = reported_sizes(answers) {
        lemma_joined_no_duplicates(Seq::empty(), sizes);
    }
    let first = ProbeView {
        candidate,
        name,
        types: Seq::empty(),
        multiplanar: false,
        format_index: 0,
    };
    lemma_enumerate_formats(answers, source, first);
    match formats_from(answers, false, 0) {
        Some(single) => {
            let second = ProbeView {
                types: joined(first.types, single),
                multiplanar: true,
                format_index: 0,
                ..first
            };
            lemma_enumerate_formats(answers, source, second);
            match formats_from(answers, true, 0) {
                Some(multi) => {
                    lemma_joined_twice(first.types, single, multi);
                },
                None => {},
            }
        },
        None => {},
    }
}

} // verus!
