//! What the look at one activated source finds, said at once: the steps of
//! the scan, run against everything that a source would answer, end with the
//! frame sizes that the source reports, each once and in the order in which
//! it reports them.

use crate::video_devices::device::{
    added, joined, lemma_joined_no_duplicates, lemma_joined_twice, FrameSizeType,
};
use crate::video_devices::windows::msmf::{
    completed, goes_to, has_handle, step, unpacked, Event, ProbeView, ScanView, Transition,
};
use vstd::prelude::*;

verus! {

/// Everything that an activated source would answer: the number of its
/// stream descriptors, whether stream descriptor number `stream` exists, the
/// number of media types of that stream descriptor, and the packed frame
/// size of its media type number `media_type`.
pub struct Answers {
    pub streams: Result<u32, i32>,
    pub stream: spec_fn(u32) -> Result<bool, i32>,
    pub media_types: spec_fn(u32) -> Result<u32, i32>,
    pub frame_size: spec_fn(u32, u32) -> Result<u64, i32>,
}

/// The event with which the source answers the request that a state awaits
/// the answer to.
pub open spec fn answer(answers: Answers, scan: ScanView) -> Event {
    match scan {
        ScanView::CountingStreams { .. } => Event::Count(answers.streams),
        ScanView::SelectingStream { stream, .. } => Event::Stream((answers.stream)(stream)),
        ScanView::CountingMediaTypes { stream, .. } => Event::Count((answers.media_types)(stream)),
        ScanView::ReadingFrameSize { stream, media_type, .. } => Event::FrameSize(
            (answers.frame_size)(stream, media_type),
        ),
        _ => Event::SourceShutDown,
    }
}

/// The frame sizes of the media types of a stream descriptor from number
/// `from` up to `media_types`; nothing where one cannot be read.
pub open spec fn media_types_from(answers: Answers, stream: u32, media_types: u32, from: int) -> Option<
    Seq<FrameSizeType>,
>
    decreases media_types - from,
{
    if 0 <= from < media_types {
        match (answers.frame_size)(stream, from as u32) {
            Ok(packed) => match media_types_from(answers, stream, media_types, from + 1) {
                Some(rest) => Some(seq![unpacked(packed)] + rest),
                None => None,
            },
            Err(_) => None,
        }
    } else {
        Some(Seq::empty())
    }
}

/// The frame sizes of the stream descriptors from number `from` up to
/// `streams`, descriptor after descriptor, those that do not exist passed
/// over; nothing where a descriptor, a count or a frame size cannot be had.
pub open spec fn streams_from(answers: Answers, streams: u32, from: int) -> Option<
    Seq<FrameSizeType>,
>
    decreases streams - from,
{
    if 0 <= from < streams {
        match (answers.stream)(from as u32) {
            Ok(present) => if present {
                match (answers.media_types)(from as u32) {
                    Ok(media_types) => match media_types_from(
                        answers,
                        from as u32,
                        media_types,
                        0,
                    ) {
                        Some(sizes) => match streams_from(answers, streams, from + 1) {
                            Some(rest) => Some(sizes + rest),
                            None => None,
                        },
                        None => None,
                    },
                    Err(_) => None,
                }
            } else {
                streams_from(answers, streams, from + 1)
            },
            Err(_) => None,
        }
    } else {
        Some(Seq::empty())
    }
}

/// All frame sizes that the source reports.
pub open spec fn reported_sizes(answers: Answers) -> Option<Seq<FrameSizeType>> {
    match answers.streams {
        Ok(streams) => streams_from(answers, streams, 0),
        Err(_) => None,
    }
}

/// The scan is reading what an activated source holds.
pub open spec fn reading(scan: ScanView) -> bool {
    scan is CountingStreams || scan is SelectingStream || scan is CountingMediaTypes
        || scan is ReadingFrameSize
}

/// The stream descriptors that a reading state may still ask for.
pub open spec fn streams_left(scan: ScanView) -> nat {
    match scan {
        ScanView::CountingStreams { .. } => 0x1_0000_0000,
        ScanView::SelectingStream { streams, stream, .. } => if stream < streams {
            (streams - stream) as nat
        } else {
            0
        },
        ScanView::CountingMediaTypes { streams, stream, .. } => if stream < streams {
            (streams - stream) as nat
        } else {
            0
        },
        ScanView::ReadingFrameSize { streams, stream, .. } => if stream < streams {
            (streams - stream) as nat
        } else {
            0
        },
        _ => 0,
    }
}

/// The kinds of request that a reading state may still make for its stream
/// descriptor.
pub open spec fn requests_left(scan: ScanView) -> nat {
    match scan {
        ScanView::SelectingStream { .. } => 2,
        ScanView::CountingMediaTypes { .. } => 1,
        _ => 0,
    }
}

/// The media types that a reading state may still ask for.
pub open spec fn media_types_left(scan: ScanView) -> nat {
    match scan {
        ScanView::ReadingFrameSize { media_types, media_type, .. } => if media_type < media_types {
            (media_types - media_type) as nat
        } else {
            0
        },
        _ => 0,
    }
}

/// The steps of the scan from a reading state to the end of the look at the
/// source, each taking what the source answers to the pending request. The
/// last step is the one that leads to the shutdown of the source, with or
/// without a completed probe.
pub open spec fn read(answers: Answers, scan: ScanView) -> Transition
    decreases streams_left(scan), requests_left(scan), media_types_left(scan),
{
    if reading(scan) {
        let taken = step(scan, answer(answers, scan));
        if reading(taken.scan) {
            read(answers, taken.scan)
        } else {
            taken
        }
    } else {
        goes_to(scan)
    }
}

/// Where the steps from stream descriptor number `stream` on end.
pub open spec fn read_from_stream(
    answers: Answers,
    count: u32,
    probe: ProbeView,
    streams: u32,
    stream: int,
) -> Transition {
    if 0 <= stream < streams {
        read(answers, ScanView::SelectingStream { count, probe, streams, stream: stream as u32 })
    } else {
        completed(count, probe)
    }
}

/// The look at the source has ended without a device.
pub open spec fn dropped(count: u32, probe: ProbeView) -> Transition {
    goes_to(ScanView::ShuttingDown { count, index: probe.index })
}

/// From a state that asks for media type number `media_type` of a stream
/// descriptor, the steps add to the geometries of the probe the frame sizes
/// of the media types from that number on, and go on with the next stream
/// descriptor; where one cannot be read, the look ends without a device.
pub proof fn lemma_read_media_types(
    answers: Answers,
    count: u32,
    probe: ProbeView,
    streams: u32,
    stream: u32,
    media_types: u32,
    media_type: u32,
)
    requires
        media_type < media_types,
    ensures
        read(
            answers,
            ScanView::ReadingFrameSize { count, probe, streams, stream, media_types, media_type },
        ) == match media_types_from(answers, stream, media_types, media_type as int) {
            Some(sizes) => read_from_stream(
                answers,
                count,
                ProbeView { types: joined(probe.types, sizes), ..probe },
                streams,
                stream + 1,
            ),
            None => dropped(count, probe),
        },
    decreases media_types - media_type,
{
    match (answers.frame_size)(stream, media_type) {
        Ok(packed) => {
            let t = unpacked(packed);
            let grown = ProbeView { types: added(probe.types, t), ..probe };
            if media_type + 1 < media_types {
                lemma_read_media_types(
                    answers,
                    count,
                    grown,
                    streams,
                    stream,
                    media_types,
                    (media_type + 1) as u32,
                );
            }
            match media_types_from(answers, stream, media_types, media_type + 1) {
                Some(rest) => {
                    assert((seq![t] + rest).first() == t);
                    assert((seq![t] + rest).drop_first() =~= rest);
                    if media_type + 1 >= media_types {
                        assert(joined(grown.types, rest) == grown.types);
                    }
                },
                None => {},
            }
        },
        Err(_) => {},
    }
}

/// From a state that asks for a stream descriptor, the steps add to the
/// geometries of the probe the frame sizes of the stream descriptors from
/// that one on, and complete the probe; where the source reports none, the
/// look ends without a device.
pub proof fn lemma_read_streams(
    answers: Answers,
    count: u32,
    probe: ProbeView,
    streams: u32,
    stream: int,
)
    requires
        0 <= stream,
    ensures
        read_from_stream(answers, count, probe, streams, stream) == match streams_from(
            answers,
            streams,
            stream,
        ) {
            Some(sizes) => completed(
                count,
                ProbeView { types: joined(probe.types, sizes), ..probe },
            ),
            None => dropped(count, probe),
        },
    decreases streams - stream,
{
    if stream < streams {
        let at = stream as u32;
        let selecting = ScanView::SelectingStream { count, probe, streams, stream: at };
        let counting = ScanView::CountingMediaTypes { count, probe, streams, stream: at };
        match (answers.stream)(at) {
            Ok(present) => {
                if present {
                    assert(read(answers, selecting) == read(answers, counting));
                    match (answers.media_types)(at) {
                        Ok(media_types) => {
                            if 0 < media_types {
                                lemma_read_media_types(
                                    answers,
                                    count,
                                    probe,
                                    streams,
                                    at,
                                    media_types,
                                    0,
                                );
                            } else {
                                assert(read(answers, counting) == read_from_stream(
                                    answers,
                                    count,
                                    probe,
                                    streams,
                                    stream + 1,
                                ));
                            }
                            match media_types_from(answers, at, media_types, 0) {
                                Some(sizes) => {
                                    let grown = ProbeView {
                                        types: joined(probe.types, sizes),
                                        ..probe
                                    };
                                    assert(grown.index == probe.index);
                                    if media_types == 0 {
                                        assert(grown == probe);
                                    }
                                    lemma_read_streams(answers, count, grown, streams, stream + 1);
                                    match streams_from(answers, streams, stream + 1) {
                                        Some(rest) => {
                                            lemma_joined_twice(probe.types, sizes, rest);
                                        },
                                        None => {},
                                    }
                                },
                                None => {},
                            }
                        },
                        Err(_) => {},
                    }
                } else {
                    lemma_read_streams(answers, count, probe, streams, stream + 1);
                }
            },
            Err(_) => {},
        }
    } else {
        assert(ProbeView { types: joined(probe.types, Seq::empty()), ..probe } == probe);
    }
}

/// The look at an activated source finds the frame sizes that the source
/// reports, each once and in the order of its first report, and keeps the
/// position, which has a handle, the name and the link; where the source
/// reports none, because
/// a count, a stream descriptor or a frame size cannot be had, the look ends
/// without a device. Either way it ends with the request to shut the source
/// down.
pub proof fn lemma_look_finds_reported_sizes(
    answers: Answers,
    count: u32,
    index: u32,
    name: Seq<char>,
    link: Seq<char>,
)
    requires
        has_handle(index),
    ensures
        ({
            let probe = ProbeView { index, name, link, types: Seq::empty() };
            let end = read(answers, ScanView::CountingStreams { count, probe });
            &&& end.scan == (ScanView::ShuttingDown { count, index })
            &&& end.found == match reported_sizes(answers) {
                Some(sizes) => Some(ProbeView { types: joined(Seq::empty(), sizes), ..probe }),
                None => None,
            }
            &&& match reported_sizes(answers) {
                Some(sizes) => {
                    &&& joined(Seq::empty(), sizes).no_duplicates()
                    &&& forall|t: FrameSizeType|
                        joined(Seq::empty(), sizes).contains(t) <==> sizes.contains(t)
                },
                None => true,
            }
        }),
{
    if let Some(sizes) = reported_sizes(answers) {
        lemma_joined_no_duplicates(Seq::empty(), sizes);
    }
    let probe = ProbeView { index, name, link, types: Seq::empty() };
    match answers.streams {
        Ok(streams) => {
            lemma_read_streams(answers, count, probe, streams, 0);
        },
        Err(_) => {},
    }
}

} // verus!
