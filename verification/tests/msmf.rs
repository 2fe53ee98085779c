use capture_devices::video_devices::device::{Device, FrameSizeType};
use capture_devices::video_devices::error::DiscoveryError;
use capture_devices::video_devices::windows::msmf::{
    add_capture_devices, build_device_using_ref, get_media_type_size_by_idx, Action, Event,
    Probe, Scan, CAP_MSMF, MAX_SOURCE_INDEX,
};
use capture_devices::video_devices::windows::{find_capture_devices, Discovery};

const E_FAIL: i32 = -2147467259;
const E_ACCESSDENIED: i32 = -2147024891;

/// One stream descriptor of a source: absent, or with the packed frame
/// sizes of its media types.
#[derive(Clone)]
enum Stream {
    Missing,
    Failing(i32),
    Uncounted(i32),
    Holding(Vec<Result<u64, i32>>),
}

/// One source of the enumeration, as the driver in these tests answers for
/// it.
#[derive(Clone)]
struct Source {
    name: Result<&'static str, i32>,
    link: Result<&'static str, i32>,
    activates: bool,
    streams: Result<Vec<Stream>, i32>,
}

struct World {
    apartment: Result<(), i32>,
    sources: Result<Vec<Option<Source>>, i32>,
}

struct Run {
    result: Option<Result<Vec<Device>, DiscoveryError>>,
    actions: Vec<Action>,
}

fn packed(width: u32, height: u32) -> u64 {
    ((width as u64) << 32) | height as u64
}

fn discrete(width: u32, height: u32) -> FrameSizeType {
    FrameSizeType::Discrete { width, height }
}

fn source(name: &'static str, link: &'static str, sizes: Vec<(u32, u32)>) -> Source {
    Source {
        name: Ok(name),
        link: Ok(link),
        activates: true,
        streams: Ok(vec![Stream::Holding(sizes.iter().map(|s| Ok(packed(s.0, s.1))).collect())]),
    }
}

/// Plays the driver: performs each request against the world and hands the
/// outcome to `find_capture_devices`, until the discovery is finished.
fn run(world: &World) -> Run {
    let mut discovery = Discovery::new();
    let mut action = discovery.pending();
    let mut actions = vec![];
    let mut inside = false;
    let mut active: Option<Source> = None;
    let mut stream: Option<Stream> = None;
    for _ in 0..10_000 {
        let sources = world.sources.clone().unwrap_or_default();
        let event = match action {
            Action::EnterApartment => {
                assert!(!inside, "the apartment is entered twice");
                match world.apartment {
                    Ok(()) => {
                        inside = true;
                        Event::ApartmentEntered
                    },
                    Err(code) => Event::ApartmentRefused { code },
                }
            },
            Action::EnumerateSources => {
                assert!(inside);
                Event::Sources(world.sources.clone().map(|s| s.len() as u32))
            },
            Action::ReadFriendlyName { index } => {
                assert!(inside && active.is_none());
                match &sources[index as usize] {
                    Some(source) => Event::Text(source.name.map(|t| t.to_string())),
                    None => Event::NoSource,
                }
            },
            Action::ReadSymbolicLink { index } => {
                assert!(inside && active.is_none());
                let source = sources[index as usize].as_ref().expect("no source is there");
                Event::Text(source.link.map(|t| t.to_string()))
            },
            Action::ActivateSource { index } => {
                assert!(inside && active.is_none());
                let source = sources[index as usize].clone().expect("no source is there");
                if source.activates {
                    active = Some(source);
                    Event::SourceActivated
                } else {
                    Event::ActivationFailed { code: E_ACCESSDENIED }
                }
            },
            Action::CountStreams => {
                let source = active.as_ref().expect("no source is activated");
                Event::Count(source.streams.clone().map(|s| s.len() as u32))
            },
            Action::SelectStream { stream: number } => {
                let source = active.as_ref().expect("no source is activated");
                let found = source.streams.clone().unwrap()[number as usize].clone();
                let event = match &found {
                    Stream::Missing => Event::Stream(Ok(false)),
                    Stream::Failing(code) => Event::Stream(Err(*code)),
                    _ => Event::Stream(Ok(true)),
                };
                stream = Some(found);
                event
            },
            Action::CountMediaTypes => match stream.as_ref().expect("no stream is selected") {
                Stream::Holding(types) => Event::Count(Ok(types.len() as u32)),
                Stream::Uncounted(code) => Event::Count(Err(*code)),
                _ => panic!("the media types of a missing stream are counted"),
            },
            Action::ReadFrameSize { media_type } => {
                match stream.as_ref().expect("no stream is selected") {
                    Stream::Holding(types) => Event::FrameSize(types[media_type as usize]),
                    _ => panic!("a frame size of a missing stream is read"),
                }
            },
            Action::ShutdownSource => {
                assert!(active.is_some(), "a source is shut down that is not activated");
                active = None;
                stream = None;
                Event::SourceShutDown
            },
            Action::LeaveApartment => {
                assert!(inside, "the apartment is left from outside");
                assert!(active.is_none(), "the apartment is left with a source activated");
                inside = false;
                Event::ApartmentLeft
            },
            Action::Finished => {
                assert!(!inside, "the discovery ends inside the apartment");
                actions.push(Action::Finished);
                return Run { result: discovery.into_result(), actions };
            },
        };
        actions.push(action);
        let (next, requested) = find_capture_devices(discovery, event);
        discovery = next;
        action = requested;
    }
    panic!("the discovery does not end");
}

fn devices_of(world: &World) -> Vec<Device> {
    match run(world).result {
        Some(Ok(devices)) => devices,
        other => panic!("the discovery failed: {:?}", other),
    }
}

#[test]
fn get_media_type_size_by_idx_splits_the_packed_size() {
    assert_eq!(get_media_type_size_by_idx(0x0000_0780_0000_0438), discrete(1920, 1080));
    assert_eq!(get_media_type_size_by_idx(packed(640, 480)), discrete(640, 480));
    assert_eq!(get_media_type_size_by_idx(0), discrete(0, 0));
    assert_eq!(get_media_type_size_by_idx(1), discrete(0, 1));
    assert_eq!(get_media_type_size_by_idx(1 << 32), discrete(1, 0));
    assert_eq!(get_media_type_size_by_idx(u64::MAX), discrete(u32::MAX, u32::MAX));
    assert_eq!(get_media_type_size_by_idx(0xffff_ffff_0000_0000), discrete(u32::MAX, 0));
}

#[test]
fn build_device_using_ref_tags_the_position() {
    assert_eq!(CAP_MSMF, 1400);
    let probe = Probe {
        index: 1,
        name: String::from("Integrated Camera"),
        link: String::from("\\\\?\\usb#vid_04f2"),
        types: vec![discrete(640, 480), discrete(1280, 720)],
    };
    let device = build_device_using_ref(probe).unwrap();
    assert_eq!(device.opencv_id, 1401);
    assert_eq!(device.unique_id, "\\\\?\\usb#vid_04f2");
    assert_eq!(device.name, "Integrated Camera");
    assert_eq!(device.frame_size_types, vec![discrete(1280, 720), discrete(640, 480)]);
}

fn handle_at(index: u32) -> Option<i32> {
    build_device_using_ref(Probe { index, name: String::new(), link: String::new(), types: vec![] })
        .map(|device| device.opencv_id)
}

#[test]
fn build_device_using_ref_adds_the_position_to_the_tag() {
    assert_eq!(handle_at(0), Some(1400));
    assert_eq!(handle_at(2), Some(1402));
    assert_eq!(handle_at(8), Some(1408));
    assert_eq!(handle_at(128), Some(1528));
    assert_eq!(handle_at(MAX_SOURCE_INDEX), Some(i32::MAX));
}

#[test]
fn build_device_using_ref_makes_nothing_of_a_position_without_a_handle() {
    assert_eq!(MAX_SOURCE_INDEX, 2_147_482_247);
    assert_eq!(handle_at(MAX_SOURCE_INDEX + 1), None);
    assert_eq!(handle_at(0x7fff_ffff), None);
    assert_eq!(handle_at(u32::MAX), None);
}

#[test]
fn no_sources_give_an_empty_list() {
    let world = World { apartment: Ok(()), sources: Ok(vec![]) };
    let run = run(&world);
    assert_eq!(run.result, Some(Ok(vec![])));
    assert_eq!(
        run.actions,
        vec![
            Action::EnterApartment,
            Action::EnumerateSources,
            Action::LeaveApartment,
            Action::Finished,
        ]
    );
}

#[test]
fn an_apartment_that_refuses_fails_the_discovery() {
    let world = World { apartment: Err(E_FAIL), sources: Ok(vec![]) };
    let run = run(&world);
    assert_eq!(run.result, Some(Err(DiscoveryError::ApartmentUnavailable { code: E_FAIL })));
    assert_eq!(run.actions, vec![Action::EnterApartment, Action::Finished]);
}

#[test]
fn an_enumeration_that_fails_leaves_the_apartment_and_fails_the_discovery() {
    let world = World { apartment: Ok(()), sources: Err(E_ACCESSDENIED) };
    let run = run(&world);
    assert_eq!(
        run.result,
        Some(Err(DiscoveryError::SourceUnreadable { code: E_ACCESSDENIED }))
    );
    assert_eq!(
        run.actions,
        vec![
            Action::EnterApartment,
            Action::EnumerateSources,
            Action::LeaveApartment,
            Action::Finished,
        ]
    );
}

#[test]
fn one_source_is_read_in_order() {
    let world = World {
        apartment: Ok(()),
        sources: Ok(vec![Some(Source {
            name: Ok("Cam"),
            link: Ok("link"),
            activates: true,
            streams: Ok(vec![
                Stream::Holding(vec![Ok(packed(640, 480)), Ok(packed(1280, 720))]),
                Stream::Missing,
                Stream::Holding(vec![]),
            ]),
        })]),
    };
    let run = run(&world);
    assert_eq!(
        run.actions,
        vec![
            Action::EnterApartment,
            Action::EnumerateSources,
            Action::ReadFriendlyName { index: 0 },
            Action::ReadSymbolicLink { index: 0 },
            Action::ActivateSource { index: 0 },
            Action::CountStreams,
            Action::SelectStream { stream: 0 },
            Action::CountMediaTypes,
            Action::ReadFrameSize { media_type: 0 },
            Action::ReadFrameSize { media_type: 1 },
            Action::SelectStream { stream: 1 },
            Action::SelectStream { stream: 2 },
            Action::CountMediaTypes,
            Action::ShutdownSource,
            Action::LeaveApartment,
            Action::Finished,
        ]
    );
    let devices = run.result.unwrap().unwrap();
    assert_eq!(devices.len(), 1);
    assert_eq!(devices[0].opencv_id, 1400);
    assert_eq!(devices[0].unique_id, "link");
    assert_eq!(devices[0].name, "Cam");
    assert_eq!(devices[0].frame_size_types, vec![discrete(1280, 720), discrete(640, 480)]);
}

#[test]
fn sizes_of_all_streams_fill_one_list_each_once() {
    let world = World {
        apartment: Ok(()),
        sources: Ok(vec![Some(Source {
            name: Ok("Cam"),
            link: Ok("link"),
            activates: true,
            streams: Ok(vec![
                Stream::Holding(vec![Ok(packed(640, 480)), Ok(packed(640, 480)), Ok(packed(30, 20))]),
                Stream::Holding(vec![Ok(packed(20, 30)), Ok(packed(1920, 1080)), Ok(packed(640, 480))]),
            ]),
        })]),
    };
    let devices = devices_of(&world);
    assert_eq!(
        devices[0].frame_size_types,
        vec![discrete(1920, 1080), discrete(640, 480), discrete(30, 20), discrete(20, 30)]
    );
}

#[test]
fn devices_come_out_in_order_of_their_symbolic_links() {
    let world = World {
        apartment: Ok(()),
        sources: Ok(vec![
            Some(source("Third", "\\\\?\\usb#c", vec![(1, 1)])),
            None,
            Some(source("First", "\\\\?\\usb#a", vec![(2, 2)])),
            Some(source("Second", "\\\\?\\usb#b", vec![(3, 3)])),
        ]),
    };
    let devices = devices_of(&world);
    let names: Vec<&str> = devices.iter().map(|d| d.name.as_str()).collect();
    assert_eq!(names, vec!["First", "Second", "Third"]);
    let handles: Vec<i32> = devices.iter().map(|d| d.opencv_id).collect();
    assert_eq!(handles, vec![1402, 1403, 1400]);
}

#[test]
fn sources_whose_positions_share_bits_with_the_tag_get_handles_of_their_own() {
    let mut sources: Vec<Option<Source>> = vec![None; 9];
    sources[0] = Some(source("First", "a", vec![(1, 1)]));
    sources[8] = Some(source("Ninth", "b", vec![(2, 2)]));
    let world = World { apartment: Ok(()), sources: Ok(sources) };
    let devices = devices_of(&world);
    let found: Vec<(&str, i32)> = devices.iter().map(|d| (d.name.as_str(), d.opencv_id)).collect();
    assert_eq!(found, vec![("First", 1400), ("Ninth", 1408)]);
}

#[test]
fn a_source_at_a_position_without_a_handle_gives_no_device() {
    let mut devices = vec![];
    let scan = Scan::CountingStreams {
        count: u32::MAX,
        probe: Probe {
            index: MAX_SOURCE_INDEX + 1,
            name: String::from("Cam"),
            link: String::from("link"),
            types: vec![],
        },
    };
    let (scan, action) = add_capture_devices(&mut devices, scan, Event::Count(Ok(0)));
    assert_eq!(action, Action::ShutdownSource);
    assert!(devices.is_empty());
    let (_, action) = add_capture_devices(&mut devices, scan, Event::SourceShutDown);
    assert_eq!(action, Action::LeaveApartment);
}

#[test]
fn a_position_without_a_source_is_counted_and_passed_over() {
    let world = World {
        apartment: Ok(()),
        sources: Ok(vec![None, None, Some(source("Cam", "link", vec![(8, 8)])), None]),
    };
    let run = run(&world);
    let devices = run.result.unwrap().unwrap();
    assert_eq!(devices.len(), 1);
    assert_eq!(devices[0].opencv_id, 1402);
    assert_eq!(
        run.actions.iter().filter(|a| matches!(a, Action::ReadFriendlyName { .. })).count(),
        4
    );
}

#[test]
fn a_source_that_fails_is_left_out_and_shut_down_where_it_was_activated() {
    let sound = source("Sound", "sound", vec![(640, 480)]);
    let mut nameless = sound.clone();
    nameless.name = Err(E_FAIL);
    let mut linkless = sound.clone();
    linkless.link = Err(E_FAIL);
    let mut locked = sound.clone();
    locked.activates = false;
    let mut streamless = sound.clone();
    streamless.streams = Err(E_FAIL);
    let mut torn = sound.clone();
    torn.streams = Ok(vec![Stream::Holding(vec![Ok(packed(1, 1))]), Stream::Failing(E_FAIL)]);
    let mut uncounted = sound.clone();
    uncounted.streams = Ok(vec![Stream::Uncounted(E_FAIL)]);
    let mut sizeless = sound.clone();
    sizeless.streams = Ok(vec![Stream::Holding(vec![Ok(packed(1, 1)), Err(E_FAIL)])]);
    let world = World {
        apartment: Ok(()),
        sources: Ok(vec![
            Some(nameless),
            Some(linkless),
            Some(locked),
            Some(streamless),
            Some(torn),
            Some(uncounted),
            Some(sizeless),
            Some(sound),
        ]),
    };
    let run = run(&world);
    let devices = run.result.unwrap().unwrap();
    assert_eq!(devices.len(), 1);
    assert_eq!(devices[0].name, "Sound");
    assert_eq!(devices[0].opencv_id, 1407);
    assert_eq!(devices[0].frame_size_types, vec![discrete(640, 480)]);
    assert_eq!(
        run.actions.iter().filter(|a| matches!(a, Action::ActivateSource { .. })).count(),
        6
    );
    assert_eq!(run.actions.iter().filter(|a| **a == Action::ShutdownSource).count(), 5);
    assert_eq!(run.actions.iter().filter(|a| **a == Action::LeaveApartment).count(), 1);
}

#[test]
fn a_source_without_streams_has_no_sizes() {
    let mut bare = source("Bare", "bare", vec![]);
    bare.streams = Ok(vec![]);
    let world = World { apartment: Ok(()), sources: Ok(vec![Some(bare)]) };
    let devices = devices_of(&world);
    assert_eq!(devices.len(), 1);
    assert!(devices[0].frame_size_types.is_empty());
}

#[test]
fn a_discovery_in_progress_on_windows_has_no_result() {
    let discovery = Discovery::new();
    assert_eq!(discovery.pending(), Action::EnterApartment);
    let (discovery, action) = find_capture_devices(discovery, Event::ApartmentEntered);
    assert_eq!(action, Action::EnumerateSources);
    assert_eq!(discovery.into_result(), None);
}

#[test]
fn an_event_that_answers_nothing_changes_nothing_on_windows() {
    let discovery = Discovery::new();
    let (discovery, action) = find_capture_devices(discovery, Event::ApartmentLeft);
    assert_eq!(action, Action::EnterApartment);
    let (discovery, action) = find_capture_devices(discovery, Event::Sources(Ok(3)));
    assert_eq!(action, Action::EnterApartment);
    let (discovery, action) = find_capture_devices(discovery, Event::ApartmentEntered);
    assert_eq!(action, Action::EnumerateSources);
    let (discovery, action) = find_capture_devices(discovery, Event::Count(Ok(3)));
    assert_eq!(action, Action::EnumerateSources);
    let (discovery, action) = find_capture_devices(discovery, Event::Sources(Ok(1)));
    assert_eq!(action, Action::ReadFriendlyName { index: 0 });
    let (discovery, action) = find_capture_devices(discovery, Event::SourceShutDown);
    assert_eq!(action, Action::ReadFriendlyName { index: 0 });
    let (discovery, action) = find_capture_devices(discovery, Event::NoSource);
    assert_eq!(action, Action::LeaveApartment);
    let (discovery, action) = find_capture_devices(discovery, Event::NoSource);
    assert_eq!(action, Action::LeaveApartment);
    let (discovery, action) = find_capture_devices(discovery, Event::ApartmentLeft);
    assert_eq!(action, Action::Finished);
    let (discovery, action) = find_capture_devices(discovery, Event::ApartmentEntered);
    assert_eq!(action, Action::Finished);
    assert_eq!(discovery.into_result(), Some(Ok(vec![])));
}

#[test]
fn positions_that_have_no_handle_are_not_looked_at() {
    let mut devices = vec![];
    let scan = Scan::ReadingName { count: u32::MAX, index: MAX_SOURCE_INDEX - 1 };
    let (scan, action) = add_capture_devices(&mut devices, scan, Event::NoSource);
    assert_eq!(action, Action::ReadFriendlyName { index: MAX_SOURCE_INDEX });
    let (_, action) = add_capture_devices(&mut devices, scan, Event::NoSource);
    assert_eq!(action, Action::LeaveApartment);
    assert!(devices.is_empty());
}

#[test]
fn the_last_stream_and_media_type_complete_the_device() {
    let mut devices = vec![];
    let scan = Scan::ReadingFrameSize {
        count: 2,
        probe: Probe {
            index: 0,
            name: String::from("Cam"),
            link: String::from("link"),
            types: vec![discrete(2, 2)],
        },
        streams: u32::MAX,
        stream: u32::MAX - 1,
        media_types: u32::MAX,
        media_type: u32::MAX - 1,
    };
    let (scan, action) =
        add_capture_devices(&mut devices, scan, Event::FrameSize(Ok(packed(4, 4))));
    assert_eq!(action, Action::ShutdownSource);
    assert_eq!(devices.len(), 1);
    assert_eq!(devices[0].frame_size_types, vec![discrete(4, 4), discrete(2, 2)]);
    let (_, action) = add_capture_devices(&mut devices, scan, Event::SourceShutDown);
    assert_eq!(action, Action::ReadFriendlyName { index: 1 });
}

#[test]
fn a_scan_starts_with_the_apartment() {
    assert_eq!(Scan::new().pending(), Action::EnterApartment);
}
