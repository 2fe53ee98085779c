use capture_devices::video_devices::device::{Device, FrameSizeType};
use capture_devices::video_devices::linux::v4l2::ioctl::{
    V4l2Capability, V4l2Frmsize, V4l2Frmsizeenum, V4L2_BUF_TYPE_VIDEO_CAPTURE,
    V4L2_BUF_TYPE_VIDEO_CAPTURE_MPLANE, V4L2_CAP_VIDEO_CAPTURE, V4L2_CAP_VIDEO_CAPTURE_MPLANE,
    V4L2_FRMSIZE_TYPE_CONTINUOUS, V4L2_FRMSIZE_TYPE_DISCRETE, V4L2_FRMSIZE_TYPE_STEPWISE,
};
use capture_devices::video_devices::linux::v4l2::node::{
    has_opencv_id, has_unique_id, parse_node_index, to_opencv_id, to_unique_id, CAP_V4L,
};
use capture_devices::video_devices::linux::v4l2::{
    device_is_not_list, is_capture_device, query_format, query_frame_sizes, text_end,
    to_device_name, to_frame_size_type, Action, Source, UnknownGeometryKind,
};

fn capability(card: &[u8], device_caps: u32) -> V4l2Capability {
    let mut field = [0x41u8; 32];
    for (i, b) in card.iter().enumerate() {
        field[i] = *b;
    }
    V4l2Capability {
        driver: [0; 16],
        card: field,
        bus_info: [0; 32],
        version: 0,
        capabilities: 0,
        device_caps,
        reserved: [0; 3],
    }
}

fn frame_size(typ: u32, words: [u32; 6]) -> V4l2Frmsizeenum {
    V4l2Frmsizeenum { index: 0, pixel_format: 0, typ, frmsize: V4l2Frmsize { words }, reserved: [0; 2] }
}

fn listed(opencv_id: i32) -> Device {
    Device {
        opencv_id,
        unique_id: String::from("id"),
        name: String::from("name"),
        frame_size_types: Vec::new(),
    }
}

#[test]
fn to_opencv_id_combines_the_index_with_the_tag() {
    assert_eq!(CAP_V4L, 200);
    assert_eq!(to_opencv_id("/dev/video0"), 200);
    assert_eq!(to_opencv_id("/dev/video1"), 201);
    assert_eq!(to_opencv_id("/dev/video2"), 202);
    assert_eq!(to_opencv_id("/dev/video16"), 216);
    assert_eq!(to_opencv_id("/dev/video63"), 263);
}

#[test]
fn to_opencv_id_adds_the_index_to_the_tag() {
    assert_eq!(to_opencv_id("/dev/video8"), 208);
    assert_eq!(to_opencv_id("/dev/video9"), 209);
    assert_eq!(to_opencv_id("/dev/video64"), 264);
    assert_eq!(to_opencv_id("/dev/video256"), 456);
    assert_eq!(to_opencv_id("/dev/video2147483447"), i32::MAX);
}

#[test]
fn to_opencv_id_tells_nodes_apart() {
    let mut handles: Vec<i32> = (0..64).map(|i| to_opencv_id(&format!("/dev/video{}", i))).collect();
    handles.dedup();
    assert_eq!(handles.len(), 64);
    assert_eq!(handles[0], 200);
    assert_eq!(handles[63], 263);
}

#[test]
fn parse_node_index_reads_what_follows_the_last_o() {
    assert_eq!(parse_node_index("/dev/video0"), Some(0));
    assert_eq!(parse_node_index("/dev/video63"), Some(63));
    assert_eq!(parse_node_index("/dev/video007"), Some(7));
    assert_eq!(parse_node_index("o12"), Some(12));
    assert_eq!(parse_node_index("/dev/oo/video3"), Some(3));
    assert_eq!(parse_node_index("/dev/vide\u{e9}o41"), Some(41));
}

#[test]
fn parse_node_index_takes_a_sign_and_no_negative_index() {
    assert_eq!(parse_node_index("/dev/video+5"), Some(5));
    assert_eq!(parse_node_index("/dev/video-5"), None);
    assert_eq!(parse_node_index("/dev/video-1"), None);
    assert_eq!(parse_node_index("/dev/video-0"), Some(0));
    assert_eq!(parse_node_index("/dev/video+0"), Some(0));
    assert_eq!(parse_node_index("/dev/video+"), None);
    assert_eq!(parse_node_index("/dev/video-"), None);
    assert_eq!(parse_node_index("/dev/video+-1"), None);
}

#[test]
fn parse_node_index_stops_where_the_handle_would_not_fit() {
    assert_eq!(parse_node_index("/dev/video2147483447"), Some(i32::MAX - 200));
    assert_eq!(parse_node_index("/dev/video2147483448"), None);
    assert_eq!(parse_node_index("/dev/video2147483647"), None);
    assert_eq!(parse_node_index("/dev/video2147483648"), None);
    assert_eq!(parse_node_index("/dev/video-2147483648"), None);
    assert_eq!(parse_node_index("/dev/video00000000002147483447"), Some(i32::MAX - 200));
    assert_eq!(parse_node_index("/dev/video99999999999999999999999999"), None);
}

#[test]
fn parse_node_index_refuses_what_is_no_number() {
    assert_eq!(parse_node_index("/dev/video"), None);
    assert_eq!(parse_node_index("/dev/videox"), None);
    assert_eq!(parse_node_index("/dev/video1x"), None);
    assert_eq!(parse_node_index("/dev/video 1"), None);
    assert_eq!(parse_node_index("/dev/vide"), None);
    assert_eq!(parse_node_index(""), None);
    assert_eq!(parse_node_index("/dev/video1/"), None);
    assert_eq!(parse_node_index("/dev/video\u{663}"), None);
}

#[test]
fn has_opencv_id_says_when_to_opencv_id_may_be_called() {
    assert!(has_opencv_id("/dev/video0"));
    assert!(has_opencv_id("/dev/video+3"));
    assert!(!has_opencv_id("/dev/video-3"));
    assert!(!has_opencv_id("/dev/video2147483647"));
    assert!(!has_opencv_id("/dev/video"));
    assert!(!has_opencv_id("/dev/media0x"));
    assert!(!has_opencv_id("/dev/null"));
}

#[test]
fn to_unique_id_is_the_final_segment() {
    assert_eq!(
        to_unique_id("/dev/v4l/by-id/usb-046d_HD_Pro_Webcam_C920-video-index0"),
        "usb-046d_HD_Pro_Webcam_C920-video-index0"
    );
    assert_eq!(
        to_unique_id("/dev/v4l/by-path/platform-3f801000.csi-video-index0"),
        "platform-3f801000.csi-video-index0"
    );
    assert_eq!(to_unique_id("name-alone"), "name-alone");
    assert_eq!(to_unique_id("//x"), "x");
    assert_eq!(to_unique_id("a/..."), "...");
    assert_eq!(to_unique_id("a/.b"), ".b");
}

#[test]
fn to_unique_id_keeps_text_that_is_not_ascii() {
    assert_eq!(to_unique_id("/dev/v4l/by-id/cam\u{e9}ra-\u{1f3a5}"), "cam\u{e9}ra-\u{1f3a5}");
    assert_eq!(to_unique_id("/d\u{e9}v/\u{1f3a5}"), "\u{1f3a5}");
}

#[test]
fn to_unique_id_passes_over_what_stands_idle_at_the_end() {
    assert_eq!(to_unique_id("/dev/v4l/by-id/usb-cam/"), "usb-cam");
    assert_eq!(to_unique_id("/dev/v4l/by-id/usb-cam/."), "usb-cam");
    assert_eq!(to_unique_id("/dev/v4l/by-id/usb-cam//.//./"), "usb-cam");
    assert_eq!(to_unique_id("usb-cam/."), "usb-cam");
    assert_eq!(to_unique_id("./usb-cam"), "usb-cam");
    assert_eq!(to_unique_id("a/b."), "b.");
    assert_eq!(to_unique_id("a/.b/"), ".b");
    assert_eq!(to_unique_id("/dev/cam\u{e9}ra/./"), "cam\u{e9}ra");
}

#[test]
fn has_unique_id_wants_a_name_at_the_end() {
    assert!(has_unique_id("/dev/v4l/by-id/usb-cam"));
    assert!(has_unique_id("x"));
    assert!(has_unique_id("a/..."));
    assert!(has_unique_id("a/.x"));
    assert!(has_unique_id("a/x."));
    assert!(has_unique_id("/dev/v4l/by-id/"));
    assert!(has_unique_id("/dev/v4l/by-id/."));
    assert!(has_unique_id("x/././"));
    assert!(!has_unique_id(""));
    assert!(!has_unique_id("/"));
    assert!(!has_unique_id("//"));
    assert!(!has_unique_id("/."));
    assert!(!has_unique_id("./"));
    assert!(!has_unique_id("./."));
    assert!(!has_unique_id("/dev/v4l/by-id/.."));
    assert!(!has_unique_id("/dev/v4l/by-id/../"));
    assert!(!has_unique_id("/dev/v4l/by-id/../."));
    assert!(!has_unique_id("."));
    assert!(!has_unique_id(".."));
}

#[test]
fn the_final_segment_is_the_file_name_of_the_path() {
    for path in [
        "/dev/v4l/by-id/usb-cam", "x", "a/...", "a/.x", "/dev/v4l/by-id/", "/dev/v4l/by-id/.",
        "x/././", "", "/", "//", "/.", "./", "./.", "a/..", "a/../", "a/../.", ".", "..",
        "./a", "a//b", "a/b/./c/.", "..a", "a/..b", "/..", ".a/.", "cam\u{e9}ra/",
    ] {
        let wanted = std::path::Path::new(path).file_name().map(|n| n.to_str().unwrap().to_string());
        let got = if has_unique_id(path) { Some(to_unique_id(path)) } else { None };
        assert_eq!(got, wanted, "path {:?}", path);
    }
}

#[test]
fn device_is_not_list_looks_for_the_handle() {
    let devices = vec![listed(200), listed(203)];
    assert!(!device_is_not_list(&devices, "/dev/video0"));
    assert!(device_is_not_list(&devices, "/dev/video1"));
    assert!(device_is_not_list(&devices, "/dev/video2"));
    assert!(!device_is_not_list(&devices, "/dev/video3"));
    assert!(device_is_not_list(&Vec::new(), "/dev/video0"));
}

#[test]
fn device_is_not_list_tells_nodes_apart() {
    let devices = vec![listed(200)];
    assert!(device_is_not_list(&devices, "/dev/video8"));
    assert!(device_is_not_list(&devices, "/dev/video64"));
    assert!(device_is_not_list(&devices, "/dev/video4"));
    assert!(!device_is_not_list(&vec![listed(208)], "/dev/video8"));
}

#[test]
fn is_capture_device_wants_one_of_the_two_capture_bits() {
    assert!(is_capture_device(&capability(b"c\0", V4L2_CAP_VIDEO_CAPTURE)));
    assert!(is_capture_device(&capability(b"c\0", V4L2_CAP_VIDEO_CAPTURE_MPLANE)));
    assert!(is_capture_device(&capability(b"c\0", 0x0000_1001)));
    assert!(is_capture_device(&capability(b"c\0", 0x8520_0001)));
    assert!(is_capture_device(&capability(b"c\0", u32::MAX)));
    assert!(!is_capture_device(&capability(b"c\0", 0)));
    assert!(!is_capture_device(&capability(b"c\0", 0x0000_0002)));
    assert!(!is_capture_device(&capability(b"c\0", 0x0480_0000)));
    assert!(!is_capture_device(&capability(b"c\0", !0x0000_1001)));
}

#[test]
fn to_device_name_reads_up_to_the_first_nul() {
    assert_eq!(to_device_name(&capability(b"HD Pro Webcam C920\0", 1)), "HD Pro Webcam C920");
    assert_eq!(to_device_name(&capability(b"one\0two\0", 1)), "one");
    assert_eq!(to_device_name(&capability(b"\0", 1)), "");
    assert_eq!(to_device_name(&capability("cam\u{e9}ra\0".as_bytes(), 1)), "cam\u{e9}ra");
}

#[test]
fn to_device_name_without_a_nul_is_unknown() {
    assert_eq!(to_device_name(&capability(b"", 1)), "UNKNOWN");
    let full = [0x61u8; 32];
    assert_eq!(to_device_name(&capability(&full, 1)), "UNKNOWN");
}

#[test]
fn to_device_name_takes_a_nul_in_the_last_place() {
    let mut card = [0x62u8; 32];
    card[31] = 0;
    assert_eq!(to_device_name(&capability(&card, 1)), "b".repeat(31));
}

#[test]
fn to_device_name_of_what_is_no_text_is_unknown() {
    assert_eq!(to_device_name(&capability(b"a\xffb\0", 1)), "UNKNOWN");
    assert_eq!(to_device_name(&capability(b"\xff\0", 1)), "UNKNOWN");
    assert_eq!(to_device_name(&capability(b"\xc3\0", 1)), "UNKNOWN");
    assert_eq!(to_device_name(&capability(b"\xc0\x80\0", 1)), "UNKNOWN");
    assert_eq!(to_device_name(&capability(b"\xed\xa0\x80\0", 1)), "UNKNOWN");
    assert_eq!(to_device_name(&capability(b"\xf4\x90\x80\x80\0", 1)), "UNKNOWN");
}

#[test]
fn to_device_name_takes_text_of_every_width() {
    assert_eq!(
        to_device_name(&capability("a\u{e9}\u{20ac}\u{1f3a5}\0".as_bytes(), 1)),
        "a\u{e9}\u{20ac}\u{1f3a5}"
    );
    assert_eq!(to_device_name(&capability(b"ok\0\xff", 1)), "ok");
}

#[test]
fn to_frame_size_type_reads_a_discrete_size_from_the_first_two_words() {
    let fsz = frame_size(V4L2_FRMSIZE_TYPE_DISCRETE, [1920, 1080, 7, 8, 9, 10]);
    assert_eq!(to_frame_size_type(&fsz), Ok(FrameSizeType::Discrete { width: 1920, height: 1080 }));
}

#[test]
fn to_frame_size_type_keeps_every_field_of_a_range() {
    let fsz = frame_size(V4L2_FRMSIZE_TYPE_STEPWISE, [320, 1280, 16, 240, 720, 8]);
    assert_eq!(
        to_frame_size_type(&fsz),
        Ok(FrameSizeType::Stepwise {
            min_width: 320,
            max_width: 1280,
            step_width: 16,
            min_height: 240,
            max_height: 720,
            step_height: 8,
        })
    );
}

#[test]
fn to_frame_size_type_reads_the_continuous_kind_as_a_range() {
    let fsz = frame_size(V4L2_FRMSIZE_TYPE_CONTINUOUS, [16, 4096, 1, 16, 2160, 1]);
    assert_eq!(
        to_frame_size_type(&fsz),
        Ok(FrameSizeType::Stepwise {
            min_width: 16,
            max_width: 4096,
            step_width: 1,
            min_height: 16,
            max_height: 2160,
            step_height: 1,
        })
    );
}

#[test]
fn to_frame_size_type_refuses_an_unknown_kind() {
    assert_eq!(
        to_frame_size_type(&frame_size(0, [1, 2, 3, 4, 5, 6])),
        Err(UnknownGeometryKind { typ: 0 })
    );
    assert_eq!(
        to_frame_size_type(&frame_size(4, [1, 2, 3, 4, 5, 6])),
        Err(UnknownGeometryKind { typ: 4 })
    );
    assert_eq!(
        to_frame_size_type(&frame_size(u32::MAX, [1, 2, 3, 4, 5, 6])),
        Err(UnknownGeometryKind { typ: u32::MAX })
    );
}

#[test]
fn frmsize_is_read_both_ways_from_the_same_words() {
    let storage = V4l2Frmsize { words: [11, 12, 13, 14, 15, 16] };
    let discrete = storage.discrete();
    assert_eq!((discrete.width, discrete.height), (11, 12));
    let stepwise = storage.stepwise();
    assert_eq!(
        (stepwise.min_width, stepwise.max_width, stepwise.step_width),
        (11, 12, 13)
    );
    assert_eq!(
        (stepwise.min_height, stepwise.max_height, stepwise.step_height),
        (14, 15, 16)
    );
}

#[test]
fn query_format_names_the_buffer_type_of_the_class() {
    assert_eq!(
        query_format(false, 0),
        Action::QueryFormat { fmt_type: V4L2_BUF_TYPE_VIDEO_CAPTURE, index: 0 }
    );
    assert_eq!(
        query_format(true, 3),
        Action::QueryFormat { fmt_type: V4L2_BUF_TYPE_VIDEO_CAPTURE_MPLANE, index: 3 }
    );
    assert_eq!(V4L2_BUF_TYPE_VIDEO_CAPTURE, 1);
    assert_eq!(V4L2_BUF_TYPE_VIDEO_CAPTURE_MPLANE, 9);
}

#[test]
fn query_frame_sizes_names_format_and_index() {
    assert_eq!(
        query_frame_sizes(0x5659_5559, 2),
        Action::QueryFrameSize { pixel_format: 0x5659_5559, index: 2 }
    );
}

#[test]
fn the_sources_are_the_two_listings_below_dev_v4l() {
    assert_eq!(Source::ById.path(), "/dev/v4l/by-id");
    assert_eq!(Source::ByPath.path(), "/dev/v4l/by-path");
}

#[test]
fn text_end_is_the_place_of_the_first_nul() {
    assert_eq!(text_end(b"abc\0def\0"), Some(3));
    assert_eq!(text_end(b"\0"), Some(0));
    assert_eq!(text_end(b"abc"), None);
    assert_eq!(text_end(b""), None);
}
