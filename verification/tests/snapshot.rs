use capture_devices::snapshot::{filename_of, take_snaps, to_filename, FilenameError};
use capture_devices::video_devices::device::FrameSizeType;

fn discrete(width: u32, height: u32) -> FrameSizeType {
    FrameSizeType::Discrete { width, height }
}

fn stepwise(min: (u32, u32), max: (u32, u32), step: (u32, u32)) -> FrameSizeType {
    FrameSizeType::Stepwise {
        min_width: min.0,
        max_width: max.0,
        step_width: step.0,
        min_height: min.1,
        max_height: max.1,
        step_height: step.1,
    }
}

#[test]
fn take_snaps_of_an_exact_size_is_that_size() {
    assert_eq!(take_snaps(discrete(1920, 1080)), vec![(1920, 1080)]);
}

#[test]
fn take_snaps_of_a_range_is_its_largest_and_then_its_smallest_size() {
    assert_eq!(
        take_snaps(stepwise((320, 240), (1280, 720), (16, 8))),
        vec![(1280, 720), (320, 240)]
    );
    assert_eq!(take_snaps(stepwise((5, 6), (5, 6), (1, 1))), vec![(5, 6), (5, 6)]);
}

#[test]
fn filename_of_puts_name_and_size_together() {
    assert_eq!(filename_of("Cam", 640, 480), "img-Cam-640x480.jpg");
    assert_eq!(filename_of("", 1, 2), "img--1x2.jpg");
    assert_eq!(filename_of("a-b", 1920, 1080), "img-a-b-1920x1080.jpg");
}

#[test]
fn filename_of_writes_sizes_in_base_ten() {
    assert_eq!(filename_of("c", 0, 0), "img-c-0x0.jpg");
    assert_eq!(filename_of("c", 9, 10), "img-c-9x10.jpg");
    assert_eq!(filename_of("c", 1005, 90), "img-c-1005x90.jpg");
    assert_eq!(filename_of("c", u32::MAX, 1234567890), "img-c-4294967295x1234567890.jpg");
}

#[test]
fn to_filename_keeps_what_belongs_in_a_file_name() {
    assert_eq!(
        to_filename("abcXYZ019_.-", 640, 480),
        Ok(String::from("img-abcXYZ019_.--640x480.jpg"))
    );
}

#[test]
fn to_filename_drops_what_does_not_belong_in_a_file_name() {
    assert_eq!(
        to_filename("HD Pro Webcam C920", 1920, 1080),
        Ok(String::from("img-HDProWebcamC920-1920x1080.jpg"))
    );
    assert_eq!(
        to_filename("Cam (\u{e9}t\u{e9}) #1/2: a\\b*c?", 8, 6),
        Ok(String::from("img-Camt12abc-8x6.jpg"))
    );
    assert_eq!(to_filename("  ", 8, 6), Ok(String::from("img--8x6.jpg")));
    assert_eq!(to_filename("", 8, 6), Ok(String::from("img--8x6.jpg")));
}

#[test]
fn to_filename_takes_its_own_pattern() {
    assert_ne!(to_filename("x", 1, 1), Err(FilenameError::PatternRefused));
}
