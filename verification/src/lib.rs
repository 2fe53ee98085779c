//! Discovery of video capture devices and of the frame geometries each
//! supports, and what is needed to take a snapshot at each of them.

pub mod snapshot;
pub mod video_devices;
