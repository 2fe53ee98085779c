//! The records that the V4L2 control calls fill in, and the constants that
//! their fields are read against.

use vstd::prelude::*;

verus! {

/// Capability bit: the device captures video through the single-plane API.
pub const V4L2_CAP_VIDEO_CAPTURE: u32 = 0x00000001;

/// Capability bit: the device captures video through the multi-plane API.
pub const V4L2_CAP_VIDEO_CAPTURE_MPLANE: u32 = 0x00001000;

/// Buffer type of a single-plane video capture stream.
pub const V4L2_BUF_TYPE_VIDEO_CAPTURE: u32 = 1;

/// Buffer type of a multi-plane video capture stream.
pub const V4L2_BUF_TYPE_VIDEO_CAPTURE_MPLANE: u32 = 9;

/// Frame size kind: one exact size.
pub const V4L2_FRMSIZE_TYPE_DISCRETE: u32 = 1;

/// Frame size kind: every size between two bounds.
pub const V4L2_FRMSIZE_TYPE_CONTINUOUS: u32 = 2;

/// Frame size kind: the sizes between two bounds that a step reaches.
pub const V4L2_FRMSIZE_TYPE_STEPWISE: u32 = 3;

/// What `VIDIOC_QUERYCAP` reports of a device.
#[derive(Clone, Copy, Debug)]
pub struct V4l2Capability {
    pub driver: [u8; 16],
    pub card: [u8; 32],
    pub bus_info: [u8; 32],
    pub version: u32,
    pub capabilities: u32,
    pub device_caps: u32,
    pub reserved: [u32; 3],
}

/// One pixel format, as `VIDIOC_ENUM_FMT` reports it.
#[derive(Clone, Copy, Debug)]
pub struct V4l2Fmtdesc {
    pub index: u32,
    pub typ: u32,
    pub flags: u32,
    pub description: [u8; 32],
    pub pixel_format: u32,
    pub mbus_code: u32,
    pub reserved: [u32; 3],
}

/// An exact frame size.
#[derive(Clone, Copy, Debug, PartialEq, Eq, Structural)]
pub struct V4l2FrmsizeDiscrete {
    pub width: u32,
    pub height: u32,
}

/// A range of frame sizes.
#[derive(Clone, Copy, Debug, PartialEq, Eq, Structural)]
pub struct V4l2FrmsizeStepwise {
    pub min_width: u32,
    pub max_width: u32,
    pub step_width: u32,
    pub min_height: u32,
    pub max_height: u32,
    pub step_height: u32,
}

/// The storage that the kernel shares between an exact frame size and a
/// range: six 32-bit words. An exact size lies in the first two; a range
/// takes all six.
#[derive(Clone, Copy, Debug)]
pub struct V4l2Frmsize {
    pub words: [u32; 6],
}

impl V4l2Frmsize {
    /// The storage read as an exact size.
    pub open spec fn spec_discrete(&self) -> V4l2FrmsizeDiscrete {
        V4l2FrmsizeDiscrete { width: self.words[0], height: self.words[1] }
    }

    /// The storage read as a range.
    pub open spec fn spec_stepwise(&self) -> V4l2FrmsizeStepwise {
        V4l2FrmsizeStepwise {
            min_width: self.words[0],
            max_width: self.words[1],
            step_width: self.words[2],
            min_height: self.words[3],
            max_height: self.words[4],
            step_height: self.words[5],
        }
    }

    /// Reads the storage as an exact size.
    #[verifier::when_used_as_spec(spec_discrete)]
    pub fn discrete(&self) -> (d: V4l2FrmsizeDiscrete)
        ensures
            d == self.spec_discrete(),
    {
        V4l2FrmsizeDiscrete { width: self.words[0], height: self.words[1] }
    }

    /// Reads the storage as a range.
    #[verifier::when_used_as_spec(spec_stepwise)]
    pub fn stepwise(&self) -> (s: V4l2FrmsizeStepwise)
        ensures
            s == self.spec_stepwise(),
    {
        V4l2FrmsizeStepwise {
            min_width: self.words[0],
            max_width: self.words[1],
            step_width: self.words[2],
            min_height: self.words[3],
            max_height: self.words[4],
            step_height: self.words[5],
        }
    }
}

/// One frame size of a pixel format, as `VIDIOC_ENUM_FRAMESIZES` reports it.
/// The field `typ` says how `frmsize` is to be read.
#[derive(Clone, Copy, Debug)]
pub struct V4l2Frmsizeenum {
    pub index: u32,
    pub pixel_format: u32,
    pub typ: u32,
    pub frmsize: V4l2Frmsize,
    pub reserved: [u32; 2],
}

} // verus!
