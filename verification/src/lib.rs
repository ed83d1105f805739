//! Host-side mediator that bridges an Android device's screen to web browsers:
//! an Annex-B H.264 NAL demultiplexer, an SPS resolution parser, a parameter-set
//! cache with orientation tracking, the binary control-event wire format, and
//! the session plumbing around them.
use vstd::prelude::*;

pub mod bits;
pub mod control;
pub mod demux;
pub mod device;
pub mod error;
pub mod numfmt;
pub mod ports;
pub mod server;
pub mod session;
pub mod sps;
pub mod text;

verus! {

/// The low five bits of the first NAL byte give the NAL unit type.
pub open spec fn spec_nal_type(data: Seq<u8>) -> u8
    recommends
        data.len() > 0,
{
    (data[0] & 0x1f) as u8
}

/// NAL types 7 (SPS) and 8 (PPS) carry decoder configuration.
pub open spec fn spec_is_config_nal(nal_type: u8) -> bool {
    nal_type == 7 || nal_type == 8
}

/// NAL type 5 is an IDR picture; together with SPS/PPS these are the
/// keyframe-relevant units a decoder can start from.
pub open spec fn spec_is_keyframe_nal(nal_type: u8) -> bool {
    nal_type == 5 || nal_type == 7 || nal_type == 8
}

/// Extract the NAL unit type from a raw NAL unit (without start code).
pub fn nal_unit_type(data: &Vec<u8>) -> (t: u8)
    requires
        data@.len() > 0,
    ensures
        t == spec_nal_type(data@),
{
    data[0] & 0x1f
}

} // verus!
