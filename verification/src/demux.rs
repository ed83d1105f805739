//! Annex-B NAL demultiplexer: splits an unframed H.264 byte stream on
//! `00 00 01` start codes into NAL units and classifies them.
//!
//! The demultiplexer carries a ghost account of every byte it was fed, and its
//! invariant states the reconstruction law: the fed bytes equal a skipped
//! prefix, followed by each emitted NAL unit behind a 3-byte start code,
//! followed by the bytes still buffered from the current start code on. A
//! 4-byte `00 00 00 01` start code in the input contributes its leading zero
//! byte to the end of the previous NAL unit, which is the normalization the
//! H.264 byte-stream format allows.
use vstd::prelude::*;
use crate::{spec_nal_type, spec_is_config_nal, spec_is_keyframe_nal, nal_unit_type};

verus! {

/// A NAL unit is either decoder configuration (SPS/PPS) or picture data.
#[derive(Debug, Clone, Copy, PartialEq, Eq, Structural)]
pub enum FrameType {
    Config,
    Video,
}

/// One demultiplexed NAL unit, without its start code.
#[derive(Debug, Clone)]
pub struct VideoFrame {
    /// Presentation timestamp in microseconds; zero in raw-stream mode.
    pub pts: u64,
    pub frame_type: FrameType,
    /// The NAL unit bytes, header byte first, start code stripped.
    pub data: Vec<u8>,
}

/// The frame classification of a NAL unit: `Config` for SPS/PPS, `Video`
/// otherwise.
pub open spec fn spec_frame_type_of(nal: Seq<u8>) -> FrameType {
    if spec_is_config_nal(spec_nal_type(nal)) {
        FrameType::Config
    } else {
        FrameType::Video
    }
}

impl VideoFrame {
    pub fn new(pts: u64, frame_type: FrameType, data: Vec<u8>) -> (r: Self)
        ensures
            r.pts == pts,
            r.frame_type == frame_type,
            r.data == data,
    {
        Self { pts, frame_type, data }
    }

    /// Whether a decoder can start from this unit: an IDR picture, an SPS or
    /// a PPS. Empty data is not a keyframe.
    pub fn is_keyframe(&self) -> (r: bool)
        ensures
            r == (self.data@.len() > 0 && spec_is_keyframe_nal(spec_nal_type(self.data@))),
    {
        if self.data.len() == 0 {
            return false;
        }
        let nal_type = nal_unit_type(&self.data);
        nal_type == 5 || nal_type == 7 || nal_type == 8
    }
}

/// The demultiplexer drops its buffer if it grows past this many bytes
/// without yielding a NAL unit.
pub const MAX_NAL_BUFFER: usize = 10 * 1024 * 1024;

/// The 3-byte Annex-B start code.
pub open spec fn spec_start_code() -> Seq<u8> {
    seq![0u8, 0u8, 1u8]
}

/// Each NAL unit behind a 3-byte start code, concatenated in order.
pub open spec fn spec_cat_nals(nals: Seq<Seq<u8>>) -> Seq<u8>
    decreases nals.len(),
{
    if nals.len() == 0 {
        Seq::empty()
    } else {
        spec_cat_nals(nals.drop_last()) + spec_start_code() + nals.last()
    }
}

/// The mathematical state of the demultiplexer: the live buffer and start-code
/// position, plus the ghost account of the whole byte stream.
pub struct DemuxState {
    /// The bytes currently buffered.
    pub buffer: Seq<u8>,
    /// Where the most recent start code begins in `buffer`, if one was seen.
    pub start_pos: Option<int>,
    /// Bytes accounted as skipped: everything before the first start code,
    /// and anything dropped on a buffer reset.
    pub pre: Seq<u8>,
    /// The NAL units emitted since the last reset, in order.
    pub emitted: Seq<Seq<u8>>,
    /// Every byte ever pushed.
    pub fed: Seq<u8>,
}

impl DemuxState {
    /// The unconsumed suffix: the buffer from the current start code on.
    pub open spec fn tail(self) -> Seq<u8> {
        match self.start_pos {
            Some(p) => self.buffer.subrange(p, self.buffer.len() as int),
            None => self.buffer,
        }
    }

    /// The reconstruction law and the structural facts that keep it stepping:
    /// the fed bytes are exactly the skipped prefix, the emitted NAL units
    /// each behind a start code, and the unconsumed tail.
    pub open spec fn inv(self) -> bool {
        &&& self.fed == self.pre + spec_cat_nals(self.emitted) + self.tail()
        &&& match self.start_pos {
            Some(p) => {
                &&& 0 <= p
                &&& p + 3 <= self.buffer.len()
                &&& self.buffer.subrange(p, p + 3) == spec_start_code()
                &&& forall|q: int|
                    p < q && q + 3 <= self.buffer.len() ==> #[trigger] self.buffer.subrange(
                        q,
                        q + 3,
                    ) != spec_start_code()
            },
            None => {
                &&& self.emitted == Seq::<Seq<u8>>::empty()
                &&& forall|q: int|
                    0 <= q && q + 3 <= self.buffer.len() ==> #[trigger] self.buffer.subrange(
                        q,
                        q + 3,
                    ) != spec_start_code()
            },
        }
        &&& forall|i: int| 0 <= i < self.emitted.len() ==> self.emitted[i].len() > 0
        &&& forall|i: int|
            0 <= i < self.emitted.len() ==> spec_has_no_start_code(#[trigger] self.emitted[i])
    }
}

/// No 3-byte start code occurs anywhere inside the bytes: the decomposition
/// of a stream into such units is unambiguous.
pub open spec fn spec_has_no_start_code(s: Seq<u8>) -> bool {
    forall|q: int|
        0 <= q && q + 3 <= s.len() ==> #[trigger] s.subrange(q, q + 3) != spec_start_code()
}

/// One byte of demultiplexing: append the byte, drop everything on overflow,
/// and otherwise look for a start code ending at the new byte. A start code
/// directly after the previous one (an empty NAL unit) supersedes it without
/// emitting; the account of emitted units restarts there, as it does on
/// overflow.
pub open spec fn spec_demux_step(s: DemuxState, b: u8) -> (DemuxState, Option<Seq<u8>>) {
    let buf = s.buffer.push(b);
    let fed = s.fed.push(b);
    let n = buf.len() as int;
    if buf.len() > MAX_NAL_BUFFER {
        (
            DemuxState {
                buffer: Seq::empty(),
                start_pos: None,
                pre: fed,
                emitted: Seq::empty(),
                fed,
            },
            None,
        )
    } else if n >= 3 && buf.subrange(n - 3, n) == spec_start_code() {
        match s.start_pos {
            None => (
                DemuxState {
                    buffer: buf,
                    start_pos: Some(n - 3),
                    pre: s.pre + buf.take(n - 3),
                    emitted: s.emitted,
                    fed,
                },
                None,
            ),
            Some(p) => {
                if p + 3 >= n - 3 {
                    (
                        DemuxState {
                            buffer: buf,
                            start_pos: Some(n - 3),
                            pre: s.pre + spec_cat_nals(s.emitted) + buf.subrange(p, n - 3),
                            emitted: Seq::empty(),
                            fed,
                        },
                        None,
                    )
                } else {
                    let nal = buf.subrange(p + 3, n - 3);
                    (
                        DemuxState {
                            buffer: buf.subrange(n - 3, n),
                            start_pos: Some(0),
                            pre: s.pre,
                            emitted: s.emitted.push(nal),
                            fed,
                        },
                        Some(nal),
                    )
                }
            },
        }
    } else {
        (DemuxState { buffer: buf, start_pos: s.start_pos, pre: s.pre, emitted: s.emitted, fed }, None)
    }
}

/// Splits a raw Annex-B byte stream into NAL units, one input byte at a time.
pub struct NalDemuxer {
    buffer: Vec<u8>,
    first_start_code_pos: Option<usize>,
    frame_count: u64,
    fed: Ghost<Seq<u8>>,
    pre: Ghost<Seq<u8>>,
    emitted: Ghost<Seq<Seq<u8>>>,
}

impl NalDemuxer {
    /// The mathematical state this demultiplexer is in.
    pub closed spec fn model(&self) -> DemuxState {
        DemuxState {
            buffer: self.buffer@,
            start_pos: match self.first_start_code_pos {
                Some(p) => Some(p as int),
                None => None,
            },
            pre: self.pre@,
            emitted: self.emitted@,
            fed: self.fed@,
        }
    }

    /// How many NAL units have been emitted; saturates at the type's maximum.
    pub closed spec fn frames_seen(&self) -> u64 {
        self.frame_count
    }

    pub fn new() -> (r: Self)
        ensures
            r.model().inv(),
            r.model().buffer == Seq::<u8>::empty(),
            r.model().start_pos is None,
            r.model().pre == Seq::<u8>::empty(),
            r.model().emitted == Seq::<Seq<u8>>::empty(),
            r.model().fed == Seq::<u8>::empty(),
            r.frames_seen() == 0,
    {
        NalDemuxer {
            buffer: Vec::new(),
            first_start_code_pos: None,
            frame_count: 0,
            fed: Ghost(Seq::empty()),
            pre: Ghost(Seq::empty()),
            emitted: Ghost(Seq::empty()),
        }
    }

    /// The number of NAL units emitted so far.
    pub fn frame_count(&self) -> (r: u64)
        ensures
            r == self.frames_seen(),
    {
        self.frame_count
    }

    /// Feed one byte of the stream; yields a NAL unit when the byte completes
    /// the start code that ends one. The returned frame has its type derived
    /// from the NAL header and a zero timestamp, and its data is exactly the
    /// unit that `spec_demux_step` cuts out of the stream.
    pub fn push_byte(&mut self, b: u8) -> (r: Option<VideoFrame>)
        requires
            old(self).model().inv(),
        ensures
            final(self).model().inv(),
            final(self).model() == spec_demux_step(old(self).model(), b).0,
            match r {
                Some(f) => {
                    &&& spec_demux_step(old(self).model(), b).1 == Some(f.data@)
                    &&& f.pts == 0
                    &&& f.data@.len() > 0
                    &&& f.frame_type == spec_frame_type_of(f.data@)
                    &&& final(self).frames_seen() == if old(self).frames_seen() < u64::MAX {
                        old(self).frames_seen() + 1
                    } else {
                        u64::MAX as int
                    }
                },
                None => {
                    &&& spec_demux_step(old(self).model(), b).1 is None
                    &&& final(self).frames_seen() == old(self).frames_seen()
                },
            },
    {
        let ghost s0 = self.model();
        self.buffer.push(b);
        self.fed = Ghost(self.fed@.push(b));
        let n = self.buffer.len();
        if n > MAX_NAL_BUFFER {
            self.buffer.clear();
            self.first_start_code_pos = None;
            self.pre = Ghost(self.fed@);
            self.emitted = Ghost(Seq::empty());
            proof {
                assert(self.model().tail() == Seq::<u8>::empty());
                assert(spec_cat_nals(Seq::<Seq<u8>>::empty()) == Seq::<u8>::empty());
                assert(self.model().fed =~= self.model().pre + spec_cat_nals(self.model().emitted)
                    + self.model().tail());
            }
            return None;
        }
        let has_code = n >= 3 && self.buffer[n - 3] == 0 && self.buffer[n - 2] == 0
            && self.buffer[n - 1] == 1;
        proof {
            if n >= 3 {
                if has_code {
                    assert(self.buffer@.subrange(n - 3, n as int) =~= spec_start_code());
                } else {
                    assert(self.buffer@.subrange(n - 3, n as int) != spec_start_code()) by {
                        if self.buffer@.subrange(n - 3, n as int) == spec_start_code() {
                            assert(self.buffer@.subrange(n - 3, n as int)[0] == 0u8);
                            assert(self.buffer@.subrange(n - 3, n as int)[1] == 0u8);
                            assert(self.buffer@.subrange(n - 3, n as int)[2] == 1u8);
                        }
                    }
                }
            }
        }
        if !has_code {
            proof {
                lemma_plain_push_inv(s0, b);
            }
            return None;
        }
        match self.first_start_code_pos {
            None => {
                self.first_start_code_pos = Some(n - 3);
                self.pre = Ghost(self.pre@ + self.buffer@.take(n - 3 as int));
                proof {
                    lemma_first_code_inv(s0, b);
                }
                None
            },
            Some(p) => {
                if p + 3 >= n - 3 {
                    self.pre = Ghost(self.pre@ + spec_cat_nals(self.emitted@) + self.buffer@.subrange(
                        p as int,
                        n - 3 as int,
                    ));
                    self.emitted = Ghost(Seq::empty());
                    self.first_start_code_pos = Some(n - 3);
                    proof {
                        lemma_empty_nal_inv(s0, b);
                    }
                    None
                } else {
                    let nal_data = self.buffer.split_off(p + 3);
                    let mut nal_vec = nal_data;
                    let start_code_part = nal_vec.split_off(nal_vec.len() - 3);
                    // nal_vec now holds the NAL unit; start_code_part the new start code
                    self.buffer = start_code_part;
                    proof {
                        let buf = s0.buffer.push(b);
                        assert(nal_vec@ =~= buf.subrange(p + 3, n - 3));
                        assert(self.buffer@ =~= buf.subrange(n - 3, n as int));
                    }
                    self.first_start_code_pos = Some(0);
                    self.emitted = Ghost(self.emitted@.push(nal_vec@));
                    self.frame_count = if self.frame_count < u64::MAX {
                        self.frame_count + 1
                    } else {
                        u64::MAX
                    };
                    proof {
                        lemma_emit_inv(s0, b);
                    }
                    let nal_type = nal_unit_type(&nal_vec);
                    let frame_type = if nal_type == 7 || nal_type == 8 {
                        FrameType::Config
                    } else {
                        FrameType::Video
                    };
                    Some(VideoFrame::new(0, frame_type, nal_vec))
                }
            },
        }
    }
}

/// A buffer extension that completes no start code keeps the law: the tail
/// grows by the byte.
proof fn lemma_plain_push_inv(s: DemuxState, b: u8)
    requires
        s.inv(),
        s.buffer.len() + 1 <= MAX_NAL_BUFFER,
        !(s.buffer.len() + 1 >= 3 && s.buffer.push(b).subrange(
            s.buffer.len() + 1 - 3,
            s.buffer.len() + 1 as int,
        ) == spec_start_code()),
    ensures
        spec_demux_step(s, b).0.inv(),
{
    let s2 = spec_demux_step(s, b).0;
    let buf = s.buffer.push(b);
    let n = buf.len() as int;
    match s.start_pos {
        Some(p) => {
            assert(buf.subrange(p, p + 3) =~= s.buffer.subrange(p, p + 3));
            assert forall|q: int| p < q && q + 3 <= n implies #[trigger] buf.subrange(q, q + 3)
                != spec_start_code() by {
                if q + 3 <= n - 1 {
                    assert(buf.subrange(q, q + 3) =~= s.buffer.subrange(q, q + 3));
                } else {
                    assert(buf.subrange(q, q + 3) =~= buf.subrange(n - 3, n));
                }
            }
            assert(s2.tail() =~= s.tail().push(b));
            assert(s2.fed =~= s2.pre + spec_cat_nals(s2.emitted) + s2.tail());
        },
        None => {
            assert forall|q: int| 0 <= q && q + 3 <= n implies #[trigger] buf.subrange(q, q + 3)
                != spec_start_code() by {
                if q + 3 <= n - 1 {
                    assert(buf.subrange(q, q + 3) =~= s.buffer.subrange(q, q + 3));
                } else {
                    assert(buf.subrange(q, q + 3) =~= buf.subrange(n - 3, n));
                }
            }
            assert(s2.tail() =~= s.tail().push(b));
            assert(s2.fed =~= s2.pre + spec_cat_nals(s2.emitted) + s2.tail());
        },
    }
}

/// Finding the first start code moves the junk prefix into the skipped bytes.
proof fn lemma_first_code_inv(s: DemuxState, b: u8)
    requires
        s.inv(),
        s.start_pos is None,
        s.buffer.len() + 1 <= MAX_NAL_BUFFER,
        s.buffer.len() + 1 >= 3,
        s.buffer.push(b).subrange(s.buffer.len() + 1 - 3, s.buffer.len() + 1 as int)
            == spec_start_code(),
    ensures
        spec_demux_step(s, b).0.inv(),
{
    let s2 = spec_demux_step(s, b).0;
    let buf = s.buffer.push(b);
    let n = buf.len() as int;
    assert(s2.tail() =~= buf.subrange(n - 3, n));
    assert(s.emitted == Seq::<Seq<u8>>::empty());
    assert(spec_cat_nals(Seq::<Seq<u8>>::empty()) == Seq::<u8>::empty());
    assert(s2.fed =~= s2.pre + spec_cat_nals(s2.emitted) + s2.tail());
}

/// A start code directly after the previous one supersedes it: the stale code
/// and the account of emitted units are folded into the skipped bytes.
proof fn lemma_empty_nal_inv(s: DemuxState, b: u8)
    requires
        s.inv(),
        s.start_pos matches Some(p) && p + 3 >= s.buffer.len() + 1 - 3,
        s.buffer.len() + 1 <= MAX_NAL_BUFFER,
        s.buffer.len() + 1 >= 3,
        s.buffer.push(b).subrange(s.buffer.len() + 1 - 3, s.buffer.len() + 1 as int)
            == spec_start_code(),
    ensures
        spec_demux_step(s, b).0.inv(),
{
    let s2 = spec_demux_step(s, b).0;
    let buf = s.buffer.push(b);
    let n = buf.len() as int;
    let p = s.start_pos->Some_0;
    assert(s2.tail() =~= buf.subrange(n - 3, n));
    assert(s.tail().push(b) =~= buf.subrange(p, n));
    assert(buf.subrange(p, n) =~= buf.subrange(p, n - 3) + buf.subrange(n - 3, n));
    assert(spec_cat_nals(Seq::<Seq<u8>>::empty()) == Seq::<u8>::empty());
    assert(s2.fed =~= s2.pre + spec_cat_nals(s2.emitted) + s2.tail());
    assert forall|q: int| n - 3 < q && q + 3 <= n implies #[trigger] buf.subrange(q, q + 3)
        != spec_start_code() by {}
}

/// Emitting a NAL unit keeps the law: the unit moves from the tail to the
/// emitted account, behind its start code.
proof fn lemma_emit_inv(s: DemuxState, b: u8)
    requires
        s.inv(),
        s.start_pos matches Some(p) && p + 3 < s.buffer.len() + 1 - 3,
        s.buffer.len() + 1 <= MAX_NAL_BUFFER,
        s.buffer.len() + 1 >= 3,
        s.buffer.push(b).subrange(s.buffer.len() + 1 - 3, s.buffer.len() + 1 as int)
            == spec_start_code(),
    ensures
        spec_demux_step(s, b).0.inv(),
        spec_demux_step(s, b).1 == Some(
            s.buffer.push(b).subrange(
                s.start_pos->Some_0 + 3,
                s.buffer.len() + 1 - 3,
            ),
        ),
{
    let s2 = spec_demux_step(s, b).0;
    let buf = s.buffer.push(b);
    let n = buf.len() as int;
    let p = s.start_pos->Some_0;
    let nal = buf.subrange(p + 3, n - 3);
    assert(s2.emitted == s.emitted.push(nal));
    assert(s2.emitted.drop_last() =~= s.emitted);
    assert(spec_cat_nals(s2.emitted) == spec_cat_nals(s.emitted) + spec_start_code() + nal);
    assert(s.tail().push(b) =~= buf.subrange(p, n));
    assert(buf.subrange(p, p + 3) =~= s.buffer.subrange(p, p + 3));
    assert(buf.subrange(p, n) =~= buf.subrange(p, p + 3) + buf.subrange(p + 3, n - 3)
        + buf.subrange(n - 3, n));
    assert(s2.tail() =~= buf.subrange(n - 3, n).subrange(0, 3));
    assert(buf.subrange(n - 3, n).subrange(0, 3) =~= buf.subrange(n - 3, n));
    assert(s2.fed =~= s2.pre + spec_cat_nals(s2.emitted) + s2.tail());
    // structural facts for the trimmed buffer
    assert(s2.buffer =~= buf.subrange(n - 3, n));
    assert(s2.buffer.subrange(0, 3) =~= buf.subrange(n - 3, n));
    assert forall|q: int|
        0 < q && q + 3 <= s2.buffer.len() implies #[trigger] s2.buffer.subrange(q, q + 3)
        != spec_start_code() by {}
    // the emitted unit holds no start code: its interior lay strictly between
    // the two codes of the old buffer, where the invariant rules codes out
    assert forall|q: int|
        0 <= q && q + 3 <= nal.len() implies #[trigger] nal.subrange(q, q + 3)
        != spec_start_code() by {
        assert(nal.subrange(q, q + 3) =~= s.buffer.subrange(p + 3 + q, p + 3 + q + 3));
    }
}

/// Decoder configuration carried out of band: the raw SPS and PPS bytes.
#[derive(Debug, Clone)]
pub struct ConfigData {
    pub sps: Vec<u8>,
    pub pps: Vec<u8>,
}

/// The stream header the device agent sends when codec metadata is enabled:
/// a codec identifier and the initial coded size.
#[derive(Debug, Clone)]
pub struct CodecInfo {
    pub codec_id: u32,
    pub width: u32,
    pub height: u32,
    pub config_data: Option<ConfigData>,
}

/// A big-endian 32-bit value from four bytes.
pub open spec fn spec_u32_be(b0: u8, b1: u8, b2: u8, b3: u8) -> u32 {
    (b0 * 0x100_0000 + b1 * 0x1_0000 + b2 * 0x100 + b3) as u32
}

impl CodecInfo {
    /// Decode the 12-byte codec header: codec identifier, width and height,
    /// each big-endian.
    pub fn from_header_bytes(buf: &[u8]) -> (r: Self)
        requires
            buf@.len() == 12,
        ensures
            r.codec_id == spec_u32_be(buf@[0], buf@[1], buf@[2], buf@[3]),
            r.width == spec_u32_be(buf@[4], buf@[5], buf@[6], buf@[7]),
            r.height == spec_u32_be(buf@[8], buf@[9], buf@[10], buf@[11]),
            r.config_data is None,
    {
        let codec_id = u32_from_be(buf[0], buf[1], buf[2], buf[3]);
        let width = u32_from_be(buf[4], buf[5], buf[6], buf[7]);
        let height = u32_from_be(buf[8], buf[9], buf[10], buf[11]);
        CodecInfo { codec_id, width, height, config_data: None }
    }
}

/// Assemble four big-endian bytes into a 32-bit value.
pub fn u32_from_be(b0: u8, b1: u8, b2: u8, b3: u8) -> (r: u32)
    ensures
        r == spec_u32_be(b0, b1, b2, b3),
{
    (b0 as u32) * 0x100_0000 + (b1 as u32) * 0x1_0000 + (b2 as u32) * 0x100 + (b3 as u32)
}

} // verus!
