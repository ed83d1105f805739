//! Session state: the cached SPS/PPS parameter sets, the current resolution
//! and orientation, the configuration JSON, and the per-event decisions of the
//! ingest loop and the client handlers.
use vstd::prelude::*;
use vstd::string::StringExecFns;
use crate::spec_nal_type;
use crate::nal_unit_type;
use crate::demux::VideoFrame;
use crate::numfmt::{spec_dec, spec_bool_str, u32_to_dec_string, bool_to_string};
use crate::sps::{spec_parse_sps, parse_sps_resolution};

verus! {

/// The 4-byte Annex-B start code, prepended to every NAL unit that leaves the
/// session toward a client.
pub open spec fn spec_start_code4() -> Seq<u8> {
    seq![0u8, 0u8, 0u8, 1u8]
}

/// A message bound for a client: configuration as text, video as binary.
#[derive(Debug, Clone)]
pub enum OutboundMessage {
    Text(String),
    Binary(Vec<u8>),
}

/// The session's video configuration: cached parameter sets (with 4-byte
/// start codes), the current coded resolution, and the physical screen
/// geometry captured at session start.
#[derive(Debug, Clone)]
pub struct VideoConfig {
    /// The most recent SPS, stored with its 4-byte start code.
    pub sps: Option<Vec<u8>>,
    /// The first PPS seen after an SPS, stored with its 4-byte start code.
    pub pps: Option<Vec<u8>>,
    /// Current coded width; the device width until the first SPS arrives.
    pub width: u32,
    /// Current coded height; the device height until the first SPS arrives.
    pub height: u32,
    pub device_width: u32,
    pub device_height: u32,
    /// Exactly `width > height`.
    pub is_landscape: bool,
}

impl VideoConfig {
    /// The session invariants: the orientation flag tracks the dimensions, the
    /// dimensions are both zero or both positive, a PPS is cached only after
    /// an SPS, and cached parameter sets carry their 4-byte start code.
    pub open spec fn wf(&self) -> bool {
        &&& self.is_landscape == (self.width > self.height)
        &&& (self.width == 0 <==> self.height == 0)
        &&& (self.pps is Some ==> self.sps is Some)
        &&& (self.sps matches Some(s) ==> s@.len() > 4 && s@.subrange(0, 4) == spec_start_code4())
        &&& (self.pps matches Some(p) ==> p@.len() > 4 && p@.subrange(0, 4) == spec_start_code4())
    }

    /// The configuration before any SPS: no parameter sets, the physical
    /// geometry standing in for the coded one.
    pub fn initial(device_width: u32, device_height: u32) -> (r: Self)
        requires
            (device_width == 0) <==> (device_height == 0),
        ensures
            r.wf(),
            r.sps is None,
            r.pps is None,
            r.width == device_width,
            r.height == device_height,
            r.device_width == device_width,
            r.device_height == device_height,
            r.is_landscape == (device_width > device_height),
    {
        VideoConfig {
            sps: None,
            pps: None,
            width: device_width,
            height: device_height,
            device_width,
            device_height,
            is_landscape: device_width > device_height,
        }
    }
}

/// The configuration text message sent to clients:
/// `{"type":"config","width":W,"height":H,"device_width":DW,
/// "device_height":DH,"is_landscape":B}`.
pub open spec fn spec_config_json(c: VideoConfig) -> Seq<char> {
    "{\"type\":\"config\",\"width\":"@ + spec_dec(c.width as int) + ",\"height\":"@ + spec_dec(
        c.height as int,
    ) + ",\"device_width\":"@ + spec_dec(c.device_width as int) + ",\"device_height\":"@
        + spec_dec(c.device_height as int) + ",\"is_landscape\":"@ + spec_bool_str(c.is_landscape)
        + "}"@
}

impl VideoConfig {
    /// Render the configuration JSON for this state.
    pub fn config_json(&self) -> (r: String)
        ensures
            r@ == spec_config_json(*self),
    {
        let mut s = "{\"type\":\"config\",\"width\":".to_owned();
        let w = u32_to_dec_string(self.width);
        s.append(w.as_str());
        s.append(",\"height\":");
        let h = u32_to_dec_string(self.height);
        s.append(h.as_str());
        s.append(",\"device_width\":");
        let dw = u32_to_dec_string(self.device_width);
        s.append(dw.as_str());
        s.append(",\"device_height\":");
        let dh = u32_to_dec_string(self.device_height);
        s.append(dh.as_str());
        s.append(",\"is_landscape\":");
        s.append(bool_to_string(self.is_landscape));
        s.append("}");
        proof {
            assert(s@ =~= spec_config_json(*self));
        }
        s
    }
}

/// Copy a byte buffer.
fn clone_bytes(v: &Vec<u8>) -> (r: Vec<u8>)
    ensures
        r@ == v@,
{
    let mut out: Vec<u8> = Vec::new();
    out.extend_from_slice(v.as_slice());
    proof {
        assert(out@ =~= v@);
    }
    out
}

/// A NAL unit with the 4-byte start code prepended, as clients receive it.
pub fn with_start_code(nal: &Vec<u8>) -> (r: Vec<u8>)
    ensures
        r@ == spec_start_code4() + nal@,
{
    let mut out: Vec<u8> = Vec::new();
    out.push(0);
    out.push(0);
    out.push(0);
    out.push(1);
    out.extend_from_slice(nal.as_slice());
    proof {
        assert(out@ =~= spec_start_code4() + nal@);
    }
    out
}

/// Whether this SPS changes the resolution or the orientation of the session.
pub open spec fn spec_config_changed(c: VideoConfig, nal: Seq<u8>) -> bool {
    match spec_parse_sps(nal) {
        Some((w, h)) => c.width != w || c.height != h || c.is_landscape != (w > h),
        None => false,
    }
}

/// What applying an SPS NAL does to the session: the cached SPS bytes and the
/// derived dimensions are replaced together; a failed parse keeps the previous
/// resolution.
pub open spec fn spec_sps_applied(old_c: VideoConfig, new_c: VideoConfig, nal: Seq<u8>) -> bool {
    &&& new_c.sps matches Some(s) && s@ == spec_start_code4() + nal
    &&& new_c.pps == old_c.pps
    &&& new_c.device_width == old_c.device_width
    &&& new_c.device_height == old_c.device_height
    &&& match spec_parse_sps(nal) {
        Some((w, h)) => new_c.width == w && new_c.height == h && new_c.is_landscape == (w > h),
        None => new_c.width == old_c.width && new_c.height == old_c.height && new_c.is_landscape
            == old_c.is_landscape,
    }
}

/// What applying a PPS NAL does to the session: the first PPS after an SPS is
/// cached; later ones and orphans are ignored.
pub open spec fn spec_pps_applied(old_c: VideoConfig, new_c: VideoConfig, nal: Seq<u8>) -> bool {
    &&& new_c.sps == old_c.sps
    &&& new_c.width == old_c.width
    &&& new_c.height == old_c.height
    &&& new_c.device_width == old_c.device_width
    &&& new_c.device_height == old_c.device_height
    &&& new_c.is_landscape == old_c.is_landscape
    &&& if old_c.pps is None && old_c.sps is Some {
        new_c.pps matches Some(p) && p@ == spec_start_code4() + nal
    } else {
        new_c.pps == old_c.pps
    }
}

/// A successful SPS parse yields positive dimensions.
proof fn lemma_parse_sps_positive(data: Seq<u8>)
    ensures
        spec_parse_sps(data) matches Some(wh) ==> wh.0 >= 1 && wh.1 >= 1,
{
}

impl VideoConfig {
    /// Apply a freshly demultiplexed SPS NAL unit (without start code):
    /// cache it with a 4-byte start code and update the derived resolution and
    /// orientation. Returns whether resolution or orientation changed, which
    /// is when a configuration message must be broadcast.
    #[verifier::rlimit(60)]
    pub fn apply_sps(&mut self, nal: &Vec<u8>) -> (changed: bool)
        requires
            old(self).wf(),
            nal@.len() > 0,
        ensures
            final(self).wf(),
            spec_sps_applied(*old(self), *final(self), nal@),
            changed == spec_config_changed(*old(self), nal@),
    {
        let framed = with_start_code(nal);
        proof {
            assert(framed@.subrange(0, 4) =~= spec_start_code4());
        }
        self.sps = Some(framed);
        match parse_sps_resolution(nal.as_slice()) {
            Some((w, h)) => {
                proof {
                    lemma_parse_sps_positive(nal@);
                }
                let new_is_landscape = w > h;
                let changed = self.width != w || self.height != h || self.is_landscape
                    != new_is_landscape;
                if changed {
                    self.width = w;
                    self.height = h;
                    self.is_landscape = new_is_landscape;
                }
                changed
            },
            None => false,
        }
    }

    /// Apply a freshly demultiplexed PPS NAL unit: cache the first one seen
    /// after an SPS, with a 4-byte start code. Returns whether it was cached.
    pub fn apply_pps(&mut self, nal: &Vec<u8>) -> (cached: bool)
        requires
            old(self).wf(),
            nal@.len() > 0,
        ensures
            final(self).wf(),
            spec_pps_applied(*old(self), *final(self), nal@),
            cached == (old(self).pps is None && old(self).sps is Some),
    {
        if self.pps.is_none() && self.sps.is_some() {
            let framed = with_start_code(nal);
            proof {
                assert(framed@.subrange(0, 4) =~= spec_start_code4());
            }
            self.pps = Some(framed);
            true
        } else {
            false
        }
    }

    /// One ingest step: cache parameter sets, detect resolution changes, and
    /// produce what is broadcast for this NAL unit — the configuration text
    /// first when it changed, then always the framed NAL unit. That a
    /// configuration change precedes the next binary frame in the broadcast
    /// order is this ordering.
    pub fn process_nal(&mut self, frame: &VideoFrame) -> (out: Vec<OutboundMessage>)
        requires
            old(self).wf(),
            frame.data@.len() > 0,
        ensures
            final(self).wf(),
            ({
                let t = spec_nal_type(frame.data@);
                &&& (t == 7 ==> spec_sps_applied(*old(self), *final(self), frame.data@))
                &&& (t == 8 ==> spec_pps_applied(*old(self), *final(self), frame.data@))
                &&& (t != 7 && t != 8 ==> *final(self) == *old(self))
            }),
            ({
                let changed = spec_nal_type(frame.data@) == 7 && spec_config_changed(
                    *old(self),
                    frame.data@,
                );
                &&& (changed ==> out@.len() == 2 && (out@[0] matches OutboundMessage::Text(t)
                    && t@ == spec_config_json(*final(self))))
                &&& (!changed ==> out@.len() == 1)
                &&& (out@.last() matches OutboundMessage::Binary(d) && d@ == spec_start_code4()
                    + frame.data@)
            }),
    {
        let nal_type = nal_unit_type(&frame.data);
        let mut changed = false;
        if nal_type == 7 {
            changed = self.apply_sps(&frame.data);
        } else if nal_type == 8 {
            let _cached = self.apply_pps(&frame.data);
        }
        let mut out: Vec<OutboundMessage> = Vec::new();
        if changed {
            out.push(OutboundMessage::Text(self.config_json()));
        }
        out.push(OutboundMessage::Binary(with_start_code(&frame.data)));
        out
    }

    /// What a newly connected client is sent, in order: the configuration
    /// JSON, then the cached SPS, then the cached PPS, each parameter set only
    /// if cached. Under the invariant a PPS never appears without an SPS, so
    /// a client receives either the JSON alone, or JSON and SPS, or all three.
    pub fn connect_messages(&self) -> (msgs: Vec<OutboundMessage>)
        requires
            self.wf(),
        ensures
            msgs@.len() == 1 + (if self.sps is Some {
                1int
            } else {
                0int
            }) + (if self.pps is Some {
                1int
            } else {
                0int
            }),
            msgs@[0] matches OutboundMessage::Text(t) && t@ == spec_config_json(*self),
            self.sps matches Some(s) ==> msgs@[1] matches OutboundMessage::Binary(b) && b@ == s@,
            self.pps matches Some(p) ==> msgs@.last() matches OutboundMessage::Binary(b) && b@
                == p@,
            self.sps is None ==> msgs@.len() == 1,
    {
        let mut msgs: Vec<OutboundMessage> = Vec::new();
        msgs.push(OutboundMessage::Text(self.config_json()));
        match &self.sps {
            Some(s) => {
                msgs.push(OutboundMessage::Binary(clone_bytes(s)));
            },
            None => {},
        }
        match &self.pps {
            Some(p) => {
                msgs.push(OutboundMessage::Binary(clone_bytes(p)));
            },
            None => {},
        }
        msgs
    }

    /// The parameter sets to replay on the frame channel when a new client
    /// requests a keyframe: the cached SPS then the cached PPS, those present.
    pub fn replay_parameter_sets(&self) -> (frames: Vec<Vec<u8>>)
        requires
            self.wf(),
        ensures
            frames@.len() == (if self.sps is Some {
                1int
            } else {
                0int
            }) + (if self.pps is Some {
                1int
            } else {
                0int
            }),
            self.sps matches Some(s) ==> frames@[0]@ == s@,
            self.pps matches Some(p) ==> frames@.last()@ == p@,
    {
        let mut frames: Vec<Vec<u8>> = Vec::new();
        match &self.sps {
            Some(s) => {
                frames.push(clone_bytes(s));
            },
            None => {},
        }
        match &self.pps {
            Some(p) => {
                frames.push(clone_bytes(p));
            },
            None => {},
        }
        frames
    }
}

/// One event a streaming client handler can see: an item from the
/// configuration channel, an item from the frame channel, or an inbound
/// WebSocket message.
#[derive(Debug, Clone)]
pub enum ClientEvent {
    /// A configuration text message from the config channel.
    ConfigUpdate(String),
    /// The config channel reports this subscriber lagged; old configuration
    /// is stale, skip it.
    ConfigLagged,
    /// The config channel closed.
    ConfigClosed,
    /// A framed NAL unit from the frame channel.
    Frame(Vec<u8>),
    /// The frame channel reports this subscriber lagged behind.
    FrameLagged,
    /// The frame channel closed.
    FrameClosed,
    /// An inbound text message, expected to be a JSON control event.
    InboundText(String),
    /// An inbound binary message; ignored.
    InboundBinary,
    /// An inbound ping; the transport answers it.
    InboundPing,
    /// The client sent a close message.
    InboundClose,
    /// The connection failed or ended.
    InboundGone,
}

/// What the handler does in response to one event.
#[derive(Debug, Clone)]
pub enum ClientAction {
    /// Forward a message to the client.
    Send(OutboundMessage),
    /// Drain the frame channel to its newest item, transmitting what is
    /// taken, until it reports empty: latest-frame-wins after a lag.
    DrainToHead,
    /// Parse the text as a JSON control event and enqueue it; a parse
    /// failure is logged and the connection continues.
    ParseControl(String),
    /// Nothing to do.
    Ignore,
    /// Release the subscription and end the handler.
    Terminate,
}

/// The streaming-state decision table of the client handler.
pub open spec fn spec_client_step(ev: ClientEvent) -> ClientAction {
    match ev {
        ClientEvent::ConfigUpdate(s) => ClientAction::Send(OutboundMessage::Text(s)),
        ClientEvent::ConfigLagged => ClientAction::Ignore,
        ClientEvent::ConfigClosed => ClientAction::Terminate,
        ClientEvent::Frame(d) => ClientAction::Send(OutboundMessage::Binary(d)),
        ClientEvent::FrameLagged => ClientAction::DrainToHead,
        ClientEvent::FrameClosed => ClientAction::Terminate,
        ClientEvent::InboundText(t) => ClientAction::ParseControl(t),
        ClientEvent::InboundBinary => ClientAction::Ignore,
        ClientEvent::InboundPing => ClientAction::Ignore,
        ClientEvent::InboundClose => ClientAction::Terminate,
        ClientEvent::InboundGone => ClientAction::Terminate,
    }
}

/// Decide what a streaming client handler does with one event: forward
/// outbound items, drain to the newest frame on lag, hand inbound text to the
/// control parser, and terminate when either side closes.
pub fn client_step(ev: ClientEvent) -> (a: ClientAction)
    ensures
        a == spec_client_step(ev),
{
    match ev {
        ClientEvent::ConfigUpdate(s) => ClientAction::Send(OutboundMessage::Text(s)),
        ClientEvent::ConfigLagged => ClientAction::Ignore,
        ClientEvent::ConfigClosed => ClientAction::Terminate,
        ClientEvent::Frame(d) => ClientAction::Send(OutboundMessage::Binary(d)),
        ClientEvent::FrameLagged => ClientAction::DrainToHead,
        ClientEvent::FrameClosed => ClientAction::Terminate,
        ClientEvent::InboundText(t) => ClientAction::ParseControl(t),
        ClientEvent::InboundBinary => ClientAction::Ignore,
        ClientEvent::InboundPing => ClientAction::Ignore,
        ClientEvent::InboundClose => ClientAction::Terminate,
        ClientEvent::InboundGone => ClientAction::Terminate,
    }
}

} // verus!
