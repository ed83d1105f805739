//! The agent invocation and the ingest loop's policy: the shell command that
//! launches the device agent, the port-forward specifications, and what the
//! orchestrator does with each outcome of a read.
use vstd::prelude::*;
use vstd::string::StringExecFns;
use crate::numfmt::{spec_dec, u32_to_dec_string};

verus! {

/// The agent launch command: the fixed `CLASSPATH`/`app_process` prelude and
/// version, then the `key=value` parameters the agent expects, with the
/// caller's numbers rendered in decimal.
pub open spec fn spec_server_command(
    max_size: u32,
    bit_rate: u32,
    max_fps: u32,
    intra_refresh_period: u32,
) -> Seq<char> {
    "CLASSPATH=/data/local/tmp/scrcpy-server.jar app_process / com.genymobile.scrcpy.Server 3.3.4 log_level=info max_size="@
        + spec_dec(max_size as int) + " video_bit_rate="@ + spec_dec(bit_rate as int)
        + " max_fps="@ + spec_dec(max_fps as int) + " video_codec_options=i-frame-interval="@
        + spec_dec(intra_refresh_period as int)
        + " tunnel_forward=true send_device_meta=false send_frame_meta=false send_dummy_byte=true send_codec_meta=false raw_stream=true audio=false control=true cleanup=true"@
}

/// Build the shell command that launches the device agent.
pub fn build_server_command(max_size: u32, bit_rate: u32, max_fps: u32, intra_refresh_period: u32) -> (r:
    String)
    ensures
        r@ == spec_server_command(max_size, bit_rate, max_fps, intra_refresh_period),
{
    let mut s =
        "CLASSPATH=/data/local/tmp/scrcpy-server.jar app_process / com.genymobile.scrcpy.Server 3.3.4 log_level=info max_size=".to_owned();
    let a = u32_to_dec_string(max_size);
    s.append(a.as_str());
    s.append(" video_bit_rate=");
    let b = u32_to_dec_string(bit_rate);
    s.append(b.as_str());
    s.append(" max_fps=");
    let c = u32_to_dec_string(max_fps);
    s.append(c.as_str());
    s.append(" video_codec_options=i-frame-interval=");
    let d = u32_to_dec_string(intra_refresh_period);
    s.append(d.as_str());
    s.append(
        " tunnel_forward=true send_device_meta=false send_frame_meta=false send_dummy_byte=true send_codec_meta=false raw_stream=true audio=false control=true cleanup=true",
    );
    proof {
        assert(s@ =~= spec_server_command(max_size, bit_rate, max_fps, intra_refresh_period));
    }
    s
}

/// The local side of a port forward: `tcp:` and the port in decimal.
pub open spec fn spec_forward_local(port: u16) -> Seq<char> {
    "tcp:"@ + spec_dec(port as int)
}

/// Render the local side of a port forward.
pub fn forward_local_spec(port: u16) -> (r: String)
    ensures
        r@ == spec_forward_local(port),
{
    let mut s = "tcp:".to_owned();
    let p = u32_to_dec_string(port as u32);
    s.append(p.as_str());
    proof {
        assert(s@ =~= spec_forward_local(port));
    }
    s
}

/// The remote side of both port forwards: the agent listens on one abstract
/// socket named `scrcpy` and tells the two connections apart by their order.
pub fn forward_remote_spec() -> (r: &'static str)
    ensures
        r@ == "localabstract:scrcpy"@,
{
    "localabstract:scrcpy"
}

/// What one iteration of the ingest loop observed.
#[derive(Debug, Clone, Copy, PartialEq, Eq, Structural)]
pub enum IngestOutcome {
    /// A NAL unit arrived.
    FrameReceived,
    /// The stream reported end of file.
    StreamEnded,
    /// The read failed.
    ReadError,
    /// No byte arrived within the read timeout.
    ReadTimeout,
    /// Writing to the device control socket failed.
    ControlWriteFailed,
}

/// What the orchestrator does next.
#[derive(Debug, Clone, Copy, PartialEq, Eq, Structural)]
pub enum LoopDecision {
    /// Hand the frame to the session and broadcast what it yields.
    HandleFrame,
    /// Log, back off briefly, and keep reading: the stream may recover.
    BackOffAndRetry,
    /// Keep reading at once.
    Poll,
    /// Tear the session down: the device agent cannot recover a desynced
    /// control stream.
    Fatal,
}

/// The ingest loop's policy for each outcome.
pub open spec fn spec_ingest_decision(o: IngestOutcome) -> LoopDecision {
    match o {
        IngestOutcome::FrameReceived => LoopDecision::HandleFrame,
        IngestOutcome::StreamEnded => LoopDecision::BackOffAndRetry,
        IngestOutcome::ReadError => LoopDecision::BackOffAndRetry,
        IngestOutcome::ReadTimeout => LoopDecision::Poll,
        IngestOutcome::ControlWriteFailed => LoopDecision::Fatal,
    }
}

/// Decide what the ingest loop does with one outcome: frames are handled,
/// stream hiccups are retried after a pause, timeouts are polled through, and
/// a control-socket write failure ends the session.
pub fn ingest_decision(o: IngestOutcome) -> (r: LoopDecision)
    ensures
        r == spec_ingest_decision(o),
{
    match o {
        IngestOutcome::FrameReceived => LoopDecision::HandleFrame,
        IngestOutcome::StreamEnded => LoopDecision::BackOffAndRetry,
        IngestOutcome::ReadError => LoopDecision::BackOffAndRetry,
        IngestOutcome::ReadTimeout => LoopDecision::Poll,
        IngestOutcome::ControlWriteFailed => LoopDecision::Fatal,
    }
}

} // verus!
