//! Control events and their device wire format: each event kind has a fixed
//! big-endian binary layout, and a stream of events is encoded as the plain
//! concatenation of the events' encodings, in order.
use vstd::prelude::*;
use vstd::utf8::encode_utf8;

verus! {

/// The message type byte of the device control protocol.
#[derive(Debug, Clone, Copy)]
pub enum ControlMessageType {
    InjectKeycode,
    InjectText,
    InjectTouch,
    InjectScroll,
    SetScreenPowerMode,
    ExpandNotificationPanel,
    CollapseNotificationPanel,
    GetClipboard,
    SetClipboard,
    SetScreenPowerModeExpanded,
    RotateDevice,
    UhidCreate,
    UhidInput,
    OpenHardKeyboardSettings,
    UhidDestroy,
    StartApp,
}

/// The wire value of each message type.
pub open spec fn spec_message_type_code(t: ControlMessageType) -> u8 {
    match t {
        ControlMessageType::InjectKeycode => 0,
        ControlMessageType::InjectText => 1,
        ControlMessageType::InjectTouch => 2,
        ControlMessageType::InjectScroll => 3,
        ControlMessageType::SetScreenPowerMode => 4,
        ControlMessageType::ExpandNotificationPanel => 5,
        ControlMessageType::CollapseNotificationPanel => 6,
        ControlMessageType::GetClipboard => 7,
        ControlMessageType::SetClipboard => 8,
        ControlMessageType::SetScreenPowerModeExpanded => 9,
        ControlMessageType::RotateDevice => 10,
        ControlMessageType::UhidCreate => 11,
        ControlMessageType::UhidInput => 12,
        ControlMessageType::OpenHardKeyboardSettings => 13,
        ControlMessageType::UhidDestroy => 14,
        ControlMessageType::StartApp => 15,
    }
}

impl ControlMessageType {
    /// The byte this message type puts on the wire.
    pub fn code(&self) -> (r: u8)
        ensures
            r == spec_message_type_code(*self),
    {
        match self {
            ControlMessageType::InjectKeycode => 0,
            ControlMessageType::InjectText => 1,
            ControlMessageType::InjectTouch => 2,
            ControlMessageType::InjectScroll => 3,
            ControlMessageType::SetScreenPowerMode => 4,
            ControlMessageType::ExpandNotificationPanel => 5,
            ControlMessageType::CollapseNotificationPanel => 6,
            ControlMessageType::GetClipboard => 7,
            ControlMessageType::SetClipboard => 8,
            ControlMessageType::SetScreenPowerModeExpanded => 9,
            ControlMessageType::RotateDevice => 10,
            ControlMessageType::UhidCreate => 11,
            ControlMessageType::UhidInput => 12,
            ControlMessageType::OpenHardKeyboardSettings => 13,
            ControlMessageType::UhidDestroy => 14,
            ControlMessageType::StartApp => 15,
        }
    }
}

/// Android motion event actions, as the device interprets them.
#[derive(Debug, Clone, Copy, PartialEq, Eq, Structural)]
pub enum AndroidMotionEventAction {
    Down,
    Up,
    Move,
    Cancel,
    PointerDown,
    PointerUp,
    HoverMove,
    HoverEnter,
    HoverExit,
}

/// The wire value of each motion action.
pub open spec fn spec_motion_action_code(a: AndroidMotionEventAction) -> u8 {
    match a {
        AndroidMotionEventAction::Down => 0,
        AndroidMotionEventAction::Up => 1,
        AndroidMotionEventAction::Move => 2,
        AndroidMotionEventAction::Cancel => 3,
        AndroidMotionEventAction::PointerDown => 5,
        AndroidMotionEventAction::PointerUp => 6,
        AndroidMotionEventAction::HoverMove => 7,
        AndroidMotionEventAction::HoverEnter => 9,
        AndroidMotionEventAction::HoverExit => 10,
    }
}

impl AndroidMotionEventAction {
    /// The byte this action puts on the wire.
    pub fn code(&self) -> (r: u8)
        ensures
            r == spec_motion_action_code(*self),
    {
        match self {
            AndroidMotionEventAction::Down => 0,
            AndroidMotionEventAction::Up => 1,
            AndroidMotionEventAction::Move => 2,
            AndroidMotionEventAction::Cancel => 3,
            AndroidMotionEventAction::PointerDown => 5,
            AndroidMotionEventAction::PointerUp => 6,
            AndroidMotionEventAction::HoverMove => 7,
            AndroidMotionEventAction::HoverEnter => 9,
            AndroidMotionEventAction::HoverExit => 10,
        }
    }

    /// The action a client names by number, exactly the wire values; anything
    /// else is rejected.
    pub fn from_code(value: u8) -> (r: Option<Self>)
        ensures
            match r {
                Some(a) => spec_motion_action_code(a) == value,
                None => forall|a: AndroidMotionEventAction| spec_motion_action_code(a) != value,
            },
    {
        match value {
            0 => Some(AndroidMotionEventAction::Down),
            1 => Some(AndroidMotionEventAction::Up),
            2 => Some(AndroidMotionEventAction::Move),
            3 => Some(AndroidMotionEventAction::Cancel),
            5 => Some(AndroidMotionEventAction::PointerDown),
            6 => Some(AndroidMotionEventAction::PointerUp),
            7 => Some(AndroidMotionEventAction::HoverMove),
            9 => Some(AndroidMotionEventAction::HoverEnter),
            10 => Some(AndroidMotionEventAction::HoverExit),
            _ => None,
        }
    }
}

/// Android key event actions.
#[derive(Debug, Clone, Copy, PartialEq, Eq, Structural)]
pub enum AndroidKeyEventAction {
    Down,
    Up,
}

/// The wire value of each key action.
pub open spec fn spec_key_action_code(a: AndroidKeyEventAction) -> u8 {
    match a {
        AndroidKeyEventAction::Down => 0,
        AndroidKeyEventAction::Up => 1,
    }
}

impl AndroidKeyEventAction {
    /// The byte this action puts on the wire.
    pub fn code(&self) -> (r: u8)
        ensures
            r == spec_key_action_code(*self),
    {
        match self {
            AndroidKeyEventAction::Down => 0,
            AndroidKeyEventAction::Up => 1,
        }
    }

    /// The action a client names by number; anything but 0 or 1 is rejected.
    pub fn from_code(value: u8) -> (r: Option<Self>)
        ensures
            match r {
                Some(a) => spec_key_action_code(a) == value,
                None => value != 0 && value != 1,
            },
    {
        match value {
            0 => Some(AndroidKeyEventAction::Down),
            1 => Some(AndroidKeyEventAction::Up),
            _ => None,
        }
    }
}

/// A touch or mouse event, with coordinates already scaled to pixels of the
/// reference geometry and pressure quantized to 16-bit fixed point
/// (`0xFFFF` is full pressure).
#[derive(Debug, Clone, Copy)]
pub struct TouchEvent {
    pub action: AndroidMotionEventAction,
    /// `-1` denotes the mouse; values `>= 0` denote fingers.
    pub pointer_id: i64,
    /// Pixel x, `round(normalized_x * width)`.
    pub x: u32,
    /// Pixel y, `round(normalized_y * height)`.
    pub y: u32,
    /// Pressure in Q16: `round(pressure * 0xFFFF)`.
    pub pressure: u16,
    /// Reference width in pixels.
    pub width: u16,
    /// Reference height in pixels.
    pub height: u16,
    pub buttons: u32,
}

/// A key press or release.
#[derive(Debug, Clone, Copy)]
pub struct KeyEvent {
    pub action: AndroidKeyEventAction,
    pub keycode: u32,
    pub repeat: u32,
    pub metastate: u32,
}

/// Text to inject as keystrokes.
#[derive(Debug, Clone)]
pub struct TextEvent {
    pub text: String,
}

/// Text for the device clipboard, optionally pasted at once.
#[derive(Debug, Clone)]
pub struct ClipboardEvent {
    pub text: String,
    pub paste: bool,
}

/// A scroll wheel event, with the position already scaled to pixels and the
/// scroll amounts in logical units (one unit per wheel notch).
#[derive(Debug, Clone, Copy)]
pub struct ScrollEvent {
    /// Pixel x of the pointer.
    pub x: i32,
    /// Pixel y of the pointer.
    pub y: i32,
    /// Reference width in pixels.
    pub width: u16,
    /// Reference height in pixels.
    pub height: u16,
    pub hscroll: i32,
    pub vscroll: i32,
}

/// A control event from any client, ready for the device wire.
#[derive(Debug, Clone)]
pub enum ControlEvent {
    Touch(TouchEvent),
    Key(KeyEvent),
    Text(TextEvent),
    Clipboard(ClipboardEvent),
    Scroll(ScrollEvent),
}

/// A 16-bit value as two big-endian bytes.
pub open spec fn spec_be16(x: u16) -> Seq<u8> {
    seq![(x >> 8) as u8, x as u8]
}

/// A 32-bit value as four big-endian bytes.
pub open spec fn spec_be32(x: u32) -> Seq<u8> {
    seq![(x >> 24) as u8, (x >> 16) as u8, (x >> 8) as u8, x as u8]
}

/// A 64-bit value as eight big-endian bytes.
pub open spec fn spec_be64(x: u64) -> Seq<u8> {
    seq![
        (x >> 56) as u8,
        (x >> 48) as u8,
        (x >> 40) as u8,
        (x >> 32) as u8,
        (x >> 24) as u8,
        (x >> 16) as u8,
        (x >> 8) as u8,
        x as u8,
    ]
}

fn push_be16(v: &mut Vec<u8>, x: u16)
    ensures
        final(v)@ == old(v)@ + spec_be16(x),
{
    v.push((x >> 8) as u8);
    v.push(#[verifier::truncate] (x as u8));
    proof {
        assert(final(v)@ =~= old(v)@ + spec_be16(x));
    }
}

fn push_be32(v: &mut Vec<u8>, x: u32)
    ensures
        final(v)@ == old(v)@ + spec_be32(x),
{
    v.push(#[verifier::truncate] ((x >> 24) as u8));
    v.push(#[verifier::truncate] ((x >> 16) as u8));
    v.push(#[verifier::truncate] ((x >> 8) as u8));
    v.push(#[verifier::truncate] (x as u8));
    proof {
        assert(final(v)@ =~= old(v)@ + spec_be32(x));
    }
}

fn push_be64(v: &mut Vec<u8>, x: u64)
    ensures
        final(v)@ == old(v)@ + spec_be64(x),
{
    v.push(#[verifier::truncate] ((x >> 56) as u8));
    v.push(#[verifier::truncate] ((x >> 48) as u8));
    v.push(#[verifier::truncate] ((x >> 40) as u8));
    v.push(#[verifier::truncate] ((x >> 32) as u8));
    v.push(#[verifier::truncate] ((x >> 24) as u8));
    v.push(#[verifier::truncate] ((x >> 16) as u8));
    v.push(#[verifier::truncate] ((x >> 8) as u8));
    v.push(#[verifier::truncate] (x as u8));
    proof {
        assert(final(v)@ =~= old(v)@ + spec_be64(x));
    }
}

/// The `action_button` field of a touch message: mouse events always claim the
/// left button, finger events none.
pub open spec fn spec_touch_action_button(e: TouchEvent) -> u32 {
    if e.pointer_id == -1 {
        1u32
    } else {
        0u32
    }
}

/// The `buttons` field of a touch message: in mouse mode, the left button is
/// held except on release; in finger mode no buttons.
pub open spec fn spec_touch_buttons(e: TouchEvent) -> u32 {
    if e.pointer_id == -1 {
        if e.action == AndroidMotionEventAction::Up || e.action
            == AndroidMotionEventAction::PointerUp {
            0u32
        } else {
            1u32
        }
    } else {
        0u32
    }
}

/// The 32-byte touch message:
/// `type=2, action, pointer_id:i64, x:u32, y:u32, width:u16, height:u16,
/// pressure_q16:u16, action_button:u32, buttons:u32`, all big-endian.
pub open spec fn spec_encode_touch(e: TouchEvent) -> Seq<u8> {
    seq![2u8, spec_motion_action_code(e.action)] + spec_be64(e.pointer_id as u64) + spec_be32(e.x)
        + spec_be32(e.y) + spec_be16(e.width) + spec_be16(e.height) + spec_be16(e.pressure)
        + spec_be32(spec_touch_action_button(e)) + spec_be32(spec_touch_buttons(e))
}

/// Encode a touch event for the device wire.
pub fn encode_touch_event(e: &TouchEvent) -> (r: Vec<u8>)
    ensures
        r@ == spec_encode_touch(*e),
        r@.len() == 32,
{
    let mut msg: Vec<u8> = Vec::new();
    msg.push(2);
    msg.push(e.action.code());
    push_be64(&mut msg, #[verifier::truncate] (e.pointer_id as u64));
    push_be32(&mut msg, e.x);
    push_be32(&mut msg, e.y);
    push_be16(&mut msg, e.width);
    push_be16(&mut msg, e.height);
    push_be16(&mut msg, e.pressure);
    let action_button: u32 = if e.pointer_id == -1 {
        1
    } else {
        0
    };
    push_be32(&mut msg, action_button);
    let buttons: u32 = if e.pointer_id == -1 {
        match e.action {
            AndroidMotionEventAction::Up | AndroidMotionEventAction::PointerUp => 0,
            _ => 1,
        }
    } else {
        0
    };
    push_be32(&mut msg, buttons);
    proof {
        assert(msg@ =~= spec_encode_touch(*e));
    }
    msg
}

/// The 14-byte key message: `type=0, action, keycode:u32, repeat:u32,
/// metastate:u32`, big-endian.
pub open spec fn spec_encode_key(e: KeyEvent) -> Seq<u8> {
    seq![0u8, spec_key_action_code(e.action)] + spec_be32(e.keycode) + spec_be32(e.repeat)
        + spec_be32(e.metastate)
}

/// Encode a key event for the device wire.
pub fn encode_key_event(e: &KeyEvent) -> (r: Vec<u8>)
    ensures
        r@ == spec_encode_key(*e),
        r@.len() == 14,
{
    let mut msg: Vec<u8> = Vec::new();
    msg.push(0);
    msg.push(e.action.code());
    push_be32(&mut msg, e.keycode);
    push_be32(&mut msg, e.repeat);
    push_be32(&mut msg, e.metastate);
    proof {
        assert(msg@ =~= spec_encode_key(*e));
    }
    msg
}

/// A scroll amount quantized to the wire: 2048 per logical unit, clamped to
/// the signed 16-bit range.
pub open spec fn spec_scroll_q(v: i32) -> i16 {
    let m = v * 2048;
    if m < -32768 {
        (-32768) as i16
    } else if m > 32767 {
        32767i16
    } else {
        m as i16
    }
}

/// Quantize a scroll amount: multiply by 2048 and clamp to `i16`.
pub fn scroll_quantize(v: i32) -> (r: i16)
    ensures
        r == spec_scroll_q(v),
{
    let m: i64 = (v as i64) * 2048;
    if m < -32768 {
        -32768
    } else if m > 32767 {
        32767
    } else {
        m as i16
    }
}

/// The 21-byte scroll message: `type=3, x:i32, y:i32, width:u16, height:u16,
/// hscroll_q11:i16, vscroll_q11:i16, buttons:u32`, big-endian.
pub open spec fn spec_encode_scroll(e: ScrollEvent) -> Seq<u8> {
    seq![3u8] + spec_be32(e.x as u32) + spec_be32(e.y as u32) + spec_be16(e.width) + spec_be16(
        e.height,
    ) + spec_be16(spec_scroll_q(e.hscroll) as u16) + spec_be16(spec_scroll_q(e.vscroll) as u16)
        + spec_be32(0u32)
}

/// Encode a scroll event for the device wire.
pub fn encode_scroll_event(e: &ScrollEvent) -> (r: Vec<u8>)
    ensures
        r@ == spec_encode_scroll(*e),
        r@.len() == 21,
{
    let mut msg: Vec<u8> = Vec::new();
    msg.push(3);
    push_be32(&mut msg, #[verifier::truncate] (e.x as u32));
    push_be32(&mut msg, #[verifier::truncate] (e.y as u32));
    push_be16(&mut msg, e.width);
    push_be16(&mut msg, e.height);
    push_be16(&mut msg, #[verifier::truncate] (scroll_quantize(e.hscroll) as u16));
    push_be16(&mut msg, #[verifier::truncate] (scroll_quantize(e.vscroll) as u16));
    push_be32(&mut msg, 0);
    proof {
        assert(msg@ =~= spec_encode_scroll(*e));
    }
    msg
}

/// Whether a text payload fits the wire's 32-bit length field.
pub open spec fn spec_text_len_ok(t: Seq<char>) -> bool {
    encode_utf8(t).len() <= 0xFFFF_FFFF
}

/// The text message: `type=1, len:u32, utf8[len]`, big-endian.
pub open spec fn spec_encode_text(t: Seq<char>) -> Seq<u8> {
    seq![1u8] + spec_be32(encode_utf8(t).len() as u32) + encode_utf8(t)
}

/// Encode a text-injection event for the device wire.
pub fn encode_text_event(text: &str) -> (r: Vec<u8>)
    requires
        spec_text_len_ok(text@),
    ensures
        r@ == spec_encode_text(text@),
{
    let bytes: &[u8] = text.as_bytes();
    let mut msg: Vec<u8> = Vec::new();
    msg.push(1);
    push_be32(&mut msg, bytes.len() as u32);
    msg.extend_from_slice(bytes);
    proof {
        assert(msg@ =~= spec_encode_text(text@));
    }
    msg
}

/// The clipboard message: `type=8, sequence:u64, paste:u8, len:u32,
/// utf8[len]`, big-endian. The sequence is zero: no acknowledgement is
/// expected.
pub open spec fn spec_encode_clipboard(t: Seq<char>, paste: bool) -> Seq<u8> {
    seq![8u8] + spec_be64(0u64) + seq![if paste { 1u8 } else { 0u8 }] + spec_be32(
        encode_utf8(t).len() as u32,
    ) + encode_utf8(t)
}

/// Encode a set-clipboard event for the device wire.
pub fn encode_clipboard_event(text: &str, paste: bool) -> (r: Vec<u8>)
    requires
        spec_text_len_ok(text@),
    ensures
        r@ == spec_encode_clipboard(text@, paste),
{
    let bytes: &[u8] = text.as_bytes();
    let mut msg: Vec<u8> = Vec::new();
    msg.push(8);
    push_be64(&mut msg, 0);
    msg.push(if paste {
        1
    } else {
        0
    });
    push_be32(&mut msg, bytes.len() as u32);
    msg.extend_from_slice(bytes);
    proof {
        assert(msg@ =~= spec_encode_clipboard(text@, paste));
    }
    msg
}

/// The bytes a BACK key press-and-release puts on the wire: key down then key
/// up, keycode 4.
pub fn encode_back_key() -> (r: Vec<u8>)
    ensures
        r@ == spec_encode_key(
            KeyEvent { action: AndroidKeyEventAction::Down, keycode: 4, repeat: 0, metastate: 0 },
        ) + spec_encode_key(
            KeyEvent { action: AndroidKeyEventAction::Up, keycode: 4, repeat: 0, metastate: 0 },
        ),
{
    let mut msg = encode_key_event(
        &(KeyEvent { action: AndroidKeyEventAction::Down, keycode: 4, repeat: 0, metastate: 0 }),
    );
    let up = encode_key_event(
        &(KeyEvent { action: AndroidKeyEventAction::Up, keycode: 4, repeat: 0, metastate: 0 }),
    );
    let mut up_v = up;
    msg.append(&mut up_v);
    msg
}

/// The bytes a HOME key press-and-release puts on the wire: key down then key
/// up, keycode 3.
pub fn encode_home_key() -> (r: Vec<u8>)
    ensures
        r@ == spec_encode_key(
            KeyEvent { action: AndroidKeyEventAction::Down, keycode: 3, repeat: 0, metastate: 0 },
        ) + spec_encode_key(
            KeyEvent { action: AndroidKeyEventAction::Up, keycode: 3, repeat: 0, metastate: 0 },
        ),
{
    let mut msg = encode_key_event(
        &(KeyEvent { action: AndroidKeyEventAction::Down, keycode: 3, repeat: 0, metastate: 0 }),
    );
    let up = encode_key_event(
        &(KeyEvent { action: AndroidKeyEventAction::Up, keycode: 3, repeat: 0, metastate: 0 }),
    );
    let mut up_v = up;
    msg.append(&mut up_v);
    msg
}

/// Whether an event's payload fits its wire length field; only text carries a
/// variable payload.
pub open spec fn spec_event_wf(e: ControlEvent) -> bool {
    match e {
        ControlEvent::Text(t) => spec_text_len_ok(t.text@),
        ControlEvent::Clipboard(c) => spec_text_len_ok(c.text@),
        _ => true,
    }
}

/// The wire bytes of one control event.
pub open spec fn spec_encode_event(e: ControlEvent) -> Seq<u8> {
    match e {
        ControlEvent::Touch(t) => spec_encode_touch(t),
        ControlEvent::Key(k) => spec_encode_key(k),
        ControlEvent::Text(t) => spec_encode_text(t.text@),
        ControlEvent::Clipboard(c) => spec_encode_clipboard(c.text@, c.paste),
        ControlEvent::Scroll(s) => spec_encode_scroll(s),
    }
}

/// Encode one control event for the device wire.
pub fn encode_control_event(e: &ControlEvent) -> (r: Vec<u8>)
    requires
        spec_event_wf(*e),
    ensures
        r@ == spec_encode_event(*e),
{
    match e {
        ControlEvent::Touch(t) => encode_touch_event(t),
        ControlEvent::Key(k) => encode_key_event(k),
        ControlEvent::Text(t) => encode_text_event(t.text.as_str()),
        ControlEvent::Clipboard(c) => encode_clipboard_event(c.text.as_str(), c.paste),
        ControlEvent::Scroll(s) => encode_scroll_event(s),
    }
}

/// The wire bytes of a sequence of control events: each event's encoding,
/// concatenated in order.
pub open spec fn spec_encode_events(es: Seq<ControlEvent>) -> Seq<u8>
    decreases es.len(),
{
    if es.len() == 0 {
        Seq::empty()
    } else {
        spec_encode_events(es.drop_last()) + spec_encode_event(es.last())
    }
}

/// The control multiplexer's output for a sequence of events equals the
/// concatenation of each event's encoding, with no reordering.
pub fn encode_control_events(events: &Vec<ControlEvent>) -> (r: Vec<u8>)
    requires
        forall|i: int| 0 <= i < events@.len() ==> spec_event_wf(#[trigger] events@[i]),
    ensures
        r@ == spec_encode_events(events@),
{
    let mut out: Vec<u8> = Vec::new();
    let mut i: usize = 0;
    while i < events.len()
        invariant
            i <= events@.len(),
            forall|j: int| 0 <= j < events@.len() ==> spec_event_wf(#[trigger] events@[j]),
            out@ == spec_encode_events(events@.take(i as int)),
        decreases events@.len() - i,
    {
        let mut piece = encode_control_event(&events[i]);
        out.append(&mut piece);
        proof {
            assert(events@.take(i + 1 as int).drop_last() =~= events@.take(i as int));
            assert(events@.take(i + 1 as int).last() == events@[i as int]);
        }
        i = i + 1;
    }
    proof {
        assert(events@.take(events@.len() as int) =~= events@);
    }
    out
}

/// Splitting a stream of events anywhere splits its encoding at the same
/// place: encodings of consecutive batches concatenate, so events from one
/// client are never reordered by batching.
pub proof fn lemma_encode_events_concat(a: Seq<ControlEvent>, b: Seq<ControlEvent>)
    ensures
        spec_encode_events(a + b) == spec_encode_events(a) + spec_encode_events(b),
    decreases b.len(),
{
    if b.len() == 0 {
        assert(a + b =~= a);
        assert(spec_encode_events(b) == Seq::<u8>::empty());
        assert(spec_encode_events(a) + Seq::<u8>::empty() =~= spec_encode_events(a));
    } else {
        lemma_encode_events_concat(a, b.drop_last());
        assert((a + b).drop_last() =~= a + b.drop_last());
        assert((a + b).last() == b.last());
        assert(spec_encode_events(a) + spec_encode_events(b.drop_last()) + spec_encode_event(
            b.last(),
        ) =~= spec_encode_events(a) + (spec_encode_events(b.drop_last()) + spec_encode_event(
            b.last(),
        )));
    }
}

} // verus!
