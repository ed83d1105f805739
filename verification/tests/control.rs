use scrcpy_ws::control::{
    AndroidKeyEventAction, AndroidMotionEventAction, ClipboardEvent, ControlEvent,
    ControlMessageType, KeyEvent, ScrollEvent, TextEvent, TouchEvent, encode_back_key,
    encode_clipboard_event, encode_control_event, encode_control_events, encode_home_key,
    encode_key_event, encode_scroll_event, encode_text_event, encode_touch_event, scroll_quantize,
};

fn mouse_touch(action: AndroidMotionEventAction, buttons: u32) -> TouchEvent {
    TouchEvent {
        action,
        pointer_id: -1,
        x: 960,  // 0.5 * 1920
        y: 540,  // 0.5 * 1080
        pressure: 0xFFFF,  // 1.0 * 0xFFFF
        width: 1920,
        height: 1080,
        buttons,
    }
}

#[test]
fn test_touch_encoding_mouse_down_bit_exact() {
    let msg = encode_touch_event(&mouse_touch(AndroidMotionEventAction::Down, 1));
    let expected: Vec<u8> = vec![
        0x02, // type = InjectTouch
        0x00, // action = down
        0xff, 0xff, 0xff, 0xff, 0xff, 0xff, 0xff, 0xff, // pointer_id = -1
        0x00, 0x00, 0x03, 0xc0, // x = 960
        0x00, 0x00, 0x02, 0x1c, // y = 540
        0x07, 0x80, // width = 1920
        0x04, 0x38, // height = 1080
        0xff, 0xff, // pressure = 1.0
        0x00, 0x00, 0x00, 0x01, // action_button = 1 (mouse)
        0x00, 0x00, 0x00, 0x01, // buttons = 1 (held)
    ];
    assert_eq!(msg, expected);
}

#[test]
fn test_touch_encoding_mouse_buttons_ignore_input() {
    // In mouse mode the buttons field follows the action, not the input.
    let with0 = encode_touch_event(&mouse_touch(AndroidMotionEventAction::Down, 0));
    let with1 = encode_touch_event(&mouse_touch(AndroidMotionEventAction::Down, 1));
    assert_eq!(with0, with1);
    let up = encode_touch_event(&mouse_touch(AndroidMotionEventAction::Up, 1));
    assert_eq!(&up[28..32], &[0x00, 0x00, 0x00, 0x00]);
    assert_eq!(&up[24..28], &[0x00, 0x00, 0x00, 0x01]);
}

#[test]
fn test_touch_encoding_finger_mode() {
    let mut e = mouse_touch(AndroidMotionEventAction::Down, 1);
    e.pointer_id = 0;
    let msg = encode_touch_event(&e);
    assert_eq!(msg.len(), 32);
    assert_eq!(&msg[2..10], &[0, 0, 0, 0, 0, 0, 0, 0]);
    assert_eq!(&msg[24..28], &[0, 0, 0, 0]); // action_button = 0
    assert_eq!(&msg[28..32], &[0, 0, 0, 0]); // buttons = 0
}

#[test]
fn test_key_encoding_exact() {
    let msg = encode_key_event(&KeyEvent {
        action: AndroidKeyEventAction::Down,
        keycode: 66,
        repeat: 0,
        metastate: 1,
    });
    let expected: Vec<u8> = vec![
        0x00, // type = InjectKeycode
        0x00, // action = down
        0x00, 0x00, 0x00, 0x42, // keycode = 66
        0x00, 0x00, 0x00, 0x00, // repeat
        0x00, 0x00, 0x00, 0x01, // metastate
    ];
    assert_eq!(msg, expected);
}

#[test]
fn test_scroll_quantization() {
    assert_eq!(scroll_quantize(1), 0x0800);
    assert_eq!(scroll_quantize(-1) as u16, 0xF800);
    assert_eq!(scroll_quantize(0), 0);
    assert_eq!(scroll_quantize(100), 32767); // clamped
    assert_eq!(scroll_quantize(-100), -32768); // clamped
}

#[test]
fn test_scroll_encoding_exact() {
    let msg = encode_scroll_event(&ScrollEvent {
        x: 960,
        y: 540,
        width: 1920,
        height: 1080,
        hscroll: 0,
        vscroll: 1,
    });
    let expected: Vec<u8> = vec![
        0x03, // type = InjectScroll
        0x00, 0x00, 0x03, 0xc0, // x
        0x00, 0x00, 0x02, 0x1c, // y
        0x07, 0x80, // width
        0x04, 0x38, // height
        0x00, 0x00, // hscroll_q11 = 0
        0x08, 0x00, // vscroll_q11 = 0x0800
        0x00, 0x00, 0x00, 0x00, // buttons
    ];
    assert_eq!(msg, expected);
    let down = encode_scroll_event(&ScrollEvent {
        x: 0,
        y: 0,
        width: 1920,
        height: 1080,
        hscroll: 0,
        vscroll: -1,
    });
    assert_eq!(&down[15..17], &[0xF8, 0x00]);
}

#[test]
fn test_text_encoding() {
    let msg = encode_text_event("abc");
    let expected: Vec<u8> = vec![0x01, 0x00, 0x00, 0x00, 0x03, b'a', b'b', b'c'];
    assert_eq!(msg, expected);
    let empty = encode_text_event("");
    assert_eq!(empty, vec![0x01, 0, 0, 0, 0]);
}

#[test]
fn test_clipboard_encoding() {
    let msg = encode_clipboard_event("hi", true);
    let expected: Vec<u8> = vec![
        0x08, // type = SetClipboard
        0, 0, 0, 0, 0, 0, 0, 0, // sequence = 0
        0x01, // paste
        0, 0, 0, 2, // length
        b'h', b'i',
    ];
    assert_eq!(msg, expected);
    let nopaste = encode_clipboard_event("hi", false);
    assert_eq!(nopaste[9], 0x00);
}

#[test]
fn test_back_and_home_keys() {
    let back = encode_back_key();
    assert_eq!(back.len(), 28);
    assert_eq!(back[0], 0x00);
    assert_eq!(back[1], 0x00); // down
    assert_eq!(&back[2..6], &[0, 0, 0, 4]); // KEYCODE_BACK
    assert_eq!(back[15], 0x01); // up
    assert_eq!(&back[16..20], &[0, 0, 0, 4]);
    let home = encode_home_key();
    assert_eq!(&home[2..6], &[0, 0, 0, 3]); // KEYCODE_HOME
}

#[test]
fn test_event_stream_is_concatenation_in_order() {
    let key = KeyEvent { action: AndroidKeyEventAction::Down, keycode: 4, repeat: 0, metastate: 0 };
    let scroll = ScrollEvent { x: 1, y: 2, width: 10, height: 20, hscroll: 0, vscroll: 1 };
    let text = TextEvent { text: String::from("ok") };
    let clip = ClipboardEvent { text: String::from("c"), paste: false };
    let touch = mouse_touch(AndroidMotionEventAction::Move, 1);
    let events = vec![
        ControlEvent::Key(key),
        ControlEvent::Touch(touch),
        ControlEvent::Text(text.clone()),
        ControlEvent::Scroll(scroll),
        ControlEvent::Clipboard(clip.clone()),
    ];
    let combined = encode_control_events(&events);
    let mut expected: Vec<u8> = Vec::new();
    for e in &events {
        expected.extend_from_slice(&encode_control_event(e));
    }
    assert_eq!(combined, expected);
    // sizes per the wire table: key 14, touch 32, text 5+2, scroll 21, clip 14+1
    assert_eq!(combined.len(), 14 + 32 + 7 + 21 + 15);
}

#[test]
fn test_action_codes_round_trip() {
    for v in 0u8..=11 {
        match AndroidMotionEventAction::from_code(v) {
            Some(a) => assert_eq!(a.code(), v),
            None => assert!(matches!(v, 4 | 8 | 11)),
        }
    }
    assert!(AndroidMotionEventAction::from_code(4).is_none());
    assert!(AndroidKeyEventAction::from_code(0).is_some());
    assert!(AndroidKeyEventAction::from_code(1).is_some());
    assert!(AndroidKeyEventAction::from_code(2).is_none());
}

#[test]
fn test_message_type_codes() {
    assert_eq!(ControlMessageType::InjectKeycode.code(), 0);
    assert_eq!(ControlMessageType::InjectText.code(), 1);
    assert_eq!(ControlMessageType::InjectTouch.code(), 2);
    assert_eq!(ControlMessageType::InjectScroll.code(), 3);
    assert_eq!(ControlMessageType::SetClipboard.code(), 8);
    assert_eq!(ControlMessageType::StartApp.code(), 15);
}
