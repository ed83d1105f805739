use std::path::PathBuf;
use scrcpy_ws::device::{
    AdbClient, Device, parse_device_line, parse_device_list, parse_wm_size, select_device,
};
use scrcpy_ws::error::ScrcpyError;

#[test]
fn test_parse_wm_size_typical() {
    let r = parse_wm_size("Physical size: 1440x2960\n");
    assert_eq!(r.unwrap(), (1440, 2960));
}

#[test]
fn test_parse_wm_size_padded() {
    let r = parse_wm_size("  Physical size: 1080x1920  \r\n");
    assert_eq!(r.unwrap(), (1080, 1920));
}

#[test]
fn test_parse_wm_size_malformed() {
    assert!(matches!(parse_wm_size(""), Err(ScrcpyError::Parse(_))));
    assert!(matches!(parse_wm_size("Override size: 1440x2960"), Err(ScrcpyError::Parse(_))));
    assert!(matches!(parse_wm_size("Physical size: 1440"), Err(ScrcpyError::Parse(_))));
    assert!(matches!(parse_wm_size("Physical size: ax2960"), Err(ScrcpyError::Parse(_))));
    assert!(matches!(parse_wm_size("Physical size: 1440x"), Err(ScrcpyError::Parse(_))));
    assert!(matches!(parse_wm_size("Physical size: 1x2x3"), Err(ScrcpyError::Parse(_))));
    assert!(matches!(
        parse_wm_size("Physical size: 99999999999x10"),
        Err(ScrcpyError::Parse(_))
    ));
}

#[test]
fn test_parse_device_line_states() {
    assert_eq!(parse_device_line("emulator-5554\tdevice"), Some(String::from("emulator-5554")));
    assert_eq!(
        parse_device_line("R58M123ABC     device usb:1-1 product:beyond1"),
        Some(String::from("R58M123ABC"))
    );
    assert_eq!(parse_device_line("emulator-5554\toffline"), None);
    assert_eq!(parse_device_line("emulator-5554\tunauthorized"), None);
    assert_eq!(parse_device_line(""), None);
    assert_eq!(parse_device_line("   "), None);
    assert_eq!(parse_device_line("lonely-serial"), None);
}

#[test]
fn test_parse_device_list_skips_heading() {
    let lines = vec![
        String::from("List of devices attached"),
        String::from("emulator-5554\tdevice"),
        String::from("R58M123ABC\tunauthorized"),
        String::from("0123456789\tdevice"),
        String::from(""),
    ];
    let devices = parse_device_list(&lines);
    assert_eq!(devices, vec![String::from("emulator-5554"), String::from("0123456789")]);
}

#[test]
fn test_parse_device_list_heading_only() {
    let lines = vec![String::from("List of devices attached")];
    assert!(parse_device_list(&lines).is_empty());
}

#[test]
fn test_select_device_choices() {
    let devices = vec![String::from("a1"), String::from("b2")];
    assert_eq!(select_device(&devices, &None).unwrap(), "a1");
    assert_eq!(select_device(&devices, &Some(String::from("b2"))).unwrap(), "b2");
    assert!(matches!(
        select_device(&devices, &Some(String::from("zz"))),
        Err(ScrcpyError::DeviceNotFound)
    ));
    let empty: Vec<String> = Vec::new();
    assert!(matches!(select_device(&empty, &None), Err(ScrcpyError::DeviceNotFound)));
}

#[test]
fn test_device_constructors() {
    let d = Device::new(String::from("serial-1"));
    assert_eq!(d.id, "serial-1");
    assert!(d.model.is_none());
    assert!(d.android_version.is_none());
    assert!(d.screen_size.is_none());
    let d = Device::with_info(
        String::from("serial-2"),
        String::from("Pixel 6"),
        String::from("14"),
        (1080, 2400),
    );
    assert_eq!(d.id, "serial-2");
    assert_eq!(d.model.as_deref(), Some("Pixel 6"));
    assert_eq!(d.android_version.as_deref(), Some("14"));
    assert_eq!(d.screen_size, Some((1080, 2400)));
}

#[test]
fn test_adb_client_keeps_path() {
    let client = AdbClient::new(PathBuf::from("/usr/bin/adb"));
    assert_eq!(client.adb_path, PathBuf::from("/usr/bin/adb"));
}

#[test]
fn test_error_kind_names() {
    assert_eq!(ScrcpyError::DeviceNotFound.kind_name(), "Device not found");
    assert_eq!(ScrcpyError::Parse(String::from("x")).kind_name(), "Parse error");
    assert_eq!(ScrcpyError::NoAvailablePort(1, 2).kind_name(), "No available port found");
    assert_eq!(ScrcpyError::Bridge(String::from("boom")).kind_name(), "Bridge error");
    assert_eq!(ScrcpyError::Io(String::from("io")).kind_name(), "IO error");
    assert_eq!(ScrcpyError::Network(String::from("n")).kind_name(), "Network error");
    assert_eq!(ScrcpyError::VideoStream(String::from("v")).kind_name(), "Video stream error");
}
