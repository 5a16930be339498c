use netsim::routes::{route_capture, route_device, str_eq, CaptureRoute, DeviceRoute};
use netsim::text::parse_decimal_str;

#[test]
fn test_str_eq() {
    assert!(str_eq("GET", "GET"));
    assert!(!str_eq("GET", "GE"));
    assert!(!str_eq("GET", "PUT"));
    assert!(str_eq("", ""));
}

#[test]
fn test_parse_decimal_str() {
    assert_eq!(parse_decimal_str("1000", u32::MAX as u64), Some(1000));
    assert_eq!(parse_decimal_str("+7", u32::MAX as u64), Some(7));
    assert_eq!(parse_decimal_str("4294967295", u32::MAX as u64), Some(4294967295));
    assert_eq!(parse_decimal_str("4294967296", u32::MAX as u64), None);
    assert_eq!(parse_decimal_str("", u32::MAX as u64), None);
    assert_eq!(parse_decimal_str("+", u32::MAX as u64), None);
    assert_eq!(parse_decimal_str("-1", u32::MAX as u64), None);
    assert_eq!(parse_decimal_str("12a", u32::MAX as u64), None);
    // The same inputs as the standard parser.
    for s in ["0", "007", "+0", "99999999999", " 1", "1 "] {
        assert_eq!(parse_decimal_str(s, u32::MAX as u64), s.parse::<u32>().ok().map(|v| v as u64));
    }
}

#[test]
fn test_route_capture() {
    assert_eq!(route_capture("GET", "/v1/captures", "", ""), CaptureRoute::List);
    assert_eq!(
        route_capture("PUT", "/v1/captures", "", ""),
        CaptureRoute::Error("Not found.".to_string())
    );
    assert_eq!(route_capture("GET", "/v1/captures/1000", "1000", ""), CaptureRoute::Get(1000));
    assert_eq!(
        route_capture("GET", "/v1/captures/x", "x", ""),
        CaptureRoute::Error("Incorrect ID type for capture, ID should be u32.".to_string())
    );
    assert_eq!(route_capture("PATCH", "/v1/captures/5", "5", "1"), CaptureRoute::Patch(5, true));
    assert_eq!(route_capture("PATCH", "/v1/captures/5", "5", "2"), CaptureRoute::Patch(5, false));
    assert_eq!(
        route_capture("PATCH", "/v1/captures/5", "5", "3"),
        CaptureRoute::Error("Incorrect state for PatchCapture".to_string())
    );
    assert_eq!(
        route_capture("DELETE", "/v1/captures/5", "5", ""),
        CaptureRoute::Error("Not found.".to_string())
    );
}

#[test]
fn test_route_device() {
    assert_eq!(route_device("GET", "/v1/devices", "", ""), DeviceRoute::List);
    assert_eq!(route_device("PUT", "/v1/devices", "", ""), DeviceRoute::Reset);
    assert_eq!(
        route_device("SUBSCRIBE", "/v1/devices", "", "{}"),
        DeviceRoute::Subscribe("{}".to_string())
    );
    assert_eq!(
        route_device("PATCH", "/v1/devices", "", "{\"a\":1}"),
        DeviceRoute::Patch(None, "{\"a\":1}".to_string())
    );
    assert_eq!(route_device("POST", "/v1/devices", "", "b"), DeviceRoute::Create("b".to_string()));
    assert_eq!(route_device("DELETE", "/v1/devices", "", "c"), DeviceRoute::DeleteChip("c".to_string()));
    assert_eq!(
        route_device("HEAD", "/v1/devices", "", ""),
        DeviceRoute::Error("Not found.".to_string())
    );
    assert_eq!(
        route_device("PATCH", "/v1/devices/3", "3", "d"),
        DeviceRoute::Patch(Some(3), "d".to_string())
    );
    assert_eq!(
        route_device("PATCH", "/v1/devices/z", "z", "d"),
        DeviceRoute::Error("Incorrect Id type for devices, ID should be u32.".to_string())
    );
    assert_eq!(
        route_device("GET", "/v1/devices/3", "3", ""),
        DeviceRoute::Error("Not found.".to_string())
    );
}
