use netsim::session::{SessionEvent, SessionStats};

#[test]
fn test_session_counts_devices() {
    let mut s = SessionStats::<u8>::new("1.0".to_string());
    assert_eq!(s.version(), "1.0");
    assert_eq!(s.on_event(SessionEvent::DeviceAdded, 1), None);
    assert_eq!(s.on_event(SessionEvent::DeviceAdded, 2), None);
    assert_eq!((s.current_device_count(), s.device_count(), s.peak_concurrent_devices()), (2, 2, 2));
    assert_eq!(s.on_event(SessionEvent::DeviceRemoved, 3), None);
    assert_eq!(s.on_event(SessionEvent::DeviceAdded, 4), None);
    assert_eq!((s.current_device_count(), s.device_count(), s.peak_concurrent_devices()), (2, 3, 2));
    assert_eq!(s.on_event(SessionEvent::DeviceAdded, 5), None);
    assert_eq!((s.current_device_count(), s.device_count(), s.peak_concurrent_devices()), (3, 4, 3));
    assert_eq!(s.on_event(SessionEvent::Other, 6), None);
    assert_eq!(s.duration_secs(), None);
}

#[test]
fn test_session_keeps_radio_stats_and_shuts_down() {
    let mut s = SessionStats::<u8>::new("v".to_string());
    assert_eq!(s.on_event(SessionEvent::ChipRemoved { device_id: 4, radio_stats: vec![10, 11] }, 1), None);
    assert_eq!(s.on_event(SessionEvent::ChipRemoved { device_id: 5, radio_stats: vec![12] }, 2), None);
    assert_eq!(s.radio_stats(), &vec![(4, 10), (4, 11), (5, 12)]);
    assert_eq!(s.on_event(SessionEvent::ShutDown("done".to_string()), 42), Some("done".to_string()));
    assert_eq!(s.duration_secs(), Some(42));
}
