use netsim::shutdown::{check_device_event, next_action, DeviceEvent, DeviceWaitStatus, ShutdownWatch, WaitAction};

#[test]
fn test_check_device_event() {
    assert_eq!(
        check_device_event(Some(DeviceEvent::ChipRemoved { remaining_nonbuiltin_devices: 0 })),
        DeviceWaitStatus::LastDeviceRemoved
    );
    assert_eq!(
        check_device_event(Some(DeviceEvent::ChipRemoved { remaining_nonbuiltin_devices: 1 })),
        DeviceWaitStatus::IgnoreEvent
    );
    assert_eq!(check_device_event(Some(DeviceEvent::DeviceAdded { builtin: false })), DeviceWaitStatus::DeviceAdded);
    assert_eq!(check_device_event(Some(DeviceEvent::ChipAdded { builtin: false })), DeviceWaitStatus::DeviceAdded);
    assert_eq!(check_device_event(Some(DeviceEvent::ChipAdded { builtin: true })), DeviceWaitStatus::IgnoreEvent);
    assert_eq!(check_device_event(Some(DeviceEvent::Other)), DeviceWaitStatus::IgnoreEvent);
    assert_eq!(check_device_event(None), DeviceWaitStatus::Timeout);
}

#[test]
fn test_next_action() {
    match next_action(DeviceWaitStatus::LastDeviceRemoved) {
        WaitAction::ShutDown(m) => assert_eq!(m, "last device disconnected"),
        _ => panic!("expected a shutdown"),
    }
    match next_action(DeviceWaitStatus::Timeout) {
        WaitAction::ShutDown(m) => assert_eq!(m, "no devices connected within 15s"),
        _ => panic!("expected a shutdown"),
    }
    assert!(matches!(next_action(DeviceWaitStatus::DeviceAdded), WaitAction::CancelTimeout));
    assert!(matches!(next_action(DeviceWaitStatus::IgnoreEvent), WaitAction::Continue));
}

#[test]
fn test_check_device_event_initial_timeout() {
    assert_eq!(check_device_event(None), DeviceWaitStatus::Timeout);
}

#[test]
fn test_check_device_event_last_device_removed() {
    assert_eq!(
        check_device_event(Some(DeviceEvent::ChipRemoved { remaining_nonbuiltin_devices: 0 })),
        DeviceWaitStatus::LastDeviceRemoved
    );
}

#[test]
fn test_check_device_event_device_chip_added() {
    assert_eq!(check_device_event(Some(DeviceEvent::DeviceAdded { builtin: false })), DeviceWaitStatus::DeviceAdded);
    assert_eq!(check_device_event(Some(DeviceEvent::ChipAdded { builtin: false })), DeviceWaitStatus::DeviceAdded);
}

#[test]
fn test_check_device_event_ignore_event() {
    assert_eq!(check_device_event(Some(DeviceEvent::Other)), DeviceWaitStatus::IgnoreEvent);
    assert_eq!(
        check_device_event(Some(DeviceEvent::ChipRemoved { remaining_nonbuiltin_devices: 1 })),
        DeviceWaitStatus::IgnoreEvent
    );
}

#[test]
fn test_check_device_event_ignore_chip_added_for_builtin() {
    assert_eq!(check_device_event(Some(DeviceEvent::ChipAdded { builtin: true })), DeviceWaitStatus::IgnoreEvent);
}

// The waiting of the shutdown publisher, driven by the events that its
// thread would receive: `None` for a wait that ran out.

#[test]
fn test_spawn_shutdown_publisher_last_chip_removed() {
    let mut watch = ShutdownWatch::new();
    let published = watch.step(Some(DeviceEvent::ChipRemoved { remaining_nonbuiltin_devices: 0 }));
    assert_eq!(published, Some("last device disconnected".to_string()));
    assert!(watch.stopped);
}

#[test]
fn test_spawn_shutdown_publisher_chip_removed_which_is_not_last_chip() {
    let mut watch = ShutdownWatch::new();
    assert_eq!(watch.step(Some(DeviceEvent::ChipRemoved { remaining_nonbuiltin_devices: 1 })), None);
    assert!(!watch.stopped);
    assert_eq!(
        watch.step(Some(DeviceEvent::ChipRemoved { remaining_nonbuiltin_devices: 0 })),
        Some("last device disconnected".to_string())
    );
}

#[test]
fn test_spawn_shutdown_publisher_last_chip_removed_with_duplicate_event() {
    let mut watch = ShutdownWatch::new();
    assert!(watch.step(Some(DeviceEvent::ChipRemoved { remaining_nonbuiltin_devices: 0 })).is_some());
    // The waiting has stopped: the duplicate event is not read any more.
    assert!(watch.stopped);
}

#[test]
fn test_spawn_shutdown_publisher_timeout() {
    let mut watch = ShutdownWatch::new();
    assert_eq!(watch.step(None), Some("no devices connected within 15s".to_string()));
}

#[test]
fn test_spawn_shutdown_publisher_timeout_is_canceled_if_a_chip_is_added() {
    let mut watch = ShutdownWatch::new();
    assert_eq!(watch.step(Some(DeviceEvent::ChipAdded { builtin: false })), None);
    // No idle timeout any more: the next wait has no deadline.
    assert!(!watch.timeout_armed);
    assert_eq!(
        watch.step(Some(DeviceEvent::ChipRemoved { remaining_nonbuiltin_devices: 0 })),
        Some("last device disconnected".to_string())
    );
}
