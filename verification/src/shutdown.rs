//! When the daemon shuts itself down: after the last device that is not
//! built in goes away, or when no device arrives within the idle time.
//! The waiting and the publishing are done by the caller; this module
//! decides.

use crate::text::{decimal, push_decimal, push_str};
use vstd::prelude::*;

verus! {

/// Seconds that the daemon waits for a first device.
pub const IDLE_SECS_FOR_SHUTDOWN: u64 = 15;

/// What the device events that the waiting reads say.
#[derive(Clone, Copy, PartialEq, Eq, Structural, Debug)]
pub enum DeviceEvent {
    /// A chip was removed; the devices that remain and are not built in.
    ChipRemoved { remaining_nonbuiltin_devices: usize },
    /// A device was created.
    DeviceAdded { builtin: bool },
    /// A chip was added to a device.
    ChipAdded { builtin: bool },
    /// Any other event.
    Other,
}

/// What an event, or the lack of one, means for the waiting.
#[derive(Clone, Copy, PartialEq, Eq, Structural, Debug)]
pub enum DeviceWaitStatus {
    LastDeviceRemoved,
    DeviceAdded,
    Timeout,
    IgnoreEvent,
}

/// What the waiting does next.
#[derive(Debug)]
pub enum WaitAction {
    /// Publish a shutdown with the reason, and stop waiting.
    ShutDown(String),
    /// Stop the idle timeout, and wait on.
    CancelTimeout,
    /// Wait on.
    Continue,
}

/// The status of a received event; `None` when the wait timed out or the
/// events stopped.
pub open spec fn wait_status(received: Option<DeviceEvent>) -> DeviceWaitStatus {
    match received {
        Some(DeviceEvent::ChipRemoved { remaining_nonbuiltin_devices }) => if remaining_nonbuiltin_devices == 0 {
            DeviceWaitStatus::LastDeviceRemoved
        } else {
            DeviceWaitStatus::IgnoreEvent
        },
        Some(DeviceEvent::DeviceAdded { builtin }) => if !builtin {
            DeviceWaitStatus::DeviceAdded
        } else {
            DeviceWaitStatus::IgnoreEvent
        },
        Some(DeviceEvent::ChipAdded { builtin }) => if !builtin {
            DeviceWaitStatus::DeviceAdded
        } else {
            DeviceWaitStatus::IgnoreEvent
        },
        Some(DeviceEvent::Other) => DeviceWaitStatus::IgnoreEvent,
        None => DeviceWaitStatus::Timeout,
    }
}

/// Classifies a received event (see `wait_status`).
pub fn check_device_event(received: Option<DeviceEvent>) -> (r: DeviceWaitStatus)
    ensures
        r == wait_status(received),
{
    match received {
        Some(DeviceEvent::ChipRemoved { remaining_nonbuiltin_devices }) => if remaining_nonbuiltin_devices == 0 {
            DeviceWaitStatus::LastDeviceRemoved
        } else {
            DeviceWaitStatus::IgnoreEvent
        },
        Some(DeviceEvent::DeviceAdded { builtin }) => if !builtin {
            DeviceWaitStatus::DeviceAdded
        } else {
            DeviceWaitStatus::IgnoreEvent
        },
        Some(DeviceEvent::ChipAdded { builtin }) => if !builtin {
            DeviceWaitStatus::DeviceAdded
        } else {
            DeviceWaitStatus::IgnoreEvent
        },
        Some(DeviceEvent::Other) => DeviceWaitStatus::IgnoreEvent,
        None => DeviceWaitStatus::Timeout,
    }
}

/// The reason given when no device arrived in time.
pub open spec fn idle_reason() -> Seq<char> {
    "no devices connected within "@ + decimal(IDLE_SECS_FOR_SHUTDOWN as nat) + "s"@
}

/// What the waiting does on a status: shut down after the last device, or
/// after the wait ran out; cancel the idle timeout once a device came;
/// otherwise wait on.
pub fn next_action(status: DeviceWaitStatus) -> (r: WaitAction)
    ensures
        match status {
            DeviceWaitStatus::LastDeviceRemoved => r matches WaitAction::ShutDown(m) && m@ == "last device disconnected"@,
            DeviceWaitStatus::Timeout => r matches WaitAction::ShutDown(m) && m@ == idle_reason(),
            DeviceWaitStatus::DeviceAdded => r is CancelTimeout,
            DeviceWaitStatus::IgnoreEvent => r is Continue,
        },
{
    match status {
        DeviceWaitStatus::LastDeviceRemoved => {
            let mut m = String::new();
            push_str(&mut m, "last device disconnected");
            assert(m@ =~= "last device disconnected"@);
            WaitAction::ShutDown(m)
        },
        DeviceWaitStatus::Timeout => {
            let mut m = String::new();
            push_str(&mut m, "no devices connected within ");
            proof {
                crate::text::lemma_decimal_nonempty(IDLE_SECS_FOR_SHUTDOWN as nat);
            }
            push_decimal(&mut m, IDLE_SECS_FOR_SHUTDOWN, 0);
            push_str(&mut m, "s");
            assert(m@ =~= idle_reason());
            WaitAction::ShutDown(m)
        },
        DeviceWaitStatus::DeviceAdded => WaitAction::CancelTimeout,
        DeviceWaitStatus::IgnoreEvent => WaitAction::Continue,
    }
}


/// The waiting for device events before a shutdown: whether the idle
/// timeout still runs, and whether the waiting has ended in a shutdown.
#[derive(Clone, Copy, Debug, PartialEq, Eq, Structural)]
pub struct ShutdownWatch {
    /// The idle timeout runs until a device comes.
    pub timeout_armed: bool,
    /// A shutdown was published; nothing more is waited for.
    pub stopped: bool,
}

impl ShutdownWatch {
    /// The waiting as it starts: the idle timeout runs.
    pub fn new() -> (r: Self)
        ensures
            r.timeout_armed,
            !r.stopped,
    {
        ShutdownWatch { timeout_armed: true, stopped: false }
    }

    /// Takes the outcome of one wait (an event, or `None` when the wait
    /// ran out or the events stopped) and returns the reason of the
    /// shutdown to publish, if it is one: the waiting then stops. A device
    /// that comes stops the idle timeout; other events change nothing.
    pub fn step(&mut self, received: Option<DeviceEvent>) -> (r: Option<String>)
        requires
            !old(self).stopped,
        ensures
            match wait_status(received) {
                DeviceWaitStatus::LastDeviceRemoved => (r matches Some(m) && m@
                    == "last device disconnected"@) && final(self).stopped
                    && final(self).timeout_armed == old(self).timeout_armed,
                DeviceWaitStatus::Timeout => (r matches Some(m) && m@ == idle_reason())
                    && final(self).stopped && final(self).timeout_armed == old(self).timeout_armed,
                DeviceWaitStatus::DeviceAdded => r is None && !final(self).stopped
                    && !final(self).timeout_armed,
                DeviceWaitStatus::IgnoreEvent => r is None && *final(self) == *old(self),
            },
    {
        match next_action(check_device_event(received)) {
            WaitAction::ShutDown(m) => {
                self.stopped = true;
                Some(m)
            },
            WaitAction::CancelTimeout => {
                self.timeout_armed = false;
                None
            },
            WaitAction::Continue => None,
        }
    }
}

} // verus!
