//! The statistics of a daemon session, kept from the device events: how
//! many devices are connected, how many were started, the most at once, the
//! radio statistics of the chips that went away, and how long the session
//! lasted. The events are received by the caller, which hands each to
//! `SessionStats::on_event` until it says that the session is over.

use vstd::prelude::*;

verus! {

/// What the session statistics learn from an event; `R` holds the
/// statistics of a radio.
pub enum SessionEvent<R> {
    /// The daemon shuts down, for this reason.
    ShutDown(String),
    /// A device was added.
    DeviceAdded,
    /// A device was removed.
    DeviceRemoved,
    /// A chip of the device was removed, with the statistics of its radios.
    ChipRemoved { device_id: u32, radio_stats: Vec<R> },
    /// Any other event.
    Other,
}

/// The statistics of a session.
pub struct SessionStats<R> {
    /// The daemon's version.
    version: String,
    /// The devices connected now.
    current_device_count: i32,
    /// The devices started in the session.
    device_count: i32,
    /// The most devices connected at once.
    peak_concurrent_devices: i32,
    /// The radio statistics of the chips removed, each with its device.
    radio_stats: Vec<(u32, R)>,
    /// How long the session lasted, once it is over.
    duration_secs: Option<u64>,
}

/// The radio statistics of a removed chip, each tagged with the device.
pub open spec fn tagged<R>(device_id: u32, stats: Seq<R>) -> Seq<(u32, R)> {
    Seq::new(stats.len(), |i: int| (device_id, stats[i]))
}

impl<R> SessionStats<R> {
    /// The daemon's version.
    pub closed spec fn version_text(&self) -> Seq<char> {
        self.version@
    }

    pub closed spec fn current(&self) -> int {
        self.current_device_count as int
    }

    pub closed spec fn started(&self) -> int {
        self.device_count as int
    }

    pub closed spec fn peak(&self) -> int {
        self.peak_concurrent_devices as int
    }

    pub closed spec fn radios(&self) -> Seq<(u32, R)> {
        self.radio_stats@
    }

    pub closed spec fn duration(&self) -> Option<u64> {
        self.duration_secs
    }

    /// The peak is no fewer than the devices connected now, and no more
    /// than the devices started, which are never negative.
    pub open spec fn wf(&self) -> bool {
        &&& self.current() <= self.peak()
        &&& 0 <= self.peak() <= self.started()
    }

    /// Whether an event can be counted without leaving the range of the
    /// counters.
    pub open spec fn can_count(&self, event: SessionEvent<R>) -> bool {
        match event {
            SessionEvent::DeviceAdded => self.started() < i32::MAX,
            SessionEvent::DeviceRemoved => self.current() > i32::MIN,
            _ => true,
        }
    }

    /// A session that has seen no event.
    pub fn new(version: String) -> (r: Self)
        ensures
            r.wf(),
            r.version_text() == version@,
            r.current() == 0,
            r.started() == 0,
            r.peak() == 0,
            r.radios() == Seq::<(u32, R)>::empty(),
            r.duration() is None,
    {
        SessionStats {
            version,
            current_device_count: 0,
            device_count: 0,
            peak_concurrent_devices: 0,
            radio_stats: Vec::new(),
            duration_secs: None,
        }
    }

    /// Counts an event; `elapsed_secs` is how long the session has lasted.
    /// A shutdown records that duration and returns its reason: the session
    /// is over. An added device counts as connected and as started, and
    /// raises the peak where it exceeds it; a removed one is no longer
    /// connected; a removed chip's radio statistics are kept, tagged with its
    /// device. Other events change nothing.
    pub fn on_event(&mut self, event: SessionEvent<R>, elapsed_secs: u64) -> (r: Option<String>)
        requires
            old(self).wf(),
            old(self).can_count(event),
        ensures
            final(self).wf(),
            final(self).version_text() == old(self).version_text(),
            match event {
                SessionEvent::ShutDown(reason) => {
                    &&& r == Some(reason)
                    &&& final(self).duration() == Some(elapsed_secs)
                    &&& final(self).current() == old(self).current()
                    &&& final(self).started() == old(self).started()
                    &&& final(self).peak() == old(self).peak()
                    &&& final(self).radios() == old(self).radios()
                },
                SessionEvent::DeviceAdded => {
                    &&& r is None
                    &&& final(self).current() == old(self).current() + 1
                    &&& final(self).started() == old(self).started() + 1
                    &&& final(self).peak() == if old(self).current() + 1 > old(self).peak() {
                        old(self).current() + 1
                    } else {
                        old(self).peak()
                    }
                    &&& final(self).radios() == old(self).radios()
                    &&& final(self).duration() == old(self).duration()
                },
                SessionEvent::DeviceRemoved => {
                    &&& r is None
                    &&& final(self).current() == old(self).current() - 1
                    &&& final(self).started() == old(self).started()
                    &&& final(self).peak() == old(self).peak()
                    &&& final(self).radios() == old(self).radios()
                    &&& final(self).duration() == old(self).duration()
                },
                SessionEvent::ChipRemoved { device_id, radio_stats } => {
                    &&& r is None
                    &&& final(self).current() == old(self).current()
                    &&& final(self).started() == old(self).started()
                    &&& final(self).peak() == old(self).peak()
                    &&& final(self).radios() == old(self).radios() + tagged(
                        device_id,
                        radio_stats@,
                    )
                    &&& final(self).duration() == old(self).duration()
                },
                SessionEvent::Other => {
                    &&& r is None
                    &&& final(self).current() == old(self).current()
                    &&& final(self).started() == old(self).started()
                    &&& final(self).peak() == old(self).peak()
                    &&& final(self).radios() == old(self).radios()
                    &&& final(self).duration() == old(self).duration()
                },
            },
    {
        match event {
            SessionEvent::ShutDown(reason) => {
                self.duration_secs = Some(elapsed_secs);
                Some(reason)
            },
            SessionEvent::DeviceRemoved => {
                self.current_device_count = self.current_device_count - 1;
                None
            },
            SessionEvent::DeviceAdded => {
                self.current_device_count = self.current_device_count + 1;
                self.device_count = self.device_count + 1;
                if self.current_device_count > self.peak_concurrent_devices {
                    self.peak_concurrent_devices = self.current_device_count;
                }
                None
            },
            SessionEvent::ChipRemoved { device_id, radio_stats } => {
                let ghost start = self.radio_stats@;
                let mut stats = radio_stats;
                let ghost all = stats@;
                let mut moved: Vec<(u32, R)> = Vec::new();
                let mut i: usize = 0;
                let n = stats.len();
                // Tag each radio's statistics with the device, in order.
                while i < n
                    invariant
                        n == all.len(),
                        i <= n,
                        stats@ == all.skip(i as int),
                        moved@ == tagged(device_id, all.take(i as int)),
                    decreases n - i,
                {
                    let r = stats.remove(0);
                    proof {
                        assert(r == all[i as int]);
                    }
                    moved.push((device_id, r));
                    i = i + 1;
                    assert(moved@ =~= tagged(device_id, all.take(i as int)));
                    assert(stats@ =~= all.skip(i as int));
                }
                assert(all.take(n as int) =~= all);
                self.radio_stats.append(&mut moved);
                assert(self.radio_stats@ =~= start + tagged(device_id, all));
                None
            },
            SessionEvent::Other => None,
        }
    }

    /// The daemon's version.
    pub fn version(&self) -> (r: &String)
        ensures
            r@ == self.version_text(),
    {
        &self.version
    }

    /// The devices connected now.
    pub fn current_device_count(&self) -> (r: i32)
        ensures
            r == self.current(),
    {
        self.current_device_count
    }

    /// The devices started in the session.
    pub fn device_count(&self) -> (r: i32)
        ensures
            r == self.started(),
    {
        self.device_count
    }

    /// The most devices connected at once.
    pub fn peak_concurrent_devices(&self) -> (r: i32)
        ensures
            r == self.peak(),
    {
        self.peak_concurrent_devices
    }

    /// How long the session lasted, once it is over.
    pub fn duration_secs(&self) -> (r: Option<u64>)
        ensures
            r == self.duration(),
    {
        self.duration_secs
    }

    /// The radio statistics kept, each with its device, in the order of the
    /// removals.
    pub fn radio_stats(&self) -> (r: &Vec<(u32, R)>)
        ensures
            r@ == self.radios(),
    {
        &self.radio_stats
    }
}

} // verus!
