use vstd::prelude::*;
use crate::assoc::{assoc_index_of, assoc_lookup, assoc_contains, assoc_insert, assoc_remove,
    assoc_wf, lemma_assoc_index_of, lemma_assoc_insert, lemma_assoc_remove};
use crate::device::AdbDevice;
use crate::enums::{AdbDeviceStatus, AdbDeviceTransport};
use crate::errors::{AdbConnectionError, AdbServerError};
use vstd::string::StringExecFns;

verus! {

/// The serial a transport selection names, when it names one.
pub open spec fn transport_serial(t: AdbDeviceTransport) -> Option<Seq<char>> {
    match t {
        AdbDeviceTransport::Usb(serial) => Some(serial@),
        AdbDeviceTransport::Emulator(serial) => Some(serial@),
        _ => None,
    }
}

/// Whether a registry entry is selected by a transport: it must hold a
/// registered device that is available, of the matching kind, and under
/// the matching serial where one is named.
pub open spec fn entry_selected(
    entry: (Seq<char>, Option<AdbDevice>),
    t: AdbDeviceTransport,
) -> bool {
    match entry.1 {
        Some(device) => device.spec_status() is Available && match t {
            AdbDeviceTransport::Any => true,
            AdbDeviceTransport::EmulatorAny => device.spec_type() is Emulator,
            AdbDeviceTransport::UsbAny => device.spec_type() is Usb,
            AdbDeviceTransport::Emulator(serial) => device.spec_type() is Emulator && serial@
                == entry.0,
            AdbDeviceTransport::Usb(serial) => device.spec_type() is Usb && serial@ == entry.0,
        },
        None => false,
    }
}

/// The serials of the selected entries, in registry order.
pub open spec fn spec_selected_serials(
    s: Seq<(Seq<char>, Option<AdbDevice>)>,
    t: AdbDeviceTransport,
) -> Seq<Seq<char>>
    decreases s.len(),
{
    if s.len() == 0 {
        Seq::empty()
    } else {
        spec_selected_serials(s.drop_last(), t) + (if entry_selected(s.last(), t) {
            seq![s.last().0]
        } else {
            Seq::empty()
        })
    }
}

/// What looking a serial up in the registry owes a client: the serial
/// back when a registered device sits under it, a `DeviceNotFound` error
/// naming the serial when the slot is empty or missing.
pub open spec fn lookup_outcome(
    s: Seq<(Seq<char>, Option<AdbDevice>)>,
    serial: Seq<char>,
    r: Result<String, AdbServerError>,
) -> bool {
    match assoc_lookup(s, serial) {
        Some(Some(_)) => (r matches Ok(found) && found@ == serial),
        _ => (r matches Err(AdbServerError::DeviceNotFound(m)) && m@ == serial),
    }
}

/// The devices the server knows, by serial.  A serial enters as `None`
/// the moment discovery sees it, so parallel discovery cannot claim it
/// twice, and is upgraded to `Some` once the first auth attempt ends.
pub struct DeviceRegistry {
    entries: Vec<(String, Option<AdbDevice>)>,
}

impl DeviceRegistry {
    pub closed spec fn view(&self) -> Seq<(Seq<char>, Option<AdbDevice>)> {
        self.entries@.map_values(|e: (String, Option<AdbDevice>)| (e.0@, e.1))
    }

    pub open spec fn wf(&self) -> bool {
        assoc_wf(self.view())
    }

    pub fn new() -> (r: Self)
        ensures
            r.view() == Seq::<(Seq<char>, Option<AdbDevice>)>::empty(),
            r.wf(),
    {
        let r = DeviceRegistry { entries: Vec::new() };
        proof {
            assert(r.view() =~= Seq::<(Seq<char>, Option<AdbDevice>)>::empty());
        }
        r
    }

    fn position_of(&self, serial: &String) -> (r: usize)
        ensures
            r == assoc_index_of(self.view(), serial@, 0),
    {
        let mut i: usize = 0;
        while i < self.entries.len()
            invariant
                0 <= i <= self.entries@.len(),
                self.view().len() == self.entries@.len(),
                assoc_index_of(self.view(), serial@, 0) == assoc_index_of(
                    self.view(),
                    serial@,
                    i as int,
                ),
            decreases self.entries@.len() - i,
        {
            let eq = self.entries[i].0.eq(serial);
            proof {
                assert(self.view()[i as int].0 == self.entries@[i as int].0@);
            }
            if eq {
                return i;
            }
            i = i + 1;
        }
        i
    }

    /// Whether discovery has not seen this serial yet.
    pub fn is_new_device(&self, serial: &String) -> (r: bool)
        ensures
            r == !assoc_contains(self.view(), serial@),
    {
        self.position_of(serial) >= self.entries.len()
    }

    /// Records a serial (with no device yet, or with its device), taking
    /// the slot or replacing what was there.
    pub fn insert(&mut self, serial: String, device: Option<AdbDevice>)
        requires
            old(self).wf(),
        ensures
            final(self).view() == assoc_insert(old(self).view(), serial@, device),
            final(self).wf(),
    {
        proof {
            lemma_assoc_index_of(old(self).view(), serial@, 0);
        }
        let i = self.position_of(&serial);
        if i < self.entries.len() {
            let entry = &mut self.entries[i];
            entry.0 = serial;
            entry.1 = device;
            proof {
                assert(self.view() =~~= assoc_insert(old(self).view(), serial@, device));
                assert forall|p: int, q: int|
                    0 <= p < q < self.view().len() implies self.view()[p].0
                    != self.view()[q].0 by {
                    assert(old(self).view()[p].0 != old(self).view()[q].0);
                    assert(old(self).view()[i as int].0 == serial@);
                }
            }
        } else {
            self.entries.push((serial, device));
            proof {
                assert(self.view() =~~= assoc_insert(old(self).view(), serial@, device));
                assert forall|p: int, q: int|
                    0 <= p < q < self.view().len() implies self.view()[p].0
                    != self.view()[q].0 by {
                    if q == self.view().len() - 1 {
                        assert(old(self).view()[p].0 != serial@);
                    } else {
                        assert(old(self).view()[p].0 != old(self).view()[q].0);
                    }
                }
            }
        }
    }

    /// Forgets a serial entirely; the discovery loop may re-add it.
    pub fn remove(&mut self, serial: &String)
        requires
            old(self).wf(),
        ensures
            final(self).view() == assoc_remove(old(self).view(), serial@),
            final(self).wf(),
    {
        proof {
            lemma_assoc_index_of(old(self).view(), serial@, 0);
        }
        let i = self.position_of(serial);
        if i < self.entries.len() {
            let _ = self.entries.remove(i);
            proof {
                assert(self.view() =~~= assoc_remove(old(self).view(), serial@));
                lemma_assoc_remove(old(self).view(), serial@);
            }
        }
    }

    /// The slot for a serial: absent, claimed (`None`) or registered.
    pub fn get(&self, serial: &String) -> (r: Option<&Option<AdbDevice>>)
        ensures
            match r {
                Some(slot) => assoc_lookup(self.view(), serial@) == Some(*slot),
                None => assoc_lookup(self.view(), serial@) is None,
            },
    {
        let i = self.position_of(serial);
        if i < self.entries.len() {
            Some(&self.entries[i].1)
        } else {
            None
        }
    }

    /// Checks the registered device under a serial out of the registry,
    /// leaving its slot claimed; `put_device` checks it back in.
    pub fn take_device(&mut self, serial: &String) -> (r: Option<AdbDevice>)
        requires
            old(self).wf(),
        ensures
            final(self).wf(),
            match r {
                Some(d) => {
                    &&& assoc_lookup(old(self).view(), serial@) == Some(Some(d))
                    &&& final(self).view() == assoc_insert(
                        old(self).view(),
                        serial@,
                        None,
                    )
                },
                None => {
                    &&& final(self).view() == old(self).view()
                    &&& !(assoc_lookup(old(self).view(), serial@) matches Some(Some(_)))
                },
            },
    {
        proof {
            lemma_assoc_index_of(self.view(), serial@, 0);
        }
        let i = self.position_of(serial);
        if i < self.entries.len() {
            let entry = &mut self.entries[i];
            let taken = entry.1.take();
            match taken {
                Some(d) => {
                    proof {
                        assert(self.view() =~~= assoc_insert(
                            old(self).view(),
                            serial@,
                            None,
                        ));
                        assert forall|p: int, q: int|
                            0 <= p < q < self.view().len() implies self.view()[p].0
                            != self.view()[q].0 by {
                            assert(old(self).view()[p].0 != old(self).view()[q].0);
                        }
                    }
                    Some(d)
                },
                None => {
                    proof {
                        assert(self.view() =~~= old(self).view());
                    }
                    None
                },
            }
        } else {
            None
        }
    }

    /// Checks a device back into its serial's slot.
    pub fn put_device(&mut self, serial: String, device: AdbDevice)
        requires
            old(self).wf(),
        ensures
            final(self).view() == assoc_insert(old(self).view(), serial@, Some(device)),
            final(self).wf(),
    {
        self.insert(serial, Some(device));
    }

    /// The number of known serials.
    pub fn len(&self) -> (r: usize)
        ensures
            r == self.view().len(),
    {
        self.entries.len()
    }


    /// Every known serial, in registry order.
    pub fn serials(&self) -> (r: Vec<String>)
        ensures
            r@.map_values(|s: String| s@) == self.view().map_values(
                |e: (Seq<char>, Option<AdbDevice>)| e.0,
            ),
    {
        let mut r: Vec<String> = Vec::new();
        let mut i: usize = 0;
        while i < self.entries.len()
            invariant
                0 <= i <= self.entries@.len(),
                self.view().len() == self.entries@.len(),
                r@.map_values(|s: String| s@) == self.view().map_values(
                    |e: (Seq<char>, Option<AdbDevice>)| e.0,
                ).take(i as int),
            decreases self.entries@.len() - i,
        {
            r.push(self.entries[i].0.clone());
            proof {
                let keys = self.view().map_values(|e: (Seq<char>, Option<AdbDevice>)| e.0);
                assert(self.view()[i as int].0 == self.entries@[i as int].0@);
                assert(keys[i as int] == self.view()[i as int].0);
                assert(keys.take(i as int + 1).drop_last() =~= keys.take(i as int));
                assert(r@.map_values(|s: String| s@) =~= keys.take(i as int + 1));
            }
            i = i + 1;
        }
        proof {
            let keys = self.view().map_values(|e: (Seq<char>, Option<AdbDevice>)| e.0);
            assert(keys.take(keys.len() as int) =~= keys);
        }
        r
    }

    /// The serials of the available devices a transport selection
    /// matches, in registry order.
    pub fn serials_by_transport(&self, device_transport: &AdbDeviceTransport) -> (r: Vec<String>)
        ensures
            r@.map_values(|s: String| s@) == spec_selected_serials(
                self.view(),
                *device_transport,
            ),
    {
        let mut r: Vec<String> = Vec::new();
        let mut i: usize = 0;
        while i < self.entries.len()
            invariant
                0 <= i <= self.entries@.len(),
                self.view().len() == self.entries@.len(),
                r@.map_values(|s: String| s@) == spec_selected_serials(
                    self.view().take(i as int),
                    *device_transport,
                ),
            decreases self.entries@.len() - i,
        {
            let selected: bool = match &self.entries[i].1 {
                Some(device) => {
                    let available = matches!(device.adb_device_status(), AdbDeviceStatus::Available);
                    available && match device_transport {
                        AdbDeviceTransport::Any => true,
                        AdbDeviceTransport::EmulatorAny => device.is_emulator_device(),
                        AdbDeviceTransport::UsbAny => device.is_usb_device(),
                        AdbDeviceTransport::Emulator(serial) => device.is_emulator_device()
                            && self.entries[i].0.eq(serial),
                        AdbDeviceTransport::Usb(serial) => device.is_usb_device()
                            && self.entries[i].0.eq(serial),
                    }
                },
                None => false,
            };
            proof {
                assert(self.view()[i as int] == (self.entries@[i as int].0@, self.entries@[
                    i as int].1));
                assert(self.view().take(i as int + 1).drop_last() =~= self.view().take(i as int));
                assert(self.view().take(i as int + 1).last() == self.view()[i as int]);
                assert(selected == entry_selected(self.view()[i as int], *device_transport));
            }
            if selected {
                r.push(self.entries[i].0.clone());
            }
            proof {
                assert(r@.map_values(|s: String| s@) =~= spec_selected_serials(
                    self.view().take(i as int + 1),
                    *device_transport,
                ));
            }
            i = i + 1;
        }
        proof {
            assert(self.view().take(self.view().len() as int) =~= self.view());
        }
        r
    }

    fn get_serial_by_lookup(&self, serial: &String) -> (r: Result<String, AdbServerError>)
        ensures
            lookup_outcome(self.view(), serial@, r),
    {
        match self.get(serial) {
            Some(slot) => match slot {
                Some(_) => Ok(serial.clone()),
                None => Err(AdbServerError::DeviceNotFound(serial.clone())),
            },
            None => Err(AdbServerError::DeviceNotFound(serial.clone())),
        }
    }

    /// Picks the device a transport selection means: the one named serial
    /// when it is selected, the single available match otherwise; no
    /// match and ambiguity are errors, as is a named serial that is
    /// missing or not yet registered.
    pub fn choose_device(&self, device_transport: &AdbDeviceTransport) -> (r: Result<
        String,
        AdbServerError,
    >)
        ensures
            ({
                let sel = spec_selected_serials(self.view(), *device_transport);
                match transport_serial(*device_transport) {
                    Option::None => {
                        if sel.len() == 0 {
                            r matches Err(AdbServerError::NoAvailableDevices)
                        } else if sel.len() == 1 {
                            lookup_outcome(self.view(), sel[0], r)
                        } else {
                            r matches Err(AdbServerError::MultipleDeviceDetected)
                        }
                    },
                    Option::Some(serial) => {
                        if sel.contains(serial) {
                            lookup_outcome(self.view(), serial, r)
                        } else {
                            (r matches Err(AdbServerError::DeviceNotFound(m)) && m@ == serial)
                        }
                    },
                }
            }),
    {
        let serials = self.serials_by_transport(device_transport);
        let chosen = device_transport.get_serial();
        match chosen {
            Some(serial) => {
                let mut found = false;
                let mut j: usize = 0;
                while j < serials.len()
                    invariant
                        0 <= j <= serials@.len(),
                        found == exists|p: int| 0 <= p < j && #[trigger] serials@[p]@
                            == serial@,
                    decreases serials@.len() - j,
                {
                    let eq = serials[j].eq(serial);
                    if eq {
                        found = true;
                    }
                    j = j + 1;
                }
                proof {
                    let sel = spec_selected_serials(self.view(), *device_transport);
                    let mapped = serials@.map_values(|s: String| s@);
                    if found {
                        let p = choose|p: int|
                            0 <= p < serials@.len() && #[trigger] serials@[p]@ == serial@;
                        assert(mapped[p] == serial@);
                        assert(sel.contains(serial@));
                    } else {
                        if sel.contains(serial@) {
                            let p = choose|p: int| 0 <= p < sel.len() && sel[p] == serial@;
                            assert(serials@[p]@ == serial@);
                            assert(false);
                        }
                    }
                    assert(found == sel.contains(serial@));
                }
                if found {
                    self.get_serial_by_lookup(serial)
                } else {
                    Err(AdbServerError::DeviceNotFound(serial.clone()))
                }
            },
            None => {
                if serials.len() == 0 {
                    Err(AdbServerError::NoAvailableDevices)
                } else if serials.len() == 1 {
                    proof {
                        assert(serials@.map_values(|s: String| s@)[0] == serials@[0]@);
                    }
                    self.get_serial_by_lookup(&serials[0])
                } else {
                    Err(AdbServerError::MultipleDeviceDetected)
                }
            },
        }
    }

    /// The `host:devices` listing: one `serial status` line per
    /// registered device, or a fixed message when no serial is known.
    pub fn get_active_devices(&self) -> (r: String)
        ensures
            r@ == if self.view().len() == 0 {
                "No devices found"@
            } else {
                spec_device_lines(self.view())
            },
    {
        if self.entries.len() == 0 {
            return "No devices found".to_owned();
        }
        let mut out = String::new();
        let mut i: usize = 0;
        while i < self.entries.len()
            invariant
                0 <= i <= self.entries@.len(),
                self.view().len() == self.entries@.len(),
                out@ == spec_device_lines(self.view().take(i as int)),
            decreases self.entries@.len() - i,
        {
            proof {
                assert(self.view().take(i as int + 1).drop_last() =~= self.view().take(i as int));
                assert(self.view().take(i as int + 1).last() == self.view()[i as int]);
                assert(self.view()[i as int] == (self.entries@[i as int].0@, self.entries@[
                    i as int].1));
            }
            match &self.entries[i].1 {
                Some(device) => {
                    out.append(self.entries[i].0.as_str());
                    out.append(" ");
                    out.append(device.adb_device_status().label().as_str());
                    out.append("\n");
                },
                None => {
                },
            }
            proof {
                assert(out@ =~= spec_device_lines(self.view().take(i as int + 1)));
            }
            i = i + 1;
        }
        proof {
            assert(self.view().take(self.view().len() as int) =~= self.view());
        }
        out
    }
}

/// The listing text for a registry: `serial status\n` for each registered
/// device, claimed-but-unregistered serials skipped.
pub open spec fn spec_device_lines(s: Seq<(Seq<char>, Option<AdbDevice>)>) -> Seq<char>
    decreases s.len(),
{
    if s.len() == 0 {
        Seq::empty()
    } else {
        spec_device_lines(s.drop_last()) + (match s.last().1 {
            Some(device) => s.last().0 + " "@ + device.spec_status().spec_label() + "\n"@,
            None => Seq::<char>::empty(),
        })
    }
}

/// What the monitor does with a device whose interval has elapsed.
pub enum MonitorAction {
    Keep,
    RemoveAfterDisconnect,
    RemoveForRetry,
}

/// The monitoring rule: an available device whose connection still
/// verifies is kept; one whose verification failed is torn down, with the
/// disconnect hooks dispatched; an unauthorized or offline device is
/// removed so discovery retries it.
pub open spec fn spec_monitor_decision(status: AdbDeviceStatus, verify_ok: bool) -> MonitorAction {
    match status {
        AdbDeviceStatus::Available => if verify_ok {
            MonitorAction::Keep
        } else {
            MonitorAction::RemoveAfterDisconnect
        },
        _ => MonitorAction::RemoveForRetry,
    }
}

/// Decides one monitoring tick for one device, from its status and the
/// result of `verify_connection_status`.
pub fn monitor_decision(status: &AdbDeviceStatus, verify_ok: bool) -> (r: MonitorAction)
    ensures
        r == spec_monitor_decision(*status, verify_ok),
{
    match status {
        AdbDeviceStatus::Available => {
            if verify_ok {
                MonitorAction::Keep
            } else {
                MonitorAction::RemoveAfterDisconnect
            }
        },
        _ => MonitorAction::RemoveForRetry,
    }
}

/// How a finished first connect attempt registers the device.
pub enum ConnectDisposition {
    Register { status: AdbDeviceStatus, monitoring_interval: u64, run_connect_hook: bool },
    CloseAndRetry,
}

/// The registration rule: success registers the device available with a
/// 2 s monitoring interval and dispatches the connect hooks; an
/// authorization failure registers it unauthorized at 5 s; a lost device
/// registers offline with its reason at 20 s; any other failure closes
/// the connection and leaves the slot for the next scan.
pub open spec fn spec_connect_disposition(result: Result<(), AdbConnectionError>) -> ConnectDisposition {
    match result {
        Ok(_) => ConnectDisposition::Register {
            status: AdbDeviceStatus::Available,
            monitoring_interval: 2,
            run_connect_hook: true,
        },
        Err(AdbConnectionError::Unauthorized(_)) => ConnectDisposition::Register {
            status: AdbDeviceStatus::Unauthorized,
            monitoring_interval: 5,
            run_connect_hook: false,
        },
        Err(AdbConnectionError::DeviceNotAvailable(msg)) => ConnectDisposition::Register {
            status: AdbDeviceStatus::Offline(msg),
            monitoring_interval: 20,
            run_connect_hook: false,
        },
        Err(_) => ConnectDisposition::CloseAndRetry,
    }
}

/// Decides how the outcome of a device's first connect attempt enters
/// the registry.
pub fn connect_disposition(result: Result<(), AdbConnectionError>) -> (r: ConnectDisposition)
    ensures
        r == spec_connect_disposition(result),
{
    match result {
        Ok(()) => ConnectDisposition::Register {
            status: AdbDeviceStatus::Available,
            monitoring_interval: 2,
            run_connect_hook: true,
        },
        Err(AdbConnectionError::Unauthorized(_)) => ConnectDisposition::Register {
            status: AdbDeviceStatus::Unauthorized,
            monitoring_interval: 5,
            run_connect_hook: false,
        },
        Err(AdbConnectionError::DeviceNotAvailable(msg)) => ConnectDisposition::Register {
            status: AdbDeviceStatus::Offline(msg),
            monitoring_interval: 20,
            run_connect_hook: false,
        },
        Err(_) => ConnectDisposition::CloseAndRetry,
    }
}

/// Monitor transition law: a device registered available after a
/// successful connect (whose registration dispatched the connect hooks
/// exactly that once) survives every tick whose verification succeeds,
/// and the first tick whose verification fails removes exactly that one
/// registry entry, with the disconnect hooks dispatched on that tick
/// alone.
pub proof fn lemma_monitor_transitions(
    s: Seq<(Seq<char>, Option<AdbDevice>)>,
    serial: Seq<char>,
    device: AdbDevice,
)
    requires
        assoc_wf(s),
        device.spec_status() is Available,
        assoc_lookup(s, serial) == Some(Some(device)),
    ensures
        spec_connect_disposition(Ok(())) matches ConnectDisposition::Register {
            status: AdbDeviceStatus::Available,
            run_connect_hook: true,
            ..
        },
        spec_monitor_decision(device.spec_status(), true) == MonitorAction::Keep,
        spec_monitor_decision(device.spec_status(), false)
            == MonitorAction::RemoveAfterDisconnect,
        assoc_remove(s, serial).len() == s.len() - 1,
        !assoc_contains(assoc_remove(s, serial), serial),
        forall|k2: Seq<char>|
            k2 != serial ==> #[trigger] assoc_lookup(assoc_remove(s, serial), k2)
                == assoc_lookup(s, k2),
{
    lemma_assoc_index_of(s, serial, 0);
    assert(assoc_contains(s, serial));
    lemma_assoc_remove(s, serial);
}

} // verus!
