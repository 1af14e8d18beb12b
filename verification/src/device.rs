use vstd::prelude::*;
use crate::assoc::{assoc_index_of, assoc_lookup, assoc_contains, assoc_insert, assoc_remove,
    assoc_wf, lemma_assoc_index_of, lemma_assoc_insert, lemma_assoc_remove};
use crate::enums::{AdbDeviceStatus, AdbDeviceType};
use crate::forward_info::{AdbPortForwardInfo, AdbPortReverseInfo};

verus! {

/// One attached device as the registry tracks it: its serial, lifecycle
/// status, kind, its port forwards and reverses keyed by their serialized
/// local (respectively device) endpoint, and its monitoring schedule in
/// seconds.  The live connection and the running relay tasks belong to
/// the runtime around this model.
pub struct AdbDevice {
    device_serial_number: String,
    adb_device_status: AdbDeviceStatus,
    adb_device_type: AdbDeviceType,
    adb_ports_forward_hs: Vec<(String, AdbPortForwardInfo)>,
    adb_ports_reverse_hs: Vec<(String, AdbPortReverseInfo)>,
    last_monitored_at: u64,
    monitoring_interval: u64,
}

impl AdbDevice {
    pub closed spec fn spec_serial(&self) -> Seq<char> {
        self.device_serial_number@
    }

    pub closed spec fn spec_status(&self) -> AdbDeviceStatus {
        self.adb_device_status
    }

    pub closed spec fn spec_type(&self) -> AdbDeviceType {
        self.adb_device_type
    }

    pub closed spec fn spec_forwards(&self) -> Seq<(Seq<char>, AdbPortForwardInfo)> {
        self.adb_ports_forward_hs@.map_values(
            |e: (String, AdbPortForwardInfo)| (e.0@, e.1),
        )
    }

    pub closed spec fn spec_reverses(&self) -> Seq<(Seq<char>, AdbPortReverseInfo)> {
        self.adb_ports_reverse_hs@.map_values(
            |e: (String, AdbPortReverseInfo)| (e.0@, e.1),
        )
    }

    pub closed spec fn spec_last_monitored(&self) -> u64 {
        self.last_monitored_at
    }

    pub closed spec fn spec_monitoring_interval(&self) -> u64 {
        self.monitoring_interval
    }

    /// Both endpoint maps have unique keys.
    pub open spec fn wf(&self) -> bool {
        assoc_wf(self.spec_forwards()) && assoc_wf(self.spec_reverses())
    }

    pub fn new(
        device_serial_number: String,
        adb_device_status: AdbDeviceStatus,
        adb_device_type: AdbDeviceType,
        monitoring_interval: u64,
        now: u64,
    ) -> (r: Self)
        ensures
            r.spec_serial() == device_serial_number@,
            r.spec_status() == adb_device_status,
            r.spec_type() == adb_device_type,
            r.spec_forwards() == Seq::<(Seq<char>, AdbPortForwardInfo)>::empty(),
            r.spec_reverses() == Seq::<(Seq<char>, AdbPortReverseInfo)>::empty(),
            r.spec_last_monitored() == now,
            r.spec_monitoring_interval() == monitoring_interval,
            r.wf(),
    {
        let r = AdbDevice {
            device_serial_number,
            adb_device_status,
            adb_device_type,
            adb_ports_forward_hs: Vec::new(),
            adb_ports_reverse_hs: Vec::new(),
            last_monitored_at: now,
            monitoring_interval,
        };
        proof {
            assert(r.spec_forwards() =~= Seq::<(Seq<char>, AdbPortForwardInfo)>::empty());
            assert(r.spec_reverses() =~= Seq::<(Seq<char>, AdbPortReverseInfo)>::empty());
        }
        r
    }

    pub fn device_serial_number(&self) -> (r: &str)
        ensures
            r@ == self.spec_serial(),
    {
        self.device_serial_number.as_str()
    }

    pub fn adb_device_status(&self) -> (r: &AdbDeviceStatus)
        ensures
            *r == self.spec_status(),
    {
        &self.adb_device_status
    }

    pub fn adb_device_type(&self) -> (r: &AdbDeviceType)
        ensures
            *r == self.spec_type(),
    {
        &self.adb_device_type
    }

    pub fn set_device_status(&mut self, device_status: AdbDeviceStatus)
        ensures
            final(self).spec_status() == device_status,
            final(self).spec_serial() == old(self).spec_serial(),
            final(self).spec_type() == old(self).spec_type(),
            final(self).spec_forwards() == old(self).spec_forwards(),
            final(self).spec_reverses() == old(self).spec_reverses(),
            final(self).spec_last_monitored() == old(self).spec_last_monitored(),
            final(self).spec_monitoring_interval() == old(self).spec_monitoring_interval(),
    {
        self.adb_device_status = device_status;
    }

    pub fn is_usb_device(&self) -> (r: bool)
        ensures
            r == (self.spec_type() is Usb),
    {
        self.adb_device_type.is_usb()
    }

    pub fn is_emulator_device(&self) -> (r: bool)
        ensures
            r == (self.spec_type() is Emulator),
    {
        self.adb_device_type.is_emulator()
    }

    /// Whether this device is due for a monitoring check at time `now`
    /// (seconds): its interval has elapsed since it was last looked at.
    pub fn is_monitoring_interval_passed(&self, now: u64) -> (r: bool)
        ensures
            r == (self.spec_last_monitored() + self.spec_monitoring_interval() <= now),
    {
        now >= self.last_monitored_at && now - self.last_monitored_at
            >= self.monitoring_interval
    }

    pub fn update_last_monitored(&mut self, now: u64)
        ensures
            final(self).spec_last_monitored() == now,
            final(self).spec_serial() == old(self).spec_serial(),
            final(self).spec_status() == old(self).spec_status(),
            final(self).spec_type() == old(self).spec_type(),
            final(self).spec_forwards() == old(self).spec_forwards(),
            final(self).spec_reverses() == old(self).spec_reverses(),
            final(self).spec_monitoring_interval() == old(self).spec_monitoring_interval(),
    {
        self.last_monitored_at = now;
    }

    fn forward_position(&self, key: &String) -> (r: usize)
        ensures
            r == assoc_index_of(self.spec_forwards(), key@, 0),
    {
        let mut i: usize = 0;
        while i < self.adb_ports_forward_hs.len()
            invariant
                0 <= i <= self.adb_ports_forward_hs@.len(),
                self.spec_forwards().len() == self.adb_ports_forward_hs@.len(),
                assoc_index_of(self.spec_forwards(), key@, 0) == assoc_index_of(
                    self.spec_forwards(),
                    key@,
                    i as int,
                ),
            decreases self.adb_ports_forward_hs@.len() - i,
        {
            let eq = self.adb_ports_forward_hs[i].0.eq(key);
            proof {
                assert(self.spec_forwards()[i as int].0 == self.adb_ports_forward_hs@[i as int].0@);
            }
            if eq {
                return i;
            }
            i = i + 1;
        }
        i
    }

    pub fn has_port_forward(&self, key: &String) -> (r: bool)
        ensures
            r == assoc_contains(self.spec_forwards(), key@),
    {
        self.forward_position(key) < self.adb_ports_forward_hs.len()
    }

    pub fn get_port_forward(&self, key: &String) -> (r: Option<&AdbPortForwardInfo>)
        ensures
            match r {
                Some(info) => assoc_lookup(self.spec_forwards(), key@) == Some(*info),
                None => assoc_lookup(self.spec_forwards(), key@) is None,
            },
    {
        let i = self.forward_position(key);
        if i < self.adb_ports_forward_hs.len() {
            Some(&self.adb_ports_forward_hs[i].1)
        } else {
            None
        }
    }

    pub fn port_forwards_count(&self) -> (r: usize)
        ensures
            r == self.spec_forwards().len(),
    {
        self.adb_ports_forward_hs.len()
    }

    pub fn adb_ports_forward_hs(&self) -> (r: &Vec<(String, AdbPortForwardInfo)>)
        ensures
            r@.map_values(|e: (String, AdbPortForwardInfo)| (e.0@, e.1))
                == self.spec_forwards(),
    {
        &self.adb_ports_forward_hs
    }

    pub fn get_all_port_forwards(&self) -> (r: &Vec<(String, AdbPortForwardInfo)>)
        ensures
            r@.map_values(|e: (String, AdbPortForwardInfo)| (e.0@, e.1))
                == self.spec_forwards(),
    {
        &self.adb_ports_forward_hs
    }

    /// Binds `key` to this forward, replacing any forward already bound
    /// to it.
    pub fn insert_port_forward(&mut self, key: String, info: AdbPortForwardInfo)
        requires
            old(self).wf(),
        ensures
            final(self).spec_forwards() == assoc_insert(old(self).spec_forwards(), key@, info),
            final(self).wf(),
            final(self).spec_serial() == old(self).spec_serial(),
            final(self).spec_status() == old(self).spec_status(),
            final(self).spec_reverses() == old(self).spec_reverses(),
    {
        proof {
            lemma_assoc_index_of(old(self).spec_forwards(), key@, 0);
        }
        let i = self.forward_position(&key);
        if i < self.adb_ports_forward_hs.len() {
            let entry = &mut self.adb_ports_forward_hs[i];
            entry.0 = key;
            entry.1 = info;
            proof {
                assert(self.spec_forwards() =~~= assoc_insert(
                    old(self).spec_forwards(),
                    key@,
                    info,
                ));
                assert forall|p: int, q: int|
                    0 <= p < q < self.spec_forwards().len() implies self.spec_forwards()[p].0
                    != self.spec_forwards()[q].0 by {
                    assert(old(self).spec_forwards()[p].0 != old(self).spec_forwards()[q].0);
                    assert(old(self).spec_forwards()[i as int].0 == key@);
                }
            }
        } else {
            self.adb_ports_forward_hs.push((key, info));
            proof {
                assert(self.spec_forwards() =~~= assoc_insert(
                    old(self).spec_forwards(),
                    key@,
                    info,
                ));
                assert forall|p: int, q: int|
                    0 <= p < q < self.spec_forwards().len() implies self.spec_forwards()[p].0
                    != self.spec_forwards()[q].0 by {
                    if q == self.spec_forwards().len() - 1 {
                        assert(old(self).spec_forwards()[p].0 != key@);
                    } else {
                        assert(old(self).spec_forwards()[p].0 != old(self).spec_forwards()[q].0);
                    }
                }
            }
        }
    }

    /// Drops the forward bound to `key`, if any.
    pub fn remove_port_forward(&mut self, key: &String)
        requires
            old(self).wf(),
        ensures
            final(self).spec_forwards() == assoc_remove(old(self).spec_forwards(), key@),
            final(self).wf(),
            final(self).spec_serial() == old(self).spec_serial(),
            final(self).spec_status() == old(self).spec_status(),
            final(self).spec_reverses() == old(self).spec_reverses(),
    {
        proof {
            lemma_assoc_index_of(old(self).spec_forwards(), key@, 0);
        }
        let i = self.forward_position(key);
        if i < self.adb_ports_forward_hs.len() {
            let _ = self.adb_ports_forward_hs.remove(i);
            proof {
                assert(self.spec_forwards() =~~= assoc_remove(old(self).spec_forwards(), key@));
                lemma_assoc_remove(old(self).spec_forwards(), key@);
            }
        }
    }

    fn reverse_position(&self, key: &String) -> (r: usize)
        ensures
            r == assoc_index_of(self.spec_reverses(), key@, 0),
    {
        let mut i: usize = 0;
        while i < self.adb_ports_reverse_hs.len()
            invariant
                0 <= i <= self.adb_ports_reverse_hs@.len(),
                self.spec_reverses().len() == self.adb_ports_reverse_hs@.len(),
                assoc_index_of(self.spec_reverses(), key@, 0) == assoc_index_of(
                    self.spec_reverses(),
                    key@,
                    i as int,
                ),
            decreases self.adb_ports_reverse_hs@.len() - i,
        {
            let eq = self.adb_ports_reverse_hs[i].0.eq(key);
            proof {
                assert(self.spec_reverses()[i as int].0 == self.adb_ports_reverse_hs@[i as int].0@);
            }
            if eq {
                return i;
            }
            i = i + 1;
        }
        i
    }

    pub fn has_port_reverse(&self, key: &String) -> (r: bool)
        ensures
            r == assoc_contains(self.spec_reverses(), key@),
    {
        self.reverse_position(key) < self.adb_ports_reverse_hs.len()
    }

    pub fn get_port_reverse(&self, key: &String) -> (r: Option<&AdbPortReverseInfo>)
        ensures
            match r {
                Some(info) => assoc_lookup(self.spec_reverses(), key@) == Some(*info),
                None => assoc_lookup(self.spec_reverses(), key@) is None,
            },
    {
        let i = self.reverse_position(key);
        if i < self.adb_ports_reverse_hs.len() {
            Some(&self.adb_ports_reverse_hs[i].1)
        } else {
            None
        }
    }

    pub fn adb_ports_reverse_hs(&self) -> (r: &Vec<(String, AdbPortReverseInfo)>)
        ensures
            r@.map_values(|e: (String, AdbPortReverseInfo)| (e.0@, e.1))
                == self.spec_reverses(),
    {
        &self.adb_ports_reverse_hs
    }

    /// Binds `key` to this reverse, replacing any reverse already bound
    /// to it.
    pub fn insert_port_reverse(&mut self, key: String, info: AdbPortReverseInfo)
        requires
            old(self).wf(),
        ensures
            final(self).spec_reverses() == assoc_insert(old(self).spec_reverses(), key@, info),
            final(self).wf(),
            final(self).spec_serial() == old(self).spec_serial(),
            final(self).spec_status() == old(self).spec_status(),
            final(self).spec_forwards() == old(self).spec_forwards(),
    {
        proof {
            lemma_assoc_index_of(old(self).spec_reverses(), key@, 0);
        }
        let i = self.reverse_position(&key);
        if i < self.adb_ports_reverse_hs.len() {
            let entry = &mut self.adb_ports_reverse_hs[i];
            entry.0 = key;
            entry.1 = info;
            proof {
                assert(self.spec_reverses() =~~= assoc_insert(
                    old(self).spec_reverses(),
                    key@,
                    info,
                ));
                assert forall|p: int, q: int|
                    0 <= p < q < self.spec_reverses().len() implies self.spec_reverses()[p].0
                    != self.spec_reverses()[q].0 by {
                    assert(old(self).spec_reverses()[p].0 != old(self).spec_reverses()[q].0);
                    assert(old(self).spec_reverses()[i as int].0 == key@);
                }
            }
        } else {
            self.adb_ports_reverse_hs.push((key, info));
            proof {
                assert(self.spec_reverses() =~~= assoc_insert(
                    old(self).spec_reverses(),
                    key@,
                    info,
                ));
                assert forall|p: int, q: int|
                    0 <= p < q < self.spec_reverses().len() implies self.spec_reverses()[p].0
                    != self.spec_reverses()[q].0 by {
                    if q == self.spec_reverses().len() - 1 {
                        assert(old(self).spec_reverses()[p].0 != key@);
                    } else {
                        assert(old(self).spec_reverses()[p].0 != old(self).spec_reverses()[q].0);
                    }
                }
            }
        }
    }

    /// Drops the reverse bound to `key`, if any.
    pub fn remove_port_reverse(&mut self, key: &String)
        requires
            old(self).wf(),
        ensures
            final(self).spec_reverses() == assoc_remove(old(self).spec_reverses(), key@),
            final(self).wf(),
            final(self).spec_serial() == old(self).spec_serial(),
            final(self).spec_status() == old(self).spec_status(),
            final(self).spec_forwards() == old(self).spec_forwards(),
    {
        proof {
            lemma_assoc_index_of(old(self).spec_reverses(), key@, 0);
        }
        let i = self.reverse_position(key);
        if i < self.adb_ports_reverse_hs.len() {
            let _ = self.adb_ports_reverse_hs.remove(i);
            proof {
                assert(self.spec_reverses() =~~= assoc_remove(old(self).spec_reverses(), key@));
                lemma_assoc_remove(old(self).spec_reverses(), key@);
            }
        }
    }
}

/// What a `host:forward` request must do about an existing binding for
/// the same local endpoint.
pub enum ForwardSetPlan {
    RejectNoRebind,
    Rebind,
    Fresh,
}

/// The rebinding rule: an occupied local endpoint is rejected under
/// `norebind:`, replaced otherwise; a free one is simply taken.
pub open spec fn spec_plan_forward_set(has_existing: bool, no_rebind: bool) -> ForwardSetPlan {
    if has_existing {
        if no_rebind {
            ForwardSetPlan::RejectNoRebind
        } else {
            ForwardSetPlan::Rebind
        }
    } else {
        ForwardSetPlan::Fresh
    }
}

/// Decides what a `host:forward` request does about the local endpoint it
/// names, under the rebinding rule.
pub fn plan_forward_set(device: &AdbDevice, local_key: &String, no_rebind: bool) -> (r:
    ForwardSetPlan)
    ensures
        r == spec_plan_forward_set(
            assoc_contains(device.spec_forwards(), local_key@),
            no_rebind,
        ),
{
    if device.has_port_forward(local_key) {
        if no_rebind {
            ForwardSetPlan::RejectNoRebind
        } else {
            ForwardSetPlan::Rebind
        }
    } else {
        ForwardSetPlan::Fresh
    }
}

/// At most one forward per local endpoint: after a forward is bound, a
/// second request for the same endpoint is planned as a rebind (and
/// replaces the first binding, leaving a single one) unless `norebind:`
/// was given, in which case it is rejected outright.
pub proof fn lemma_at_most_one_forward_per_local(
    s: Seq<(Seq<char>, AdbPortForwardInfo)>,
    key: Seq<char>,
    first: AdbPortForwardInfo,
    second: AdbPortForwardInfo,
)
    requires
        assoc_wf(s),
    ensures
        ({
            let s1 = assoc_insert(s, key, first);
            &&& spec_plan_forward_set(assoc_contains(s1, key), false) == ForwardSetPlan::Rebind
            &&& spec_plan_forward_set(assoc_contains(s1, key), true)
                == ForwardSetPlan::RejectNoRebind
            &&& assoc_lookup(assoc_insert(s1, key, second), key) == Some(second)
            &&& assoc_insert(s1, key, second).len() == s1.len()
        }),
{
    lemma_assoc_insert(s, key, first);
    let s1 = assoc_insert(s, key, first);
    lemma_assoc_index_of(s1, key, 0);
    lemma_assoc_insert(s1, key, second);
}

} // verus!
