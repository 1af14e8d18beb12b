use vstd::prelude::*;
use crate::forward::{ForwardType, ForwardKind, fwd_kind, fwd_num, fwd_name, forward_type_to_string,
    spec_print_forward_type, spec_print_forward_pair, spec_parse_forward_pair, parse_forward_pair,
    print_forward_pair};

verus! {

/// A port forward: the host-side endpoint it listens on (`local`) and the
/// device-side endpoint it opens (`remote`).
#[derive(Debug, Clone)]
pub struct AdbPortForwardInfo {
    local: ForwardType,
    remote: ForwardType,
}

impl AdbPortForwardInfo {
    pub closed spec fn spec_local(&self) -> ForwardType {
        self.local
    }

    pub closed spec fn spec_remote(&self) -> ForwardType {
        self.remote
    }

    pub fn new(local: ForwardType, remote: ForwardType) -> (r: Self)
        ensures
            r.spec_local() == local,
            r.spec_remote() == remote,
    {
        AdbPortForwardInfo { local, remote }
    }

    /// Parses a `local;remote` pair.
    pub fn from_string(port_forward_str: &str) -> (r: Result<Self, String>)
        ensures
            match r {
                Ok(info) => spec_parse_forward_pair(port_forward_str@) == Some(
                    (
                        (
                            fwd_kind(info.spec_local()),
                            fwd_num(info.spec_local()),
                            fwd_name(info.spec_local()),
                        ),
                        (
                            fwd_kind(info.spec_remote()),
                            fwd_num(info.spec_remote()),
                            fwd_name(info.spec_remote()),
                        ),
                    ),
                ),
                Err(_) => spec_parse_forward_pair(port_forward_str@) is None,
            },
    {
        match parse_forward_pair(port_forward_str) {
            Ok((local, remote)) => Ok(AdbPortForwardInfo { local, remote }),
            Err(e) => Err(e),
        }
    }

    pub fn local(&self) -> (r: &ForwardType)
        ensures
            *r == self.spec_local(),
    {
        &self.local
    }

    pub fn remote(&self) -> (r: &ForwardType)
        ensures
            *r == self.spec_remote(),
    {
        &self.remote
    }

    pub fn set_local(&mut self, local: ForwardType)
        ensures
            final(self).spec_local() == local,
            final(self).spec_remote() == old(self).spec_remote(),
    {
        self.local = local;
    }

    pub fn set_remote(&mut self, remote: ForwardType)
        ensures
            final(self).spec_remote() == remote,
            final(self).spec_local() == old(self).spec_local(),
    {
        self.remote = remote;
    }

    /// Serializes the pair as `local;remote`.
    pub fn to_string(&self) -> (r: String)
        ensures
            r@ == spec_print_forward_pair(self.spec_local(), self.spec_remote()),
    {
        print_forward_pair(&self.local, &self.remote)
    }

    /// The local endpoint as `<tag>:<value>`.
    pub fn local_with_type(&self) -> (r: String)
        ensures
            r@ == spec_print_forward_type(
                fwd_kind(self.spec_local()),
                fwd_num(self.spec_local()),
                fwd_name(self.spec_local()),
            ),
    {
        self.forward_type_to_string(&self.local)
    }

    /// The remote endpoint as `<tag>:<value>`.
    pub fn remote_with_type(&self) -> (r: String)
        ensures
            r@ == spec_print_forward_type(
                fwd_kind(self.spec_remote()),
                fwd_num(self.spec_remote()),
                fwd_name(self.spec_remote()),
            ),
    {
        self.forward_type_to_string(&self.remote)
    }

    fn forward_type_to_string(&self, forward_type: &ForwardType) -> (r: String)
        ensures
            r@ == spec_print_forward_type(
                fwd_kind(*forward_type),
                fwd_num(*forward_type),
                fwd_name(*forward_type),
            ),
    {
        forward_type_to_string(forward_type)
    }
}

/// A port reverse: the device-side endpoint the device listens on
/// (`device`) and the host-side endpoint this host connects to (`host`).
#[derive(Debug, Clone)]
pub struct AdbPortReverseInfo {
    device: ForwardType,
    host: ForwardType,
}

impl AdbPortReverseInfo {
    pub closed spec fn spec_device(&self) -> ForwardType {
        self.device
    }

    pub closed spec fn spec_host(&self) -> ForwardType {
        self.host
    }

    pub fn new(device: ForwardType, host: ForwardType) -> (r: Self)
        ensures
            r.spec_device() == device,
            r.spec_host() == host,
    {
        AdbPortReverseInfo { device, host }
    }

    /// Parses a `device;host` pair.
    pub fn from_string(reverse_str: &str) -> (r: Result<Self, String>)
        ensures
            match r {
                Ok(info) => spec_parse_forward_pair(reverse_str@) == Some(
                    (
                        (
                            fwd_kind(info.spec_device()),
                            fwd_num(info.spec_device()),
                            fwd_name(info.spec_device()),
                        ),
                        (
                            fwd_kind(info.spec_host()),
                            fwd_num(info.spec_host()),
                            fwd_name(info.spec_host()),
                        ),
                    ),
                ),
                Err(_) => spec_parse_forward_pair(reverse_str@) is None,
            },
    {
        match parse_forward_pair(reverse_str) {
            Ok((device, host)) => Ok(AdbPortReverseInfo { device, host }),
            Err(e) => Err(e),
        }
    }

    pub fn device(&self) -> (r: &ForwardType)
        ensures
            *r == self.spec_device(),
    {
        &self.device
    }

    pub fn host(&self) -> (r: &ForwardType)
        ensures
            *r == self.spec_host(),
    {
        &self.host
    }

    /// The device endpoint as `<tag>:<value>`.
    pub fn device_with_type(&self) -> (r: String)
        ensures
            r@ == spec_print_forward_type(
                fwd_kind(self.spec_device()),
                fwd_num(self.spec_device()),
                fwd_name(self.spec_device()),
            ),
    {
        self.forward_type_to_string(&self.device)
    }

    /// The host endpoint as `<tag>:<value>`.
    pub fn host_with_type(&self) -> (r: String)
        ensures
            r@ == spec_print_forward_type(
                fwd_kind(self.spec_host()),
                fwd_num(self.spec_host()),
                fwd_name(self.spec_host()),
            ),
    {
        self.forward_type_to_string(&self.host)
    }

    /// Serializes the pair as `device;host`.
    pub fn to_string(&self) -> (r: String)
        ensures
            r@ == spec_print_forward_pair(self.spec_device(), self.spec_host()),
    {
        print_forward_pair(&self.device, &self.host)
    }

    fn forward_type_to_string(&self, forward_type: &ForwardType) -> (r: String)
        ensures
            r@ == spec_print_forward_type(
                fwd_kind(*forward_type),
                fwd_num(*forward_type),
                fwd_name(*forward_type),
            ),
    {
        forward_type_to_string(forward_type)
    }
}

} // verus!
