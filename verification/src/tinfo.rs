use vstd::prelude::*;

verus! {


/// One ADB stream identity: the local id chosen by this host and the
/// remote id assigned by the device (0 until the first OKAY arrives).
pub struct AdbTransactionInfo {
    sent_packet_id: u32,
    receive_packet_id: u32,
}

impl AdbTransactionInfo {
    pub closed spec fn local(&self) -> u32 {
        self.sent_packet_id
    }

    pub closed spec fn remote(&self) -> u32 {
        self.receive_packet_id
    }

    /// A packet with ids (arg0, arg1) belongs to this stream exactly when
    /// arg1 names our local id and arg0 names the remote id, a remote id
    /// of 0 meaning "not learned yet, accept any".
    pub open spec fn spec_args_match(&self, arg0: u32, arg1: u32) -> bool {
        arg1 == self.local() && (self.remote() == 0 || arg0 == self.remote())
    }

    pub fn new(sent_packet_id: u32, receive_packet_id: u32) -> (r: Self)
        ensures
            r.local() == sent_packet_id,
            r.remote() == receive_packet_id,
    {
        AdbTransactionInfo { sent_packet_id, receive_packet_id }
    }

    pub fn sent_packet_id(&self) -> (r: u32)
        ensures
            r == self.local(),
    {
        self.sent_packet_id
    }

    pub fn receive_packet_id(&self) -> (r: u32)
        ensures
            r == self.remote(),
    {
        self.receive_packet_id
    }

    pub fn args_match(&self, arg0: u32, arg1: u32) -> (r: bool)
        ensures
            r == self.spec_args_match(arg0, arg1),
    {
        arg1 == self.sent_packet_id && (self.receive_packet_id == 0 || arg0 == self.receive_packet_id)
    }

    pub fn set_receive_packet_id(&mut self, receive_packet_id: u32)
        ensures
            final(self).local() == old(self).local(),
            final(self).remote() == receive_packet_id,
    {
        self.receive_packet_id = receive_packet_id;
    }
}

} // verus!
