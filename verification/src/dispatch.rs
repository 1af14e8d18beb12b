use vstd::prelude::*;
use crate::chars::{chars_of, chars_to_string, chars_eq, subvec};
use crate::responses::{spec_hex_pad, hex_chars_pad, char_to_hex, char_hex};
use crate::message::ADB_SERVER_VERSION;
use vstd::string::StringExecFns;

verus! {

/// Whether `p` is a prefix of `s`.
pub open spec fn spec_is_prefix(p: Seq<char>, s: Seq<char>) -> bool {
    s.len() >= p.len() && s.subrange(0, p.len() as int) == p
}

/// Checks whether the request starts with a literal prefix.
fn has_prefix(v: &Vec<char>, p: &str) -> (r: bool)
    ensures
        r == spec_is_prefix(p@, v@),
{
    let pc = chars_of(p);
    if v.len() < pc.len() {
        proof {
            if spec_is_prefix(p@, v@) {
                assert(v@.len() >= p@.len());
            }
        }
        return false;
    }
    let head = subvec(v, 0, pc.len());
    chars_eq(&head, &pc)
}

/// One parsed client request of the host protocol.
pub enum HostRequest {
    TransportAny,
    TransportLocal,
    TransportUsb,
    TransportSerial(String),
    Version,
    GetState,
    Devices,
    Reboot(String),
    EnableVerity,
    DisableVerity,
    Remount,
    Root,
    Unroot,
    SerialNo,
    DevPath,
    Shell(String),
    Forward(String),
    KillForward(String),
    KillForwardAll,
    ListForward,
    ReverseForward(String),
    ReverseKillForward(String),
    ReverseKillForwardAll,
    ReverseListForward,
    Sync,
    InvalidSync,
    Unknown,
}

/// The dispatch rule, matching requests by prefix in a fixed order (the
/// verity commands alone require exact equality).  Payload-carrying
/// requests keep the text after their prefix (reboot and shell keep the
/// whole request, which the device consumes verbatim).
pub open spec fn spec_parse_request_ok(s: Seq<char>, r: HostRequest) -> bool {
    if spec_is_prefix("host:transport-any"@, s) {
        r is TransportAny
    } else if spec_is_prefix("host:transport-local"@, s) {
        r is TransportLocal
    } else if spec_is_prefix("host:transport-usb"@, s) {
        r is TransportUsb
    } else if spec_is_prefix("host:transport:"@, s) {
        r matches HostRequest::TransportSerial(serial) && serial@ == s.subrange(
            "host:transport:"@.len() as int,
            s.len() as int,
        )
    } else if spec_is_prefix("host:version"@, s) {
        r is Version
    } else if spec_is_prefix("host:get-state"@, s) {
        r is GetState
    } else if spec_is_prefix("host:devices"@, s) {
        r is Devices
    } else if spec_is_prefix("reboot:"@, s) {
        r matches HostRequest::Reboot(cmd) && cmd@ == s
    } else if s == "enable-verity:"@ {
        r is EnableVerity
    } else if s == "disable-verity:"@ {
        r is DisableVerity
    } else if spec_is_prefix("remount:"@, s) {
        r is Remount
    } else if spec_is_prefix("root:"@, s) {
        r is Root
    } else if spec_is_prefix("unroot:"@, s) {
        r is Unroot
    } else if spec_is_prefix("host:get-serialno"@, s) {
        r is SerialNo
    } else if spec_is_prefix("host:get-devpath"@, s) {
        r is DevPath
    } else if spec_is_prefix("shell:"@, s) {
        r matches HostRequest::Shell(cmd) && cmd@ == s
    } else if spec_is_prefix("host:forward:"@, s) {
        r matches HostRequest::Forward(params) && params@ == s.subrange(
            "host:forward:"@.len() as int,
            s.len() as int,
        )
    } else if spec_is_prefix("host:killforward:"@, s) {
        r matches HostRequest::KillForward(params) && params@ == s.subrange(
            "host:killforward:"@.len() as int,
            s.len() as int,
        )
    } else if spec_is_prefix("host:killforward-all"@, s) {
        r is KillForwardAll
    } else if spec_is_prefix("host:list-forward"@, s) {
        r is ListForward
    } else if spec_is_prefix("reverse:forward:"@, s) {
        r matches HostRequest::ReverseForward(params) && params@ == s.subrange(
            "reverse:forward:"@.len() as int,
            s.len() as int,
        )
    } else if spec_is_prefix("reverse:killforward:"@, s) {
        r matches HostRequest::ReverseKillForward(params) && params@ == s.subrange(
            "reverse:killforward:"@.len() as int,
            s.len() as int,
        )
    } else if spec_is_prefix("reverse:killforward-all"@, s) {
        r is ReverseKillForwardAll
    } else if spec_is_prefix("reverse:list-forward"@, s) {
        r is ReverseListForward
    } else if spec_is_prefix("sync:"@, s) {
        r is Sync
    } else if spec_is_prefix("STAT"@, s) || spec_is_prefix("QUIT"@, s) || spec_is_prefix(
        "SEND"@,
        s,
    ) || spec_is_prefix("DATA"@, s) || spec_is_prefix("RECV"@, s) || spec_is_prefix(
        "DENT"@,
        s,
    ) {
        r is InvalidSync
    } else {
        r is Unknown
    }
}

/// Parses one client request line into the command it dispatches to.
pub fn parse_request(request: &str) -> (r: HostRequest)
    ensures
        spec_parse_request_ok(request@, r),
{
    let v = chars_of(request);
    if has_prefix(&v, "host:transport-any") {
        HostRequest::TransportAny
    } else if has_prefix(&v, "host:transport-local") {
        HostRequest::TransportLocal
    } else if has_prefix(&v, "host:transport-usb") {
        HostRequest::TransportUsb
    } else if has_prefix(&v, "host:transport:") {
        proof {
            reveal_strlit("host:transport:");
        }
        let tail = subvec(&v, 15, v.len());
        HostRequest::TransportSerial(chars_to_string(&tail))
    } else if has_prefix(&v, "host:version") {
        HostRequest::Version
    } else if has_prefix(&v, "host:get-state") {
        HostRequest::GetState
    } else if has_prefix(&v, "host:devices") {
        HostRequest::Devices
    } else if has_prefix(&v, "reboot:") {
        HostRequest::Reboot(chars_to_string(&v))
    } else if {
        let e = chars_of("enable-verity:");
        chars_eq(&v, &e)
    } {
        HostRequest::EnableVerity
    } else if {
        let e = chars_of("disable-verity:");
        chars_eq(&v, &e)
    } {
        HostRequest::DisableVerity
    } else if has_prefix(&v, "remount:") {
        HostRequest::Remount
    } else if has_prefix(&v, "root:") {
        HostRequest::Root
    } else if has_prefix(&v, "unroot:") {
        HostRequest::Unroot
    } else if has_prefix(&v, "host:get-serialno") {
        HostRequest::SerialNo
    } else if has_prefix(&v, "host:get-devpath") {
        HostRequest::DevPath
    } else if has_prefix(&v, "shell:") {
        HostRequest::Shell(chars_to_string(&v))
    } else if has_prefix(&v, "host:forward:") {
        proof {
            reveal_strlit("host:forward:");
        }
        let tail = subvec(&v, 13, v.len());
        HostRequest::Forward(chars_to_string(&tail))
    } else if has_prefix(&v, "host:killforward:") {
        proof {
            reveal_strlit("host:killforward:");
        }
        let tail = subvec(&v, 17, v.len());
        HostRequest::KillForward(chars_to_string(&tail))
    } else if has_prefix(&v, "host:killforward-all") {
        HostRequest::KillForwardAll
    } else if has_prefix(&v, "host:list-forward") {
        HostRequest::ListForward
    } else if has_prefix(&v, "reverse:forward:") {
        proof {
            reveal_strlit("reverse:forward:");
        }
        let tail = subvec(&v, 16, v.len());
        HostRequest::ReverseForward(chars_to_string(&tail))
    } else if has_prefix(&v, "reverse:killforward:") {
        proof {
            reveal_strlit("reverse:killforward:");
        }
        let tail = subvec(&v, 20, v.len());
        HostRequest::ReverseKillForward(chars_to_string(&tail))
    } else if has_prefix(&v, "reverse:killforward-all") {
        HostRequest::ReverseKillForwardAll
    } else if has_prefix(&v, "reverse:list-forward") {
        HostRequest::ReverseListForward
    } else if has_prefix(&v, "sync:") {
        HostRequest::Sync
    } else if has_prefix(&v, "STAT") || has_prefix(&v, "QUIT") || has_prefix(&v, "SEND")
        || has_prefix(&v, "DATA") || has_prefix(&v, "RECV") || has_prefix(&v, "DENT") {
        HostRequest::InvalidSync
    } else {
        HostRequest::Unknown
    }
}

/// The `host:version` reply: `OKAY` followed by the server version in
/// eight hex digits.
pub fn build_version_response() -> (r: String)
    ensures
        r@ == "OKAY"@ + spec_hex_pad(ADB_SERVER_VERSION as int, 8),
{
    let mut s = "OKAY".to_owned();
    let digits = hex_chars_pad(ADB_SERVER_VERSION as u64, 8);
    s.append(chars_to_string(&digits).as_str());
    s
}

/// Whether every character is a hexadecimal digit.
pub open spec fn all_hex(s: Seq<char>) -> bool {
    forall|i: int| 0 <= i < s.len() ==> char_hex(s[i]) >= 0
}

/// The number read from a hex digit string, most significant first.
pub open spec fn hex_value(s: Seq<char>) -> int
    decreases s.len(),
{
    if s.len() == 0 {
        0
    } else {
        hex_value(s.drop_last()) * 16 + char_hex(s.last())
    }
}

/// A non-empty all-hex string within `max` parses to its value.
pub open spec fn spec_parse_hex(s: Seq<char>, max: int) -> Option<int> {
    if s.len() > 0 && all_hex(s) && hex_value(s) <= max {
        Some(hex_value(s))
    } else {
        None
    }
}

/// A hex digit string's value is non-negative.
proof fn lemma_hex_value_nonneg(s: Seq<char>)
    requires
        all_hex(s),
    ensures
        hex_value(s) >= 0,
    decreases s.len(),
{
    if s.len() > 0 {
        lemma_hex_value_nonneg(s.drop_last());
    }
}

/// A prefix of a hex string never exceeds the whole string's value.
proof fn lemma_hex_value_prefix(s: Seq<char>, i: int)
    requires
        all_hex(s),
        0 <= i <= s.len(),
    ensures
        hex_value(s.take(i)) <= hex_value(s),
    decreases s.len() - i,
{
    if i < s.len() {
        lemma_hex_value_prefix(s, i + 1);
        assert(s.take(i + 1).drop_last() =~= s.take(i));
        assert(all_hex(s.take(i))) by {
            assert(forall|j: int| 0 <= j < i ==> s.take(i)[j] == s[j]);
        }
        lemma_hex_value_nonneg(s.take(i));
        assert(hex_value(s.take(i + 1)) == hex_value(s.take(i)) * 16 + char_hex(s[i]));
        assert(hex_value(s.take(i)) <= hex_value(s.take(i)) * 16 + char_hex(s[i]))
            by (nonlinear_arith)
            requires
                hex_value(s.take(i)) >= 0,
                char_hex(s[i]) >= 0,
        ;
    } else {
        assert(s.take(i) =~= s);
    }
}

/// Reads a hexadecimal number of at most `max` from a request's length
/// prefix: only hex digits, at least one, value within `max`.
pub fn parse_hex(s: &str, max: u64) -> (r: Option<u64>)
    requires
        max <= 0xFFFFFFFFu64,
    ensures
        match r {
            Some(n) => spec_parse_hex(s@, max as int) == Some(n as int),
            None => spec_parse_hex(s@, max as int) is None,
        },
{
    let v = chars_of(s);
    if v.len() == 0 {
        return None;
    }
    let mut acc: u64 = 0;
    let mut i: usize = 0;
    while i < v.len()
        invariant
            0 <= i <= v@.len(),
            v@ == s@,
            max <= 0xFFFFFFFFu64,
            acc <= max,
            all_hex(v@.take(i as int)),
            acc == hex_value(v@.take(i as int)),
        decreases v@.len() - i,
    {
        let d = char_to_hex(v[i]);
        if d == 16 {
            proof {
                assert(char_hex(v@[i as int]) < 0);
                assert(!all_hex(v@));
            }
            return None;
        }
        proof {
            assert(v@.take(i as int + 1).drop_last() =~= v@.take(i as int));
            assert forall|j: int| 0 <= j < i + 1 implies char_hex(
                #[trigger] v@.take(i as int + 1)[j],
            ) >= 0 by {
                assert(v@.take(i as int + 1)[j] == v@[j]);
            }
            assert(hex_value(v@.take(i as int + 1)) == acc * 16 + d);
        }
        let nv: u64 = acc * 16 + d;
        if nv > max {
            proof {
                if all_hex(v@) {
                    lemma_hex_value_prefix(v@, i as int + 1);
                    assert(hex_value(v@) > max);
                }
            }
            return None;
        }
        acc = nv;
        i = i + 1;
    }
    proof {
        assert(v@.take(v@.len() as int) =~= v@);
    }
    Some(acc)
}

} // verus!
