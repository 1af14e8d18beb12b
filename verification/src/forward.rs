use vstd::prelude::*;
use crate::chars::{chars_of, chars_to_string, chars_eq, subvec};
use crate::decimal::{spec_digits, spec_parse_dec, dec_chars, parse_dec, lemma_digits_round_trip,
    lemma_digits_not_separator};
use vstd::string::StringExecFns;

verus! {

/// The tag of a forward endpoint specification.
pub enum ForwardKind {
    Tcp,
    LocalAbstract,
    LocalReserved,
    LocalFilesystem,
    Dev,
    Jdwp,
}

/// One endpoint of a port forward or reverse: a TCP port, a named or
/// filesystem Unix socket, a device node, or a JDWP process id.
#[derive(Debug, Clone, PartialEq)]
pub enum ForwardType {
    Tcp(u16),
    LocalAbstract(String),
    LocalReserved(String),
    LocalFilesystem(String),
    Dev(String),
    Jdwp(u32),
}

pub open spec fn fwd_kind(t: ForwardType) -> ForwardKind {
    match t {
        ForwardType::Tcp(_) => ForwardKind::Tcp,
        ForwardType::LocalAbstract(_) => ForwardKind::LocalAbstract,
        ForwardType::LocalReserved(_) => ForwardKind::LocalReserved,
        ForwardType::LocalFilesystem(_) => ForwardKind::LocalFilesystem,
        ForwardType::Dev(_) => ForwardKind::Dev,
        ForwardType::Jdwp(_) => ForwardKind::Jdwp,
    }
}

/// The numeric value of an endpoint, 0 for the named kinds.
pub open spec fn fwd_num(t: ForwardType) -> int {
    match t {
        ForwardType::Tcp(p) => p as int,
        ForwardType::Jdwp(p) => p as int,
        _ => 0,
    }
}

/// The name of an endpoint, empty for the numeric kinds.
pub open spec fn fwd_name(t: ForwardType) -> Seq<char> {
    match t {
        ForwardType::LocalAbstract(n) => n@,
        ForwardType::LocalReserved(n) => n@,
        ForwardType::LocalFilesystem(n) => n@,
        ForwardType::Dev(n) => n@,
        _ => Seq::empty(),
    }
}

/// The serialized tag of each kind.
pub open spec fn kind_tag(k: ForwardKind) -> Seq<char> {
    match k {
        ForwardKind::Tcp => "tcp"@,
        ForwardKind::LocalAbstract => "localabstract"@,
        ForwardKind::LocalReserved => "localreserved"@,
        ForwardKind::LocalFilesystem => "localfilesystem"@,
        ForwardKind::Dev => "dev"@,
        ForwardKind::Jdwp => "jdwp"@,
    }
}

/// Whether this kind carries a number (port or pid) rather than a name.
pub open spec fn kind_numeric(k: ForwardKind) -> bool {
    k == ForwardKind::Tcp || k == ForwardKind::Jdwp
}

/// The largest number the kind admits: the port range for TCP, the u32
/// range for JDWP pids.
pub open spec fn kind_max(k: ForwardKind) -> int {
    if k == ForwardKind::Tcp {
        65535
    } else {
        0xFFFFFFFF
    }
}

/// An endpoint serializes as `<tag>:<value>`.
pub open spec fn spec_print_forward_type(k: ForwardKind, num: int, name: Seq<char>) -> Seq<char> {
    kind_tag(k) + seq![':'] + (if kind_numeric(k) {
        spec_digits(num)
    } else {
        name
    })
}

/// The first position of `c` at or after `i`, or the length of `s`.
pub open spec fn first_index_of(s: Seq<char>, c: char, i: int) -> int
    decreases s.len() - i,
{
    if i < 0 || i >= s.len() {
        s.len() as int
    } else if s[i] == c {
        i
    } else {
        first_index_of(s, c, i + 1)
    }
}

/// Parsing `<tag>:<value>`: the tag is everything before the first colon
/// and selects the kind; a numeric kind reads a strict decimal within its
/// range, a named kind takes the rest verbatim.  A missing colon, an
/// unknown tag and an out-of-range or malformed number are rejected.
pub open spec fn spec_parse_forward_type(s: Seq<char>) -> Option<(ForwardKind, int, Seq<char>)> {
    let ci = first_index_of(s, ':', 0);
    if ci >= s.len() {
        None
    } else {
        let tag = s.subrange(0, ci);
        let value = s.subrange(ci + 1, s.len() as int);
        if tag == kind_tag(ForwardKind::Tcp) {
            match spec_parse_dec(value, 65535) {
                Some(n) => Some((ForwardKind::Tcp, n, Seq::empty())),
                None => None,
            }
        } else if tag == kind_tag(ForwardKind::LocalAbstract) {
            Some((ForwardKind::LocalAbstract, 0, value))
        } else if tag == kind_tag(ForwardKind::LocalReserved) {
            Some((ForwardKind::LocalReserved, 0, value))
        } else if tag == kind_tag(ForwardKind::LocalFilesystem) {
            Some((ForwardKind::LocalFilesystem, 0, value))
        } else if tag == kind_tag(ForwardKind::Dev) {
            Some((ForwardKind::Dev, 0, value))
        } else if tag == kind_tag(ForwardKind::Jdwp) {
            match spec_parse_dec(value, 0xFFFFFFFF) {
                Some(n) => Some((ForwardKind::Jdwp, n, Seq::empty())),
                None => None,
            }
        } else {
            None
        }
    }
}

/// Finds the first `c` in `v` at or after `from`, or reports the length.
pub fn find_char(v: &Vec<char>, c: char, from: usize) -> (r: usize)
    requires
        from <= v@.len(),
    ensures
        r == first_index_of(v@, c, from as int),
{
    let mut i: usize = from;
    while i < v.len()
        invariant
            from <= i <= v@.len(),
            first_index_of(v@, c, from as int) == first_index_of(v@, c, i as int),
        decreases v@.len() - i,
    {
        if v[i] == c {
            return i;
        }
        i = i + 1;
    }
    i
}

/// Serializes an endpoint as `<tag>:<value>`.
pub fn forward_type_chars(t: &ForwardType) -> (r: Vec<char>)
    ensures
        r@ == spec_print_forward_type(fwd_kind(*t), fwd_num(*t), fwd_name(*t)),
{
    let mut v: Vec<char>;
    match t {
        ForwardType::Tcp(port) => {
            v = chars_of("tcp");
            v.push(':');
            let mut d = dec_chars(*port as u64);
            v.append(&mut d);
        },
        ForwardType::LocalAbstract(name) => {
            v = chars_of("localabstract");
            v.push(':');
            let mut d = chars_of(name.as_str());
            v.append(&mut d);
        },
        ForwardType::LocalReserved(name) => {
            v = chars_of("localreserved");
            v.push(':');
            let mut d = chars_of(name.as_str());
            v.append(&mut d);
        },
        ForwardType::LocalFilesystem(name) => {
            v = chars_of("localfilesystem");
            v.push(':');
            let mut d = chars_of(name.as_str());
            v.append(&mut d);
        },
        ForwardType::Dev(name) => {
            v = chars_of("dev");
            v.push(':');
            let mut d = chars_of(name.as_str());
            v.append(&mut d);
        },
        ForwardType::Jdwp(pid) => {
            v = chars_of("jdwp");
            v.push(':');
            let mut d = dec_chars(*pid as u64);
            v.append(&mut d);
        },
    }
    proof {
        assert(v@ =~= spec_print_forward_type(fwd_kind(*t), fwd_num(*t), fwd_name(*t)));
    }
    v
}

/// Serializes an endpoint as a `<tag>:<value>` string.
pub fn forward_type_to_string(t: &ForwardType) -> (r: String)
    ensures
        r@ == spec_print_forward_type(fwd_kind(*t), fwd_num(*t), fwd_name(*t)),
{
    let v = forward_type_chars(t);
    chars_to_string(&v)
}

/// Parses one `<tag>:<value>` endpoint from characters.
pub fn parse_forward_type_chars(v: &Vec<char>) -> (r: Result<ForwardType, String>)
    ensures
        match r {
            Ok(t) => spec_parse_forward_type(v@) == Some(
                (fwd_kind(t), fwd_num(t), fwd_name(t)),
            ),
            Err(_) => spec_parse_forward_type(v@) is None,
        },
{
    let ci = find_char(v, ':', 0);
    if ci >= v.len() {
        let mut msg = "Invalid forward type format: ".to_owned();
        msg.append(chars_to_string(v).as_str());
        return Err(msg);
    }
    let tag = subvec(v, 0, ci);
    let value = subvec(v, ci + 1, v.len());
    if chars_eq(&tag, &chars_of("tcp")) {
        match parse_dec(&value, 65535) {
            Some(n) => Ok(ForwardType::Tcp(n as u16)),
            None => {
                let mut msg = "Invalid TCP port: ".to_owned();
                msg.append(chars_to_string(&value).as_str());
                Err(msg)
            },
        }
    } else if chars_eq(&tag, &chars_of("localabstract")) {
        Ok(ForwardType::LocalAbstract(chars_to_string(&value)))
    } else if chars_eq(&tag, &chars_of("localreserved")) {
        Ok(ForwardType::LocalReserved(chars_to_string(&value)))
    } else if chars_eq(&tag, &chars_of("localfilesystem")) {
        Ok(ForwardType::LocalFilesystem(chars_to_string(&value)))
    } else if chars_eq(&tag, &chars_of("dev")) {
        Ok(ForwardType::Dev(chars_to_string(&value)))
    } else if chars_eq(&tag, &chars_of("jdwp")) {
        match parse_dec(&value, 0xFFFFFFFFu64) {
            Some(n) => Ok(ForwardType::Jdwp(n as u32)),
            None => {
                let mut msg = "Invalid JDWP pid: ".to_owned();
                msg.append(chars_to_string(&value).as_str());
                Err(msg)
            },
        }
    } else {
        let mut msg = "Unknown forward type: ".to_owned();
        msg.append(chars_to_string(&tag).as_str());
        Err(msg)
    }
}

impl ForwardType {
    /// The serialized value part alone: the port or pid in decimal, or
    /// the name.
    pub open spec fn spec_value(&self) -> Seq<char> {
        if kind_numeric(fwd_kind(*self)) {
            spec_digits(fwd_num(*self))
        } else {
            fwd_name(*self)
        }
    }

    /// The value part of the endpoint, consuming it.
    pub fn get_value(self) -> (r: String)
        ensures
            r@ == self.spec_value(),
    {
        match self {
            ForwardType::Tcp(port) => chars_to_string(&dec_chars(port as u64)),
            ForwardType::LocalAbstract(name) => name,
            ForwardType::LocalReserved(name) => name,
            ForwardType::LocalFilesystem(name) => name,
            ForwardType::Dev(name) => name,
            ForwardType::Jdwp(pid) => chars_to_string(&dec_chars(pid as u64)),
        }
    }

    /// The value part of the endpoint.
    pub fn get_value_ref(&self) -> (r: String)
        ensures
            r@ == self.spec_value(),
    {
        match self {
            ForwardType::Tcp(port) => chars_to_string(&dec_chars(*port as u64)),
            ForwardType::LocalAbstract(name) => name.clone(),
            ForwardType::LocalReserved(name) => name.clone(),
            ForwardType::LocalFilesystem(name) => name.clone(),
            ForwardType::Dev(name) => name.clone(),
            ForwardType::Jdwp(pid) => chars_to_string(&dec_chars(*pid as u64)),
        }
    }
}

/// Parsing `<left>;<right>`: exactly one semicolon separates the two
/// endpoint specifications.
pub open spec fn spec_parse_forward_pair(s: Seq<char>) -> Option<
    ((ForwardKind, int, Seq<char>), (ForwardKind, int, Seq<char>)),
> {
    let si = first_index_of(s, ';', 0);
    if si >= s.len() {
        None
    } else if first_index_of(s, ';', si + 1) < s.len() {
        None
    } else {
        let left = spec_parse_forward_type(s.subrange(0, si));
        let right = spec_parse_forward_type(s.subrange(si + 1, s.len() as int));
        match (left, right) {
            (Some(l), Some(r)) => Some((l, r)),
            _ => None,
        }
    }
}

/// Parses a `<left>;<right>` pair of endpoints from a string.
pub fn parse_forward_pair(s: &str) -> (r: Result<(ForwardType, ForwardType), String>)
    ensures
        match r {
            Ok((l, rgt)) => spec_parse_forward_pair(s@) == Some(
                (
                    (fwd_kind(l), fwd_num(l), fwd_name(l)),
                    (fwd_kind(rgt), fwd_num(rgt), fwd_name(rgt)),
                ),
            ),
            Err(_) => spec_parse_forward_pair(s@) is None,
        },
{
    let v = chars_of(s);
    let si = find_char(&v, ';', 0);
    if si >= v.len() {
        return Err("Invalid format. Expected 'local;remote'.".to_owned());
    }
    if find_char(&v, ';', si + 1) < v.len() {
        return Err("Invalid format. Expected 'local;remote'.".to_owned());
    }
    let left = subvec(&v, 0, si);
    let right = subvec(&v, si + 1, v.len());
    let l = match parse_forward_type_chars(&left) {
        Ok(t) => t,
        Err(e) => {
            return Err(e);
        },
    };
    let rgt = match parse_forward_type_chars(&right) {
        Ok(t) => t,
        Err(e) => {
            return Err(e);
        },
    };
    Ok((l, rgt))
}

/// A pair serializes as `<left>;<right>`.
pub open spec fn spec_print_forward_pair(l: ForwardType, r: ForwardType) -> Seq<char> {
    spec_print_forward_type(fwd_kind(l), fwd_num(l), fwd_name(l)) + seq![';']
        + spec_print_forward_type(fwd_kind(r), fwd_num(r), fwd_name(r))
}

/// Serializes a pair of endpoints as `<left>;<right>`.
pub fn print_forward_pair(l: &ForwardType, r: &ForwardType) -> (s: String)
    ensures
        s@ == spec_print_forward_pair(*l, *r),
{
    let mut v = forward_type_chars(l);
    v.push(';');
    let mut rv = forward_type_chars(r);
    v.append(&mut rv);
    proof {
        assert(v@ =~= spec_print_forward_pair(*l, *r));
    }
    chars_to_string(&v)
}


/// `first_index_of` finds `c` at `k` when nothing before it matches.
pub proof fn lemma_first_index_from(s: Seq<char>, c: char, i: int, k: int)
    requires
        0 <= i <= k < s.len(),
        s[k] == c,
        forall|j: int| i <= j < k ==> s[j] != c,
    ensures
        first_index_of(s, c, i) == k,
    decreases k - i,
{
    if i < k {
        lemma_first_index_from(s, c, i + 1, k);
    }
}

/// `first_index_of` reports the length when `c` does not occur.
pub proof fn lemma_first_index_none(s: Seq<char>, c: char, i: int)
    requires
        0 <= i <= s.len(),
        forall|j: int| i <= j < s.len() ==> s[j] != c,
    ensures
        first_index_of(s, c, i) == s.len(),
    decreases s.len() - i,
{
    if i < s.len() {
        lemma_first_index_none(s, c, i + 1);
    }
}

/// The serialized tag of a kind contains neither separator character.
pub proof fn lemma_tag_chars(k: ForwardKind)
    ensures
        forall|i: int|
            0 <= i < kind_tag(k).len() ==> kind_tag(k)[i] != ':' && kind_tag(k)[i] != ';',
        kind_tag(k).len() > 0,
{
    reveal_strlit("tcp");
    reveal_strlit("localabstract");
    reveal_strlit("localreserved");
    reveal_strlit("localfilesystem");
    reveal_strlit("dev");
    reveal_strlit("jdwp");
}

/// Serialization round trip for one endpoint: parsing what printing
/// produced recovers the kind, the number and the name, for every kind.
pub proof fn lemma_forward_type_round_trip(t: ForwardType)
    ensures
        spec_parse_forward_type(
            spec_print_forward_type(fwd_kind(t), fwd_num(t), fwd_name(t)),
        ) == Some((fwd_kind(t), fwd_num(t), fwd_name(t))),
{
    reveal_strlit("tcp");
    reveal_strlit("localabstract");
    reveal_strlit("localreserved");
    reveal_strlit("localfilesystem");
    reveal_strlit("dev");
    reveal_strlit("jdwp");
    let k = fwd_kind(t);
    let num = fwd_num(t);
    let name = fwd_name(t);
    let tag = kind_tag(k);
    let value = if kind_numeric(k) {
        spec_digits(num)
    } else {
        name
    };
    let s = spec_print_forward_type(k, num, name);
    lemma_tag_chars(k);
    assert(s.len() == tag.len() + 1 + value.len());
    assert(s[tag.len() as int] == ':');
    assert(forall|j: int| 0 <= j < tag.len() ==> s[j] == tag[j]);
    lemma_first_index_from(s, ':', 0, tag.len() as int);
    assert(s.subrange(0, tag.len() as int) =~= tag);
    assert(s.subrange(tag.len() as int + 1, s.len() as int) =~= value);
    if kind_numeric(k) {
        lemma_digits_round_trip(num);
        assert(spec_parse_dec(value, kind_max(k)) == Some(num));
    }
    match k {
        ForwardKind::Tcp => {
        },
        ForwardKind::LocalAbstract => {
            assert(tag != kind_tag(ForwardKind::Tcp)) by {
                assert(tag.len() == 13 && kind_tag(ForwardKind::Tcp).len() == 3);
            }
        },
        ForwardKind::LocalReserved => {
            assert(tag != kind_tag(ForwardKind::Tcp));
            assert(tag != kind_tag(ForwardKind::LocalAbstract)) by {
                assert(tag[5] == 'r' && kind_tag(ForwardKind::LocalAbstract)[5] == 'a');
            }
        },
        ForwardKind::LocalFilesystem => {
            assert(tag != kind_tag(ForwardKind::Tcp));
            assert(tag != kind_tag(ForwardKind::LocalAbstract));
            assert(tag != kind_tag(ForwardKind::LocalReserved));
        },
        ForwardKind::Dev => {
            assert(tag != kind_tag(ForwardKind::Tcp)) by {
                assert(tag[0] == 'd' && kind_tag(ForwardKind::Tcp)[0] == 't');
            }
            assert(tag != kind_tag(ForwardKind::LocalAbstract));
            assert(tag != kind_tag(ForwardKind::LocalReserved));
            assert(tag != kind_tag(ForwardKind::LocalFilesystem));
        },
        ForwardKind::Jdwp => {
            assert(tag != kind_tag(ForwardKind::Tcp));
            assert(tag != kind_tag(ForwardKind::LocalAbstract));
            assert(tag != kind_tag(ForwardKind::LocalReserved));
            assert(tag != kind_tag(ForwardKind::LocalFilesystem));
            assert(tag != kind_tag(ForwardKind::Dev));
        },
    }
}

/// No separator occurs in a printed endpoint other than its own colon,
/// provided its name avoids the semicolon.
pub proof fn lemma_printed_no_semicolon(t: ForwardType)
    requires
        !fwd_name(t).contains(';'),
    ensures
        forall|i: int|
            0 <= i < spec_print_forward_type(fwd_kind(t), fwd_num(t), fwd_name(t)).len()
                ==> #[trigger] spec_print_forward_type(fwd_kind(t), fwd_num(t), fwd_name(t))[i]
                != ';',
{
    let k = fwd_kind(t);
    let s = spec_print_forward_type(k, fwd_num(t), fwd_name(t));
    let tag = kind_tag(k);
    lemma_tag_chars(k);
    if kind_numeric(k) {
        lemma_digits_not_separator(fwd_num(t));
    }
    assert forall|i: int| 0 <= i < s.len() implies #[trigger] s[i] != ';' by {
        if i < tag.len() {
            assert(s[i] == tag[i]);
        } else if i == tag.len() {
            assert(s[i] == ':');
        } else {
            if kind_numeric(k) {
                assert(s[i] == spec_digits(fwd_num(t))[i - tag.len() - 1]);
            } else {
                assert(s[i] == fwd_name(t)[i - tag.len() - 1]);
                assert(!fwd_name(t).contains(';'));
                if s[i] == ';' {
                    assert(fwd_name(t).contains(';'));
                }
            }
        }
    }
}

/// Serialization round trip for a `<left>;<right>` pair, for endpoints
/// whose names contain no semicolon (a name holding one cannot survive
/// the pair syntax).
pub proof fn lemma_forward_pair_round_trip(l: ForwardType, r: ForwardType)
    requires
        !fwd_name(l).contains(';'),
        !fwd_name(r).contains(';'),
    ensures
        spec_parse_forward_pair(spec_print_forward_pair(l, r)) == Some(
            (
                (fwd_kind(l), fwd_num(l), fwd_name(l)),
                (fwd_kind(r), fwd_num(r), fwd_name(r)),
            ),
        ),
{
    let pl = spec_print_forward_type(fwd_kind(l), fwd_num(l), fwd_name(l));
    let pr = spec_print_forward_type(fwd_kind(r), fwd_num(r), fwd_name(r));
    let s = spec_print_forward_pair(l, r);
    lemma_printed_no_semicolon(l);
    lemma_printed_no_semicolon(r);
    assert(s.len() == pl.len() + 1 + pr.len());
    assert(s[pl.len() as int] == ';');
    assert(forall|j: int| 0 <= j < pl.len() ==> s[j] == pl[j]);
    assert(forall|j: int|
        pl.len() + 1 <= j < s.len() ==> s[j] == pr[j - pl.len() - 1]);
    lemma_first_index_from(s, ';', 0, pl.len() as int);
    assert(forall|j: int| pl.len() + 1 <= j < s.len() ==> s[j] != ';');
    lemma_first_index_none(s, ';', pl.len() as int + 1);
    assert(s.subrange(0, pl.len() as int) =~= pl);
    assert(s.subrange(pl.len() as int + 1, s.len() as int) =~= pr);
    lemma_forward_type_round_trip(l);
    lemma_forward_type_round_trip(r);
}

} // verus!
