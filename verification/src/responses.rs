use vstd::prelude::*;
use crate::chars::{chars_of, chars_to_string};
use vstd::string::StringExecFns;

verus! {

/// The character for one hexadecimal digit, lowercase.
pub open spec fn hex_char(d: int) -> char {
    if d < 10 {
        crate::decimal::digit_char(d)
    } else if d == 10 {
        'a'
    } else if d == 11 {
        'b'
    } else if d == 12 {
        'c'
    } else if d == 13 {
        'd'
    } else if d == 14 {
        'e'
    } else {
        'f'
    }
}

/// The value of a hexadecimal digit character, either case, or -1.
pub open spec fn char_hex(c: char) -> int {
    if c == 'a' || c == 'A' {
        10
    } else if c == 'b' || c == 'B' {
        11
    } else if c == 'c' || c == 'C' {
        12
    } else if c == 'd' || c == 'D' {
        13
    } else if c == 'e' || c == 'E' {
        14
    } else if c == 'f' || c == 'F' {
        15
    } else {
        crate::decimal::char_digit(c)
    }
}

/// The hexadecimal digits of a non-negative number, most significant
/// first, without leading zeros.
pub open spec fn spec_hex_digits(n: int) -> Seq<char>
    decreases n,
{
    if n < 16 {
        seq![hex_char(n)]
    } else {
        spec_hex_digits(n / 16).push(hex_char(n % 16))
    }
}

/// The hexadecimal digits of `n`, zero-padded on the left to at least
/// `width` characters.
pub open spec fn spec_hex_pad(n: int, width: int) -> Seq<char> {
    let d = spec_hex_digits(n);
    if d.len() >= width {
        d
    } else {
        Seq::new((width - d.len()) as nat, |i: int| '0') + d
    }
}

/// The hexadecimal digit character of `d`, for `0 <= d <= 15`.
pub fn hex_to_char(d: u64) -> (r: char)
    requires
        d <= 15,
    ensures
        r == hex_char(d as int),
{
    match d {
        0 => '0',
        1 => '1',
        2 => '2',
        3 => '3',
        4 => '4',
        5 => '5',
        6 => '6',
        7 => '7',
        8 => '8',
        9 => '9',
        10 => 'a',
        11 => 'b',
        12 => 'c',
        13 => 'd',
        14 => 'e',
        _ => 'f',
    }
}

/// The value of a hexadecimal digit character, or 16 for any other.
pub fn char_to_hex(c: char) -> (r: u64)
    ensures
        char_hex(c) >= 0 ==> r == char_hex(c),
        char_hex(c) < 0 ==> r == 16,
{
    match c {
        '0' => 0,
        '1' => 1,
        '2' => 2,
        '3' => 3,
        '4' => 4,
        '5' => 5,
        '6' => 6,
        '7' => 7,
        '8' => 8,
        '9' => 9,
        'a' | 'A' => 10,
        'b' | 'B' => 11,
        'c' | 'C' => 12,
        'd' | 'D' => 13,
        'e' | 'E' => 14,
        'f' | 'F' => 15,
        _ => 16,
    }
}

/// The hexadecimal digit characters of `n`, most significant first.
pub fn hex_chars(n: u64) -> (r: Vec<char>)
    ensures
        r@ == spec_hex_digits(n as int),
    decreases n,
{
    if n < 16 {
        let mut v: Vec<char> = Vec::new();
        v.push(hex_to_char(n));
        proof {
            assert(v@ =~= spec_hex_digits(n as int));
        }
        v
    } else {
        let mut v = hex_chars(n / 16);
        v.push(hex_to_char(n % 16));
        v
    }
}

/// The hexadecimal digits of `n`, zero-padded to at least `width`.
pub fn hex_chars_pad(n: u64, width: usize) -> (r: Vec<char>)
    ensures
        r@ == spec_hex_pad(n as int, width as int),
{
    let d = hex_chars(n);
    if d.len() >= width {
        return d;
    }
    let mut v: Vec<char> = Vec::new();
    let pad: usize = width - d.len();
    let mut i: usize = 0;
    while i < pad
        invariant
            0 <= i <= pad,
            v@ == Seq::new(i as nat, |j: int| '0'),
        decreases pad - i,
    {
        v.push('0');
        proof {
            assert(v@ =~= Seq::new(i as nat + 1, |j: int| '0'));
        }
        i = i + 1;
    }
    let mut dm = d;
    v.append(&mut dm);
    v
}

/// The number of bytes in a string's UTF-8 form (which fits a usize for
/// any string held in memory).
pub open spec fn spec_byte_len(s: Seq<char>) -> int {
    (vstd::utf8::encode_utf8(s).len() as usize) as int
}

/// An empty payload stays empty; anything else is framed as its byte
/// length in four-plus lowercase hex digits, then the payload.
pub open spec fn spec_format_response_with_size(s: Seq<char>) -> Seq<char> {
    if s.len() == 0 {
        Seq::empty()
    } else {
        spec_hex_pad(spec_byte_len(s), 4) + s
    }
}

/// Frames a response payload with its `%04x` byte-length prefix; an empty
/// payload produces the empty string.
pub fn format_response_with_size(response: String) -> (r: String)
    ensures
        r@ == spec_format_response_with_size(response@),
{
    let mut rest = chars_of(response.as_str());
    if rest.len() == 0 {
        String::new()
    } else {
        let blen = response.as_str().len();
        let mut v = hex_chars_pad(blen as u64, 4);
        v.append(&mut rest);
        proof {
            assert(v@ =~= spec_format_response_with_size(response@));
        }
        chars_to_string(&v)
    }
}

/// The success status word of the client protocol.
pub fn okay() -> (r: String)
    ensures
        r@ == "OKAY"@,
{
    "OKAY".to_owned()
}

/// The failure status word of the client protocol.
pub fn fail() -> (r: String)
    ensures
        r@ == "FAIL"@,
{
    "FAIL".to_owned()
}

/// A full `OKAY` response: the status word, then the framed payload when
/// one is present.
pub fn build_ok_response(response: Option<String>) -> (r: String)
    ensures
        r@ == "OKAY"@ + match response {
            Some(content) => spec_format_response_with_size(content@),
            None => Seq::<char>::empty(),
        },
{
    let mut r = okay();
    match response {
        Some(content) => {
            r.append(format_response_with_size(content).as_str());
        },
        None => {
        },
    }
    r
}

/// A full `FAIL` response: the status word, then the framed payload when
/// one is present.
pub fn build_fail_response(response: Option<String>) -> (r: String)
    ensures
        r@ == "FAIL"@ + match response {
            Some(content) => spec_format_response_with_size(content@),
            None => Seq::<char>::empty(),
        },
{
    let mut r = fail();
    match response {
        Some(content) => {
            r.append(format_response_with_size(content).as_str());
        },
        None => {
        },
    }
    r
}

/// A command either already ending in NUL or with one appended.
pub open spec fn spec_null_terminated(s: Seq<char>) -> Seq<char> {
    if s.len() > 0 && s.last() == '\0' {
        s
    } else {
        s.push('\0')
    }
}

/// Appends the terminating NUL that device commands require, unless the
/// command already ends in one.
pub fn ensure_null_terminated(command: String) -> (r: String)
    ensures
        r@ == spec_null_terminated(command@),
{
    let mut v = chars_of(command.as_str());
    if v.len() == 0 || v[v.len() - 1] != '\0' {
        v.push('\0');
    }
    chars_to_string(&v)
}

} // verus!
