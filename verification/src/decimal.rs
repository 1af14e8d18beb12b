use vstd::prelude::*;

verus! {

/// The character for one decimal digit.
pub open spec fn digit_char(d: int) -> char {
    if d == 0 {
        '0'
    } else if d == 1 {
        '1'
    } else if d == 2 {
        '2'
    } else if d == 3 {
        '3'
    } else if d == 4 {
        '4'
    } else if d == 5 {
        '5'
    } else if d == 6 {
        '6'
    } else if d == 7 {
        '7'
    } else if d == 8 {
        '8'
    } else {
        '9'
    }
}

/// The value of one decimal digit character, or -1 for any other character.
pub open spec fn char_digit(c: char) -> int {
    if c == '0' {
        0
    } else if c == '1' {
        1
    } else if c == '2' {
        2
    } else if c == '3' {
        3
    } else if c == '4' {
        4
    } else if c == '5' {
        5
    } else if c == '6' {
        6
    } else if c == '7' {
        7
    } else if c == '8' {
        8
    } else if c == '9' {
        9
    } else {
        -1
    }
}

/// The decimal digit characters of a non-negative number, most
/// significant first, without leading zeros.
pub open spec fn spec_digits(n: int) -> Seq<char>
    decreases n,
{
    if n < 10 {
        seq![digit_char(n)]
    } else {
        spec_digits(n / 10).push(digit_char(n % 10))
    }
}

/// Whether every character is a decimal digit.
pub open spec fn all_digits(s: Seq<char>) -> bool {
    forall|i: int| 0 <= i < s.len() ==> char_digit(s[i]) >= 0
}

/// The number read from a digit string, most significant first.
pub open spec fn digits_value(s: Seq<char>) -> int
    decreases s.len(),
{
    if s.len() == 0 {
        0
    } else {
        digits_value(s.drop_last()) * 10 + char_digit(s.last())
    }
}

/// A non-empty all-digit string with a value within `max` parses to that
/// value; anything else is rejected.
pub open spec fn spec_parse_dec(s: Seq<char>, max: int) -> Option<int> {
    if s.len() > 0 && all_digits(s) && digits_value(s) <= max {
        Some(digits_value(s))
    } else {
        None
    }
}

/// A digit string's value is non-negative.
pub proof fn lemma_digits_value_nonneg(s: Seq<char>)
    requires
        all_digits(s),
    ensures
        digits_value(s) >= 0,
    decreases s.len(),
{
    if s.len() > 0 {
        lemma_digits_value_nonneg(s.drop_last());
    }
}

/// A prefix of a digit string never exceeds the whole string's value.
pub proof fn lemma_digits_value_prefix(s: Seq<char>, i: int)
    requires
        all_digits(s),
        0 <= i <= s.len(),
    ensures
        digits_value(s.take(i)) <= digits_value(s),
    decreases s.len() - i,
{
    if i < s.len() {
        lemma_digits_value_prefix(s, i + 1);
        assert(s.take(i + 1).drop_last() =~= s.take(i));
        assert(all_digits(s.take(i))) by {
            assert(forall|j: int| 0 <= j < i ==> s.take(i)[j] == s[j]);
        }
        lemma_digits_value_nonneg(s.take(i));
        assert(digits_value(s.take(i + 1)) == digits_value(s.take(i)) * 10 + char_digit(s[i]));
        assert(char_digit(s[i]) >= 0);
        assert(digits_value(s.take(i)) <= digits_value(s.take(i)) * 10 + char_digit(s[i]))
            by (nonlinear_arith)
            requires
                digits_value(s.take(i)) >= 0,
                char_digit(s[i]) >= 0,
        ;
    } else {
        assert(s.take(i) =~= s);
    }
}

/// Printing a number and reading the digits back recovers the number,
/// the digits are all decimal, and there is at least one of them.
pub proof fn lemma_digits_round_trip(n: int)
    requires
        n >= 0,
    ensures
        all_digits(spec_digits(n)),
        digits_value(spec_digits(n)) == n,
        spec_digits(n).len() >= 1,
    decreases n,
{
    if n < 10 {
        let s = spec_digits(n);
        assert(s == seq![digit_char(n)]);
        assert(s.drop_last() =~= Seq::<char>::empty());
        assert(digits_value(s) == digits_value(s.drop_last()) * 10 + char_digit(s.last()));
        assert(s.last() == digit_char(n));
        assert(char_digit(digit_char(n)) == n);
    } else {
        lemma_digits_round_trip(n / 10);
        let s = spec_digits(n);
        assert(s == spec_digits(n / 10).push(digit_char(n % 10)));
        assert(s.drop_last() =~= spec_digits(n / 10));
        assert(char_digit(digit_char(n % 10)) == n % 10);
        assert(digits_value(s) == (n / 10) * 10 + n % 10);
        assert((n / 10) * 10 + n % 10 == n) by (nonlinear_arith)
            requires
                n >= 0,
        ;
    }
}

/// No decimal digit is a separator character.
pub proof fn lemma_digits_not_separator(n: int)
    requires
        n >= 0,
    ensures
        forall|i: int|
            0 <= i < spec_digits(n).len() ==> spec_digits(n)[i] != ':' && spec_digits(n)[i]
                != ';',
    decreases n,
{
    if n < 10 {
        assert(spec_digits(n) == seq![digit_char(n)]);
    } else {
        lemma_digits_not_separator(n / 10);
        assert(spec_digits(n) == spec_digits(n / 10).push(digit_char(n % 10)));
    }
    assert forall|i: int| 0 <= i < spec_digits(n).len() implies #[trigger] spec_digits(n)[i]
        != ':' && spec_digits(n)[i] != ';' by {
        if n >= 10 {
            if i < spec_digits(n / 10).len() {
                assert(spec_digits(n)[i] == spec_digits(n / 10)[i]);
            }
        }
    }
}

/// The digit character of `d`, for `0 <= d <= 9`.
pub fn digit_to_char(d: u64) -> (r: char)
    requires
        d <= 9,
    ensures
        r == digit_char(d as int),
{
    match d {
        0 => '0',
        1 => '1',
        2 => '2',
        3 => '3',
        4 => '4',
        5 => '5',
        6 => '6',
        7 => '7',
        8 => '8',
        _ => '9',
    }
}

/// The value of a digit character, or 10 for any other character.
pub fn char_to_digit(c: char) -> (r: u64)
    ensures
        char_digit(c) >= 0 ==> r == char_digit(c),
        char_digit(c) < 0 ==> r == 10,
{
    match c {
        '0' => 0,
        '1' => 1,
        '2' => 2,
        '3' => 3,
        '4' => 4,
        '5' => 5,
        '6' => 6,
        '7' => 7,
        '8' => 8,
        '9' => 9,
        _ => 10,
    }
}

/// The decimal digit characters of `n`, most significant first.
pub fn dec_chars(n: u64) -> (r: Vec<char>)
    ensures
        r@ == spec_digits(n as int),
    decreases n,
{
    if n < 10 {
        let mut v: Vec<char> = Vec::new();
        v.push(digit_to_char(n));
        proof {
            assert(v@ =~= spec_digits(n as int));
        }
        v
    } else {
        let mut v = dec_chars(n / 10);
        v.push(digit_to_char(n % 10));
        v
    }
}

/// Reads a decimal number of at most `max` from the characters, strictly:
/// only digit characters, at least one, value within `max`.
pub fn parse_dec(v: &Vec<char>, max: u64) -> (r: Option<u64>)
    requires
        max <= 0xFFFFFFFFu64,
    ensures
        match r {
            Some(n) => spec_parse_dec(v@, max as int) == Some(n as int),
            None => spec_parse_dec(v@, max as int) is None,
        },
{
    if v.len() == 0 {
        return None;
    }
    let mut acc: u64 = 0;
    let mut i: usize = 0;
    while i < v.len()
        invariant
            0 <= i <= v@.len(),
            max <= 0xFFFFFFFFu64,
            acc <= max,
            all_digits(v@.take(i as int)),
            acc == digits_value(v@.take(i as int)),
        decreases v@.len() - i,
    {
        let d = char_to_digit(v[i]);
        if d == 10 {
            proof {
                assert(char_digit(v@[i as int]) < 0);
                assert(!all_digits(v@));
            }
            return None;
        }
        proof {
            assert(v@.take(i as int + 1).drop_last() =~= v@.take(i as int));
            assert forall|j: int| 0 <= j < i + 1 implies char_digit(
                #[trigger] v@.take(i as int + 1)[j],
            ) >= 0 by {
                assert(v@.take(i as int + 1)[j] == v@[j]);
            }
        }
        proof {
            assert(digits_value(v@.take(i as int + 1)) == acc * 10 + d);
        }
        let nv: u64 = acc * 10 + d;
        if nv > max {
            proof {
                if all_digits(v@) {
                    lemma_digits_value_prefix(v@, i as int + 1);
                    assert(digits_value(v@) > max);
                }
            }
            return None;
        }
        acc = nv;
        i = i + 1;
    }
    proof {
        assert(v@.take(v@.len() as int) =~= v@);
    }
    Some(acc)
}

} // verus!
