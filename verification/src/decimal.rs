//! Decimal numerals: printing integers as `Display` does, and reading them
//! back as `str::parse` does for the integer types.
use vstd::prelude::*;
use crate::text::push_char;

verus! {

/// The ASCII digit for `d < 10`.
pub open spec fn digit_char(d: nat) -> char {
    (48 + d) as char
}

/// Whether `c` is one of the ASCII digits `0`..`9`.
pub open spec fn is_digit(c: char) -> bool {
    '0' <= c && c <= '9'
}

/// The value of an ASCII digit.
pub open spec fn digit_value(c: char) -> nat {
    (c as int - 48) as nat
}

/// The decimal digits of `n`, most significant first, without leading zeros.
pub open spec fn nat_digits(n: nat) -> Seq<char>
    decreases n,
{
    if n < 10 {
        seq![digit_char(n)]
    } else {
        nat_digits(n / 10).push(digit_char(n % 10))
    }
}

/// `i` written in decimal, with a `-` in front when it is negative.
pub open spec fn int_decimal(i: int) -> Seq<char> {
    if i < 0 {
        seq!['-'] + nat_digits((-i) as nat)
    } else {
        nat_digits(i as nat)
    }
}

/// Whether every character of `s` is an ASCII digit.
pub open spec fn all_digits(s: Seq<char>) -> bool {
    forall|k: int| 0 <= k < s.len() ==> is_digit(#[trigger] s[k])
}

/// The value of a string of ASCII digits.
pub open spec fn digits_value(s: Seq<char>) -> nat
    decreases s.len(),
{
    if s.len() == 0 {
        0
    } else {
        digits_value(s.drop_last()) * 10 + digit_value(s.last())
    }
}

/// What `str::parse` gives for an unsigned integer type whose largest value is
/// `max`: an optional `+`, then one or more ASCII digits, of value at most `max`.
pub open spec fn parse_unsigned(s: Seq<char>, max: nat) -> Option<nat> {
    let d = if s.len() > 0 && s[0] == '+' { s.drop_first() } else { s };
    if d.len() > 0 && all_digits(d) && digits_value(d) <= max {
        Some(digits_value(d))
    } else {
        None
    }
}

/// What `str::parse` gives for a signed integer type ranging over `min..=max`:
/// an optional `+` or `-`, then one or more ASCII digits, the value in range.
pub open spec fn parse_signed(s: Seq<char>, min: int, max: int) -> Option<int> {
    if s.len() > 0 && s[0] == '-' {
        let d = s.drop_first();
        if d.len() > 0 && all_digits(d) && min <= -digits_value(d) {
            Some(-digits_value(d))
        } else {
            None
        }
    } else {
        match parse_unsigned(s, if max >= 0 { max as nat } else { 0 }) {
            Some(v) => Some(v as int),
            None => None,
        }
    }
}

/// `u32::from_str` on the characters `s`.
pub open spec fn spec_parse_u32(s: Seq<char>) -> Option<u32> {
    match parse_unsigned(s, u32::MAX as nat) {
        Some(v) => Some(v as u32),
        None => None,
    }
}

/// `i32::from_str` on the characters `s`.
pub open spec fn spec_parse_i32(s: Seq<char>) -> Option<i32> {
    match parse_signed(s, i32::MIN as int, i32::MAX as int) {
        Some(v) => Some(v as i32),
        None => None,
    }
}

/// `i64::from_str` on the characters `s`.
pub open spec fn spec_parse_i64(s: Seq<char>) -> Option<i64> {
    match parse_signed(s, i64::MIN as int, i64::MAX as int) {
        Some(v) => Some(v as i64),
        None => None,
    }
}

proof fn lemma_digits_value_prefix_le(s: Seq<char>, i: int)
    requires
        0 <= i <= s.len(),
    ensures
        digits_value(s.subrange(0, i)) <= digits_value(s),
    decreases s.len() - i,
{
    if i < s.len() {
        lemma_digits_value_prefix_le(s, i + 1);
        let p = s.subrange(0, i + 1);
        assert(p.drop_last() == s.subrange(0, i));
    } else {
        assert(s.subrange(0, i) == s);
    }
}

/// The value of the digits `s[from..]` if they are all ASCII digits, there is at
/// least one, and the value fits in a `u64`.
pub(crate) fn digits_u64(s: &Vec<char>, from: usize) -> (res: Option<u64>)
    requires
        from <= s.len(),
    ensures
        ({
            let d = s@.subrange(from as int, s.len() as int);
            match res {
                Some(v) => d.len() > 0 && all_digits(d) && v == digits_value(d),
                None => !(d.len() > 0 && all_digits(d) && digits_value(d) <= u64::MAX),
            }
        }),
{
    let ghost d = s@.subrange(from as int, s.len() as int);
    if from == s.len() {
        return None;
    }
    let mut v: u64 = 0;
    let mut i = from;
    while i < s.len()
        invariant
            from <= i <= s.len(),
            d == s@.subrange(from as int, s.len() as int),
            all_digits(s@.subrange(from as int, i as int)),
            v == digits_value(s@.subrange(from as int, i as int)),
        decreases s.len() - i,
    {
        let c = s[i];
        let ghost pre = s@.subrange(from as int, i as int);
        let ghost next = s@.subrange(from as int, i + 1);
        assert(next.drop_last() == pre);
        assert(next.last() == c);
        if !('0' <= c && c <= '9') {
            assert(d[i - from] == c);
            return None;
        }
        let dv = (c as u32 - 48) as u64;
        assert(dv == digit_value(c));
        match v.checked_mul(10) {
            Some(m) => match m.checked_add(dv) {
                Some(nv) => {
                    v = nv;
                },
                None => {
                    proof {
                        assert(digits_value(next) > u64::MAX);
                        lemma_digits_value_prefix_le(d, i + 1 - from);
                        assert(d.subrange(0, i + 1 - from) == next);
                    }
                    return None;
                },
            },
            None => {
                proof {
                    assert(digits_value(next) > u64::MAX) by (nonlinear_arith)
                        requires
                            digits_value(next) == v * 10 + dv,
                            v * 10 > u64::MAX,
                    ;
                    lemma_digits_value_prefix_le(d, i + 1 - from);
                    assert(d.subrange(0, i + 1 - from) == next);
                }
                return None;
            },
        }
        assert forall|k: int| 0 <= k < next.len() implies is_digit(#[trigger] next[k]) by {
            if k < pre.len() {
                assert(next[k] == pre[k]);
            }
        }
        i += 1;
    }
    Some(v)
}

/// `str::parse::<u32>()`.
pub fn parse_u32(s: &Vec<char>) -> (res: Option<u32>)
    ensures
        res == spec_parse_u32(s@),
{
    let from: usize = if s.len() > 0 && s[0] == '+' { 1 } else { 0 };
    assert(s@.subrange(from as int, s.len() as int) == (if s@.len() > 0 && s@[0] == '+' { s@.drop_first() } else { s@ }));
    match digits_u64(s, from) {
        Some(v) => if v <= 4294967295 { Some(v as u32) } else { None },
        None => None,
    }
}

/// `str::parse::<i64>()`.
pub fn parse_i64(s: &Vec<char>) -> (res: Option<i64>)
    ensures
        res == spec_parse_i64(s@),
{
    if s.len() > 0 && s[0] == '-' {
        assert(s@.subrange(1, s.len() as int) == s@.drop_first());
        match digits_u64(s, 1) {
            Some(v) => if v <= 9223372036854775807 {
                Some(0 - (v as i64))
            } else if v == 9223372036854775808 {
                Some(-9223372036854775808i64)
            } else {
                None
            },
            None => None,
        }
    } else {
        let from: usize = if s.len() > 0 && s[0] == '+' { 1 } else { 0 };
        assert(s@.subrange(from as int, s.len() as int) == (if s@.len() > 0 && s@[0] == '+' { s@.drop_first() } else { s@ }));
        match digits_u64(s, from) {
            Some(v) => if v <= 9223372036854775807 { Some(v as i64) } else { None },
            None => None,
        }
    }
}

/// `str::parse::<i32>()`.
pub fn parse_i32(s: &Vec<char>) -> (res: Option<i32>)
    ensures
        res == spec_parse_i32(s@),
{
    match parse_i64(s) {
        Some(v) => if -2147483648 <= v && v <= 2147483647 { Some(v as i32) } else {
            proof {
                // a value outside the i32 range is outside it whatever its sign
                assert(spec_parse_i32(s@) is None);
            }
            None
        },
        None => {
            proof {
                assert(spec_parse_i32(s@) is None);
            }
            None
        },
    }
}

/// Appends the decimal digits of `n`.
fn push_digits(s: &mut String, n: u64)
    ensures
        final(s)@ == old(s)@ + nat_digits(n as nat),
    decreases n,
{
    if n >= 10 {
        push_digits(s, n / 10);
    }
    let d = (n % 10) as u8;
    let c = (48u8 + d) as char;
    assert(c == digit_char((n % 10) as nat));
    push_char(s, c);
    proof {
        if n < 10 {
            assert(n % 10 == n);
        }
    }
}

/// `n` written in decimal; `u64::to_string`.
pub fn u64_to_decimal(n: u64) -> (res: String)
    ensures
        res@ == nat_digits(n as nat),
{
    let mut s = String::new();
    push_digits(&mut s, n);
    s
}

/// Appends `i` written in decimal, with a `-` in front when it is negative.
pub fn push_i64_decimal(s: &mut String, i: i64)
    ensures
        final(s)@ == old(s)@ + int_decimal(i as int),
{
    if i < 0 {
        push_char(s, '-');
        let m: u64 = if i == -9223372036854775808i64 { 9223372036854775808u64 } else { (0 - i) as u64 };
        push_digits(s, m);
        assert(seq!['-'] + nat_digits(m as nat) == int_decimal(i as int));
        assert(old(s)@.push('-') + nat_digits(m as nat) == old(s)@ + (seq!['-'] + nat_digits(m as nat)));
    } else {
        push_digits(s, i as u64);
    }
}


proof fn lemma_nat_digits_read_back(n: nat)
    ensures
        nat_digits(n).len() > 0,
        all_digits(nat_digits(n)),
        digits_value(nat_digits(n)) == n,
        nat_digits(n)[0] != '+' && nat_digits(n)[0] != '-',
    decreases n,
{
    if n >= 10 {
        lemma_nat_digits_read_back(n / 10);
        let p = nat_digits(n / 10);
        let s = nat_digits(n);
        assert(s == p.push(digit_char(n % 10)));
        assert(s.drop_last() == p);
        assert forall|k: int| 0 <= k < s.len() implies is_digit(#[trigger] s[k]) by {
            if k < p.len() {
                assert(s[k] == p[k]);
            }
        }
        assert(s[0] == p[0]);
        assert(digit_value(digit_char(n % 10)) == n % 10);
        assert(digits_value(s) == digits_value(p) * 10 + n % 10);
    } else {
        let s = nat_digits(n);
        assert(s.drop_last().len() == 0);
        assert(digit_value(digit_char(n)) == n);
        assert(digits_value(s.drop_last()) == 0);
    }
}

/// Reading back what is written: a `u32` written in decimal reads as itself.
pub proof fn law_u32_decimal_round_trip(n: u32)
    ensures
        spec_parse_u32(nat_digits(n as nat)) == Some(n),
{
    lemma_nat_digits_read_back(n as nat);
}

/// Reading back what is written: an `i64` written in decimal reads as itself.
pub proof fn law_i64_decimal_round_trip(i: i64)
    ensures
        spec_parse_i64(int_decimal(i as int)) == Some(i),
{
    if i < 0 {
        lemma_nat_digits_read_back((-i) as nat);
        let s = int_decimal(i as int);
        assert(s.drop_first() == nat_digits((-i) as nat));
    } else {
        lemma_nat_digits_read_back(i as nat);
    }
}

} // verus!
