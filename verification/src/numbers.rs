use vstd::prelude::*;

verus! {

// ------------------------------------------------------------------
// Decimal numbers, as Rust's `str::parse` reads them
// ------------------------------------------------------------------
pub open spec fn is_digit(c: char) -> bool {
    '0' <= c && c <= '9'
}

pub open spec fn digit_value(c: char) -> int {
    c as int - '0' as int
}

pub open spec fn all_digits(s: Seq<char>) -> bool {
    forall|i: int| 0 <= i < s.len() ==> is_digit(#[trigger] s[i])
}

/// The value of a string of decimal digits.
pub open spec fn digits_value(s: Seq<char>) -> nat
    decreases s.len(),
{
    if s.len() == 0 {
        0
    } else {
        (digits_value(s.drop_last()) * 10 + digit_value(s.last())) as nat
    }
}

/// A signed decimal integer: an optional `+` or `-` followed by at least one
/// digit and nothing else.
pub open spec fn parse_signed(s: Seq<char>) -> Option<int> {
    if s.len() > 0 && (s[0] == '-' || s[0] == '+') {
        let d = s.skip(1);
        if d.len() > 0 && all_digits(d) {
            if s[0] == '-' {
                Some(-digits_value(d))
            } else {
                Some(digits_value(d) as int)
            }
        } else {
            None
        }
    } else if s.len() > 0 && all_digits(s) {
        Some(digits_value(s) as int)
    } else {
        None
    }
}

/// An unsigned decimal integer: an optional `+` followed by at least one digit.
pub open spec fn parse_unsigned(s: Seq<char>) -> Option<int> {
    if s.len() > 0 && s[0] == '+' {
        let d = s.skip(1);
        if d.len() > 0 && all_digits(d) {
            Some(digits_value(d) as int)
        } else {
            None
        }
    } else if s.len() > 0 && all_digits(s) {
        Some(digits_value(s) as int)
    } else {
        None
    }
}

/// `s.parse::<i32>()`.
pub open spec fn parse_i32(s: Seq<char>) -> Option<i32> {
    match parse_signed(s) {
        Some(v) => if i32::MIN <= v <= i32::MAX {
            Some(v as i32)
        } else {
            None
        },
        None => None,
    }
}

/// `s.parse::<i64>()`.
pub open spec fn parse_i64(s: Seq<char>) -> Option<i64> {
    match parse_signed(s) {
        Some(v) => if i64::MIN <= v <= i64::MAX {
            Some(v as i64)
        } else {
            None
        },
        None => None,
    }
}

/// `s.parse::<u32>()`.
pub open spec fn parse_u32(s: Seq<char>) -> Option<u32> {
    match parse_unsigned(s) {
        Some(v) => if v <= u32::MAX {
            Some(v as u32)
        } else {
            None
        },
        None => None,
    }
}

proof fn lemma_digits_prefix_le(s: Seq<char>, k: int)
    requires
        0 <= k <= s.len(),
        all_digits(s),
    ensures
        digits_value(s.take(k)) <= digits_value(s),
    decreases s.len() - k,
{
    if k < s.len() {
        lemma_digits_prefix_le(s, k + 1);
        assert(s.take(k + 1).drop_last() == s.take(k));
        assert(s.take(k + 1).last() == s[k]);
        assert(is_digit(s[k]));
    } else {
        assert(s.take(k) =~= s);
    }
}

/// Reads the digits of `s@[a..b]`: `Some(value)` when they are all digits, at
/// least one, with a value of at most `max`; `None` otherwise.
fn read_digits(s: &str, a: usize, b: usize, max: u64) -> (r: Option<u64>)
    requires
        a <= b <= s@.len(),
    ensures
        r matches Some(v) ==> b > a && all_digits(s@.subrange(a as int, b as int)) && v
            == digits_value(s@.subrange(a as int, b as int)) && v <= max,
        r is None ==> !(b > a && all_digits(s@.subrange(a as int, b as int)) && digits_value(
            s@.subrange(a as int, b as int),
        ) <= max),
{
    if a == b {
        return None;
    }
    let ghost d = s@.subrange(a as int, b as int);
    let mut value: u128 = 0;
    let mut i: usize = a;
    while i < b
        invariant
            a <= i <= b <= s@.len(),
            d == s@.subrange(a as int, b as int),
            all_digits(d.take(i - a)),
            value == digits_value(d.take(i - a)),
            value <= max,
        decreases b - i,
    {
        let c = s.get_char(i);
        assert(d[i - a] == c);
        if !('0' <= c && c <= '9') {
            return None;
        }
        assert(d.take(i - a + 1).drop_last() == d.take(i - a));
        assert(d.take(i - a + 1).last() == c);
        let dv = (c as u32 - '0' as u32) as u128;
        value = value * 10 + dv;
        assert(all_digits(d.take(i - a + 1))) by {
            assert forall|k: int| 0 <= k < d.take(i - a + 1).len() implies is_digit(
                #[trigger] d.take(i - a + 1)[k],
            ) by {
                if k < i - a {
                    assert(d.take(i - a + 1)[k] == d.take(i - a)[k]);
                }
            }
        }
        i = i + 1;
        if value > max as u128 {
            proof {
                if all_digits(d) {
                    lemma_digits_prefix_le(d, i - a);
                }
            }
            return None;
        }
    }
    assert(d.take(b - a) == d);
    Some(value as u64)
}

/// Reads `s@[a..b]` as a signed decimal whose value lies in `[-neg_max, pos_max]`.
fn read_signed(s: &str, a: usize, b: usize, neg_max: u64, pos_max: u64) -> (r: Option<i128>)
    requires
        a <= b <= s@.len(),
    ensures
        r == (match parse_signed(s@.subrange(a as int, b as int)) {
            Some(v) => if -neg_max <= v <= pos_max {
                Some(v as i128)
            } else {
                None::<i128>
            },
            None => None::<i128>,
        }),
{
    let ghost t = s@.subrange(a as int, b as int);
    if a < b {
        let c = s.get_char(a);
        assert(t[0] == c);
        if c == '-' || c == '+' {
            assert(t.skip(1) == s@.subrange(a as int + 1, b as int));
            let limit = if c == '-' {
                neg_max
            } else {
                pos_max
            };
            match read_digits(s, a + 1, b, limit) {
                Some(v) => {
                    if c == '-' {
                        return Some(-(v as i128));
                    } else {
                        return Some(v as i128);
                    }
                },
                None => {
                    return None;
                },
            }
        }
    }
    match read_digits(s, a, b, pos_max) {
        Some(v) => Some(v as i128),
        None => None,
    }
}

/// `s@[a..b].parse::<i32>()`.
pub fn parse_i32_at(s: &str, a: usize, b: usize) -> (r: Option<i32>)
    requires
        a <= b <= s@.len(),
    ensures
        r == parse_i32(s@.subrange(a as int, b as int)),
{
    match read_signed(s, a, b, 0x8000_0000, 0x7fff_ffff) {
        Some(v) => Some(v as i32),
        None => None,
    }
}

/// `s@[a..b].parse::<i64>()`.
pub fn parse_i64_at(s: &str, a: usize, b: usize) -> (r: Option<i64>)
    requires
        a <= b <= s@.len(),
    ensures
        r == parse_i64(s@.subrange(a as int, b as int)),
{
    match read_signed(s, a, b, 0x8000_0000_0000_0000, 0x7fff_ffff_ffff_ffff) {
        Some(v) => Some(v as i64),
        None => None,
    }
}

/// `s@[a..b].parse::<u32>()`.
pub fn parse_u32_at(s: &str, a: usize, b: usize) -> (r: Option<u32>)
    requires
        a <= b <= s@.len(),
    ensures
        r == parse_u32(s@.subrange(a as int, b as int)),
{
    let ghost t = s@.subrange(a as int, b as int);
    if a < b {
        let c = s.get_char(a);
        assert(t[0] == c);
        if c == '+' {
            assert(t.skip(1) == s@.subrange(a as int + 1, b as int));
            return match read_digits(s, a + 1, b, 0xffff_ffff) {
                Some(v) => Some(v as u32),
                None => None,
            };
        }
    }
    match read_digits(s, a, b, 0xffff_ffff) {
        Some(v) => Some(v as u32),
        None => None,
    }
}

// ------------------------------------------------------------------
// Writing numbers in decimal, as `format!("{}", n)` does
// ------------------------------------------------------------------
pub open spec fn digit_char(d: int) -> char {
    (d + '0' as int) as char
}

/// The decimal digits of `k`, most significant first, without leading zeros.
pub open spec fn digits_of(k: nat) -> Seq<char>
    decreases k,
{
    if k < 10 {
        seq![digit_char(k as int)]
    } else {
        digits_of(k / 10).push(digit_char((k % 10) as int))
    }
}

/// `n` in decimal, with a `-` in front when it is negative.
pub open spec fn decimal_text(n: int) -> Seq<char> {
    if n < 0 {
        seq!['-'] + digits_of((-n) as nat)
    } else {
        digits_of(n as nat)
    }
}

proof fn lemma_digit_char(d: int)
    requires
        0 <= d < 10,
    ensures
        digit_value(digit_char(d)) == d,
        is_digit(digit_char(d)),
{
    assert(digit_char(d) as int == d + 48);
}

/// The decimal digits of `k` are digits, at least one, and stand for `k`.
pub proof fn lemma_digits_of_value(k: nat)
    ensures
        digits_of(k).len() > 0,
        all_digits(digits_of(k)),
        digits_value(digits_of(k)) == k,
        is_digit(digits_of(k)[0]),
    decreases k,
{
    if k >= 10 {
        lemma_digits_of_value(k / 10);
        lemma_digit_char((k % 10) as int);
        let s = digits_of(k);
        assert(s.drop_last() =~= digits_of(k / 10));
        assert(s.last() == digit_char((k % 10) as int));
        assert(k == (k / 10) * 10 + k % 10) by (nonlinear_arith);
        assert(digits_value(s) == digits_value(s.drop_last()) * 10 + digit_value(s.last()));
        assert forall|i: int| 0 <= i < s.len() implies is_digit(#[trigger] s[i]) by {
            if i < s.len() - 1 {
                assert(s[i] == digits_of(k / 10)[i]);
            }
        }
    } else {
        lemma_digit_char(k as int);
        let s = digits_of(k);
        assert(s.drop_last() =~= Seq::<char>::empty());
        assert(digits_value(s) == digits_value(s.drop_last()) * 10 + digit_value(s.last()));
        assert(digits_value(s.drop_last()) == 0);
    }
}

/// Reading back what was written gives the number.
pub proof fn lemma_decimal_parses_back(n: int)
    ensures
        parse_signed(decimal_text(n)) == Some(n),
        i64::MIN <= n <= i64::MAX ==> parse_i64(decimal_text(n)) == Some(n as i64),
        i32::MIN <= n <= i32::MAX ==> parse_i32(decimal_text(n)) == Some(n as i32),
        0 <= n <= u32::MAX ==> parse_u32(decimal_text(n)) == Some(n as u32),
        forall|i: int|
            0 <= i < decimal_text(n).len() ==> is_digit(#[trigger] decimal_text(n)[i])
                || decimal_text(n)[i] == '-',
{
    if n < 0 {
        let d = digits_of((-n) as nat);
        lemma_digits_of_value((-n) as nat);
        let s = decimal_text(n);
        assert(s.skip(1) =~= d);
        assert forall|i: int| 0 <= i < s.len() implies is_digit(#[trigger] s[i]) || s[i] == '-' by {
            if i > 0 {
                assert(s[i] == d[i - 1]);
            }
        }
    } else {
        lemma_digits_of_value(n as nat);
    }
}

fn digit_str(d: u64) -> (s: &'static str)
    requires
        d < 10,
    ensures
        s@ == seq![digit_char(d as int)],
{
    proof {
        reveal_strlit("0");
        reveal_strlit("1");
        reveal_strlit("2");
        reveal_strlit("3");
        reveal_strlit("4");
        reveal_strlit("5");
        reveal_strlit("6");
        reveal_strlit("7");
        reveal_strlit("8");
        reveal_strlit("9");
    }
    match d {
        0 => "0",
        1 => "1",
        2 => "2",
        3 => "3",
        4 => "4",
        5 => "5",
        6 => "6",
        7 => "7",
        8 => "8",
        _ => "9",
    }
}

fn append_digits(s: &mut String, k: u64)
    ensures
        final(s)@ == old(s)@ + digits_of(k as nat),
    decreases k,
{
    if k < 10 {
        s.append(digit_str(k));
    } else {
        append_digits(s, k / 10);
        s.append(digit_str(k % 10));
        assert(final(s)@ =~= old(s)@ + digits_of(k as nat));
    }
}

/// `n` in decimal.
pub fn decimal(n: i64) -> (s: String)
    ensures
        s@ == decimal_text(n as int),
{
    let mut s = String::new();
    append_decimal(&mut s, n);
    assert(s@ =~= decimal_text(n as int));
    s
}

/// Appends `n` in decimal.
pub fn append_decimal(s: &mut String, n: i64)
    ensures
        final(s)@ == old(s)@ + decimal_text(n as int),
{
    if n < 0 {
        proof {
            reveal_strlit("-");
        }
        s.append("-");
        let k: u64 = if n == i64::MIN {
            0x8000_0000_0000_0000
        } else {
            (-n) as u64
        };
        append_digits(s, k);
        assert(final(s)@ =~= old(s)@ + decimal_text(n as int));
    } else {
        append_digits(s, n as u64);
    }
}

} // verus!
