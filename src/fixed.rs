//! Decimal text to fixed-point thousandths.
use vstd::prelude::*;

verus! {

/// Most digits accepted before the decimal point.
pub const MAX_INT_DIGITS: usize = 15;

pub open spec fn is_digit(c: char) -> bool {
    '0' <= c && c <= '9'
}

pub open spec fn all_digits(s: Seq<char>) -> bool {
    forall|i: int| 0 <= i < s.len() ==> is_digit(#[trigger] s[i])
}

/// The base-ten value of a run of digits.
pub open spec fn digits_value(s: Seq<char>) -> int
    decreases s.len(),
{
    if s.len() == 0 {
        0
    } else {
        digits_value(s.drop_last()) * 10 + (s.last() as int - '0' as int)
    }
}

/// The first three fractional digits as thousandths; later digits are dropped.
pub open spec fn fraction_thousandths(f: Seq<char>) -> int {
    if f.len() >= 3 {
        digits_value(f.take(3))
    } else if f.len() == 2 {
        digits_value(f) * 10
    } else if f.len() == 1 {
        digits_value(f) * 100
    } else {
        0
    }
}

/// Index of the first `.` in `s`, or `s.len()` when there is none.
pub open spec fn dot_index(s: Seq<char>) -> int
    decreases s.len(),
{
    if s.len() == 0 {
        0
    } else if s[0] == '.' {
        0
    } else {
        1 + dot_index(s.drop_first())
    }
}

pub open spec fn has_sign(s: Seq<char>) -> bool {
    s.len() > 0 && (s[0] == '-' || s[0] == '+')
}

/// `[+-]digits[.digits]` (either run may be empty, not both) in thousandths,
/// truncated after the third fractional digit; `None` for anything else or
/// for more than `MAX_INT_DIGITS` integer digits.
pub open spec fn parse_fixed_spec(s: Seq<char>) -> Option<int> {
    let body = if has_sign(s) {
        s.drop_first()
    } else {
        s
    };
    let d = dot_index(body);
    let ip = body.take(d);
    let fp = if d < body.len() {
        body.skip(d + 1)
    } else {
        Seq::empty()
    };
    if ip.len() + fp.len() == 0 || !all_digits(ip) || !all_digits(fp) || ip.len()
        > MAX_INT_DIGITS {
        None
    } else {
        let v = digits_value(ip) * 1000 + fraction_thousandths(fp);
        Some(
            if has_sign(s) && s[0] == '-' {
                -v
            } else {
                v
            },
        )
    }
}

proof fn lemma_digits_value_bound(s: Seq<char>)
    requires
        all_digits(s),
    ensures
        0 <= digits_value(s) < pow10(s.len()),
    decreases s.len(),
{
    if s.len() > 0 {
        lemma_digits_value_bound(s.drop_last());
    }
}

pub open spec fn pow10(n: nat) -> int
    decreases n,
{
    if n == 0 {
        1
    } else {
        10 * pow10((n - 1) as nat)
    }
}

/// Value of the digits `s[from..to]`.
fn digits_value_of(s: &str, from: usize, to: usize) -> (r: u64)
    requires
        from <= to <= s@.len(),
        to - from <= MAX_INT_DIGITS,
        all_digits(s@.subrange(from as int, to as int)),
    ensures
        r as int == digits_value(s@.subrange(from as int, to as int)),
{
    let mut v: u64 = 0;
    let mut i: usize = from;
    while i < to
        invariant
            from <= i <= to <= s@.len(),
            to - from <= MAX_INT_DIGITS,
            all_digits(s@.subrange(from as int, to as int)),
            v as int == digits_value(s@.subrange(from as int, i as int)),
            v < pow10((i - from) as nat),
        decreases to - i,
    {
        let c = s.get_char(i);
        proof {
            assert(s@.subrange(from as int, to as int)[i - from] == c);
            assert(s@.subrange(from as int, i + 1).drop_last() =~= s@.subrange(
                from as int,
                i as int,
            ));
            lemma_pow10_bound((i - from) as nat);
        }
        v = v * 10 + (c as u64 - '0' as u64);
        i = i + 1;
    }
    v
}

proof fn lemma_pow10_mono(a: nat, b: nat)
    requires
        a <= b,
    ensures
        1 <= pow10(a) <= pow10(b),
    decreases b,
{
    if b > a {
        lemma_pow10_mono(a, (b - 1) as nat);
    } else {
        lemma_pow10_pos(a);
    }
}

proof fn lemma_pow10_pos(n: nat)
    ensures
        pow10(n) >= 1,
    decreases n,
{
    if n > 0 {
        lemma_pow10_pos((n - 1) as nat);
    }
}

proof fn lemma_pow10_bound(n: nat)
    requires
        n < MAX_INT_DIGITS,
    ensures
        pow10(n) * 10 <= 1_000_000_000_000_000,
        pow10(n) >= 1,
{
    lemma_pow10_mono(n, 14);
    reveal_with_fuel(pow10, 15);
}

fn all_digits_in(s: &str, from: usize, to: usize) -> (r: bool)
    requires
        from <= to <= s@.len(),
    ensures
        r == all_digits(s@.subrange(from as int, to as int)),
{
    let mut i: usize = from;
    while i < to
        invariant
            from <= i <= to <= s@.len(),
            all_digits(s@.subrange(from as int, i as int)),
        decreases to - i,
    {
        let c = s.get_char(i);
        if !('0' <= c && c <= '9') {
            assert(s@.subrange(from as int, to as int)[i - from] == c);
            return false;
        }
        i = i + 1;
    }
    true
}

fn find_dot(s: &str, from: usize) -> (r: usize)
    requires
        from <= s@.len(),
    ensures
        from + r as int == from + dot_index(s@.skip(from as int)),
        r <= s@.len() - from,
{
    let n = s.unicode_len();
    let mut i: usize = from;
    while i < n
        invariant
            from <= i <= n == s@.len(),
            dot_index(s@.skip(from as int)) == (i - from) + dot_index(s@.skip(i as int)),
        decreases n - i,
    {
        let c = s.get_char(i);
        if c == '.' {
            return i - from;
        }
        assert(s@.skip(i as int).drop_first() =~= s@.skip(i + 1));
        i = i + 1;
    }
    i - from
}

/// Parses decimal text into thousandths, see `parse_fixed_spec`.
pub fn parse_fixed(s: &str) -> (r: Option<i64>)
    ensures
        r.is_some() == parse_fixed_spec(s@).is_some(),
        r.is_some() ==> r.unwrap() as int == parse_fixed_spec(s@).unwrap(),
{
    let n = s.unicode_len();
    let signed = n > 0 && (s.get_char(0) == '-' || s.get_char(0) == '+');
    let negative = signed && s.get_char(0) == '-';
    let start: usize = if signed {
        1
    } else {
        0
    };
    let ghost body = if has_sign(s@) {
        s@.drop_first()
    } else {
        s@
    };
    assert(body =~= s@.skip(start as int));
    let d = find_dot(s, start);
    let int_end = start + d;
    let frac_start = if int_end < n {
        int_end + 1
    } else {
        n
    };
    assert(body.take(d as int) =~= s@.subrange(start as int, int_end as int));
    let ghost fp = if (d as int) < body.len() {
        body.skip(d + 1)
    } else {
        Seq::<char>::empty()
    };
    assert(fp =~= s@.skip(frac_start as int));
    assert(s@.skip(frac_start as int) =~= s@.subrange(frac_start as int, n as int));
    if d + (n - frac_start) == 0 || !all_digits_in(s, start, int_end) || !all_digits_in(
        s,
        frac_start,
        n,
    ) || d > MAX_INT_DIGITS {
        return None;
    }
    let ip = digits_value_of(s, start, int_end);
    proof {
        lemma_digits_value_bound(s@.subrange(start as int, int_end as int));
        lemma_pow10_mono(d as nat, 15);
        reveal_with_fuel(pow10, 16);
    }
    let frac = fraction_of(s, frac_start);
    let v: i64 = (ip * 1000 + frac) as i64;
    if negative {
        Some(-v)
    } else {
        Some(v)
    }
}

/// Thousandths in the fractional digits `s[from..]`.
fn fraction_of(s: &str, from: usize) -> (r: u64)
    requires
        from <= s@.len(),
        all_digits(s@.skip(from as int)),
    ensures
        r as int == fraction_thousandths(s@.skip(from as int)),
        r < 1000,
{
    let ghost f = s@.skip(from as int);
    let n = s.unicode_len();
    let len: usize = if n - from >= 3 {
        3
    } else {
        n - from
    };
    assert(f.take(len as int) =~= s@.subrange(from as int, from + len));
    let v = digits_value_of(s, from, from + len);
    proof {
        lemma_digits_value_bound(f.take(len as int));
        reveal_with_fuel(pow10, 4);
        if len < 3 {
            assert(f.take(len as int) =~= f);
        }
    }
    if len == 3 {
        v
    } else if len == 2 {
        v * 10
    } else if len == 1 {
        v * 100
    } else {
        0
    }
}

} // verus!
