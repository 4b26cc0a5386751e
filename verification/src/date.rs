//! Calendar dates written `YYYY-MM-DD`, as the daily boards name them.

use vstd::prelude::*;

use crate::text::{
    all_digits, decimal_value, digit_value, is_digit, push_zero_padded, zero_padded, digits_of,
    digit_char, text_lt, lemma_text_lt_asymmetric, lemma_text_lt_concat,
};

verus! {

/// `10` to the power `k`.
pub open spec fn ten_pow(k: nat) -> nat
    decreases k,
{
    if k == 0 {
        1
    } else {
        10 * ten_pow((k - 1) as nat)
    }
}

/// Year, month and day of a `YYYY-MM-DD` text: four, two and two ASCII
/// decimal digits with a `-` between them, or `None` when the shape is wrong.
pub open spec fn date_fields(s: Seq<char>) -> Option<(int, int, int)> {
    if s.len() == 10 && s[4] == '-' && s[7] == '-' && all_digits(s.subrange(0, 4))
        && all_digits(s.subrange(5, 7)) && all_digits(s.subrange(8, 10)) {
        Some(
            (
                decimal_value(s.subrange(0, 4)),
                decimal_value(s.subrange(5, 7)),
                decimal_value(s.subrange(8, 10)),
            ),
        )
    } else {
        None
    }
}

/// Gregorian leap year.
pub open spec fn is_leap_year(y: int) -> bool {
    (y % 4 == 0 && y % 100 != 0) || y % 400 == 0
}

/// Number of days in month `m` of year `y`; `0` for a month outside `1..=12`.
pub open spec fn month_length(y: int, m: int) -> int {
    if m == 1 || m == 3 || m == 5 || m == 7 || m == 8 || m == 10 || m == 12 {
        31
    } else if m == 4 || m == 6 || m == 9 || m == 11 {
        30
    } else if m == 2 {
        if is_leap_year(y) {
            29
        } else {
            28
        }
    } else {
        0
    }
}

/// Month `m` of year `y` has a day `d`.
pub open spec fn is_calendar_day(y: int, m: int, d: int) -> bool {
    1 <= m <= 12 && 1 <= d <= month_length(y, m)
}

/// A `YYYY-MM-DD` text naming a day that exists in the Gregorian calendar.
pub open spec fn is_valid_date(s: Seq<char>) -> bool {
    match date_fields(s) {
        Some((y, m, d)) => is_calendar_day(y, m, d),
        None => false,
    }
}

/// The calendar day after `(y, m, d)`.
pub open spec fn next_date(y: int, m: int, d: int) -> (int, int, int) {
    if d < month_length(y, m) {
        (y, m, d + 1)
    } else if m < 12 {
        (y, m + 1, 1)
    } else {
        (y + 1, 1, 1)
    }
}

/// The calendar day before `(y, m, d)`.
pub open spec fn prev_date(y: int, m: int, d: int) -> (int, int, int) {
    if d > 1 {
        (y, m, d - 1)
    } else if m > 1 {
        (y, m - 1, month_length(y, m - 1))
    } else {
        (y - 1, 12, 31)
    }
}

/// `format!("{y:04}-{m:02}-{d:02}")` for non-negative numbers.
pub open spec fn date_text(y: int, m: int, d: int) -> Seq<char> {
    zero_padded(y as nat, 4) + seq!['-'] + zero_padded(m as nat, 2) + seq!['-'] + zero_padded(
        d as nat,
        2,
    )
}

/// The text of the day after the valid date `s`.
pub open spec fn next_day_text(s: Seq<char>) -> Seq<char> {
    let f = date_fields(s).unwrap();
    let n = next_date(f.0, f.1, f.2);
    date_text(n.0, n.1, n.2)
}

/// The day `delta` days after (before, for a negative `delta`) the day
/// `a`, stepping one day at a time; `None` once a step leaves the years
/// `0..=9999` that `YYYY` can write.
pub open spec fn shift_days(a: (int, int, int), delta: int) -> Option<(int, int, int)>
    decreases (if delta < 0 {
        -delta
    } else {
        delta
    }),
{
    if delta == 0 {
        Some(a)
    } else if delta > 0 {
        let n = next_date(a.0, a.1, a.2);
        if n.0 > 9999 {
            None
        } else {
            shift_days(n, delta - 1)
        }
    } else {
        let p = prev_date(a.0, a.1, a.2);
        if p.0 < 0 {
            None
        } else {
            shift_days(p, delta + 1)
        }
    }
}

/// Reads the characters `lo..hi` of `s` as a run of ASCII decimal digits.
fn read_field(s: &str, lo: usize, hi: usize) -> (r: Option<u32>)
    requires
        lo < hi <= s@.len(),
        hi - lo <= 4,
    ensures
        r.is_some() == all_digits(s@.subrange(lo as int, hi as int)),
        r matches Some(v) ==> {
            &&& v == decimal_value(s@.subrange(lo as int, hi as int))
            &&& v < ten_pow((hi - lo) as nat)
        },
{
    proof {
        reveal_with_fuel(ten_pow, 5);
    }
    let ghost f = s@.subrange(lo as int, hi as int);
    let mut v: u32 = 0;
    let mut i: usize = lo;
    while i < hi
        invariant
            lo <= i <= hi <= s@.len(),
            hi - lo <= 4,
            f == s@.subrange(lo as int, hi as int),
            all_digits(s@.subrange(lo as int, i as int)),
            v == decimal_value(s@.subrange(lo as int, i as int)),
            v < ten_pow((i - lo) as nat),
            ten_pow(0) == 1,
            ten_pow(1) == 10,
            ten_pow(2) == 100,
            ten_pow(3) == 1000,
            ten_pow(4) == 10000,
        decreases hi - i,
    {
        let c = s.get_char(i);
        if c < '0' || c > '9' {
            assert(f[(i - lo) as int] == c);
            assert(!is_digit(f[(i - lo) as int]));
            return None;
        }
        let dv = c as u32 - '0' as u32;
        proof {
            let prev = s@.subrange(lo as int, i as int);
            let next = s@.subrange(lo as int, i + 1);
            assert(next.drop_last() =~= prev);
            assert(next.last() == c);
            assert(ten_pow((i + 1 - lo) as nat) == 10 * ten_pow((i - lo) as nat));
            assert forall|j: int| 0 <= j < next.len() implies is_digit(#[trigger] next[j]) by {
                if j < prev.len() {
                    assert(next[j] == prev[j]);
                }
            }
        }
        v = v * 10 + dv;
        i = i + 1;
    }
    Some(v)
}

/// Year, month and day of a `YYYY-MM-DD` text, when its shape is right.
pub fn date_parts(s: &str) -> (r: Option<(u32, u32, u32)>)
    ensures
        r.is_some() == date_fields(s@).is_some(),
        r matches Some((y, m, d)) ==> {
            &&& date_fields(s@) == Some((y as int, m as int, d as int))
            &&& y < 10000
            &&& m < 100
            &&& d < 100
        },
{
    proof {
        reveal_with_fuel(ten_pow, 5);
    }
    if s.unicode_len() != 10 {
        return None;
    }
    if s.get_char(4) != '-' || s.get_char(7) != '-' {
        return None;
    }
    let y = match read_field(s, 0, 4) {
        Some(y) => y,
        None => return None,
    };
    let m = match read_field(s, 5, 7) {
        Some(m) => m,
        None => return None,
    };
    let d = match read_field(s, 8, 10) {
        Some(d) => d,
        None => return None,
    };
    Some((y, m, d))
}

/// Gregorian leap year.
pub fn is_leap(y: u32) -> (r: bool)
    ensures
        r == is_leap_year(y as int),
{
    (y % 4 == 0 && y % 100 != 0) || y % 400 == 0
}

/// Number of days in month `m` of year `y`; `0` for a month outside `1..=12`.
pub fn days_in_month(y: u32, m: u32) -> (r: u32)
    ensures
        r == month_length(y as int, m as int),
{
    if m == 1 || m == 3 || m == 5 || m == 7 || m == 8 || m == 10 || m == 12 {
        31
    } else if m == 4 || m == 6 || m == 9 || m == 11 {
        30
    } else if m == 2 {
        if is_leap(y) {
            29
        } else {
            28
        }
    } else {
        0
    }
}

/// Whether `s` is a `YYYY-MM-DD` date that exists in the calendar.
pub fn valid_date(s: &str) -> (r: bool)
    ensures
        r == is_valid_date(s@),
{
    match date_parts(s) {
        Some((y, m, d)) => {
            if m < 1 || m > 12 || d == 0 {
                return false;
            }
            d <= days_in_month(y, m)
        },
        None => false,
    }
}

/// `format!("{y:04}-{m:02}-{d:02}")`.
pub fn format_ymd(y: u32, m: u32, d: u32) -> (r: String)
    ensures
        r@ == date_text(y as int, m as int, d as int),
{
    let mut out = String::new();
    push_zero_padded(&mut out, y, 4);
    proof {
        reveal_strlit("-");
    }
    out.append("-");
    push_zero_padded(&mut out, m, 2);
    out.append("-");
    push_zero_padded(&mut out, d, 2);
    assert(out@ =~= date_text(y as int, m as int, d as int));
    out
}

/// Add one calendar day to YYYY-MM-DD.
pub fn add_one_day(date: &str) -> (r: Option<String>)
    ensures
        match r {
            None => !is_valid_date(date@),
            Some(next) => is_valid_date(date@) && next@ == next_day_text(date@),
        },
{
    if !valid_date(date) {
        return None;
    }
    let (y, m, d) = match date_parts(date) {
        Some(p) => p,
        None => return None,
    };
    let max_d = days_in_month(y, m);
    if d < max_d {
        return Some(format_ymd(y, m, d + 1));
    }
    if m < 12 {
        return Some(format_ymd(y, m + 1, 1));
    }
    Some(format_ymd(y + 1, 1, 1))
}

/// Moves the date `date` by `delta` calendar days, forward for a positive
/// `delta` and back for a negative one. `None` when `date` is not a valid
/// date, or when the result would leave the years `0000` to `9999`.
pub fn shift_date(date: &str, delta: i32) -> (r: Option<String>)
    ensures
        r is Some <==> (is_valid_date(date@) && shift_days(date_fields(date@).unwrap(), delta as int) is Some),
        r matches Some(t) ==> ({
            let a = shift_days(date_fields(date@).unwrap(), delta as int).unwrap();
            t@ == date_text(a.0, a.1, a.2)
        }),
{
    if !valid_date(date) {
        return None;
    }
    let (y0, m0, d0) = match date_parts(date) {
        Some(p) => p,
        None => return None,
    };
    let ghost start = (y0 as int, m0 as int, d0 as int);
    let (mut y, mut m, mut d) = (y0, m0, d0);
    let mut k: i64 = delta as i64;
    while k != 0
        invariant
            is_valid_date(date@),
            start == date_fields(date@).unwrap(),
            y < 10000,
            is_calendar_day(y as int, m as int, d as int),
            shift_days(start, delta as int) == shift_days((y as int, m as int, d as int), k as int),
            i32::MIN <= k <= i32::MAX,
        decreases (if k < 0 {
            -(k as int)
        } else {
            k as int
        }),
    {
        let ghost cur = (y as int, m as int, d as int);
        let ghost kk = k as int;
        if k > 0 {
            if d < days_in_month(y, m) {
                d = d + 1;
            } else if m < 12 {
                m = m + 1;
                d = 1;
            } else {
                if y == 9999 {
                    assert(shift_days(cur, kk) is None);
                    return None;
                }
                y = y + 1;
                m = 1;
                d = 1;
            }
            k = k - 1;
        } else {
            if d > 1 {
                d = d - 1;
            } else if m > 1 {
                m = m - 1;
                d = days_in_month(y, m);
            } else {
                if y == 0 {
                    assert(shift_days(cur, kk) is None);
                    return None;
                }
                y = y - 1;
                m = 12;
                d = 31;
            }
            k = k + 1;
        }
        assert(shift_days(cur, kk) == shift_days((y as int, m as int, d as int), k as int));
    }
    Some(format_ymd(y, m, d))
}

} // verus!

verus! {

proof fn lemma_digit_char(k: nat)
    requires
        k < 10,
    ensures
        is_digit(digit_char(k)),
        digit_value(digit_char(k)) == k,
{
}

proof fn lemma_digits_of(n: nat)
    ensures
        all_digits(digits_of(n)),
        decimal_value(digits_of(n)) == n,
        digits_of(n).len() >= 1,
    decreases n,
{
    lemma_digit_char(n % 10);
    if n >= 10 {
        lemma_digits_of(n / 10);
        let d = digits_of(n);
        assert(d.drop_last() =~= digits_of(n / 10));
        assert(d.last() == digit_char(n % 10));
        assert(n == (n / 10) * 10 + n % 10);
        assert forall|i: int| 0 <= i < d.len() implies is_digit(#[trigger] d[i]) by {
            if i < d.len() - 1 {
                assert(d[i] == digits_of(n / 10)[i]);
            }
        }
    } else {
        let d = digits_of(n);
        assert(d.drop_last() =~= Seq::<char>::empty());
        assert(decimal_value(Seq::<char>::empty()) == 0);
        assert(n % 10 == n);
        assert(d.last() == digit_char(n));
    }
}

proof fn lemma_digits_len(n: nat, k: nat)
    requires
        k >= 1,
        n < ten_pow(k),
    ensures
        digits_of(n).len() <= k,
    decreases n,
{
    if n >= 10 {
        assert(k >= 2) by {
            if k == 1 {
                reveal_with_fuel(ten_pow, 2);
            }
        }
        assert(ten_pow(k) == 10 * ten_pow((k - 1) as nat));
        lemma_digits_len(n / 10, (k - 1) as nat);
    }
}

proof fn lemma_zeros_value(j: nat)
    ensures
        decimal_value(Seq::new(j, |i: int| '0')) == 0,
    decreases j,
{
    if j > 0 {
        lemma_zeros_value((j - 1) as nat);
        assert(Seq::new(j, |i: int| '0').drop_last() =~= Seq::new((j - 1) as nat, |i: int| '0'));
    }
}

proof fn lemma_leading_zeros(j: nat, t: Seq<char>)
    ensures
        decimal_value(Seq::new(j, |i: int| '0') + t) == decimal_value(t),
    decreases t.len(),
{
    let z = Seq::new(j, |i: int| '0');
    if t.len() == 0 {
        assert(z + t =~= z);
        lemma_zeros_value(j);
    } else {
        lemma_leading_zeros(j, t.drop_last());
        assert((z + t).drop_last() =~= z + t.drop_last());
        assert((z + t).last() == t.last());
    }
}

proof fn lemma_zero_padded(n: nat, w: nat)
    requires
        w >= 1,
        n < ten_pow(w),
    ensures
        zero_padded(n, w).len() == w,
        all_digits(zero_padded(n, w)),
        decimal_value(zero_padded(n, w)) == n,
{
    lemma_digits_of(n);
    lemma_digits_len(n, w);
    let d = digits_of(n);
    if d.len() < w {
        let z = Seq::new((w - d.len()) as nat, |i: int| '0');
        lemma_leading_zeros((w - d.len()) as nat, d);
        let p = z + d;
        assert forall|i: int| 0 <= i < p.len() implies is_digit(#[trigger] p[i]) by {
            if i >= z.len() {
                assert(p[i] == d[i - z.len()]);
            }
        }
    }
}

/// Reading back a formatted date gives the numbers it was made from, for
/// years of at most four digits and months and days of at most two.
pub proof fn lemma_date_text_roundtrip(y: int, m: int, d: int)
    requires
        0 <= y < 10000,
        0 <= m < 100,
        0 <= d < 100,
    ensures
        date_fields(date_text(y, m, d)) == Some((y, m, d)),
{
    reveal_with_fuel(ten_pow, 5);
    lemma_zero_padded(y as nat, 4);
    lemma_zero_padded(m as nat, 2);
    lemma_zero_padded(d as nat, 2);
    let t = date_text(y, m, d);
    assert(t.subrange(0, 4) =~= zero_padded(y as nat, 4));
    assert(t.subrange(5, 7) =~= zero_padded(m as nat, 2));
    assert(t.subrange(8, 10) =~= zero_padded(d as nat, 2));
}

/// The fields of a date text are a year below 10000 and months and days
/// below 100.
pub proof fn lemma_fields_small(s: Seq<char>)
    requires
        date_fields(s) is Some,
    ensures
        0 <= date_fields(s).unwrap().0 < 10000,
        0 <= date_fields(s).unwrap().1 < 100,
        0 <= date_fields(s).unwrap().2 < 100,
{
    reveal_with_fuel(ten_pow, 5);
    lemma_small_value(s.subrange(0, 4), 4);
    lemma_small_value(s.subrange(5, 7), 2);
    lemma_small_value(s.subrange(8, 10), 2);
}

/// The digit character of a digit's value is that digit.
proof fn lemma_digit_char_of_value(c: char)
    requires
        is_digit(c),
    ensures
        digit_char(digit_value(c) as nat) == c,
{
    let k = c as int - '0' as int;
    assert(0 <= k < 10);
    assert(c as int == '0' as int + k);
}

/// A run of digits is the zero-padded text of its own value, at its own
/// width.
proof fn lemma_padded_digits(f: Seq<char>)
    requires
        f.len() >= 1,
        all_digits(f),
    ensures
        zero_padded(decimal_value(f) as nat, f.len()) == f,
    decreases f.len(),
{
    let n = decimal_value(f);
    lemma_small_value(f, f.len());
    let c = f.last();
    assert(is_digit(f[f.len() - 1]));
    lemma_digit_char_of_value(c);
    let g = f.drop_last();
    assert(all_digits(g)) by {
        assert forall|i: int| 0 <= i < g.len() implies is_digit(#[trigger] g[i]) by {
            assert(g[i] == f[i]);
        }
    }
    if f.len() == 1 {
        assert(g =~= Seq::<char>::empty());
        assert(n == digit_value(c));
        assert(zero_padded(n as nat, 1) =~= seq![digit_char(n as nat)]);
        assert(f =~= seq![c]);
    } else {
        lemma_padded_digits(g);
        lemma_small_value(g, g.len());
        lemma_zero_padded_split(n as nat, f.len());
        let q = decimal_value(g);
        let r = digit_value(c);
        assert(n == q * 10 + r);
        assert(0 <= r < 10);
        assert(q >= 0);
        assert((n as nat) / 10 == q && (n as nat) % 10 == r) by (nonlinear_arith)
            requires
                n == q * 10 + r,
                0 <= r < 10,
                q >= 0,
        ;
        assert(f =~= g.push(c));
    }
}

/// A date text is the formatted text of its own fields: `YYYY-MM-DD` has
/// one way to write each day.
pub proof fn lemma_date_text_canonical(s: Seq<char>)
    requires
        date_fields(s) is Some,
    ensures
        ({
            let f = date_fields(s).unwrap();
            date_text(f.0, f.1, f.2) == s
        }),
{
    lemma_fields_small(s);
    lemma_padded_digits(s.subrange(0, 4));
    lemma_padded_digits(s.subrange(5, 7));
    lemma_padded_digits(s.subrange(8, 10));
    let f = date_fields(s).unwrap();
    assert(date_text(f.0, f.1, f.2) =~= s);
}

/// The day after a valid date is again a valid date, and its text reads back
/// as that next day, unless the year would pass 9999 (five digits no longer
/// fit the `YYYY` field).
pub proof fn lemma_next_day_is_valid(s: Seq<char>)
    requires
        is_valid_date(s),
        date_fields(s).unwrap() != (9999int, 12int, 31int),
    ensures
        is_valid_date(next_day_text(s)),
        date_fields(next_day_text(s)) == Some(
            next_date(date_fields(s).unwrap().0, date_fields(s).unwrap().1, date_fields(s).unwrap().2),
        ),
{
    lemma_fields_small(s);
    let (y, m, d) = date_fields(s).unwrap();
    let n = next_date(y, m, d);
    lemma_date_text_roundtrip(n.0, n.1, n.2);
}

/// A run of at most `k` digits is worth less than `10^k`.
proof fn lemma_small_value(s: Seq<char>, k: nat)
    requires
        s.len() <= k,
        all_digits(s),
    ensures
        0 <= decimal_value(s) < ten_pow(k),
    decreases s.len(),
{
    lemma_ten_pow_positive(k);
    if s.len() > 0 {
        assert(all_digits(s.drop_last())) by {
            assert forall|i: int| 0 <= i < s.drop_last().len() implies is_digit(
                #[trigger] s.drop_last()[i],
            ) by {
                assert(s.drop_last()[i] == s[i]);
            }
        }
        assert(is_digit(s[s.len() - 1]));
        assert(s.last() == s[s.len() - 1]);
        lemma_small_value(s.drop_last(), (k - 1) as nat);
        assert(ten_pow(k) == 10 * ten_pow((k - 1) as nat));
    }
}

} // verus!

verus! {

proof fn lemma_ten_pow_positive(k: nat)
    ensures
        ten_pow(k) >= 1,
    decreases k,
{
    if k > 0 {
        lemma_ten_pow_positive((k - 1) as nat);
    }
}

} // verus!

verus! {

proof fn lemma_digits_len_succ(n: nat)
    requires
        n >= 10,
    ensures
        digits_of(n).len() == digits_of(n / 10).len() + 1,
{
}

proof fn lemma_zero_padded_split(n: nat, w: nat)
    requires
        w >= 2,
        n < ten_pow(w),
    ensures
        zero_padded(n, w) == zero_padded(n / 10, (w - 1) as nat).push(digit_char(n % 10)),
{
    lemma_digits_len(n, w);
    lemma_digits_of(n);
    if n >= 10 {
        lemma_digits_len_succ(n);
        let d = digits_of(n);
        let q = digits_of(n / 10);
        assert(d == q.push(digit_char(n % 10)));
        if d.len() < w {
            let z = Seq::new((w - d.len()) as nat, |i: int| '0');
            let z2 = Seq::new(((w - 1) as nat - q.len()) as nat, |i: int| '0');
            assert(z =~= z2);
            assert(z + d =~= (z2 + q).push(digit_char(n % 10)));
        }
    } else {
        assert(n / 10 == 0);
        assert(n % 10 == n);
        reveal_with_fuel(digits_of, 2);
        let z = Seq::new((w - 1) as nat, |i: int| '0');
        assert(digits_of(0) == seq!['0']);
        assert(zero_padded(0, (w - 1) as nat) =~= z);
        assert(zero_padded(n, w) =~= z.push(digit_char(n)));
    }
}

proof fn lemma_digit_char_order(a: nat, b: nat)
    requires
        a < b < 10,
    ensures
        digit_char(a) < digit_char(b),
{
    lemma_digit_char(a);
    lemma_digit_char(b);
}

/// Zero-padded numbers of one width sort as text in numeric order.
pub proof fn lemma_zero_padded_order(n1: nat, n2: nat, w: nat)
    requires
        w >= 1,
        n1 < n2,
        n2 < ten_pow(w),
    ensures
        text_lt(zero_padded(n1, w), zero_padded(n2, w)),
    decreases w,
{
    if w == 1 {
        reveal_with_fuel(ten_pow, 2);
        reveal_with_fuel(digits_of, 1);
        assert(zero_padded(n1, 1) =~= seq![digit_char(n1)]);
        assert(zero_padded(n2, 1) =~= seq![digit_char(n2)]);
        lemma_digit_char_order(n1, n2);
        assert(seq![digit_char(n1)].drop_first() =~= Seq::<char>::empty());
    } else {
        assert(ten_pow(w) == 10 * ten_pow((w - 1) as nat));
        lemma_zero_padded_split(n1, w);
        lemma_zero_padded_split(n2, w);
        let (q1, q2) = (n1 / 10, n2 / 10);
        lemma_zero_padded(q1, (w - 1) as nat);
        lemma_zero_padded(q2, (w - 1) as nat);
        let (p1, p2) = (zero_padded(q1, (w - 1) as nat), zero_padded(q2, (w - 1) as nat));
        lemma_text_lt_concat(
            p1,
            p2,
            seq![digit_char(n1 % 10)],
            seq![digit_char(n2 % 10)],
        );
        assert(p1.push(digit_char(n1 % 10)) =~= p1 + seq![digit_char(n1 % 10)]);
        assert(p2.push(digit_char(n2 % 10)) =~= p2 + seq![digit_char(n2 % 10)]);
        if q1 < q2 {
            lemma_zero_padded_order(q1, q2, (w - 1) as nat);
        } else {
            assert(n1 % 10 < n2 % 10);
            lemma_digit_char_order(n1 % 10, n2 % 10);
            assert(seq![digit_char(n1 % 10)].drop_first() =~= Seq::<char>::empty());
        }
    }
}

/// Calendar order of `(year, month, day)` triples.
pub open spec fn date_before(a: (int, int, int), b: (int, int, int)) -> bool {
    a.0 < b.0 || (a.0 == b.0 && (a.1 < b.1 || (a.1 == b.1 && a.2 < b.2)))
}

/// For years 0 to 9999, formatted dates sort as text in calendar order: the
/// order the daily boards are compared in is the order of the days.
pub proof fn lemma_date_text_order(a: (int, int, int), b: (int, int, int))
    requires
        0 <= a.0 < 10000,
        0 <= b.0 < 10000,
        0 <= a.1 < 100,
        0 <= b.1 < 100,
        0 <= a.2 < 100,
        0 <= b.2 < 100,
        date_before(a, b),
    ensures
        text_lt(date_text(a.0, a.1, a.2), date_text(b.0, b.1, b.2)),
{
    reveal_with_fuel(ten_pow, 5);
    let (ya, ma, da) = (zero_padded(a.0 as nat, 4), zero_padded(a.1 as nat, 2), zero_padded(a.2 as nat, 2));
    let (yb, mb, db) = (zero_padded(b.0 as nat, 4), zero_padded(b.1 as nat, 2), zero_padded(b.2 as nat, 2));
    lemma_zero_padded(a.0 as nat, 4);
    lemma_zero_padded(b.0 as nat, 4);
    lemma_zero_padded(a.1 as nat, 2);
    lemma_zero_padded(b.1 as nat, 2);
    lemma_zero_padded(a.2 as nat, 2);
    lemma_zero_padded(b.2 as nat, 2);
    let dash = seq!['-'];
    let (ta, tb) = (date_text(a.0, a.1, a.2), date_text(b.0, b.1, b.2));
    assert(ta =~= ya + (dash + ma + (dash + da)));
    assert(tb =~= yb + (dash + mb + (dash + db)));
    lemma_text_lt_concat(ya, yb, dash + ma + (dash + da), dash + mb + (dash + db));
    lemma_text_lt_concat(dash + ma, dash + mb, dash + da, dash + db);
    lemma_text_lt_concat(dash, dash, ma, mb);
    lemma_text_lt_concat(dash, dash, da, db);
    if a.0 < b.0 {
        lemma_zero_padded_order(a.0 as nat, b.0 as nat, 4);
    } else if a.1 < b.1 {
        lemma_zero_padded_order(a.1 as nat, b.1 as nat, 2);
    } else {
        lemma_zero_padded_order(a.2 as nat, b.2 as nat, 2);
    }
}

/// Between date texts, text order is calendar order.
pub proof fn lemma_text_order_is_day_order(a: (int, int, int), b: (int, int, int))
    requires
        0 <= a.0 < 10000,
        0 <= b.0 < 10000,
        0 <= a.1 < 100,
        0 <= b.1 < 100,
        0 <= a.2 < 100,
        0 <= b.2 < 100,
    ensures
        text_lt(date_text(a.0, a.1, a.2), date_text(b.0, b.1, b.2)) <==> date_before(a, b),
{
    let (ta, tb) = (date_text(a.0, a.1, a.2), date_text(b.0, b.1, b.2));
    if date_before(a, b) {
        lemma_date_text_order(a, b);
    } else if a == b {
        lemma_text_lt_asymmetric(ta, tb);
    } else {
        assert(date_before(b, a));
        lemma_date_text_order(b, a);
        lemma_text_lt_asymmetric(ta, tb);
    }
}

/// No calendar day lies strictly between a day and the next one.
pub proof fn lemma_nothing_between(a: (int, int, int), b: (int, int, int))
    requires
        is_calendar_day(a.0, a.1, a.2),
        is_calendar_day(b.0, b.1, b.2),
        date_before(a, b),
    ensures
        !date_before(b, next_date(a.0, a.1, a.2)),
{
}

/// The text `add_one_day` gives for a valid date is the next day: it is a
/// valid date, it sorts after the date, and no valid date sorts strictly
/// between the two. The one date left out is 9999-12-31, whose next year no
/// longer fits `YYYY`.
pub proof fn lemma_next_day_is_successor(s: Seq<char>, x: Seq<char>)
    requires
        is_valid_date(s),
        is_valid_date(x),
        date_fields(s).unwrap() != (9999int, 12int, 31int),
    ensures
        is_valid_date(next_day_text(s)),
        text_lt(s, next_day_text(s)),
        !(text_lt(s, x) && text_lt(x, next_day_text(s))),
{
    lemma_next_day_is_valid(s);
    lemma_fields_small(s);
    lemma_fields_small(x);
    lemma_date_text_canonical(s);
    lemma_date_text_canonical(x);
    let a = date_fields(s).unwrap();
    let b = date_fields(x).unwrap();
    let n = next_date(a.0, a.1, a.2);
    lemma_text_order_is_day_order(a, n);
    lemma_text_order_is_day_order(a, b);
    lemma_text_order_is_day_order(b, n);
    if date_before(a, b) {
        lemma_nothing_between(a, b);
    }
}

/// Stepping a day forward and then back, or back and then forward, returns
/// to the same day.
pub proof fn lemma_prev_next_inverse(y: int, m: int, d: int)
    requires
        is_calendar_day(y, m, d),
    ensures
        ({
            let n = next_date(y, m, d);
            prev_date(n.0, n.1, n.2) == (y, m, d)
        }),
        ({
            let p = prev_date(y, m, d);
            next_date(p.0, p.1, p.2) == (y, m, d)
        }),
        is_calendar_day(next_date(y, m, d).0, next_date(y, m, d).1, next_date(y, m, d).2),
        is_calendar_day(prev_date(y, m, d).0, prev_date(y, m, d).1, prev_date(y, m, d).2),
{
}

/// Shifting a valid day one day forward and then one day back gives it
/// back, as long as the years stay within `0..=9999`.
pub proof fn lemma_shift_forward_back(a: (int, int, int))
    requires
        0 <= a.0,
        is_calendar_day(a.0, a.1, a.2),
        shift_days(a, 1) is Some,
    ensures
        shift_days(shift_days(a, 1).unwrap(), -1) == Some(a),
{
    lemma_prev_next_inverse(a.0, a.1, a.2);
    let n = next_date(a.0, a.1, a.2);
    assert(shift_days(a, 1) == shift_days(n, 0));
    assert(shift_days(n, -1) == shift_days(prev_date(n.0, n.1, n.2), 0));
}

} // verus!

verus! {

/// The Gregorian month lengths, read off which date texts are valid: every
/// month has days 1 to 28; day 29 exists except in February of a common
/// year (leap years are those divisible by 4, but not by 100 unless by
/// 400); day 30 exists in every month but February; day 31 only in January,
/// March, May, July, August, October and December; day 32 never.
pub proof fn lemma_month_lengths(y: int, m: int)
    requires
        0 <= y < 10000,
        1 <= m <= 12,
    ensures
        forall|d: int| 1 <= d <= 28 ==> #[trigger] is_valid_date(date_text(y, m, d)),
        is_valid_date(date_text(y, m, 29)) <==> (m != 2 || (y % 4 == 0 && (y % 100 != 0 || y % 400
            == 0))),
        is_valid_date(date_text(y, m, 30)) <==> m != 2,
        is_valid_date(date_text(y, m, 31)) <==> (m == 1 || m == 3 || m == 5 || m == 7 || m == 8
            || m == 10 || m == 12),
        !is_valid_date(date_text(y, m, 32)),
        !is_valid_date(date_text(y, m, 0)),
{
    assert forall|d: int| 1 <= d <= 28 implies #[trigger] is_valid_date(date_text(y, m, d)) by {
        lemma_date_text_roundtrip(y, m, d);
    }
    lemma_date_text_roundtrip(y, m, 29);
    lemma_date_text_roundtrip(y, m, 30);
    lemma_date_text_roundtrip(y, m, 31);
    lemma_date_text_roundtrip(y, m, 32);
    lemma_date_text_roundtrip(y, m, 0);
}

/// The day after the last day of a month is the first of the next month,
/// and the day after December 31 is January 1 of the next year.
pub proof fn lemma_month_ends(y: int, m: int, d: int)
    requires
        0 <= y < 9999,
        1 <= m <= 12,
        1 <= d <= 31,
        is_valid_date(date_text(y, m, d)),
        !is_valid_date(date_text(y, m, d + 1)),
    ensures
        next_day_text(date_text(y, m, d)) == if m < 12 {
            date_text(y, m + 1, 1)
        } else {
            date_text(y + 1, 1, 1)
        },
{
    lemma_month_lengths(y, m);
    lemma_date_text_roundtrip(y, m, d);
    lemma_date_text_roundtrip(y, m, d + 1);
}

/// Within a month, the day after day `d` is day `d + 1`.
pub proof fn lemma_within_month(y: int, m: int, d: int)
    requires
        0 <= y < 10000,
        1 <= m <= 12,
        1 <= d <= 30,
        is_valid_date(date_text(y, m, d + 1)),
    ensures
        next_day_text(date_text(y, m, d)) == date_text(y, m, d + 1),
{
    lemma_month_lengths(y, m);
    lemma_date_text_roundtrip(y, m, d);
    lemma_date_text_roundtrip(y, m, d + 1);
}

} // verus!
