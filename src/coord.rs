//! Coordinates as decimal text, the form in which they travel and are stored.
//!
//! The text is an optional `-`, one or more digits, then optionally `.` and
//! one to seven more digits: `48.8239103`, `-0.5`, `2`. Its value is in
//! ten-millionths of a degree, so every such text is read exactly.
use vstd::prelude::*;

verus! {

/// Magnitudes from here up are refused; well inside `i64`.
pub const MAX_MAGNITUDE: i64 = 1_000_000_000_000_000_000;

/// Units per degree.
pub const UNITS_PER_DEGREE: i64 = 10_000_000;

pub open spec fn pow10(n: nat) -> int
    decreases n,
{
    if n == 0 {
        1
    } else {
        10 * pow10((n - 1) as nat)
    }
}

pub open spec fn is_digit(c: char) -> bool {
    48 <= (c as u32) && (c as u32) <= 57
}

pub open spec fn digit_value(c: char) -> int {
    (c as u32) as int - 48
}

pub open spec fn digit_char(d: int) -> char {
    if d == 0 { '0' } else if d == 1 { '1' } else if d == 2 { '2' } else if d == 3 { '3' } else if d == 4 {
        '4'
    } else if d == 5 { '5' } else if d == 6 { '6' } else if d == 7 { '7' } else if d == 8 { '8' } else {
        '9'
    }
}

/// Reads an unsigned decimal, left to right: `Some((value, seen_dot,
/// fraction_digits))`, or `None` once the text breaks the grammar or the
/// digits read reach `MAX_MAGNITUDE`.
pub open spec fn scan(s: Seq<char>) -> Option<(int, bool, int)>
    decreases s.len(),
{
    if s.len() == 0 {
        Some((0, false, 0))
    } else {
        match scan(s.drop_last()) {
            None => None,
            Some((v, dot, k)) => {
                let c = s.last();
                if is_digit(c) {
                    let w = v * 10 + digit_value(c);
                    if w >= MAX_MAGNITUDE || (dot && k >= 7) {
                        None
                    } else if dot {
                        Some((w, true, k + 1))
                    } else {
                        Some((w, false, 0))
                    }
                } else if c == '.' && !dot && s.len() > 1 {
                    Some((v, true, 0))
                } else {
                    None
                }
            },
        }
    }
}

/// The value of an unsigned decimal text, in units.
pub open spec fn magnitude_value(m: Seq<char>) -> Option<int> {
    match scan(m) {
        None => None,
        Some((v, dot, k)) => {
            let u = v * pow10((7 - k) as nat);
            if m.len() > 0 && !(dot && k == 0) && u < MAX_MAGNITUDE {
                Some(u)
            } else {
                None
            }
        },
    }
}

/// The value of a coordinate text, in units.
pub open spec fn coordinate_value(s: Seq<char>) -> Option<int> {
    if s.len() > 0 && s[0] == '-' {
        match magnitude_value(s.drop_first()) {
            Some(u) => Some(-u),
            None => None,
        }
    } else {
        magnitude_value(s)
    }
}

/// The digits of `n`, without leading zeros.
pub open spec fn decimal_text(n: nat) -> Seq<char>
    decreases n,
{
    if n < 10 {
        seq![digit_char(n as int)]
    } else {
        decimal_text(n / 10).push(digit_char(n as int % 10))
    }
}

/// The last `w` digits of `n`, with leading zeros.
pub open spec fn padded_text(n: nat, w: nat) -> Seq<char>
    decreases w,
{
    if w == 0 {
        Seq::empty()
    } else {
        padded_text(n / 10, (w - 1) as nat).push(digit_char(n as int % 10))
    }
}

/// The text of a coordinate: degrees, then seven decimals.
pub open spec fn coordinate_text(v: int) -> Seq<char> {
    let a = if v < 0 { -v } else { v };
    let body = decimal_text((a / 10_000_000) as nat) + seq!['.'] + padded_text((a % 10_000_000) as nat, 7);
    if v < 0 {
        seq!['-'] + body
    } else {
        body
    }
}

fn pow10_exec(n: u64) -> (r: u64)
    requires
        n <= 7,
    ensures
        r as int == pow10(n as nat),
        1 <= r <= 10_000_000,
{
    let mut r: u64 = 1;
    let mut i: u64 = 0;
    while i < n
        invariant
            i <= n <= 7,
            r as int == pow10(i as nat),
            1 <= r <= 10_000_000,
        decreases n - i,
    {
        assert(pow10((i + 1) as nat) == 10 * pow10(i as nat));
        proof {
            lemma_pow10_small();
        }
        r = r * 10;
        i = i + 1;
    }
    r
}

proof fn lemma_pow10_small()
    ensures
        pow10(0) == 1,
        pow10(1) == 10,
        pow10(2) == 100,
        pow10(3) == 1000,
        pow10(4) == 10000,
        pow10(5) == 100000,
        pow10(6) == 1000000,
        pow10(7) == 10000000,
{
    reveal_with_fuel(pow10, 8);
}

/// Reads the unsigned decimal `m`.
fn parse_magnitude(m: &str) -> (r: Option<u64>)
    ensures
        match magnitude_value(m@) {
            Some(u) => r == Some(u as u64) && u >= 0,
            None => r is None,
        },
{
    let n = m.unicode_len();
    let mut v: u64 = 0;
    let mut dot = false;
    let mut k: u64 = 0;
    let mut i: usize = 0;
    while i < n
        invariant
            n == m@.len(),
            i <= n,
            scan(m@.subrange(0, i as int)) == Some((v as int, dot, k as int)),
            v < MAX_MAGNITUDE,
            k <= 7,
            !dot ==> k == 0,
        decreases n - i,
    {
        let c = m.get_char(i);
        let ghost prefix = m@.subrange(0, i + 1);
        assert(prefix.drop_last() =~= m@.subrange(0, i as int));
        let code = c as u32;
        if 48 <= code && code <= 57 {
            let d = (code - 48) as u64;
            if v >= 100_000_000_000_000_000 || (dot && k >= 7) {
                proof {
                    lemma_scan_none_after(m@, i as int + 1);
                }
                return None;
            }
            let w = v * 10 + d;
            if w >= 1_000_000_000_000_000_000 {
                proof {
                    lemma_scan_none_after(m@, i as int + 1);
                }
                return None;
            }
            v = w;
            if dot {
                k = k + 1;
            }
        } else if c == '.' && !dot && i > 0 {
            dot = true;
        } else {
            proof {
                lemma_scan_none_after(m@, i as int + 1);
            }
            return None;
        }
        i = i + 1;
    }
    assert(m@.subrange(0, n as int) =~= m@);
    if n == 0 || (dot && k == 0) {
        return None;
    }
    let p = pow10_exec(7 - k);
    assert(v as int * p as int <= 1_000_000_000_000_000_000 * 10_000_000) by (nonlinear_arith)
        requires
            0 <= v < 1_000_000_000_000_000_000,
            1 <= p <= 10_000_000,
    ;
    let u: u128 = v as u128 * p as u128;
    if u >= 1_000_000_000_000_000_000 {
        return None;
    }
    Some(u as u64)
}

proof fn lemma_scan_none_after(s: Seq<char>, i: int)
    requires
        0 <= i <= s.len(),
        scan(s.subrange(0, i)) is None,
    ensures
        scan(s) is None,
    decreases s.len() - i,
{
    if i < s.len() {
        assert(s.subrange(0, i + 1).drop_last() =~= s.subrange(0, i));
        lemma_scan_none_after(s, i + 1);
    } else {
        assert(s.subrange(0, i) =~= s);
    }
}

/// Reads a coordinate text; `None` exactly when the text is not one.
pub fn parse_coordinate(s: &str) -> (r: Option<i64>)
    ensures
        match coordinate_value(s@) {
            Some(v) => r == Some(v as i64) && -MAX_MAGNITUDE < v < MAX_MAGNITUDE,
            None => r is None,
        },
{
    let n = s.unicode_len();
    if n > 0 && s.get_char(0) == '-' {
        let rest = s.substring_char(1, n);
        assert(rest@ =~= s@.drop_first());
        match parse_magnitude(rest) {
            Some(u) => Some(-(u as i64)),
            None => None,
        }
    } else {
        match parse_magnitude(s) {
            Some(u) => Some(u as i64),
            None => None,
        }
    }
}

fn digit_str(d: u64) -> (r: &'static str)
    requires
        d < 10,
    ensures
        r@ == seq![digit_char(d as int)],
{
    let table = "0123456789";
    proof {
        reveal_strlit("0123456789");
    }
    let r = table.substring_char(d as usize, d as usize + 1);
    assert(r@ =~= seq![digit_char(d as int)]);
    r
}

fn push_decimal(out: &mut String, n: u64)
    ensures
        final(out)@ == old(out)@ + decimal_text(n as nat),
    decreases n,
{
    if n >= 10 {
        push_decimal(out, n / 10);
    }
    out.append(digit_str(n % 10));
    assert(out@ =~= old(out)@ + decimal_text(n as nat));
}

fn push_padded(out: &mut String, n: u64, w: u64)
    ensures
        final(out)@ == old(out)@ + padded_text(n as nat, w as nat),
    decreases w,
{
    if w > 0 {
        push_padded(out, n / 10, w - 1);
        out.append(digit_str(n % 10));
    }
    assert(out@ =~= old(out)@ + padded_text(n as nat, w as nat));
}

/// Writes a coordinate as degrees with seven decimals.
pub fn format_coordinate(v: i64) -> (r: String)
    ensures
        r@ == coordinate_text(v as int),
{
    let a: u64 = if v < 0 { (-(v as i128)) as u64 } else { v as u64 };
    let mut out = String::new();
    if v < 0 {
        out.append("-");
        proof {
            reveal_strlit("-");
        }
    }
    push_decimal(&mut out, a / 10_000_000);
    out.append(".");
    proof {
        reveal_strlit(".");
    }
    push_padded(&mut out, a % 10_000_000, 7);
    assert(out@ =~= coordinate_text(v as int));
    out
}

proof fn lemma_digit(d: int)
    requires
        0 <= d < 10,
    ensures
        is_digit(digit_char(d)),
        digit_value(digit_char(d)) == d,
{
}

proof fn lemma_scan_decimal(n: nat)
    requires
        n < MAX_MAGNITUDE,
    ensures
        scan(decimal_text(n)) == Some((n as int, false, 0int)),
        decimal_text(n).len() > 0,
        is_digit(decimal_text(n)[0]),
    decreases n,
{
    lemma_digit(n as int % 10);
    if n < 10 {
        assert(seq![digit_char(n as int)].drop_last() =~= Seq::<char>::empty());
        assert(scan(Seq::<char>::empty()) == Some((0int, false, 0int)));
        assert(n as int % 10 == n);
        assert(scan(decimal_text(n)) == Some((n as int, false, 0int)));
    } else {
        lemma_scan_decimal(n / 10);
        assert(decimal_text(n).drop_last() =~= decimal_text(n / 10));
        assert(decimal_text(n)[0] == decimal_text(n / 10)[0]);
        assert((n / 10) as int * 10 + n as int % 10 == n);
        assert(scan(decimal_text(n)) == Some((n as int, false, 0int)));
    }
}

proof fn lemma_scan_padded(p: Seq<char>, n: int, r: nat, w: nat)
    requires
        scan(p) == Some((n, true, 0int)),
        n >= 0,
        w <= 7,
        r < pow10(w),
        n * pow10(w) + r < MAX_MAGNITUDE,
    ensures
        scan(p + padded_text(r, w)) == Some((n * pow10(w) + r, true, w as int)),
    decreases w,
{
    if w == 0 {
        assert(p + padded_text(r, w) =~= p);
    } else {
        let w1 = (w - 1) as nat;
        let pw = pow10(w1);
        assert(pow10(w) == 10 * pw);
        assert(pw >= 1) by {
            lemma_pow10_positive(w1);
        }
        assert(r / 10 < pw && n * pw + r / 10 <= (n * pow10(w) + r) / 10 && n * pow10(w) + r == (n * pw + r / 10) * 10 + r % 10) by (nonlinear_arith)
            requires
                r < 10 * pw,
                pow10(w) == 10 * pw,
                n >= 0,
                pw >= 1,
        ;
        lemma_scan_padded(p, n, r / 10, w1);
        lemma_digit(r as int % 10);
        assert((p + padded_text(r, w)).drop_last() =~= p + padded_text(r / 10, w1));
    }
}

proof fn lemma_pow10_positive(n: nat)
    ensures
        pow10(n) >= 1,
    decreases n,
{
    if n > 0 {
        lemma_pow10_positive((n - 1) as nat);
    }
}

/// Reading back the text of a coordinate gives the coordinate, for every
/// magnitude below `MAX_MAGNITUDE`.
pub proof fn lemma_coordinate_round_trip(v: int)
    requires
        -MAX_MAGNITUDE < v < MAX_MAGNITUDE,
    ensures
        coordinate_value(coordinate_text(v)) == Some(v),
{
    let a = if v < 0 { -v } else { v };
    let q = (a / 10_000_000) as nat;
    let r = (a % 10_000_000) as nat;
    lemma_pow10_small();
    lemma_scan_decimal(q);
    let t = decimal_text(q);
    let td = t.push('.');
    assert(td.drop_last() =~= t);
    assert(scan(td) == Some((q as int, true, 0int)));
    assert(q * 10_000_000 + r == a);
    lemma_scan_padded(td, q as int, r, 7);
    let body = t + seq!['.'] + padded_text(r, 7);
    assert(body =~= td + padded_text(r, 7));
    assert(magnitude_value(body) == Some(a));
    assert(body[0] == t[0]);
    if v < 0 {
        assert((seq!['-'] + body).drop_first() =~= body);
    }
}

} // verus!
