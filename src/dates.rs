//! Calendar arithmetic for the report date.
use vstd::prelude::*;
use crate::latex::{decimal, push_decimal};
use crate::text::{push_char, push_str};

verus! {

/// Gregorian leap year.
pub open spec fn leap(y: int) -> bool {
    y % 4 == 0 && (y % 100 != 0 || y % 400 == 0)
}

pub fn is_leap(y: i32) -> (r: bool)
    ensures
        r == leap(y as int),
{
    y % 4 == 0 && (y % 100 != 0 || y % 400 == 0)
}

/// Days in month `m` of year `y`; 30 for a month number out of range.
pub open spec fn days_in_month(y: int, m: int) -> nat {
    if m == 1 || m == 3 || m == 5 || m == 7 || m == 8 || m == 10 || m == 12 {
        31
    } else if m == 4 || m == 6 || m == 9 || m == 11 {
        30
    } else if m == 2 {
        if leap(y) { 29 } else { 28 }
    } else {
        30
    }
}

pub fn month_days(y: i32, m: u32) -> (r: u32)
    ensures
        r == days_in_month(y as int, m as int),
{
    match m {
        1 | 3 | 5 | 7 | 8 | 10 | 12 => 31,
        4 | 6 | 9 | 11 => 30,
        2 => if is_leap(y) { 29 } else { 28 },
        _ => 30,
    }
}

pub open spec fn year_len(y: int) -> nat {
    if leap(y) { 366 } else { 365 }
}

/// The year that day `rem` counted from the start of year `y` falls in, and the
/// day within it.
pub open spec fn year_of(rem: nat, y: int) -> (int, nat)
    decreases rem,
{
    if rem < year_len(y) {
        (y, rem)
    } else {
        year_of((rem - year_len(y)) as nat, y + 1)
    }
}

/// The month that day `rem` of year `y` counted from the start of month `m`
/// falls in, and the day within it.
pub open spec fn month_of(rem: nat, y: int, m: int) -> (int, nat)
    decreases 13 - m,
{
    if m >= 12 || rem < days_in_month(y, m) {
        (m, rem)
    } else {
        month_of((rem - days_in_month(y, m)) as nat, y, m + 1)
    }
}

/// `n` in decimal, left-padded with zeros to `w` digits.
pub open spec fn padded(n: nat, w: nat) -> Seq<char> {
    let d = decimal(n);
    if d.len() >= w { d } else { Seq::new((w - d.len()) as nat, |i: int| '0') + d }
}

/// `YYYY/MM/DD` of the day `days` after 1970-01-01.
pub open spec fn date_text(days: nat) -> Seq<char> {
    let (y, ry) = year_of(days, 1970);
    let (m, rm) = month_of(ry, y, 1);
    padded(y as nat, 4) + seq!['/'] + padded(m as nat, 2) + seq!['/'] + padded(rm + 1, 2)
}

fn push_padded(out: &mut String, n: u64, w: u64)
    requires
        w <= 4,
    ensures
        final(out)@ == old(out)@ + padded(n as nat, w as nat),
{
    let mut digits = String::new();
    push_decimal(&mut digits, n);
    let len = digits.as_str().unicode_len() as u64;
    let ghost start = out@;
    if len < w {
        let mut k: u64 = 0;
        while k < w - len
            invariant
                k <= w - len,
                len < w,
                out@ == start + Seq::new(k as nat, |i: int| '0'),
            decreases w - len - k,
        {
            push_char(out, '0');
            assert(start + Seq::new((k + 1) as nat, |i: int| '0') =~= (start + Seq::new(k as nat, |i: int| '0')).push('0'));
            k = k + 1;
        }
    }
    push_str(out, digits.as_str());
    assert(out@ =~= start + padded(n as nat, w as nat));
}

fn year_days(y: u64) -> (r: u64)
    ensures
        r == year_len(y as int),
{
    if y % 4 == 0 && (y % 100 != 0 || y % 400 == 0) { 366 } else { 365 }
}

fn month_len(y: u64, m: u64) -> (r: u64)
    ensures
        r == days_in_month(y as int, m as int),
{
    if m == 1 || m == 3 || m == 5 || m == 7 || m == 8 || m == 10 || m == 12 {
        31
    } else if m == 4 || m == 6 || m == 9 || m == 11 {
        30
    } else if m == 2 {
        if y % 4 == 0 && (y % 100 != 0 || y % 400 == 0) { 29 } else { 28 }
    } else {
        30
    }
}

/// The date `days` days after 1970-01-01, as `YYYY/MM/DD`.
pub fn date_from_days(days: u64) -> (r: String)
    ensures
        r@ == date_text(days as nat),
{
    let mut y: u64 = 1970;
    let mut rem: u64 = days;
    while rem >= year_days(y)
        invariant
            1970 <= y,
            rem <= days,
            (y - 1970) * 365 <= days - rem,
            year_of(days as nat, 1970) == year_of(rem as nat, y as int),
        decreases rem,
    {
        let yl = year_days(y);
        assert(y < u64::MAX) by (nonlinear_arith)
            requires
                (y - 1970) * 365 <= days - rem,
                rem <= days,
                1970 <= y,
        ;
        rem = rem - yl;
        y = y + 1;
    }
    assert(rem < year_len(y as int));
    let ghost ry = rem as nat;
    assert(year_of(days as nat, 1970) == (y as int, ry));
    let mut m: u64 = 1;
    while m < 12 && rem >= month_len(y, m)
        invariant
            1 <= m <= 12,
            rem <= ry,
            month_of(ry, y as int, 1) == month_of(rem as nat, y as int, m as int),
        decreases 12 - m,
    {
        rem = rem - month_len(y, m);
        m = m + 1;
    }
    let mut out = String::new();
    push_padded(&mut out, y, 4);
    push_char(&mut out, '/');
    push_padded(&mut out, m, 2);
    push_char(&mut out, '/');
    push_padded(&mut out, rem + 1, 2);
    out
}

/// Relies on `SystemTime::now` and `SystemTime::duration_since(UNIX_EPOCH)`:
/// whole seconds since the epoch, `None` for a clock set before it. Nothing is
/// promised of the value.
#[verifier::external_body]
fn unix_seconds() -> (r: Option<u64>) {
    std::time::SystemTime::now().duration_since(std::time::UNIX_EPOCH).ok().map(|d| d.as_secs())
}

/// Today's date (UTC) as `YYYY/MM/DD`; the epoch's date for a clock set before it.
pub fn current_date() -> (r: String)
    ensures
        exists|d: nat| r@ == date_text(d),
{
    let secs = match unix_seconds() {
        Some(s) => s,
        None => 0,
    };
    date_from_days(secs / 86400)
}

} // verus!
