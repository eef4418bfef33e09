//! When a job runs again: after a duration, or at a time of day.

use vstd::prelude::*;
use crate::text::chars_of;

verus! {

/// When a job runs again.
#[derive(Debug, Clone, Copy, PartialEq, Eq, Structural)]
pub enum TimePoint {
    /// After this many seconds.
    Every(u64),
    /// At the next occurrence of this time of day.
    At { hour: u8, minute: u8 },
}

pub open spec fn is_digit(c: char) -> bool {
    '0' <= c && c <= '9'
}

pub open spec fn digit_value(c: char) -> nat {
    (c as u32 - '0' as u32) as nat
}

pub open spec fn all_digits(s: Seq<char>) -> bool {
    forall|i: int| 0 <= i < s.len() ==> is_digit(#[trigger] s[i])
}

/// The number that a string of decimal digits denotes.
pub open spec fn digits_value(s: Seq<char>) -> nat
    decreases s.len(),
{
    if s.len() == 0 {
        0
    } else {
        10 * digits_value(s.drop_last()) + digit_value(s.last())
    }
}

/// Seconds in one of a duration's units: `s`, `m`, `h` or `d`.
pub open spec fn unit_secs(c: char) -> Option<nat> {
    if c == 's' {
        Some(1)
    } else if c == 'm' {
        Some(60)
    } else if c == 'h' {
        Some(3600)
    } else if c == 'd' {
        Some(86400)
    } else {
        None
    }
}

/// The seconds that `<digits><unit>` denotes, if it is of that form and fits in 64 bits.
pub open spec fn duration_secs(s: Seq<char>) -> Option<u64> {
    if s.len() >= 2 && all_digits(s.drop_last()) && unit_secs(s.last()) is Some
        && digits_value(s.drop_last()) * unit_secs(s.last())->0 <= u64::MAX {
        Some((digits_value(s.drop_last()) * unit_secs(s.last())->0) as u64)
    } else {
        None
    }
}

/// The hour and minute that `HH:MM` denotes, if it is a valid time of day.
pub open spec fn time_of_day(s: Seq<char>) -> Option<(u8, u8)> {
    if s.len() == 5 && s[2] == ':' && all_digits(s.take(2)) && all_digits(s.skip(3))
        && digits_value(s.take(2)) < 24 && digits_value(s.skip(3)) < 60 {
        Some((digits_value(s.take(2)) as u8, digits_value(s.skip(3)) as u8))
    } else {
        None
    }
}

proof fn lemma_digits_monotone(s: Seq<char>, i: int)
    requires
        0 <= i <= s.len(),
    ensures
        digits_value(s.take(i)) <= digits_value(s),
    decreases s.len() - i,
{
    if i < s.len() {
        lemma_digits_monotone(s, i + 1);
        assert(s.take(i + 1).drop_last() =~= s.take(i));
    } else {
        assert(s.take(i) =~= s);
    }
}

fn parse_digits(cs: &Vec<char>, from: usize, to: usize) -> (r: Option<u64>)
    requires
        from <= to <= cs@.len(),
    ensures
        match r {
            Some(v) => all_digits(cs@.subrange(from as int, to as int)) && v == digits_value(cs@.subrange(from as int, to as int)),
            None => !all_digits(cs@.subrange(from as int, to as int)) || digits_value(cs@.subrange(from as int, to as int)) > u64::MAX,
        },
{
    let ghost s = cs@.subrange(from as int, to as int);
    let mut v: u64 = 0;
    let mut i: usize = from;
    assert(s.take(0) =~= Seq::<char>::empty());
    while i < to
        invariant
            from <= i <= to <= cs@.len(),
            s == cs@.subrange(from as int, to as int),
            all_digits(s.take(i - from)),
            v == digits_value(s.take(i - from)),
        decreases to - i,
    {
        let c = cs[i];
        let ghost k = i - from;
        assert(s[k] == c);
        assert(s.take(k + 1).drop_last() =~= s.take(k));
        if !('0' <= c && c <= '9') {
            assert(!is_digit(s[k]));
            return None;
        }
        let d = (c as u32 - '0' as u32) as u64;
        if v > (u64::MAX - d) / 10 {
            proof {
                assert(10 * v + d > u64::MAX) by (nonlinear_arith)
                    requires v > (u64::MAX - d) / 10, d <= 9;
                lemma_digits_monotone(s, k + 1);
            }
            return None;
        }
        assert(10 * v + d <= u64::MAX) by (nonlinear_arith)
            requires v <= (u64::MAX - d) / 10, d <= 9;
        v = v * 10 + d;
        i = i + 1;
    }
    assert(s.take(to - from) =~= s);
    Some(v)
}

/// The seconds a duration such as `10m` denotes.
pub fn parse_duration(s: &str) -> (r: Option<u64>)
    ensures
        r == duration_secs(s@),
{
    let cs = chars_of(s);
    let n = cs.len();
    if n < 2 {
        return None;
    }
    let unit: u64 = if cs[n - 1] == 's' {
        1
    } else if cs[n - 1] == 'm' {
        60
    } else if cs[n - 1] == 'h' {
        3600
    } else if cs[n - 1] == 'd' {
        86400
    } else {
        return None;
    };
    assert(cs@.subrange(0, n - 1) =~= s@.drop_last());
    match parse_digits(&cs, 0, n - 1) {
        Some(v) => {
            if v > u64::MAX / unit {
                assert(v * unit > u64::MAX) by (nonlinear_arith)
                    requires v > u64::MAX / unit, unit > 0;
                None
            } else {
                assert(v * unit <= u64::MAX) by (nonlinear_arith)
                    requires v <= u64::MAX / unit, unit > 0;
                Some(v * unit)
            }
        },
        None => None,
    }
}

/// The hour and minute of a time of day written `HH:MM`.
pub fn parse_time_of_day(s: &str) -> (r: Option<(u8, u8)>)
    ensures
        r == time_of_day(s@),
{
    let cs = chars_of(s);
    if cs.len() != 5 || cs[2] != ':' {
        return None;
    }
    assert(cs@.subrange(0, 2) =~= s@.take(2));
    assert(cs@.subrange(3, 5) =~= s@.skip(3));
    let h = match parse_digits(&cs, 0, 2) {
        Some(h) => h,
        None => {
            return None;
        },
    };
    let m = match parse_digits(&cs, 3, 5) {
        Some(m) => m,
        None => {
            return None;
        },
    };
    if h < 24 && m < 60 {
        Some((h as u8, m as u8))
    } else {
        None
    }
}

/// Seconds from `now` (seconds since the epoch, in UTC) until `t` is next due: a
/// duration counts from now; a time of day is its next occurrence, tomorrow's if
/// today's has passed or is now.
pub open spec fn wait_secs(t: TimePoint, now: u64) -> int {
    match t {
        TimePoint::Every(secs) => secs as int,
        TimePoint::At { hour, minute } => {
            let at = hour * 3600 + minute * 60;
            let today = now % 86400;
            if at > today { at - today } else { 86400 - today + at }
        },
    }
}

/// How long to sleep from `now` until `t` is next due.
pub fn seconds_until(t: TimePoint, now: u64) -> (r: u64)
    requires
        t matches TimePoint::At { hour, minute } ==> hour < 24 && minute < 60,
    ensures
        r == wait_secs(t, now),
{
    match t {
        TimePoint::Every(secs) => secs,
        TimePoint::At { hour, minute } => {
            let at: u64 = hour as u64 * 3600 + minute as u64 * 60;
            let today: u64 = now % 86400;
            if at > today {
                at - today
            } else {
                86400 - today + at
            }
        },
    }
}

} // verus!
