//! The client's clock comparison on UTC date-times, with chrono's time arithmetic.

use chrono::{DateTime, TimeDelta, Utc};
use vstd::prelude::*;

verus! {

/// Nanoseconds in a second.
pub const NANOS_PER_SEC: u32 = 1_000_000_000;

/// Unix time, in seconds, of the earliest UTC date-time that chrono holds
/// (January 1st of the year -262143, 00:00:00).
pub const MIN_UTC_SECS: i64 = -8_334_601_228_800;

/// Unix time, in seconds, of the last whole second that chrono holds
/// (December 31st of the year 262142, 23:59:59).
pub const MAX_UTC_SECS: i64 = 8_210_266_876_799;

/// Seconds in a day.
pub const SECS_PER_DAY: i64 = 86_400;

/// Longest time span that chrono holds, in nanoseconds: `i64::MAX` milliseconds.
pub const MAX_SPAN_NANOS: i128 = 9_223_372_036_854_775_807_000_000;

/// A UTC date-time, as chrono's `DateTime<Utc>` gives it: the Unix time in whole seconds
/// and the nanoseconds past that second, which reach past 10^9 within a leap second.
#[derive(Debug, Clone, Copy)]
pub struct UtcTime {
    pub secs: i64,
    pub nanos: u32,
}

/// A signed span of time, as chrono's `TimeDelta` gives it: whole seconds, and the
/// nanoseconds beyond them with the same sign.
#[derive(Debug, Clone, Copy)]
pub struct TimeSpan {
    pub secs: i64,
    pub nanos: i32,
}

impl UtcTime {
    /// Nanoseconds from the Unix epoch, counting a leap second as part of the second
    /// before it.
    pub open spec fn total_nanos(self) -> int {
        self.secs * NANOS_PER_SEC + self.nanos
    }

    /// Within a leap second: chrono shows it as the second ending in 59 with more than
    /// 10^9 nanoseconds.
    pub open spec fn is_leap(self) -> bool {
        self.nanos >= NANOS_PER_SEC
    }

    /// chrono's invariant: within its range, fewer than 2 * 10^9 nanoseconds, and more
    /// than 10^9 only at a second ending in 59.
    pub open spec fn wf(self) -> bool {
        &&& self.nanos < 2 * NANOS_PER_SEC
        &&& self.is_leap() ==> self.secs % 60 == 59
        &&& MIN_UTC_SECS <= self.secs <= MAX_UTC_SECS
    }
}

impl TimeSpan {
    /// Length in nanoseconds, negative for a span that goes back in time.
    pub open spec fn total_nanos(self) -> int {
        self.secs * NANOS_PER_SEC + self.nanos
    }

    /// The span is within chrono's range, and its two parts have the same sign.
    pub open spec fn wf(self) -> bool {
        &&& -NANOS_PER_SEC < self.nanos < NANOS_PER_SEC
        &&& self.secs > 0 ==> self.nanos >= 0
        &&& self.secs < 0 ==> self.nanos <= 0
        &&& -MAX_SPAN_NANOS <= self.total_nanos() <= MAX_SPAN_NANOS
    }
}

/// `a / b` rounded towards zero, for `b > 0`.
pub open spec fn trunc_div(a: int, b: int) -> int {
    if a >= 0 {
        a / b
    } else {
        -((-a) / b)
    }
}

/// The span of `n` nanoseconds, as chrono's `TimeDelta` gives it.
pub open spec fn span_of_nanos(n: int) -> TimeSpan {
    TimeSpan {
        secs: trunc_div(n, NANOS_PER_SEC as int) as i64,
        nanos: (n - trunc_div(n, NANOS_PER_SEC as int) * NANOS_PER_SEC) as i32,
    }
}

/// The second that chrono adds or removes when one of two date-times lies within a leap
/// second (`NaiveTime::signed_duration_since`): the leap second counts when the other
/// date-time's time of day is later; times of day are compared within their own days.
pub open spec fn leap_carry(lhs: UtcTime, rhs: UtcTime) -> int {
    let tl = (lhs.secs as int) % (SECS_PER_DAY as int);
    let tr = (rhs.secs as int) % (SECS_PER_DAY as int);
    if tl > tr && rhs.is_leap() {
        1
    } else if tl < tr && lhs.is_leap() {
        -1
    } else {
        0
    }
}

/// chrono's `lhs - rhs` for two UTC date-times, in nanoseconds.
pub open spec fn spec_sub(lhs: UtcTime, rhs: UtcTime) -> int {
    (lhs.secs - rhs.secs + leap_carry(lhs, rhs)) * NANOS_PER_SEC + lhs.nanos - rhs.nanos
}

/// Seconds and nanoseconds, with nanoseconds within one second outside `[0, 10^9)`
/// carried into the seconds.
pub open spec fn carry_nanos(secs: int, nanos: int) -> (int, int) {
    if nanos < 0 {
        (secs - 1, nanos + NANOS_PER_SEC)
    } else if nanos >= NANOS_PER_SEC {
        (secs + 1, nanos - NANOS_PER_SEC)
    } else {
        (secs, nanos)
    }
}

/// chrono's `t + d` (`NaiveTime::overflowing_add_signed` and the date's move), as seconds
/// and nanoseconds: from within a leap second, a span that leaves it forward counts from
/// the second ending in 59, one that goes back counts from the next second, and one of
/// no whole seconds that stays within it keeps it.
pub open spec fn spec_add_parts(t: UtcTime, d: TimeSpan) -> (int, int) {
    if t.is_leap() {
        if d.secs > 0 || (d.nanos > 0 && t.nanos + d.nanos >= 2 * NANOS_PER_SEC) {
            carry_nanos(t.secs + d.secs, t.nanos - NANOS_PER_SEC + d.nanos)
        } else if d.secs < 0 {
            carry_nanos(t.secs + 1 + d.secs, t.nanos - NANOS_PER_SEC + d.nanos)
        } else {
            (t.secs as int, t.nanos + d.nanos)
        }
    } else {
        carry_nanos(t.secs + d.secs, t.nanos + d.nanos)
    }
}

/// Whether chrono's `t + d` stays within chrono's range.
pub open spec fn add_in_range(t: UtcTime, d: TimeSpan) -> bool {
    MIN_UTC_SECS <= spec_add_parts(t, d).0 <= MAX_UTC_SECS
}

/// chrono's `t + d`.
pub open spec fn spec_add(t: UtcTime, d: TimeSpan) -> UtcTime {
    UtcTime { secs: spec_add_parts(t, d).0 as i64, nanos: spec_add_parts(t, d).1 as u32 }
}

/// chrono's `TimeDelta / rhs` for `rhs > 0` (`checked_div`), in nanoseconds: the whole
/// seconds (rounded down) are divided rounding towards zero, their remainder is turned into
/// nanoseconds and divided rounding towards zero, and so are the nanoseconds.
pub open spec fn spec_div_nanos(t: int, rhs: int) -> int {
    let secs = t / (NANOS_PER_SEC as int);
    let nanos = t % (NANOS_PER_SEC as int);
    let q = trunc_div(secs, rhs);
    let carry = secs - q * rhs;
    q * NANOS_PER_SEC + nanos / rhs + trunc_div(carry * NANOS_PER_SEC, rhs)
}

/// chrono's `DateTime<Utc> - DateTime<Utc>` (`signed_duration_since`), with its handling of
/// leap seconds. The date-times are made with `DateTime::from_timestamp`, which accepts every
/// `wf` value, and the span is read back with `num_seconds` and `subsec_nanos`.
#[verifier::external_body]
fn utc_sub(lhs: UtcTime, rhs: UtcTime) -> (r: TimeSpan)
    requires
        lhs.wf(),
        rhs.wf(),
    ensures
        r.wf(),
        r.total_nanos() == spec_sub(lhs, rhs),
{
    let d = DateTime::<Utc>::from_timestamp(lhs.secs, lhs.nanos).unwrap()
        - DateTime::<Utc>::from_timestamp(rhs.secs, rhs.nanos).unwrap();
    TimeSpan { secs: d.num_seconds(), nanos: d.subsec_nanos() }
}

/// chrono's `TimeDelta / i32` (`checked_div`) for a positive divisor. The span is made with
/// `TimeDelta::seconds(secs) + TimeDelta::nanoseconds(nanos)`, which does not overflow for a
/// `wf` span, and read back with `num_seconds` and `subsec_nanos`.
#[verifier::external_body]
fn span_div(d: TimeSpan, rhs: i32) -> (r: TimeSpan)
    requires
        d.wf(),
        rhs > 0,
    ensures
        r.wf(),
        r.total_nanos() == spec_div_nanos(d.total_nanos(), rhs as int),
{
    let q = (TimeDelta::seconds(d.secs) + TimeDelta::nanoseconds(d.nanos as i64)) / rhs;
    TimeSpan { secs: q.num_seconds(), nanos: q.subsec_nanos() }
}

/// chrono's `TimeDelta + TimeDelta` (`checked_add`, which panics only where the sum leaves
/// chrono's range): the exact sum. The spans are made and read back as in `span_div`.
#[verifier::external_body]
fn span_add(a: TimeSpan, b: TimeSpan) -> (r: TimeSpan)
    requires
        a.wf(),
        b.wf(),
        -MAX_SPAN_NANOS <= a.total_nanos() + b.total_nanos() <= MAX_SPAN_NANOS,
    ensures
        r.wf(),
        r.total_nanos() == a.total_nanos() + b.total_nanos(),
{
    let s = (TimeDelta::seconds(a.secs) + TimeDelta::nanoseconds(a.nanos as i64)) + (
    TimeDelta::seconds(b.secs) + TimeDelta::nanoseconds(b.nanos as i64));
    TimeSpan { secs: s.num_seconds(), nanos: s.subsec_nanos() }
}

/// chrono's `DateTime<Utc> + TimeDelta` (`checked_add_signed`, which panics only where the
/// sum leaves chrono's range), with its handling of leap seconds. The date-time is made and
/// read back with `from_timestamp`, `timestamp` and `timestamp_subsec_nanos`, the span as in
/// `span_div`.
#[verifier::external_body]
fn utc_add(t: UtcTime, d: TimeSpan) -> (r: UtcTime)
    requires
        t.wf(),
        d.wf(),
        add_in_range(t, d),
    ensures
        r == spec_add(t, d),
{
    let r = DateTime::<Utc>::from_timestamp(t.secs, t.nanos).unwrap() + (TimeDelta::seconds(d.secs)
        + TimeDelta::nanoseconds(d.nanos as i64));
    UtcTime { secs: r.timestamp(), nanos: r.timestamp_subsec_nanos() }
}

/// A `wf` span is the span of its length.
pub proof fn lemma_span_of_total(s: TimeSpan)
    requires
        s.wf(),
    ensures
        span_of_nanos(s.total_nanos()) == s,
{
    let n = s.total_nanos();
    let b = NANOS_PER_SEC as int;
    if n >= 0 {
        assert(s.secs >= 0);
        assert(n / b == s.secs as int) by (nonlinear_arith)
            requires
                n == s.secs * b + s.nanos,
                s.secs >= 0,
                0 <= s.nanos < b,
                b == 1_000_000_000,
        ;
    } else {
        assert(s.secs <= 0);
        assert((-n) / b == -s.secs) by (nonlinear_arith)
            requires
                -n == (-s.secs) * b + (-s.nanos),
                s.secs <= 0,
                0 <= -s.nanos < b,
                b == 1_000_000_000,
        ;
    }
}

/// The span of a length within chrono's range is `wf` and has that length.
pub proof fn lemma_span_of_nanos(n: int)
    requires
        -MAX_SPAN_NANOS <= n <= MAX_SPAN_NANOS,
    ensures
        span_of_nanos(n).wf(),
        span_of_nanos(n).total_nanos() == n,
{
    let b = NANOS_PER_SEC as int;
    let q = trunc_div(n, b);
    if n >= 0 {
        assert(0 <= n - q * b < b && 0 <= q <= n) by (nonlinear_arith)
            requires
                q == n / b,
                n >= 0,
                b == 1_000_000_000,
        ;
    } else {
        assert(0 <= (-n) - ((-n) / b) * b < b && 0 <= (-n) / b <= -n) by (nonlinear_arith)
            requires
                n < 0,
                b == 1_000_000_000,
        ;
    }
}

/// Halving a span with chrono rounds its length down to the nanosecond.
pub proof fn lemma_div_by_two(t: int)
    ensures
        spec_div_nanos(t, 2) == t / 2,
{
    let b = NANOS_PER_SEC as int;
    let secs = t / b;
    let nanos = t % b;
    assert(t == secs * b + nanos && 0 <= nanos < b) by (nonlinear_arith)
        requires
            secs == t / b,
            nanos == t % b,
            b == 1_000_000_000,
    ;
    let q = trunc_div(secs, 2);
    let carry = secs - q * 2;
    assert(carry == 0 || carry == 1 || carry == -1);
    assert(trunc_div(carry * b, 2) == carry * 500_000_000);
    assert(q * b + carry * 500_000_000 == secs * 500_000_000);
    assert((secs * b + nanos) / 2 == secs * 500_000_000 + nanos / 2) by (nonlinear_arith)
        requires
            b == 1_000_000_000,
            0 <= nanos,
    ;
}

/// Where chrono's `t + d` stays within range, it is a `wf` date-time.
pub proof fn lemma_add_wf(t: UtcTime, d: TimeSpan)
    requires
        t.wf(),
        d.wf(),
        add_in_range(t, d),
    ensures
        spec_add(t, d).wf(),
{
}

/// The server's time when the answer arrived: it read `server` at the middle of the
/// exchange, half of the round trip (rounded down to the nanosecond) before the answer came.
pub open spec fn spec_real_server_time(send: UtcTime, receive: UtcTime, server: UtcTime) -> UtcTime {
    spec_add(server, span_of_nanos(spec_sub(receive, send) / 2))
}

/// How far, in nanoseconds, the local clock is ahead of the server's, by chrono's arithmetic.
pub open spec fn spec_clock_diff(send: UtcTime, receive: UtcTime, server: UtcTime) -> int {
    spec_sub(receive, spec_real_server_time(send, receive, server))
}

/// The round trip of an exchange and how far the local clock is ahead of the server's:
/// the request was sent at `send_time`, its answer received at `receive_time`, and the
/// server's clock read `server_time`. The server is taken to have read its clock at the
/// middle of the round trip. Moving the server's reading by half the round trip must stay
/// within chrono's range.
pub fn round_trip_and_diff(send_time: UtcTime, receive_time: UtcTime, server_time: UtcTime) -> (r:
    (TimeSpan, TimeSpan))
    requires
        send_time.wf(),
        receive_time.wf(),
        server_time.wf(),
        add_in_range(server_time, span_of_nanos(spec_sub(receive_time, send_time) / 2)),
    ensures
        r.0.wf(),
        r.0 == span_of_nanos(spec_sub(receive_time, send_time)),
        r.1.wf(),
        r.1 == span_of_nanos(spec_clock_diff(send_time, receive_time, server_time)),
{
    let duration = utc_sub(receive_time, send_time);
    let half = span_div(duration, 2);
    proof {
        lemma_span_of_total(duration);
        lemma_div_by_two(duration.total_nanos());
        lemma_span_of_total(half);
    }
    let real_server_time = utc_add(server_time, half);
    proof {
        lemma_add_wf(server_time, half);
    }
    let time_diff = utc_sub(receive_time, real_server_time);
    proof {
        lemma_span_of_total(time_diff);
    }
    (duration, time_diff)
}

/// How far the local clock is ahead of the server's: the request was sent at `send_time`,
/// its answer received at `receive_time`, and the server's clock read `server_time`. The
/// server is taken to have read its clock at the middle of the round trip. Moving the
/// server's reading by half the round trip must stay within chrono's range.
pub fn compute_diff(send_time: UtcTime, receive_time: UtcTime, server_time: UtcTime) -> (r:
    TimeSpan)
    requires
        send_time.wf(),
        receive_time.wf(),
        server_time.wf(),
        add_in_range(server_time, span_of_nanos(spec_sub(receive_time, send_time) / 2)),
    ensures
        r.wf(),
        r == span_of_nanos(spec_clock_diff(send_time, receive_time, server_time)),
{
    round_trip_and_diff(send_time, receive_time, server_time).1
}

/// Total length, in nanoseconds, of a sequence of spans.
pub open spec fn sum_nanos(spans: Seq<TimeSpan>) -> int
    decreases spans.len(),
{
    if spans.len() == 0 {
        0
    } else {
        sum_nanos(spans.drop_last()) + spans.last().total_nanos()
    }
}

/// The total length of no spans is zero.
pub proof fn lemma_sum_nanos_empty()
    ensures
        sum_nanos(Seq::<TimeSpan>::empty()) == 0,
{
}

/// Adding a span to a sequence adds its length to the total: the total is the plain sum of
/// every span's length.
pub proof fn lemma_sum_nanos_push(spans: Seq<TimeSpan>, x: TimeSpan)
    ensures
        sum_nanos(spans.push(x)) == sum_nanos(spans) + x.total_nanos(),
{
    assert(spans.push(x).drop_last() =~= spans);
}

/// `n` copies of a span add up to `n` times its length.
pub proof fn lemma_sum_nanos_repeat(spans: Seq<TimeSpan>, x: TimeSpan)
    requires
        forall|i: int| 0 <= i < spans.len() ==> spans[i] == x,
    ensures
        sum_nanos(spans) == spans.len() * x.total_nanos(),
    decreases spans.len(),
{
    if spans.len() > 0 {
        lemma_sum_nanos_repeat(spans.drop_last(), x);
        assert(spans.last() == x);
        let n = spans.len() as int;
        assert(n * x.total_nanos() == (n - 1) * x.total_nanos() + x.total_nanos())
            by (nonlinear_arith);
    }
}

/// chrono's division of a span by `rhs > 0` lies within two nanoseconds below and one
/// nanosecond above the exact quotient: `t - 2 * rhs < q * rhs <= t + rhs`.
pub proof fn lemma_div_close(t: int, rhs: int)
    requires
        rhs > 0,
    ensures
        t - 2 * rhs < spec_div_nanos(t, rhs) * rhs <= t + rhs,
{
    let b = NANOS_PER_SEC as int;
    let secs = t / b;
    let nanos = t % b;
    assert(t == secs * b + nanos && 0 <= nanos < b) by (nonlinear_arith)
        requires
            secs == t / b,
            nanos == t % b,
            b == 1_000_000_000,
    ;
    let q = trunc_div(secs, rhs);
    let carry = secs - q * rhs;
    let f = nanos / rhs;
    let e = trunc_div(carry * b, rhs);
    assert(nanos - rhs < f * rhs <= nanos) by (nonlinear_arith)
        requires
            f == nanos / rhs,
            rhs > 0,
            nanos >= 0,
    ;
    if carry * b >= 0 {
        assert(carry * b - rhs < e * rhs <= carry * b) by (nonlinear_arith)
            requires
                e == (carry * b) / rhs,
                rhs > 0,
                carry * b >= 0,
        ;
    } else {
        assert(carry * b <= e * rhs < carry * b + rhs) by (nonlinear_arith)
            requires
                e == -((-(carry * b)) / rhs),
                rhs > 0,
                carry * b < 0,
        ;
    }
    assert(spec_div_nanos(t, rhs) == q * b + f + e);
    assert(spec_div_nanos(t, rhs) * rhs == q * rhs * b + f * rhs + e * rhs) by (nonlinear_arith)
        requires
            spec_div_nanos(t, rhs) == q * b + f + e,
    ;
    assert(t == q * rhs * b + carry * b + nanos) by (nonlinear_arith)
        requires
            t == secs * b + nanos,
            carry == secs - q * rhs,
    ;
}

/// The mean of `n` copies of a whole-second span is that span: chrono's division is exact
/// there.
pub proof fn lemma_div_whole_seconds(secs: int, n: int)
    requires
        n > 0,
    ensures
        spec_div_nanos(n * secs * NANOS_PER_SEC, n) == secs * NANOS_PER_SEC,
{
    let b = NANOS_PER_SEC as int;
    let t = n * secs * b;
    assert(t / b == n * secs && t % b == 0) by (nonlinear_arith)
        requires
            t == n * secs * b,
            b == 1_000_000_000,
    ;
    assert(trunc_div(n * secs, n) == secs) by (nonlinear_arith)
        requires
            n > 0,
            trunc_div(n * secs, n) == if n * secs >= 0 {
                (n * secs) / n
            } else {
                -((-(n * secs)) / n)
            },
    ;
    assert(n * secs - secs * n == 0) by (nonlinear_arith);
    assert(0int / n == 0);
    assert(trunc_div(0, n) == 0);
    assert(trunc_div(0 * b, n) == 0);
}

/// The mean of `n` readings of one whole-second difference is that difference.
pub proof fn lemma_mean_of_equal_whole_seconds(spans: Seq<TimeSpan>, x: TimeSpan, n: int)
    requires
        forall|i: int| 0 <= i < spans.len() ==> spans[i] == x,
        x.nanos == 0,
        spans.len() == n,
        n > 0,
    ensures
        spec_div_nanos(sum_nanos(spans), n) == x.total_nanos(),
{
    lemma_sum_nanos_repeat(spans, x);
    lemma_div_whole_seconds(x.secs as int, n);
    assert(n * x.total_nanos() == n * x.secs * NANOS_PER_SEC) by (nonlinear_arith)
        requires
            x.total_nanos() == x.secs * NANOS_PER_SEC,
    ;
}

/// The mean of the clock differences of repeated requests: their sum, added up with chrono
/// in order, divided by the number of requests with chrono's division. Every partial sum
/// must stay within chrono's range.
pub fn mean_time_diff(durations: &Vec<TimeSpan>, repeat_count: i32) -> (r: TimeSpan)
    requires
        forall|i: int| 0 <= i < durations@.len() ==> (#[trigger] durations@[i]).wf(),
        forall|i: int|
            0 <= i <= durations@.len() ==> -MAX_SPAN_NANOS <= #[trigger] sum_nanos(
                durations@.take(i),
            ) <= MAX_SPAN_NANOS,
        repeat_count > 0,
    ensures
        r.wf(),
        r == span_of_nanos(spec_div_nanos(sum_nanos(durations@), repeat_count as int)),
        sum_nanos(durations@) - 2 * repeat_count < r.total_nanos() * repeat_count <= sum_nanos(
            durations@,
        ) + repeat_count,
{
    let mut total_time = TimeSpan { secs: 0, nanos: 0 };
    let mut i: usize = 0;
    assert(durations@.take(0) =~= Seq::<TimeSpan>::empty());
    while i < durations.len()
        invariant
            i <= durations@.len(),
            total_time.wf(),
            total_time.total_nanos() == sum_nanos(durations@.take(i as int)),
            forall|j: int| 0 <= j < durations@.len() ==> (#[trigger] durations@[j]).wf(),
            forall|j: int|
                0 <= j <= durations@.len() ==> -MAX_SPAN_NANOS <= #[trigger] sum_nanos(
                    durations@.take(j),
                ) <= MAX_SPAN_NANOS,
        decreases durations@.len() - i,
    {
        assert(durations@.take(i + 1).drop_last() =~= durations@.take(i as int));
        assert(sum_nanos(durations@.take(i + 1)) <= MAX_SPAN_NANOS);
        total_time = span_add(total_time, durations[i]);
        i = i + 1;
    }
    assert(durations@.take(durations@.len() as int) =~= durations@);
    let mean_time = span_div(total_time, repeat_count);
    proof {
        lemma_span_of_total(mean_time);
        lemma_div_close(total_time.total_nanos(), repeat_count as int);
    }
    mean_time
}

/// The clock difference on nanoseconds from the Unix epoch: the server's reading moved by
/// half the round trip (rounded down), taken from the local time of the answer.
pub open spec fn spec_time_diff(send: int, receive: int, server: int) -> int {
    receive - (server + (receive - send) / 2)
}

/// Outside leap seconds, chrono's arithmetic is exact: the clock difference is
/// `receive - (server + (receive - send) / 2)` on nanoseconds from the Unix epoch.
pub proof fn lemma_diff_outside_leap_seconds(send: UtcTime, receive: UtcTime, server: UtcTime)
    requires
        send.wf(),
        receive.wf(),
        server.wf(),
        !send.is_leap(),
        !receive.is_leap(),
        !server.is_leap(),
        add_in_range(server, span_of_nanos(spec_sub(receive, send) / 2)),
    ensures
        !spec_real_server_time(send, receive, server).is_leap(),
        spec_real_server_time(send, receive, server).total_nanos() == server.total_nanos() + (
        receive.total_nanos() - send.total_nanos()) / 2,
        spec_clock_diff(send, receive, server) == spec_time_diff(
            send.total_nanos(),
            receive.total_nanos(),
            server.total_nanos(),
        ),
{
    let d = spec_sub(receive, send);
    assert(d == receive.total_nanos() - send.total_nanos());
    lemma_span_of_nanos(d / 2);
}

/// Outside leap seconds, moving all three readings by the same span changes nothing.
pub proof fn lemma_shift_all(
    send: UtcTime,
    receive: UtcTime,
    server: UtcTime,
    send2: UtcTime,
    receive2: UtcTime,
    server2: UtcTime,
    delta: int,
)
    requires
        send.wf() && receive.wf() && server.wf(),
        send2.wf() && receive2.wf() && server2.wf(),
        !send.is_leap() && !receive.is_leap() && !server.is_leap(),
        !send2.is_leap() && !receive2.is_leap() && !server2.is_leap(),
        send2.total_nanos() == send.total_nanos() + delta,
        receive2.total_nanos() == receive.total_nanos() + delta,
        server2.total_nanos() == server.total_nanos() + delta,
        add_in_range(server, span_of_nanos(spec_sub(receive, send) / 2)),
        add_in_range(server2, span_of_nanos(spec_sub(receive2, send2) / 2)),
    ensures
        spec_clock_diff(send2, receive2, server2) == spec_clock_diff(send, receive, server),
{
    lemma_diff_outside_leap_seconds(send, receive, server);
    lemma_diff_outside_leap_seconds(send2, receive2, server2);
    assert(receive2.total_nanos() - send2.total_nanos() == receive.total_nanos()
        - send.total_nanos());
}

/// Outside leap seconds, a server clock that reads `delta` nanoseconds later makes the
/// local clock look `delta` nanoseconds further behind.
pub proof fn lemma_server_shift(
    send: UtcTime,
    receive: UtcTime,
    server: UtcTime,
    server2: UtcTime,
    delta: int,
)
    requires
        send.wf() && receive.wf() && server.wf() && server2.wf(),
        !send.is_leap() && !receive.is_leap() && !server.is_leap() && !server2.is_leap(),
        server2.total_nanos() == server.total_nanos() + delta,
        add_in_range(server, span_of_nanos(spec_sub(receive, send) / 2)),
        add_in_range(server2, span_of_nanos(spec_sub(receive, send) / 2)),
    ensures
        spec_clock_diff(send, receive, server2) == spec_clock_diff(send, receive, server) - delta,
{
    lemma_diff_outside_leap_seconds(send, receive, server);
    lemma_diff_outside_leap_seconds(send, receive, server2);
}

/// Outside leap seconds (where `lemma_diff_outside_leap_seconds` gives the formula), a
/// server whose clock is `offset` nanoseconds ahead, and which reads it exactly at the
/// middle of the round trip, is found `offset` ahead, give or take the half nanosecond lost
/// in halving an odd round trip.
pub proof fn lemma_midpoint_offset(send: int, receive: int, offset: int)
    ensures
        spec_time_diff(send, receive, send + (receive - send) / 2 + offset) == (receive - send)
            % 2 - offset,
{
}

/// The date-time `days` whole days later.
pub open spec fn shift_days(t: UtcTime, days: int) -> UtcTime {
    UtcTime { secs: (t.secs + days * SECS_PER_DAY) as i64, nanos: t.nanos }
}

/// A whole number of days keeps the time of day, so also where leap seconds take part:
/// moving all three readings by whole days changes nothing.
pub proof fn lemma_shift_all_days(send: UtcTime, receive: UtcTime, server: UtcTime, days: int)
    requires
        send.wf() && receive.wf() && server.wf(),
        MIN_UTC_SECS <= send.secs + days * SECS_PER_DAY <= MAX_UTC_SECS,
        MIN_UTC_SECS <= receive.secs + days * SECS_PER_DAY <= MAX_UTC_SECS,
        MIN_UTC_SECS <= server.secs + days * SECS_PER_DAY <= MAX_UTC_SECS,
        add_in_range(server, span_of_nanos(spec_sub(receive, send) / 2)),
        add_in_range(shift_days(server, days), span_of_nanos(spec_sub(receive, send) / 2)),
    ensures
        spec_clock_diff(shift_days(send, days), shift_days(receive, days), shift_days(server, days))
            == spec_clock_diff(send, receive, server),
{
    lemma_time_of_day_shift(send.secs as int, days);
    lemma_time_of_day_shift(receive.secs as int, days);
    lemma_time_of_day_shift(server.secs as int, days);
    let (s1, r1, v1) = (shift_days(send, days), shift_days(receive, days), shift_days(server, days));
    assert(spec_sub(r1, s1) == spec_sub(receive, send));
    let h = span_of_nanos(spec_sub(receive, send) / 2);
    let at_answer = spec_real_server_time(send, receive, server);
    let at_answer1 = spec_real_server_time(s1, r1, v1);
    assert(spec_add_parts(v1, h).0 == spec_add_parts(server, h).0 + days * SECS_PER_DAY);
    assert(at_answer1 == shift_days(at_answer, days));
    lemma_time_of_day_shift(at_answer.secs as int, days);
}

/// Outside or inside leap seconds, a server clock that reads whole days later makes the
/// local clock look as many days further behind.
pub proof fn lemma_server_shift_days(send: UtcTime, receive: UtcTime, server: UtcTime, days: int)
    requires
        send.wf() && receive.wf() && server.wf(),
        MIN_UTC_SECS <= server.secs + days * SECS_PER_DAY <= MAX_UTC_SECS,
        add_in_range(server, span_of_nanos(spec_sub(receive, send) / 2)),
        add_in_range(shift_days(server, days), span_of_nanos(spec_sub(receive, send) / 2)),
    ensures
        spec_clock_diff(send, receive, shift_days(server, days)) == spec_clock_diff(
            send,
            receive,
            server,
        ) - days * SECS_PER_DAY * NANOS_PER_SEC,
{
    lemma_time_of_day_shift(server.secs as int, days);
    let h = span_of_nanos(spec_sub(receive, send) / 2);
    let at_answer = spec_real_server_time(send, receive, server);
    assert(spec_real_server_time(send, receive, shift_days(server, days)) == shift_days(
        at_answer,
        days,
    ));
    lemma_time_of_day_shift(at_answer.secs as int, days);
}

/// Whole days keep the time of day and the second of the minute.
proof fn lemma_time_of_day_shift(secs: int, days: int)
    ensures
        (secs + days * SECS_PER_DAY) % (SECS_PER_DAY as int) == secs % (SECS_PER_DAY as int),
        (secs + days * SECS_PER_DAY) % 60 == secs % 60,
{
    assert((secs + days * 86_400) % 86_400 == secs % 86_400) by (nonlinear_arith);
    assert((secs + days * 86_400) % 60 == secs % 60) by (nonlinear_arith);
}

} // verus!
