//! Clock comparison on system-clock readings, in whole milliseconds.

use vstd::prelude::*;

verus! {

/// Nanoseconds in a millisecond.
pub const NANOS_PER_MILLI: i128 = 1_000_000;

/// Earliest system-clock reading, in nanoseconds from the Unix epoch: `i64::MIN` seconds.
pub const MIN_SYSTEM_TIME_NANOS: i128 = -9_223_372_036_854_775_808_000_000_000;

/// Latest system-clock reading, in nanoseconds from the Unix epoch: `i64::MAX` seconds and
/// 999 999 999 nanoseconds.
pub const MAX_SYSTEM_TIME_NANOS: i128 = 9_223_372_036_854_775_807_999_999_999;

/// A system-clock reading, in nanoseconds from the Unix epoch (negative before it).
pub open spec fn is_system_time(nanos: i128) -> bool {
    MIN_SYSTEM_TIME_NANOS <= nanos <= MAX_SYSTEM_TIME_NANOS
}

/// What a clock comparison reports.
#[derive(Debug, Clone, Copy, PartialEq, Eq)]
pub struct ClockDiff {
    /// How far the local clock is ahead of the server's, in milliseconds.
    pub time_diff_ms: i128,
    /// How long the request took, in milliseconds.
    pub request_duration_ms: i128,
}

/// Whole milliseconds in a non-negative number of nanoseconds.
pub open spec fn whole_millis(nanos: int) -> int {
    nanos / (NANOS_PER_MILLI as int)
}

/// How long a request sent at `send` and answered at `receive` took, in whole milliseconds.
pub open spec fn spec_request_duration_ms(send: int, receive: int) -> int {
    whole_millis(receive - send)
}

/// The clock difference of an exchange, in whole milliseconds: the server is taken to have
/// read `server` at the middle of the request, so that its clock showed
/// `server + duration / 2` when the local clock showed `receive`.
pub open spec fn spec_time_diff_ms(send: int, receive: int, server: int) -> int {
    whole_millis(receive) - (whole_millis(server) + spec_request_duration_ms(send, receive) / 2)
}

/// Compares the local clock with a server's: the request was sent at `send_time`, its
/// answer received at `receive_time`, and the server's clock read `server_time`. The
/// readings are nanoseconds from the Unix epoch; the answer is that of the readings
/// truncated to milliseconds. A request received before it was sent, and a receive or
/// server reading before the epoch, are refused.
pub fn compute_diff(send_time: i128, receive_time: i128, server_time: i128) -> (r: ClockDiff)
    requires
        is_system_time(send_time),
        is_system_time(receive_time),
        is_system_time(server_time),
        send_time <= receive_time,
        0 <= receive_time,
        0 <= server_time,
    ensures
        r.request_duration_ms == spec_request_duration_ms(send_time as int, receive_time as int),
        r.time_diff_ms == spec_time_diff_ms(
            send_time as int,
            receive_time as int,
            server_time as int,
        ),
        r.request_duration_ms * 1_000_000 <= receive_time - send_time < (r.request_duration_ms
            + 1) * 1_000_000,
        r.time_diff_ms == receive_time / 1_000_000 - (server_time / 1_000_000
            + r.request_duration_ms / 2),
{
    proof {
        lemma_request_duration(send_time as int, receive_time as int);
        lemma_time_diff(send_time as int, receive_time as int, server_time as int);
    }
    let request_duration_ms = (receive_time - send_time) / NANOS_PER_MILLI;
    let receive_time_ms = receive_time / NANOS_PER_MILLI;
    let server_time_ms = server_time / NANOS_PER_MILLI;
    let real_server_time = server_time_ms + request_duration_ms / 2;
    let time_diff = receive_time_ms - real_server_time;
    ClockDiff { time_diff_ms: time_diff, request_duration_ms }
}

/// `whole_millis(n)` milliseconds fit within `n` nanoseconds, and one more do not.
pub proof fn lemma_whole_millis(n: int)
    requires
        n >= 0,
    ensures
        whole_millis(n) * 1_000_000 <= n < (whole_millis(n) + 1) * 1_000_000,
{
    assert((n / 1_000_000) * 1_000_000 <= n < (n / 1_000_000 + 1) * 1_000_000)
        by (nonlinear_arith)
        requires
            n >= 0,
    ;
}

/// The request duration is the whole number of milliseconds from sending to receiving,
/// however long the request took: that many milliseconds fit within it, one more do not.
pub proof fn lemma_request_duration(send: int, receive: int)
    requires
        send <= receive,
    ensures
        0 <= spec_request_duration_ms(send, receive),
        spec_request_duration_ms(send, receive) * 1_000_000 <= receive - send < (
        spec_request_duration_ms(send, receive) + 1) * 1_000_000,
{
    lemma_whole_millis(receive - send);
}

/// The clock difference is the local reading in whole milliseconds, less the server's
/// reading in whole milliseconds moved by half the request duration.
pub proof fn lemma_time_diff(send: int, receive: int, server: int)
    requires
        send <= receive,
        0 <= receive,
        0 <= server,
    ensures
        spec_time_diff_ms(send, receive, server) == receive / 1_000_000 - (server / 1_000_000
            + spec_request_duration_ms(send, receive) / 2),
        spec_time_diff_ms(send, receive, server) * 1_000_000 <= receive - server + 1_000_000
            - spec_request_duration_ms(send, receive) / 2 * 1_000_000,
        receive - server - 1_000_000 - spec_request_duration_ms(send, receive) / 2 * 1_000_000
            < spec_time_diff_ms(send, receive, server) * 1_000_000,
{
    lemma_whole_millis(receive);
    lemma_whole_millis(server);
}

/// A server clock that reads `k` whole milliseconds later makes the local clock look `k`
/// milliseconds further behind.
pub proof fn lemma_server_shift(send: int, receive: int, server: int, k: int)
    ensures
        spec_time_diff_ms(send, receive, server + k * 1_000_000) == spec_time_diff_ms(
            send,
            receive,
            server,
        ) - k,
{
    assert((server + k * 1_000_000) / 1_000_000 == server / 1_000_000 + k)
        by (nonlinear_arith);
}

/// Moving all three readings by the same whole number of milliseconds changes nothing.
pub proof fn lemma_shift_all(send: int, receive: int, server: int, k: int)
    ensures
        spec_request_duration_ms(send + k * 1_000_000, receive + k * 1_000_000)
            == spec_request_duration_ms(send, receive),
        spec_time_diff_ms(
            send + k * 1_000_000,
            receive + k * 1_000_000,
            server + k * 1_000_000,
        ) == spec_time_diff_ms(send, receive, server),
{
    assert((server + k * 1_000_000) / 1_000_000 == server / 1_000_000 + k)
        by (nonlinear_arith);
    assert((receive + k * 1_000_000) / 1_000_000 == receive / 1_000_000 + k)
        by (nonlinear_arith);
}

} // verus!
