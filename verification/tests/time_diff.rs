use chrono::{DateTime, TimeDelta, Utc};
use clock_server::client::{self, TimeSpan, UtcTime, MAX_SPAN_NANOS, MAX_UTC_SECS, MIN_UTC_SECS};
use clock_server::common::{self, ClockDiff};

fn span_nanos(s: TimeSpan) -> i128 {
    s.secs as i128 * 1_000_000_000 + s.nanos as i128
}

fn t(secs: i64, nanos: u32) -> UtcTime {
    UtcTime { secs, nanos }
}

#[test]
fn chrono_range_bounds() {
    assert!(DateTime::<Utc>::from_timestamp(MIN_UTC_SECS, 0).is_some());
    assert!(DateTime::<Utc>::from_timestamp(MIN_UTC_SECS - 1, 999_999_999).is_none());
    assert!(DateTime::<Utc>::from_timestamp(MAX_UTC_SECS, 999_999_999).is_some());
    assert!(DateTime::<Utc>::from_timestamp(MAX_UTC_SECS + 1, 0).is_none());
    let max = TimeDelta::milliseconds(i64::MAX);
    assert_eq!(
        max.num_seconds() as i128 * 1_000_000_000 + max.subsec_nanos() as i128,
        MAX_SPAN_NANOS
    );
}

#[test]
fn client_diff_of_an_exact_server() {
    // sent at 100 s, answered at 102 s, server read 101 s: clocks agree
    let d = client::compute_diff(t(100, 0), t(102, 0), t(101, 0));
    assert_eq!(span_nanos(d), 0);
}

#[test]
fn client_diff_of_a_late_server() {
    // round trip 3.5 s; the server read its clock 1.75 s after sending, 10 s ahead
    let d = client::compute_diff(t(1_000, 0), t(1_003, 500_000_000), t(1_011, 750_000_000));
    assert_eq!(span_nanos(d), -10_000_000_000);
    assert_eq!((d.secs, d.nanos), (-10, 0));
}

#[test]
fn client_diff_keeps_sign_of_parts() {
    let d = client::compute_diff(t(0, 0), t(0, 0), t(1, 250_000_000));
    assert_eq!((d.secs, d.nanos), (-1, -250_000_000));
    let d = client::compute_diff(t(0, 0), t(0, 0), t(-2, 750_000_000));
    assert_eq!((d.secs, d.nanos), (1, 250_000_000));
}

#[test]
fn client_diff_halves_odd_round_trips_downwards() {
    // round trip of 3 ns: half of it is taken as 1 ns
    let d = client::compute_diff(t(5, 0), t(5, 3), t(5, 0));
    assert_eq!(span_nanos(d), 2);
    // round trip of -3 ns (answer stamped before the request): half is -2 ns
    let d = client::compute_diff(t(5, 3), t(5, 0), t(5, 0));
    assert_eq!(span_nanos(d), 2);
}

#[test]
fn client_diff_shift_of_server_clock() {
    let a = client::compute_diff(t(1_600_000_000, 1), t(1_600_000_001, 9), t(1_600_000_000, 7));
    let b = client::compute_diff(t(1_600_000_000, 1), t(1_600_000_001, 9), t(1_600_000_002, 7));
    assert_eq!(span_nanos(a) - span_nanos(b), 2_000_000_000);
}

#[test]
fn common_diff_in_milliseconds() {
    let ms = 1_000_000i128;
    // sent at 10 s, received 250.9 ms later, server read 5 s
    let d = common::compute_diff(10_000 * ms, 10_250 * ms + 900_000, 5_000 * ms);
    assert_eq!(d, ClockDiff { time_diff_ms: 10_250 - (5_000 + 125), request_duration_ms: 250 });
}

#[test]
fn common_diff_truncates_to_milliseconds() {
    // request of 1.999 ms counts as 1 ms; half of it as 0 ms
    let d = common::compute_diff(1_000_000_001, 1_001_999_001, 1_000_000_000);
    assert_eq!(d.request_duration_ms, 1);
    assert_eq!(d.time_diff_ms, 1_001 - 1_000);
}

#[test]
fn common_diff_sent_before_the_epoch() {
    let d = common::compute_diff(-4_000_000, 6_000_000, 2_000_000);
    assert_eq!(d.request_duration_ms, 10);
    assert_eq!(d.time_diff_ms, 6 - (2 + 5));
}

#[test]
fn common_diff_shift_of_server_clock() {
    let a = common::compute_diff(0, 40_000_000, 7_000_000);
    let b = common::compute_diff(0, 40_000_000, 10_000_000);
    assert_eq!(a.time_diff_ms - b.time_diff_ms, 3);
}

fn chrono_time(t: UtcTime) -> DateTime<Utc> {
    DateTime::<Utc>::from_timestamp(t.secs, t.nanos).unwrap()
}

fn chrono_diff(send: UtcTime, receive: UtcTime, server: UtcTime) -> TimeDelta {
    let (s, r, v) = (chrono_time(send), chrono_time(receive), chrono_time(server));
    r - (v + (r - s) / 2)
}

fn check_against_chrono(send: UtcTime, receive: UtcTime, server: UtcTime) {
    let d = client::compute_diff(send, receive, server);
    let expected = chrono_diff(send, receive, server);
    assert_eq!((d.secs, d.nanos), (expected.num_seconds(), expected.subsec_nanos()));
}

#[test]
fn client_diff_with_leap_seconds() {
    // the server read its clock within the leap second after 00:00:59
    check_against_chrono(t(0, 0), t(120, 0), t(59, 1_500_000_000));
    // a leap second before midnight, and readings after it
    check_against_chrono(t(0, 0), t(1, 0), t(-1, 1_700_000_000));
    check_against_chrono(t(500_000_000, 0), t(500_000_001, 0), t(-1, 1_200_000_000));
    // an answer stamped before the request moves a leap-second server reading backwards
    check_against_chrono(t(130, 0), t(120, 0), t(59, 1_500_000_000));
    check_against_chrono(t(1, 0), t(0, 0), t(59, 1_500_000_000));
    check_against_chrono(t(0, 300_000_000), t(0, 0), t(59, 1_100_000_000));
    // the answer arrived within a leap second
    check_against_chrono(t(119, 400_000_000), t(119, 1_300_000_000), t(1_000, 0));
    check_against_chrono(t(119, 1_100_000_000), t(119, 1_300_000_000), t(119, 1_999_999_999));
    // the answer arrived within the leap second before midnight
    check_against_chrono(t(86_000, 0), t(86_399, 1_000_000_000), t(86_399, 999_999_999));
}

#[test]
fn client_diff_with_leap_second_is_not_the_plain_formula() {
    // the leap second counts as an extra second between the readings
    let d = client::compute_diff(t(0, 0), t(120, 0), t(59, 1_500_000_000));
    // round trip 120 s, half 60 s: the server's 00:00:60.5 plus 60 s is 00:02:00.5 minus the
    // leap second that it left, i.e. 00:01:59.5
    assert_eq!(span_nanos(d), 500_000_000);
}

#[test]
fn round_trip_and_diff_gives_both_spans() {
    let (rt, d) = client::round_trip_and_diff(t(1_000, 0), t(1_003, 500_000_000), t(1_011, 750_000_000));
    assert_eq!((rt.secs, rt.nanos), (3, 500_000_000));
    assert_eq!((d.secs, d.nanos), (-10, 0));
}

#[test]
fn mean_time_diff_divides_the_sum() {
    let spans = vec![
        TimeSpan { secs: 1, nanos: 500_000_000 },
        TimeSpan { secs: 2, nanos: 250_000_000 },
        TimeSpan { secs: 0, nanos: -750_000_000 },
    ];
    let m = client::mean_time_diff(&spans, 3);
    assert_eq!((m.secs, m.nanos), (1, 0));
}

#[test]
fn mean_time_diff_rounds_like_chrono() {
    for (spans, count) in [
        (vec![TimeSpan { secs: 0, nanos: -1 }], 3),
        (vec![TimeSpan { secs: -7, nanos: -1 }, TimeSpan { secs: 2, nanos: 5 }], 2),
        (vec![TimeSpan { secs: 10, nanos: 1 }, TimeSpan { secs: 0, nanos: 999_999_999 }], 7),
        (vec![TimeSpan { secs: -10, nanos: -1 }, TimeSpan { secs: -3, nanos: 0 }], 4),
    ] {
        let m = client::mean_time_diff(&spans, count);
        let mut total = TimeDelta::zero();
        for s in &spans {
            total = total + TimeDelta::seconds(s.secs) + TimeDelta::nanoseconds(s.nanos as i64);
        }
        let expected = total / count;
        assert_eq!((m.secs, m.nanos), (expected.num_seconds(), expected.subsec_nanos()));
    }
    let m = client::mean_time_diff(&vec![TimeSpan { secs: 0, nanos: -1 }], 3);
    assert_eq!(span_nanos(m), 0);
}
