use sockgauge::reporter::{Address, Direction, Elapsed, Report, SocketCloseError};

fn peer() -> Address {
    Address::V4 { ip: 0x7f00_0001, port: 4000 }
}

#[test]
fn an_opening_is_one_line() {
    let report = Report::Opened { count: 1, addr: peer() };
    assert_eq!(
        report.line("127.0.0.1:4000"),
        "🟢     1 — new connection from 127.0.0.1:4000"
    );
    assert_eq!(report.count(), 1);
    assert_eq!(report.address(), peer());
}

#[test]
fn the_count_is_right_aligned_in_five_places() {
    let line = |count: u64| Report::Opened { count, addr: peer() }.line("p");
    assert_eq!(line(0), "🟢     0 — new connection from p");
    assert_eq!(line(9), "🟢     9 — new connection from p");
    assert_eq!(line(10), "🟢    10 — new connection from p");
    assert_eq!(line(999), "🟢   999 — new connection from p");
    assert_eq!(line(1_024), "🟢  1024 — new connection from p");
    assert_eq!(line(12_345), "🟢 12345 — new connection from p");
    assert_eq!(line(123_456), "🟢 123456 — new connection from p");
    assert_eq!(
        line(u64::MAX),
        "🟢 18446744073709551615 — new connection from p"
    );
}

#[test]
fn the_count_is_laid_out_as_the_formatter_does() {
    for count in [0u64, 7, 42, 100, 9_999, 10_000, 99_999, 100_000, 1 << 40] {
        let report = Report::Opened { count, addr: peer() };
        assert_eq!(
            report.line("[::1]:80"),
            format!("🟢 {: >5} — new connection from {}", count, "[::1]:80")
        );
    }
}

#[test]
fn a_graceful_close_is_one_line() {
    let report = Report::ClosedGracefully {
        count: 0,
        addr: peer(),
        connected_for: Elapsed { nanos: 3_000_000_500 },
    };
    assert_eq!(
        report.line("127.0.0.1:4000"),
        "🔴     0 — connection closed from 127.0.0.1:4000 (connected for 3.000000500s)"
    );
    assert_eq!(report.count(), 0);
    assert_eq!(report.address(), peer());
}

#[test]
fn a_close_with_error_is_one_line() {
    let report = Report::ClosedWithError {
        count: 2,
        addr: peer(),
        error: SocketCloseError(Direction::ServerToClient, "damn".to_string()),
        connected_for: Elapsed { nanos: 42_000_000 },
    };
    assert_eq!(
        report.line("10.0.0.1:51234"),
        "🔴     2 — connection closed from 10.0.0.1:51234: ⚠️  Error while forwarding client \
         traffic to the server: damn (connected for 0.042000000s)"
    );
    assert_eq!(report.count(), 2);
    assert_eq!(report.address(), peer());
}

#[test]
fn durations_are_given_in_seconds_with_nine_places() {
    let line = |nanos: u128| {
        Report::ClosedGracefully { count: 0, addr: peer(), connected_for: Elapsed { nanos } }
            .line("p")
    };
    assert_eq!(line(0), "🔴     0 — connection closed from p (connected for 0.000000000s)");
    assert_eq!(line(1), "🔴     0 — connection closed from p (connected for 0.000000001s)");
    assert_eq!(
        line(999_999_999),
        "🔴     0 — connection closed from p (connected for 0.999999999s)"
    );
    assert_eq!(
        line(1_000_000_000),
        "🔴     0 — connection closed from p (connected for 1.000000000s)"
    );
    assert_eq!(
        line(86_400_123_456_789),
        "🔴     0 — connection closed from p (connected for 86400.123456789s)"
    );
    assert_eq!(
        line(u128::MAX),
        "🔴     0 — connection closed from p (connected for \
         340282366920938463463374607431.768211455s)"
    );
}
