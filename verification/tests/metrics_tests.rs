use magia_baiser::dispatch::{Dispatcher, TaskOutcome};
use magia_baiser::metrics::{render_report, throughput_milli_per_sec};

#[test]
fn throughput_is_total_over_elapsed() {
    // 100 tasks in one second: 100.000 attempts/s
    assert_eq!(throughput_milli_per_sec(100, 1000), 100_000);
    // 1 task in 2 seconds: 0.500 attempts/s
    assert_eq!(throughput_milli_per_sec(1, 2000), 500);
    // truncating division
    assert_eq!(throughput_milli_per_sec(1, 3000), 333);
}

#[test]
fn report_is_tab_separated_rows() {
    let report = render_report(100, 10, 100_000, 1000);
    let expected = b"max fall to evil:\t100\n\
concurrent fall to evil:\t10\n\
feps(fall to evil per second):\t100.000\n\
use time:\t1000ms\n"
        .to_vec();
    assert_eq!(report, expected);
}

#[test]
fn report_keeps_leading_zeroes_in_the_fraction() {
    let report = render_report(1, 1, 2_005, 500);
    let text = String::from_utf8(report).unwrap();
    assert!(text.contains("feps(fall to evil per second):\t2.005\n"));
}

/// A mock batch where every attempt takes exactly 100ms and succeeds:
/// with 100 tasks under a ceiling of 10, the window drains in rounds of
/// ten, so the simulated clock advances ten times — elapsed is exactly
/// `N / C * 100ms` and the reported throughput is 100 attempts/s.
#[test]
fn mock_batch_throughput_is_the_ceiling_times_rate() {
    let total = 100u64;
    let ceiling = 10u64;
    let task_ms = 100u64;

    let mut d = Dispatcher::new(total as usize, ceiling as usize);
    let mut clock_ms = 0u64;
    while !d.is_finished() {
        let mut in_flight = 0;
        while d.poll_admit() {
            d.start_next();
            in_flight += 1;
        }
        // every attempt takes exactly task_ms and they run concurrently
        clock_ms += task_ms;
        for _ in 0..in_flight {
            d.complete(TaskOutcome::Success);
        }
    }
    assert_eq!(d.batch_result(), Ok(()));
    assert_eq!(clock_ms, total / ceiling * task_ms);

    let feps_milli = throughput_milli_per_sec(total, clock_ms);
    assert_eq!(feps_milli, 100_000);
}
