use magia_baiser::dispatch::{
    classify_outcome, filter_target_addrs, join_tokens, BatchError, ClientConfigError, Dispatcher,
    IpFamily, TargetAddr, TaskOutcome,
};

#[test]
fn only_auth_and_address_errors_are_batch_fatal() {
    assert_eq!(classify_outcome(TaskOutcome::Success), None);
    assert_eq!(classify_outcome(TaskOutcome::OtherFailure), None);
    assert_eq!(
        classify_outcome(TaskOutcome::KeyAuthFailed),
        Some(BatchError::KeyAuthFailed)
    );
    assert_eq!(
        classify_outcome(TaskOutcome::PasswordWrong),
        Some(BatchError::PasswordWrong)
    );
    assert_eq!(
        classify_outcome(TaskOutcome::KeyInvalid),
        Some(BatchError::KeyInvalid)
    );
    assert_eq!(
        classify_outcome(TaskOutcome::AddressInvalid),
        Some(BatchError::AddressInvalid)
    );
}

#[test]
fn batch_of_successes_completes() {
    let mut d = Dispatcher::new(4, 2);
    let mut done = 0;
    while !d.is_finished() {
        while d.poll_admit() {
            d.start_next();
        }
        d.complete(TaskOutcome::Success);
        done += 1;
    }
    assert_eq!(done, 4);
    assert_eq!(d.batch_result(), Ok(()));
}

#[test]
fn third_task_failing_aborts_the_batch_with_its_error() {
    let mut d = Dispatcher::new(10, 10);
    while d.poll_admit() {
        d.start_next();
    }
    d.complete(TaskOutcome::Success);
    d.complete(TaskOutcome::OtherFailure);
    d.complete(TaskOutcome::PasswordWrong);
    assert!(d.is_finished());
    assert_eq!(d.batch_result(), Err(BatchError::PasswordWrong));
    // outcomes of tasks still in flight are drained but change nothing
    d.complete(TaskOutcome::Success);
    d.complete(TaskOutcome::KeyAuthFailed);
    assert_eq!(d.batch_result(), Err(BatchError::PasswordWrong));
}

#[test]
fn window_never_exceeds_the_ceiling() {
    let mut d = Dispatcher::new(5, 2);
    assert!(d.poll_admit());
    d.start_next();
    assert!(d.poll_admit());
    d.start_next();
    assert_eq!(d.in_flight(), 2);
    assert!(!d.poll_admit());
    d.complete(TaskOutcome::Success);
    assert_eq!(d.in_flight(), 1);
    assert!(d.poll_admit());
}

#[test]
fn other_failures_count_as_done() {
    let mut d = Dispatcher::new(2, 1);
    d.start_next();
    d.complete(TaskOutcome::OtherFailure);
    assert!(!d.is_finished());
    d.start_next();
    d.complete(TaskOutcome::OtherFailure);
    assert!(d.is_finished());
    assert_eq!(d.batch_result(), Ok(()));
}

fn addr(family: IpFamily, key: u64) -> TargetAddr {
    TargetAddr { family, key }
}

#[test]
fn both_family_filters_are_rejected() {
    let addrs = vec![addr(IpFamily::V4, 0), addr(IpFamily::V6, 1)];
    assert_eq!(
        filter_target_addrs(&addrs, true, true),
        Err(ClientConfigError::BothFamilyFilters)
    );
}

#[test]
fn v4_filter_keeps_only_v4() {
    let addrs = vec![
        addr(IpFamily::V4, 0),
        addr(IpFamily::V6, 1),
        addr(IpFamily::V4, 2),
    ];
    let kept = filter_target_addrs(&addrs, true, false).unwrap();
    assert_eq!(kept, vec![addr(IpFamily::V4, 0), addr(IpFamily::V4, 2)]);
}

#[test]
fn v6_filter_keeps_only_v6() {
    let addrs = vec![
        addr(IpFamily::V4, 0),
        addr(IpFamily::V6, 1),
        addr(IpFamily::V4, 2),
    ];
    let kept = filter_target_addrs(&addrs, false, true).unwrap();
    assert_eq!(kept, vec![addr(IpFamily::V6, 1)]);
}

#[test]
fn no_filter_keeps_every_address_in_order() {
    let addrs = vec![
        addr(IpFamily::V6, 9),
        addr(IpFamily::V4, 3),
        addr(IpFamily::V6, 7),
    ];
    let kept = filter_target_addrs(&addrs, false, false).unwrap();
    assert_eq!(kept, addrs);
}

#[test]
fn command_tokens_join_with_single_spaces() {
    let toks = vec![b"echo".to_vec(), b"hello".to_vec(), b"world".to_vec()];
    assert_eq!(join_tokens(&toks), b"echo hello world".to_vec());
}

#[test]
fn single_token_joins_to_itself() {
    let toks = vec![b"uptime".to_vec()];
    assert_eq!(join_tokens(&toks), b"uptime".to_vec());
}

#[test]
fn no_tokens_join_to_an_empty_command() {
    let toks: Vec<Vec<u8>> = vec![];
    assert_eq!(join_tokens(&toks), Vec::<u8>::new());
}
