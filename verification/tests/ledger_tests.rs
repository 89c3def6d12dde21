use magia_baiser::ledger::{store_init_action, CredentialLedger, StoreInitAction};

#[test]
fn fresh_ledger_has_no_counts() {
    let l = CredentialLedger::new();
    assert_eq!(l.count_of(b"root", b"toor"), 0);
}

#[test]
fn first_capture_counts_one() {
    let mut l = CredentialLedger::new();
    l.record(b"root", b"toor");
    assert_eq!(l.count_of(b"root", b"toor"), 1);
}

#[test]
fn repeated_captures_are_counted() {
    let mut l = CredentialLedger::new();
    for _ in 0..5 {
        l.record(b"root", b"toor");
    }
    assert_eq!(l.count_of(b"root", b"toor"), 5);
}

#[test]
fn captures_do_not_touch_other_pairs() {
    let mut l = CredentialLedger::new();
    l.record(b"root", b"toor");
    l.record(b"admin", b"hunter2");
    l.record(b"root", b"toor");
    assert_eq!(l.count_of(b"root", b"toor"), 2);
    assert_eq!(l.count_of(b"admin", b"hunter2"), 1);
    assert_eq!(l.count_of(b"root", b"hunter2"), 0);
    assert_eq!(l.count_of(b"admin", b"toor"), 0);
}

#[test]
fn same_user_different_password_is_a_new_pair() {
    let mut l = CredentialLedger::new();
    l.record(b"root", b"a");
    l.record(b"root", b"b");
    assert_eq!(l.count_of(b"root", b"a"), 1);
    assert_eq!(l.count_of(b"root", b"b"), 1);
}

#[test]
fn empty_credentials_are_a_pair_like_any_other() {
    let mut l = CredentialLedger::new();
    l.record(b"", b"");
    l.record(b"", b"");
    assert_eq!(l.count_of(b"", b""), 2);
    assert_eq!(l.count_of(b"", b"x"), 0);
}

#[test]
fn schema_is_created_only_when_no_store_exists() {
    assert_eq!(store_init_action(false), StoreInitAction::CreateWithSchema);
    assert_eq!(store_init_action(true), StoreInitAction::OpenExisting);
}
