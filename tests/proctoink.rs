use proctoink::{AccountId, ExamMetadata, Proctoink};

#[test]
fn test_start_and_end_times() {
    let mut contract = Proctoink::new();
    let user = AccountId::from([0x1; 32]);
    contract.set_start(user, 1000);
    assert_eq!(contract.get_start_time(user), Some(1000));

    contract.set_end(user, 2000);
    assert_eq!(contract.get_end_time(user), Some(2000));
}

#[test]
fn test_add_violations_and_kick() {
    let mut contract = Proctoink::new();
    let user = AccountId::from([0x3; 32]);

    contract.add_violation(user, 1100);
    assert_eq!(contract.is_kicked(user), false);

    contract.add_violation(user, 1200);
    contract.add_violation(user, 1300);
    assert_eq!(contract.is_kicked(user), true);

    let violations = contract.get_violation_times(user);
    assert_eq!(violations, [Some(1100), Some(1200), Some(1300)]);
}

#[test]
fn test_metadata_defaults() {
    let contract = Proctoink::new();
    let user = AccountId::from([0x4; 32]);
    assert_eq!(contract.get_start_time(user), None);
    assert_eq!(contract.get_end_time(user), None);
    assert_eq!(contract.get_violation_times(user), [None, None, None]);
    assert_eq!(contract.is_kicked(user), false);
}

#[test]
fn unwritten_user_has_no_metadata() {
    let mut contract = Proctoink::new();
    let user = AccountId::from([0x5; 32]);
    assert_eq!(contract.get_metadata(user), None);
    contract.set_start(AccountId::from([0x6; 32]), 7);
    assert_eq!(contract.get_metadata(user), None);
}

#[test]
fn second_start_overwrites_first() {
    let mut contract = Proctoink::new();
    let user = AccountId::from([0x1; 32]);
    contract.set_start(user, 500);
    assert_eq!(contract.get_start_time(user), Some(500));
    contract.set_start(user, 400);
    assert_eq!(contract.get_start_time(user), Some(400));
}

#[test]
fn fourth_violation_is_dropped() {
    let mut contract = Proctoink::new();
    let user = AccountId::from([0x7; 32]);
    contract.add_violation(user, 30);
    contract.add_violation(user, 10);
    contract.add_violation(user, 20);
    contract.add_violation(user, 40);
    assert_eq!(contract.get_violation_times(user), [Some(30), Some(10), Some(20)]);
    assert!(contract.is_kicked(user));
}

#[test]
fn kicked_only_after_three_violations() {
    let mut contract = Proctoink::new();
    let user = AccountId::from([0x8; 32]);
    assert!(!contract.is_kicked(user));
    contract.add_violation(user, 5);
    assert!(!contract.is_kicked(user));
    contract.add_violation(user, 5);
    assert!(!contract.is_kicked(user));
    contract.add_violation(user, 0);
    assert!(contract.is_kicked(user));
}

#[test]
fn first_violation_persists_default_record() {
    let mut contract = Proctoink::new();
    let user = AccountId::from([0x9; 32]);
    contract.add_violation(user, 12);
    let meta = contract.get_metadata(user).unwrap();
    assert_eq!(meta.start_time, None);
    assert_eq!(meta.end_time, None);
    assert_eq!(meta.violations, [Some(12), None, None]);
    assert!(!meta.kicked);
}

#[test]
fn end_without_start_is_ignored() {
    let mut contract = Proctoink::new();
    let user = AccountId::from([0xa; 32]);
    contract.set_end(user, 50);
    assert_eq!(contract.get_end_time(user), None);
    assert_eq!(contract.get_metadata(user), None);
}

#[test]
fn end_must_come_after_start() {
    let mut contract = Proctoink::new();
    let user = AccountId::from([0xb; 32]);
    contract.set_start(user, 100);
    contract.set_end(user, 100);
    assert_eq!(contract.get_end_time(user), None);
    contract.set_end(user, 99);
    assert_eq!(contract.get_end_time(user), None);
    contract.set_end(user, 101);
    assert_eq!(contract.get_end_time(user), Some(101));
}

#[test]
fn end_at_max_timestamp() {
    let mut contract = Proctoink::new();
    let user = AccountId::from([0xc; 32]);
    contract.set_start(user, u64::MAX);
    contract.set_end(user, u64::MAX);
    assert_eq!(contract.get_end_time(user), None);
    contract.set_start(user, 0);
    contract.set_end(user, u64::MAX);
    assert_eq!(contract.get_end_time(user), Some(u64::MAX));
}

#[test]
fn users_do_not_interfere() {
    let mut contract = Proctoink::new();
    let a = AccountId::from([0x1; 32]);
    let mut b_bytes = [0x1; 32];
    b_bytes[31] = 0x2;
    let b = AccountId::from(b_bytes);
    contract.set_start(a, 10);
    contract.add_violation(a, 11);
    let before = contract.get_metadata(a);
    contract.set_start(b, 20);
    contract.add_violation(b, 21);
    contract.add_violation(b, 22);
    contract.add_violation(b, 23);
    contract.set_end(b, 30);
    assert_eq!(contract.get_metadata(a), before);
    assert_eq!(contract.get_violation_times(a), [Some(11), None, None]);
    assert!(!contract.is_kicked(a));
    assert_eq!(contract.get_end_time(a), None);
    assert!(contract.is_kicked(b));
    assert_eq!(contract.get_end_time(b), Some(30));
}

#[test]
fn reads_are_repeatable() {
    let mut contract = Proctoink::new();
    let user = AccountId::from([0xd; 32]);
    contract.set_start(user, 1);
    contract.add_violation(user, 2);
    assert_eq!(contract.get_start_time(user), contract.get_start_time(user));
    assert_eq!(contract.get_end_time(user), contract.get_end_time(user));
    assert_eq!(contract.get_violation_times(user), contract.get_violation_times(user));
    assert_eq!(contract.is_kicked(user), contract.is_kicked(user));
    assert_eq!(contract.get_metadata(user), contract.get_metadata(user));
}

#[test]
fn record_transitions() {
    let blank = ExamMetadata::new();
    assert_eq!(blank, ExamMetadata::default());
    let started = blank.with_start(9);
    assert_eq!(started.start_time, Some(9));
    assert_eq!(started.violations, [None, None, None]);
    let v = started.with_violation(3).with_violation(4);
    assert_eq!(v.violations, [Some(3), Some(4), None]);
    assert!(!v.kicked);
    let full = v.with_violation(5);
    assert!(full.kicked);
    assert_eq!(full.with_violation(6), full);
    assert_eq!(blank.with_end(1), None);
    assert_eq!(started.with_end(9), None);
    let ended = started.with_end(10).unwrap();
    assert_eq!(ended.end_time, Some(10));
    assert_eq!(ended.start_time, Some(9));
}

#[test]
fn violation_fills_gap_and_recomputes_kick() {
    let meta = ExamMetadata {
        start_time: None,
        end_time: None,
        violations: [Some(1), None, Some(3)],
        kicked: true,
    };
    let once = meta.with_violation(2);
    assert_eq!(once.violations, [Some(1), Some(2), Some(3)]);
    assert!(once.kicked);
    let stale = ExamMetadata { kicked: false, ..once };
    assert!(stale.with_violation(9).kicked);
    let gap = ExamMetadata { violations: [None, Some(2), None], kicked: true, ..meta };
    let filled = gap.with_violation(7);
    assert_eq!(filled.violations, [Some(7), Some(2), None]);
    assert!(!filled.kicked);
}

#[test]
fn account_ids_compare_bytewise() {
    let a = AccountId::from([0x2; 32]);
    let mut other = [0x2; 32];
    assert!(a.same_as(&AccountId::from(other)));
    other[17] = 0x3;
    assert!(!a.same_as(&AccountId::from(other)));
}
