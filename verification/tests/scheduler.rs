use baret::scheduler::Scheduler;
use baret::scheduler::test_or_tests;
use baret::decimal::u64_to_decimal;
use baret::decimal::i64_to_decimal;
use baret::decimal::usize_to_decimal;

#[test]
fn two_failures_with_ceiling_one_summarize_as_two_of_two() {
    let mut s = Scheduler::new(2, 1);

    assert!(s.can_start());
    s.start();
    assert!(!s.can_start());
    s.finish(false);

    assert!(s.can_start());
    s.start();
    assert!(!s.can_start());
    s.finish(false);

    assert!(s.all_done());
    assert_eq!(2, s.errors);
    assert_eq!(
        Some(String::from("Error: 2 tests had errors out of 2 tests")),
        s.summary()
    );
}

#[test]
fn ceiling_is_never_exceeded() {
    let mut s = Scheduler::new(5, 2);
    let mut peak = 0;
    while !s.all_done() {
        while s.can_start() {
            s.start();
        }
        assert!(s.running <= s.max);
        if s.running > peak {
            peak = s.running;
        }
        s.finish(true);
    }
    assert_eq!(2, peak);
    assert_eq!(5, s.successes);
}

#[test]
fn all_successes_give_no_summary() {
    let mut s = Scheduler::new(1, 64);
    s.start();
    s.finish(true);
    assert!(s.all_done());
    assert_eq!(None, s.summary());
}

#[test]
fn single_failure_uses_singular_noun() {
    let mut s = Scheduler::new(1, 64);
    s.start();
    s.finish(false);
    assert_eq!(
        Some(String::from("Error: 1 test had errors out of 1 test")),
        s.summary()
    );
}

#[test]
fn mixed_outcomes_count_all_tests_that_ran() {
    let mut s = Scheduler::new(3, 2);
    s.start();
    s.finish(true);
    s.start();
    s.finish(false);
    s.start();
    s.finish(true);
    assert_eq!(
        Some(String::from("Error: 1 test had errors out of 3 tests")),
        s.summary()
    );
}

#[test]
fn empty_run_is_done_at_once_with_no_summary() {
    let s = Scheduler::new(0, 4);
    assert!(s.all_done());
    assert!(!s.can_start());
    assert_eq!(None, s.summary());
}

#[test]
fn test_or_tests_picks_singular_exactly_at_one() {
    assert_eq!("tests", test_or_tests(0));
    assert_eq!("test", test_or_tests(1));
    assert_eq!("tests", test_or_tests(2));
}

#[test]
fn decimal_rendering_exact_values() {
    assert_eq!("0", u64_to_decimal(0));
    assert_eq!("7", u64_to_decimal(7));
    assert_eq!("5000", u64_to_decimal(5000));
    assert_eq!("12345", u64_to_decimal(12345));
    assert_eq!("18446744073709551615", u64_to_decimal(u64::MAX));
    assert_eq!("64", usize_to_decimal(64));
    assert_eq!("-1", i64_to_decimal(-1));
    assert_eq!("-9223372036854775808", i64_to_decimal(i64::MIN));
    assert_eq!("42", i64_to_decimal(42));
}
