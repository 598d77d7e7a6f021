use sarah::counter::Counter;
use sarah::errors::CounterError;

#[test]
fn counter_walkthrough() {
    let mut c = Counter::new(0);
    assert_eq!(c.value(), 0);
    c.increment().unwrap();
    c.increment().unwrap();
    assert_eq!(c.value(), 2);
    c.decrement().unwrap();
    assert_eq!(c.value(), 1);
    c.reset();
    assert_eq!(c.value(), 0);
}

#[test]
fn new_starts_at_initial() {
    assert_eq!(Counter::new(42).value(), 42);
    assert_eq!(Counter::new(7).value(), 7);
}

#[test]
fn increment_overflow_leaves_value() {
    let mut c = Counter::new(i64::MAX);
    let err = c.increment().unwrap_err();
    assert!(matches!(err, CounterError::Overflow));
    assert_eq!(c.value(), i64::MAX);
}

#[test]
fn decrement_underflow_leaves_value() {
    let mut c = Counter::new(i64::MIN);
    let err = c.decrement().unwrap_err();
    assert!(matches!(err, CounterError::Underflow));
    assert_eq!(c.value(), i64::MIN);
}

#[test]
fn decrement_from_three() {
    let mut c = Counter::new(3);
    c.decrement().unwrap();
    assert_eq!(c.value(), 2);
}

#[test]
fn reset_from_ninety_nine() {
    let mut c = Counter::new(99);
    c.reset();
    assert_eq!(c.value(), 0);
}

#[test]
fn add_positive_and_negative() {
    let mut c = Counter::new(10);
    c.add(5).unwrap();
    assert_eq!(c.value(), 15);
    c.add(-3).unwrap();
    assert_eq!(c.value(), 12);
}

#[test]
fn add_errors_by_direction() {
    let mut c = Counter::new(i64::MAX - 1);
    assert!(matches!(c.add(2), Err(CounterError::Overflow)));
    assert_eq!(c.value(), i64::MAX - 1);
    let mut d = Counter::new(i64::MIN + 1);
    assert!(matches!(d.add(-2), Err(CounterError::Underflow)));
    assert_eq!(d.value(), i64::MIN + 1);
    assert!(d.add(0).is_ok());
    assert_eq!(d.value(), i64::MIN + 1);
}

#[test]
fn increment_then_decrement_restores() {
    let mut c = Counter::new(-17);
    c.increment().unwrap();
    c.decrement().unwrap();
    assert_eq!(c.value(), -17);
    c.add(1000).unwrap();
    c.add(-1000).unwrap();
    assert_eq!(c.value(), -17);
}

#[test]
fn error_messages() {
    assert_eq!(CounterError::Overflow.to_string(), "Counter overflow");
    assert_eq!(CounterError::Underflow.to_string(), "Counter underflow");
}
