use opengpc::vm::TickInterval;
use std::time::Duration;

#[test]
fn default_tick_is_ten_millis() {
    assert_eq!(TickInterval::default().as_duration(), Duration::from_millis(10));
}

#[test]
fn tctrl_zero_is_ten_millis() {
    assert_eq!(TickInterval::from_vm_tctrl(0).as_duration(), Duration::from_millis(10));
}

#[test]
fn tctrl_adds_ten() {
    assert_eq!(TickInterval::from_vm_tctrl(-9).as_duration(), Duration::from_millis(1));
    assert_eq!(TickInterval::from_vm_tctrl(5).as_duration(), Duration::from_millis(15));
    assert_eq!(TickInterval::from_vm_tctrl(30).as_duration(), Duration::from_millis(40));
}

#[test]
fn tctrl_clamps() {
    assert_eq!(TickInterval::from_vm_tctrl(-10).as_duration(), Duration::from_millis(1));
    assert_eq!(TickInterval::from_vm_tctrl(i8::MIN).as_duration(), Duration::from_millis(1));
    assert_eq!(TickInterval::from_vm_tctrl(40).as_duration(), Duration::from_millis(40));
    assert_eq!(TickInterval::from_vm_tctrl(i8::MAX).as_duration(), Duration::from_millis(40));
}

#[test]
fn tctrl_millis_values() {
    assert_eq!(TickInterval::tctrl_millis(0), 10);
    assert_eq!(TickInterval::tctrl_millis(-9), 1);
    assert_eq!(TickInterval::tctrl_millis(-128), 1);
    assert_eq!(TickInterval::tctrl_millis(31), 40);
    assert_eq!(TickInterval::tctrl_millis(127), 40);
}

#[test]
fn from_duration_keeps_duration() {
    let d = Duration::from_micros(1234);
    assert_eq!(TickInterval::from_duration(d).as_duration(), d);
    assert_eq!(TickInterval::from_duration(d), TickInterval::from_duration(d));
}

#[test]
fn duration_round_trips_through_interval() {
    let t = TickInterval::from_vm_tctrl(7);
    assert_eq!(TickInterval::from_duration(t.as_duration()), t);
    assert_eq!(TickInterval::default(), TickInterval::from_vm_tctrl(0));
}
