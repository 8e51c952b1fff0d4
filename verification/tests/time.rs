use mcu_hal::registry::CapTable;
use mcu_hal::time::{delay_begin, delay_done, delay_finish, millis, start_time, tick_delay,
    tick_millis, ToPwm};
use mcu_hal::uart::UartTable;
use mcu_hal::{Mcu, ProgError};

fn device() -> Mcu {
    let adc = CapTable::empty();
    let mut tim = CapTable::empty();
    tim.add(('a', 0), 2, 1).unwrap();
    tim.add(('e', 9), 1, 1).unwrap();
    let ua = UartTable::empty();
    Mcu::new(adc, tim, ua).unwrap()
}

#[test]
fn millis_reads_100_after_100_ticks() {
    let mut m = device();
    assert_eq!(start_time(&mut m), Ok(()));
    for _ in 0..100 {
        tick_millis(&mut m);
    }
    assert_eq!(millis(&mut m), 100);
}

#[test]
fn millis_never_goes_backwards() {
    let mut m = device();
    assert_eq!(start_time(&mut m), Ok(()));
    let mut last = millis(&mut m);
    for _ in 0..1000 {
        tick_millis(&mut m);
        let now = millis(&mut m);
        assert!(now >= last);
        last = now;
    }
}

#[test]
fn millis_resumes_counting_after_a_read() {
    let mut m = device();
    assert_eq!(start_time(&mut m), Ok(()));
    let _ = millis(&mut m);
    assert!(m.clock.counting);
    tick_millis(&mut m);
    assert_eq!(millis(&mut m), 1);
}

#[test]
fn a_second_time_base_start_is_refused_untouched() {
    let mut m = device();
    assert_eq!(start_time(&mut m), Ok(()));
    tick_millis(&mut m);
    assert_eq!(start_time(&mut m), Err(ProgError::AlreadyConfigured));
    assert_eq!(millis(&mut m), 1);
}

#[test]
fn ticks_before_the_time_base_starts_do_not_count() {
    let mut m = device();
    tick_millis(&mut m);
    tick_millis(&mut m);
    assert_eq!(millis(&mut m), 0);
}

#[test]
fn delay_50_ends_only_at_50_and_leaves_the_timer_halted() {
    let mut m = device();
    delay_begin(&mut m);
    assert!(m.delay.active);
    assert!(m.delay.counting);
    assert_eq!(m.delay.elapsed, 0);
    let mut ticks: u32 = 0;
    while !delay_done(&m, 50) {
        tick_delay(&mut m);
        ticks += 1;
        assert!(ticks <= 50);
    }
    assert_eq!(ticks, 50);
    assert!(m.delay.elapsed >= 50);
    delay_finish(&mut m);
    assert!(!m.delay.active);
    assert!(!m.delay.counting);
    // ready for immediate reuse
    delay_begin(&mut m);
    assert!(m.delay.active);
    assert_eq!(m.delay.elapsed, 0);
    while !delay_done(&m, 3) {
        tick_delay(&mut m);
    }
    delay_finish(&mut m);
    assert_eq!(m.delay.elapsed, 3);
}

#[test]
fn delay_ticks_count_only_while_active() {
    let mut m = device();
    tick_delay(&mut m);
    tick_delay(&mut m);
    assert_eq!(m.delay.elapsed, 0);
    delay_begin(&mut m);
    tick_delay(&mut m);
    delay_finish(&mut m);
    tick_delay(&mut m);
    assert_eq!(m.delay.elapsed, 1);
}

#[test]
fn pwm_duty_writes_land_on_the_resolved_channel() {
    let mut m = device();
    // a0 resolves to timer 2 channel 1: ledger and duty slot 2 * 4 - 1
    let p = ('a', 0).pwm(&mut m).unwrap();
    assert_eq!(p.block, 'a');
    assert_eq!(p.pin, 0);
    p.pwm_write(&mut m, 10);
    assert_eq!(m.pwm_duty[7], 10);
    p.pwm_write(&mut m, 200);
    assert_eq!(m.pwm_duty[7], 200);
}

#[test]
fn pwm_commits_the_pin_to_the_selector_of_its_group() {
    let mut m = device();
    // e9 is wired to timer 1: selector 1, on the high function word
    let _ = ('e', 9).pwm(&mut m).unwrap();
    assert_eq!(m.banks[4].afrh, 0x10);
    assert!(m.timer_slots.taken(1 * 4 - 1));
}
