use mcu_hal::gpio::{digital_read, digital_write, open_drain, pin_mode, return_pinmode, set_bias,
    set_speed, GpioBias, GpioMode, GpioSpeed};
use mcu_hal::registry::CapTable;
use mcu_hal::time::ToPwm;
use mcu_hal::uart::UartTable;
use mcu_hal::{GpioError, Mcu, ProgError};

fn device() -> Mcu {
    let mut adc = CapTable::empty();
    adc.add(('a', 0), 1, 0).unwrap();
    adc.add(('a', 4), 0, 1).unwrap();
    adc.add(('a', 5), 0, 2).unwrap();
    adc.add(('c', 0), 2, 10).unwrap();
    let mut tim = CapTable::empty();
    tim.add(('a', 0), 2, 1).unwrap();
    tim.add(('b', 0), 3, 3).unwrap();
    tim.add(('c', 6), 8, 1).unwrap();
    tim.add(('b', 14), 12, 1).unwrap();
    let mut ua = UartTable::empty();
    ua.add(('a', 3), ('a', 2), 2);
    ua.add(('b', 11), ('b', 10), 3);
    Mcu::new(adc, tim, ua).unwrap()
}

#[test]
fn pin_ledger_first_acquire_succeeds_then_fails() {
    let mut m = device();
    assert_eq!(pin_mode(&mut m, ('a', 1), GpioMode::Output), Ok(()));
    assert_eq!(pin_mode(&mut m, ('b', 1), GpioMode::Input), Ok(()));
    assert_eq!(
        pin_mode(&mut m, ('a', 1), GpioMode::Input),
        Err(ProgError::AlreadyConfigured)
    );
    assert_eq!(
        pin_mode(&mut m, ('b', 1), GpioMode::Output),
        Err(ProgError::AlreadyConfigured)
    );
}

#[test]
fn read_mode_after_set_mode_is_consistent() {
    let mut m = device();
    assert_eq!(pin_mode(&mut m, ('a', 1), GpioMode::Input), Ok(()));
    assert_eq!(return_pinmode(&m, ('a', 1)), Ok(GpioMode::Input));
    assert_eq!(pin_mode(&mut m, ('a', 2), GpioMode::Output), Ok(()));
    assert_eq!(return_pinmode(&m, ('a', 2)), Ok(GpioMode::Output));
    assert_eq!(pin_mode(&mut m, ('a', 8), GpioMode::AlternateFunction(5)), Ok(()));
    assert_eq!(
        return_pinmode(&m, ('a', 8)),
        Ok(GpioMode::AlternateFunction(5))
    );
    assert_eq!(pin_mode(&mut m, ('a', 0), GpioMode::Analog), Ok(()));
    assert_eq!(return_pinmode(&m, ('a', 0)), Ok(GpioMode::Analog));
}

#[test]
fn read_mode_after_pwm_reports_the_timer_groups_selector() {
    // pin b0 is wired to timer 3, whose group carries selector 2
    let mut m = device();
    assert_eq!(pin_mode(&mut m, ('b', 0), GpioMode::Pwm), Ok(()));
    assert_eq!(
        return_pinmode(&m, ('b', 0)),
        Ok(GpioMode::AlternateFunction(2))
    );
    // pin c6 is wired to timer 8, whose group carries selector 3
    assert_eq!(pin_mode(&mut m, ('c', 6), GpioMode::Pwm), Ok(()));
    assert_eq!(
        return_pinmode(&m, ('c', 6)),
        Ok(GpioMode::AlternateFunction(3))
    );
    // pin b14 is wired to timer 12, outside every named group: selector 9
    assert_eq!(pin_mode(&mut m, ('b', 14), GpioMode::Pwm), Ok(()));
    assert_eq!(
        return_pinmode(&m, ('b', 14)),
        Ok(GpioMode::AlternateFunction(9))
    );
}

#[test]
fn an_unconfigured_pin_reads_as_input() {
    let m = device();
    assert_eq!(return_pinmode(&m, ('c', 13)), Ok(GpioMode::Input));
}

#[test]
fn write_digital_on_wrong_mode_fails_and_mutates_nothing() {
    let mut m = device();
    assert_eq!(pin_mode(&mut m, ('b', 2), GpioMode::Input), Ok(()));
    let banks_before = m.banks.clone();
    assert_eq!(digital_write(&mut m, ('b', 2), true), Err(GpioError::WrongMode));
    assert_eq!(m.banks, banks_before);
    assert_eq!(return_pinmode(&m, ('b', 2)), Ok(GpioMode::Input));
}

#[test]
fn read_digital_on_wrong_mode_fails() {
    let mut m = device();
    assert_eq!(pin_mode(&mut m, ('c', 1), GpioMode::AlternateFunction(1)), Ok(()));
    assert_eq!(digital_read(&m, ('c', 1)), Err(GpioError::WrongMode));
}

#[test]
fn digital_write_then_read_round_trips() {
    let mut m = device();
    assert_eq!(pin_mode(&mut m, ('a', 7), GpioMode::Output), Ok(()));
    assert_eq!(digital_write(&mut m, ('a', 7), true), Ok(()));
    assert_eq!(digital_read(&m, ('a', 7)), Ok(true));
    assert_eq!(digital_write(&mut m, ('a', 7), false), Ok(()));
    assert_eq!(digital_read(&m, ('a', 7)), Ok(false));
}

#[test]
fn nonexistent_pins_are_rejected() {
    let mut m = device();
    for pin in [('z', 0), ('d', 3), ('h', 2), ('a', 16), ('e', 5)] {
        assert_eq!(
            pin_mode(&mut m, pin, GpioMode::Output),
            Err(ProgError::InvalidConfiguration)
        );
        assert_eq!(
            digital_write(&mut m, pin, true),
            Err(GpioError::Prog(ProgError::InvalidConfiguration))
        );
        assert_eq!(
            digital_read(&m, pin),
            Err(GpioError::Prog(ProgError::InvalidConfiguration))
        );
        assert_eq!(
            return_pinmode(&m, pin),
            Err(GpioError::Prog(ProgError::InvalidConfiguration))
        );
    }
    // the odd corners that do exist
    assert_eq!(pin_mode(&mut m, ('d', 2), GpioMode::Output), Ok(()));
    assert_eq!(pin_mode(&mut m, ('h', 0), GpioMode::Output), Ok(()));
    assert_eq!(pin_mode(&mut m, ('h', 1), GpioMode::Input), Ok(()));
}

#[test]
fn alternate_function_selector_out_of_range_is_rejected() {
    let mut m = device();
    assert_eq!(
        pin_mode(&mut m, ('a', 1), GpioMode::AlternateFunction(16)),
        Err(ProgError::InvalidConfiguration)
    );
    // the rejection happened before the ledger: the pin is still free
    assert_eq!(pin_mode(&mut m, ('a', 1), GpioMode::AlternateFunction(15)), Ok(()));
}

#[test]
fn bias_speed_and_drain_write_their_fields() {
    let mut m = device();
    assert_eq!(set_bias(&mut m, ('a', 1), GpioBias::Pullup), Ok(()));
    assert_eq!(m.banks[0].pupdr, 0b0100);
    assert_eq!(set_bias(&mut m, ('a', 1), GpioBias::Pulldown), Ok(()));
    assert_eq!(m.banks[0].pupdr, 0b1000);
    assert_eq!(set_bias(&mut m, ('a', 1), GpioBias::Floating), Ok(()));
    assert_eq!(m.banks[0].pupdr, 0);
    assert_eq!(set_speed(&mut m, ('a', 1), GpioSpeed::High), Ok(()));
    assert_eq!(m.banks[0].ospeedr, 0b1100);
    assert_eq!(set_speed(&mut m, ('a', 1), GpioSpeed::Medium), Ok(()));
    assert_eq!(m.banks[0].ospeedr, 0b0100);
    assert_eq!(open_drain(&mut m, ('a', 1), true), Ok(()));
    assert_eq!(m.banks[0].otyper, 0b10);
    assert_eq!(open_drain(&mut m, ('a', 1), false), Ok(()));
    assert_eq!(m.banks[0].otyper, 0);
}

#[test]
fn pwm_handle_path_leaves_the_pin_ledger_alone() {
    // committing a pin to PWM through its handle claims the timer slot but
    // not the pin identifier, so a later plain configuration still succeeds
    let mut m = device();
    let p = ('a', 0).pwm(&mut m).unwrap();
    p.pwm_write(&mut m, 128);
    assert_eq!(m.pwm_duty[2 * 4 - 1], 128);
    assert!(!m.pin_ledger.contains(('a', 0)));
    assert_eq!(pin_mode(&mut m, ('a', 0), GpioMode::Output), Ok(()));
}

#[test]
fn pin_mode_pwm_path_claims_the_pin() {
    // the same request through pin_mode records the pin identifier too, so
    // a later plain configuration is refused
    let mut m = device();
    assert_eq!(pin_mode(&mut m, ('a', 0), GpioMode::Pwm), Ok(()));
    assert_eq!(
        pin_mode(&mut m, ('a', 0), GpioMode::Output),
        Err(ProgError::AlreadyConfigured)
    );
}

#[test]
fn the_timer_slot_is_shared_between_both_pwm_paths() {
    let mut m = device();
    assert_eq!(pin_mode(&mut m, ('a', 0), GpioMode::Pwm), Ok(()));
    assert_eq!(('a', 0).pwm(&mut m).unwrap_err(), ProgError::AlreadyConfigured);
}

#[test]
fn pwm_on_a_pin_without_timer_capability_is_rejected() {
    let mut m = device();
    assert_eq!(
        pin_mode(&mut m, ('a', 1), GpioMode::Pwm),
        Err(ProgError::InvalidConfiguration)
    );
    assert_eq!(('c', 13).pwm(&mut m).unwrap_err(), ProgError::InvalidConfiguration);
}
