use mcu_hal::registry::CapTable;
use mcu_hal::uart::UartTable;
use mcu_hal::{Mcu, ProgError};

#[test]
fn resolving_the_same_pin_twice_yields_the_same_slot() {
    let mut t = CapTable::empty();
    t.add(('a', 0), 1, 0).unwrap();
    t.add(('a', 4), 0, 1).unwrap();
    t.add(('c', 0), 2, 10).unwrap();
    let first = t.resolve(('a', 4));
    let second = t.resolve(('a', 4));
    assert_eq!(first, Some((0, 1)));
    assert_eq!(first, second);
    assert_eq!(t.resolve(('c', 0)), Some((2, 10)));
    assert_eq!(t.resolve(('c', 0)), Some((2, 10)));
    assert_eq!(t.resolve(('b', 1)), None);
}

#[test]
fn a_table_refuses_a_repeated_pin() {
    let mut t = CapTable::empty();
    t.add(('a', 0), 1, 0).unwrap();
    assert_eq!(t.add(('a', 0), 2, 5), Err(ProgError::AlreadyConfigured));
    // the refused record left no trace
    assert_eq!(t.resolve(('a', 0)), Some((1, 0)));
}

#[test]
fn the_device_refuses_an_analog_table_with_a_bad_instance() {
    let mut adc = CapTable::empty();
    adc.add(('a', 0), 4, 0).unwrap();
    assert!(Mcu::new(adc, CapTable::empty(), UartTable::empty()).is_err());
}

#[test]
fn the_device_refuses_a_generator_entry_with_a_bad_channel() {
    let mut adc = CapTable::empty();
    adc.add(('a', 4), 0, 3).unwrap();
    assert!(Mcu::new(adc, CapTable::empty(), UartTable::empty()).is_err());
}

#[test]
fn the_device_refuses_a_timer_entry_its_timer_cannot_serve() {
    // timer 9 offers two capture channels; channel 3 does not exist on it
    let mut tim = CapTable::empty();
    tim.add(('a', 2), 9, 3).unwrap();
    assert!(Mcu::new(CapTable::empty(), tim, UartTable::empty()).is_err());

    // the basic timers drive no pins at all
    let mut tim2 = CapTable::empty();
    tim2.add(('a', 2), 6, 1).unwrap();
    assert!(Mcu::new(CapTable::empty(), tim2, UartTable::empty()).is_err());
}

#[test]
fn the_device_refuses_a_serial_table_with_a_shared_pin() {
    let mut ua = UartTable::empty();
    ua.add(('a', 3), ('a', 2), 2);
    ua.add(('a', 3), ('b', 10), 3);
    assert!(Mcu::new(CapTable::empty(), CapTable::empty(), ua).is_err());
}

#[test]
fn the_device_accepts_well_formed_tables() {
    let mut adc = CapTable::empty();
    adc.add(('a', 0), 1, 0).unwrap();
    let mut tim = CapTable::empty();
    tim.add(('a', 0), 2, 1).unwrap();
    let mut ua = UartTable::empty();
    ua.add(('a', 3), ('a', 2), 2);
    let m = Mcu::new(adc, tim, ua).unwrap();
    assert_eq!(m.adc_map.resolve(('a', 0)), Some((1, 0)));
    assert_eq!(m.timer_map.resolve(('a', 0)), Some((2, 1)));
}
