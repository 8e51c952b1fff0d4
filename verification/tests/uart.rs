use mcu_hal::registry::CapTable;
use mcu_hal::uart::{collect_step, stopper_ok, tx_byte_of, uart_acquire, uart_active, uart_open,
    uart_rx_interrupt, uart_tx_interrupt, UartChannel, UartTable};
use mcu_hal::{Mcu, ProgError};

fn device() -> Mcu {
    let adc = CapTable::empty();
    let tim = CapTable::empty();
    let mut ua = UartTable::empty();
    ua.add(('a', 3), ('a', 2), 2);
    ua.add(('b', 11), ('b', 10), 3);
    Mcu::new(adc, tim, ua).unwrap()
}

#[test]
fn a_receive_pin_opens_its_channel() {
    let mut m = device();
    assert!(!uart_active(&m, 2));
    assert_eq!(
        uart_open(&mut m, ('a', 3)),
        Ok(UartChannel { channel: 2, tx: false })
    );
    assert!(uart_active(&m, 2));
    assert!(!uart_active(&m, 3));
}

#[test]
fn a_transmit_pin_opens_its_channel() {
    let mut m = device();
    assert_eq!(
        uart_open(&mut m, ('b', 10)),
        Ok(UartChannel { channel: 3, tx: true })
    );
    assert!(uart_active(&m, 3));
}

#[test]
fn both_pins_of_one_channel_share_its_ownership_slot() {
    let mut m = device();
    assert_eq!(
        uart_open(&mut m, ('a', 3)),
        Ok(UartChannel { channel: 2, tx: false })
    );
    assert_eq!(uart_open(&mut m, ('a', 2)), Err(ProgError::AlreadyConfigured));
}

#[test]
fn a_pin_without_serial_wiring_is_refused() {
    let mut m = device();
    assert_eq!(uart_open(&mut m, ('c', 7)), Err(ProgError::InvalidConfiguration));
}

#[test]
fn direct_channel_claims_follow_the_same_ledger() {
    let mut m = device();
    assert_eq!(uart_acquire(&mut m, 4), Ok(()));
    assert_eq!(uart_acquire(&mut m, 4), Err(ProgError::AlreadyConfigured));
    assert!(uart_active(&m, 4));
    assert!(!uart_active(&m, 5));
}

#[test]
fn transmit_bytes_replace_non_ascii_with_a_question_mark() {
    assert_eq!(tx_byte_of('A'), 65);
    assert_eq!(tx_byte_of('\n'), 10);
    assert_eq!(tx_byte_of('\u{e9}'), b'?');
    assert_eq!(tx_byte_of('\u{1F600}'), b'?');
}

#[test]
fn only_ascii_characters_may_stop_a_receive_loop() {
    assert!(stopper_ok('x'));
    assert!(stopper_ok('\r'));
    assert!(!stopper_ok('\u{fc}'));
}

#[test]
fn the_receive_loop_accumulates_until_the_stop_byte() {
    let mut buf: Vec<u8> = Vec::new();
    assert!(!collect_step(&mut buf, b'h', b'\r'));
    assert!(!collect_step(&mut buf, b'i', b'\r'));
    assert!(collect_step(&mut buf, b'\r', b'\r'));
    assert_eq!(buf, vec![b'h', b'i']);
}

#[test]
fn interrupt_toggles_land_on_the_pins_channel() {
    let mut m = device();
    assert_eq!(uart_rx_interrupt(&mut m, ('a', 3), true), Ok(()));
    assert!(m.uart_irqs[1].rx);
    assert!(!m.uart_irqs[1].tx);
    // the transmit pin of the same channel toggles the same flags
    assert_eq!(uart_tx_interrupt(&mut m, ('a', 2), true), Ok(()));
    assert!(m.uart_irqs[1].tx);
    assert_eq!(uart_rx_interrupt(&mut m, ('a', 2), false), Ok(()));
    assert!(!m.uart_irqs[1].rx);
    assert!(m.uart_irqs[1].tx);
    assert_eq!(
        uart_rx_interrupt(&mut m, ('c', 7), true),
        Err(ProgError::InvalidConfiguration)
    );
}
