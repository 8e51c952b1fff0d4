use mcu_hal::analog::{adc_resolution, analog_read, analog_wave_freq, analog_write,
    analog_write_noise, analog_write_triangle, check_channel, WaveKind};
use mcu_hal::gpio::{pin_mode, GpioMode};
use mcu_hal::registry::CapTable;
use mcu_hal::uart::UartTable;
use mcu_hal::{GpioError, Mcu, ProgError};

fn device() -> Mcu {
    let mut adc = CapTable::empty();
    adc.add(('a', 0), 1, 0).unwrap();
    adc.add(('a', 1), 1, 1).unwrap();
    adc.add(('a', 4), 0, 1).unwrap();
    adc.add(('a', 5), 0, 2).unwrap();
    adc.add(('c', 0), 2, 10).unwrap();
    let tim = CapTable::empty();
    let ua = UartTable::empty();
    Mcu::new(adc, tim, ua).unwrap()
}

#[test]
fn writing_5000_to_a_12_bit_output_clamps_to_4095() {
    let mut m = device();
    assert_eq!(pin_mode(&mut m, ('a', 4), GpioMode::Analog), Ok(()));
    assert_eq!(analog_write(&mut m, ('a', 4), 5000), Ok(()));
    assert_eq!(m.dac.ch1.value, 4095);
}

#[test]
fn writing_4095_and_0_pass_through_unchanged() {
    let mut m = device();
    assert_eq!(pin_mode(&mut m, ('a', 4), GpioMode::Analog), Ok(()));
    assert_eq!(analog_write(&mut m, ('a', 4), 4095), Ok(()));
    assert_eq!(m.dac.ch1.value, 4095);
    assert_eq!(analog_write(&mut m, ('a', 4), 0), Ok(()));
    assert_eq!(m.dac.ch1.value, 0);
}

#[test]
fn wave_frequency_divisors_follow_the_clock() {
    let mut m = device();
    analog_wave_freq(&mut m, 16_000_000);
    assert_eq!(m.wave_timer.reload, 1);
    analog_wave_freq(&mut m, 16_000);
    assert_eq!(m.wave_timer.reload, 1000);
    analog_wave_freq(&mut m, 16_000_001);
    assert_eq!(m.wave_timer.reload, 1);
    analog_wave_freq(&mut m, 1);
    assert_eq!(m.wave_timer.reload, 16_000_000);
}

#[test]
fn enabling_an_analog_pin_switches_its_peripheral_on() {
    let mut m = device();
    assert!(!m.dac.ch1.enabled);
    assert_eq!(pin_mode(&mut m, ('a', 4), GpioMode::Analog), Ok(()));
    assert!(m.dac.ch1.enabled);
    assert!(!m.dac.ch2.enabled);
    // the wave-pacing timer came up with the generator
    assert!(m.wave_timer.enabled);
    assert_eq!(m.wave_timer.prescaler, 1);
    assert_eq!(m.wave_timer.reload, 16000);
    assert!(!m.adcs[0].on);
    assert_eq!(pin_mode(&mut m, ('a', 0), GpioMode::Analog), Ok(()));
    assert!(m.adcs[0].on);
    assert_eq!(m.adcs[0].resolution, 1);
}

#[test]
fn analog_read_returns_the_converters_sample() {
    let mut m = device();
    assert_eq!(pin_mode(&mut m, ('a', 0), GpioMode::Analog), Ok(()));
    m.adcs[0].sample = 777;
    assert_eq!(analog_read(&mut m, ('a', 0)), Ok(777));
    assert_eq!(m.adcs[0].selected, 0);
    m.adcs[0].sample = 13;
    assert_eq!(analog_read(&mut m, ('a', 0)), Ok(13));
}

#[test]
fn analog_read_rejects_a_generator_pin() {
    let mut m = device();
    assert_eq!(pin_mode(&mut m, ('a', 4), GpioMode::Analog), Ok(()));
    assert_eq!(
        analog_read(&mut m, ('a', 4)),
        Err(GpioError::Prog(ProgError::InvalidConfiguration))
    );
}

#[test]
fn analog_write_rejects_a_converter_pin() {
    let mut m = device();
    assert_eq!(pin_mode(&mut m, ('a', 0), GpioMode::Analog), Ok(()));
    assert_eq!(
        analog_write(&mut m, ('a', 0), 100),
        Err(GpioError::Prog(ProgError::InvalidConfiguration))
    );
}

#[test]
fn analog_operations_demand_analog_mode() {
    let mut m = device();
    // a1 has converter capability but was never configured: its live mode
    // is Input, and both directions refuse to touch it
    assert_eq!(analog_read(&mut m, ('a', 1)), Err(GpioError::WrongMode));
    assert_eq!(analog_write(&mut m, ('a', 4), 1), Err(GpioError::WrongMode));
}

#[test]
fn analog_mode_on_a_pin_without_analog_capability_fails_forward() {
    let mut m = device();
    // b5 exists as a pin but has no analog wiring: the request fails after
    // the ledger entry and the mode write, which stay (fail-forward)
    assert_eq!(
        pin_mode(&mut m, ('b', 5), GpioMode::Analog),
        Err(ProgError::InvalidConfiguration)
    );
    assert!(m.pin_ledger.contains(('b', 5)));
    assert_eq!(
        pin_mode(&mut m, ('b', 5), GpioMode::Output),
        Err(ProgError::AlreadyConfigured)
    );
}

#[test]
fn resolution_reprogramming_validates_its_width() {
    let mut m = device();
    assert_eq!(pin_mode(&mut m, ('a', 0), GpioMode::Analog), Ok(()));
    assert_eq!(adc_resolution(&mut m, ('a', 0), 7), Err(ProgError::InvalidConfiguration));
    assert_eq!(adc_resolution(&mut m, ('a', 0), 8), Ok(()));
    assert_eq!(m.adcs[0].resolution, 2);
    assert_eq!(adc_resolution(&mut m, ('a', 0), 12), Ok(()));
    assert_eq!(m.adcs[0].resolution, 0);
    assert_eq!(adc_resolution(&mut m, ('a', 0), 6), Ok(()));
    assert_eq!(m.adcs[0].resolution, 3);
    assert_eq!(adc_resolution(&mut m, ('a', 0), 10), Ok(()));
    assert_eq!(m.adcs[0].resolution, 1);
    // a generator pin has no resolution to program
    assert_eq!(adc_resolution(&mut m, ('a', 4), 8), Err(ProgError::InvalidConfiguration));
}

#[test]
fn noise_and_triangle_levels_clamp_to_four_bits() {
    let mut m = device();
    assert_eq!(pin_mode(&mut m, ('a', 5), GpioMode::Analog), Ok(()));
    assert_eq!(analog_write_noise(&mut m, ('a', 5), 20), Ok(()));
    assert_eq!(m.dac.ch2.wave, WaveKind::Noise);
    assert_eq!(m.dac.ch2.amplitude, 15);
    assert_eq!(analog_write_triangle(&mut m, ('a', 5), 3), Ok(()));
    assert_eq!(m.dac.ch2.wave, WaveKind::Triangle);
    assert_eq!(m.dac.ch2.amplitude, 3);
    // a plain value write switches the wave off again
    assert_eq!(analog_write(&mut m, ('a', 5), 9), Ok(()));
    assert_eq!(m.dac.ch2.wave, WaveKind::Off);
    assert_eq!(m.dac.ch2.value, 9);
}

#[test]
fn check_channel_classifies_generator_and_converter() {
    let m = device();
    assert_eq!(check_channel(&m.adc_map, ('a', 0), true, true), Ok((1, 0)));
    assert_eq!(check_channel(&m.adc_map, ('a', 4), true, true), Ok((0, 1)));
    assert_eq!(
        check_channel(&m.adc_map, ('a', 4), true, false),
        Err(ProgError::InvalidConfiguration)
    );
    assert_eq!(
        check_channel(&m.adc_map, ('a', 0), false, true),
        Err(ProgError::InvalidConfiguration)
    );
    assert_eq!(
        check_channel(&m.adc_map, ('b', 9), true, true),
        Err(ProgError::InvalidConfiguration)
    );
}
