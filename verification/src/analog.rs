//! Analog I/O: channel capability checks, converter (instances 1 to 3) and
//! generator (instance 0) enabling, value clamping and waveform control.
//! Register field encodings are held as named model fields; the bit
//! layouts themselves are the register collaborator's business.

use vstd::prelude::*;
use crate::registry::{CapTable, resolve_seq};
use crate::gpio::{bank_index, check_pin, get_field2, mode_at, spec_pin_exists, GpioMode};
use crate::{GpioError, Mcu, ProgError};

verus! {

/// The wave generation setting of a generator channel.
#[derive(Clone, Copy, Debug, PartialEq, Eq, Structural)]
pub enum WaveKind {
    Off,
    Noise,
    Triangle,
}

/// One output channel of the analog generator.
#[derive(Clone, Copy, Debug, PartialEq, Eq, Structural)]
pub struct DacChannel {
    pub enabled: bool,
    pub wave: WaveKind,
    pub amplitude: u8,
    pub value: u16,
}

/// The analog generator: two output channels.
#[derive(Clone, Copy, Debug, PartialEq, Eq, Structural)]
pub struct DacState {
    pub ch1: DacChannel,
    pub ch2: DacChannel,
}

/// One analog converter core. `resolution` holds the encoded field value
/// (0 = 12 bit, 1 = 10 bit, 2 = 8 bit, 3 = 6 bit); `sample` is the value
/// the converter would hand back, supplied from outside the model.
#[derive(Clone, Copy, Debug, PartialEq, Eq, Structural)]
pub struct AdcState {
    pub on: bool,
    pub resolution: u8,
    pub selected: u8,
    pub sample: u16,
}

/// The free-running timer that paces the wave generator.
#[derive(Clone, Copy, Debug, PartialEq, Eq, Structural)]
pub struct WaveTimer {
    pub enabled: bool,
    pub prescaler: u16,
    pub reload: u32,
}

pub open spec fn dac_channel_reset() -> DacChannel {
    DacChannel { enabled: false, wave: WaveKind::Off, amplitude: 0u8, value: 0u16 }
}

pub open spec fn adc_reset() -> AdcState {
    AdcState { on: false, resolution: 0u8, selected: 0u8, sample: 0u16 }
}

pub open spec fn wave_timer_reset() -> WaveTimer {
    WaveTimer { enabled: false, prescaler: 0u16, reload: 0u32 }
}

/// What the analog family table must promise: unique pins, instances 0 to
/// 3, and on the generator (instance 0) only channels 1 and 2.
pub open spec fn analog_table_wf(t: CapTable) -> bool {
    &&& t.pins_unique()
    &&& forall|k: int|
        0 <= k < t.entries@.len() ==> {
            &&& (#[trigger] t.entries@[k]).pin.1 < 16
            &&& t.entries@[k].instance <= 3
            &&& (t.entries@[k].instance == 0 ==> t.entries@[k].channel == 1
                || t.entries@[k].channel == 2)
        }
}

/// Checks the analog family's registry invariant over a supplied table.
pub fn analog_table_check(t: &CapTable) -> (r: bool)
    ensures
        r == analog_table_wf(*t),
{
    if !crate::registry::pins_unique_check(t) {
        return false;
    }
    let n = t.entries.len();
    let mut i: usize = 0;
    while i < n
        invariant
            n == t.entries@.len(),
            i <= n,
            forall|k: int|
                0 <= k < i ==> {
                    &&& (#[trigger] t.entries@[k]).pin.1 < 16
                    &&& t.entries@[k].instance <= 3
                    &&& (t.entries@[k].instance == 0 ==> t.entries@[k].channel == 1
                        || t.entries@[k].channel == 2)
                },
        decreases n - i,
    {
        let e = t.entries[i];
        if e.pin.1 > 15 || e.instance > 3 || (e.instance == 0 && e.channel != 1 && e.channel != 2) {
            return false;
        }
        i += 1;
    }
    true
}

/// What `check_channel` decides from the table alone.
pub open spec fn spec_check_channel(t: CapTable, pin: (char, u8), adc: bool, dac: bool) -> Result<
    (u8, u8),
    ProgError,
> {
    match resolve_seq(t.entries@, pin) {
        Option::None => Err(ProgError::InvalidConfiguration),
        Option::Some((core, channel)) => {
            if !dac && core == 0 {
                Err(ProgError::InvalidConfiguration)
            } else if !adc && core != 0 {
                Err(ProgError::InvalidConfiguration)
            } else {
                Ok((core, channel))
            }
        },
    }
}

/// Classifying lookup for the analog family: resolves the pin's slot and
/// checks the instance's class (0 is the generator, 1 to 3 are converters)
/// against what the caller allows.
pub fn check_channel(t: &CapTable, pin: (char, u8), adc: bool, dac: bool) -> (r: Result<
    (u8, u8),
    ProgError,
>)
    ensures
        r == spec_check_channel(*t, pin, adc, dac),
{
    match t.resolve(pin) {
        Option::None => Err(ProgError::InvalidConfiguration),
        Option::Some((core, channel)) => {
            if !dac && core == 0 {
                Err(ProgError::InvalidConfiguration)
            } else if !adc && core != 0 {
                Err(ProgError::InvalidConfiguration)
            } else {
                Ok((core, channel))
            }
        },
    }
}

// ===== Analog operations ========================================================================
/// Frame: everything but the analog stores (generator, converters, wave
/// timer) is as before.
pub open spec fn analog_env_same(a: Mcu, b: Mcu) -> bool {
    b == (Mcu { dac: b.dac, adcs: b.adcs, wave_timer: b.wave_timer, ..a })
}

/// A value bound for a 12-bit output: out-of-range magnitudes are clamped
/// and the write proceeds, they are not an error.
pub open spec fn spec_clamp12(v: u16) -> u16 {
    if v > 4095 {
        4095u16
    } else {
        v
    }
}

/// The bound for a 4-bit wave amplitude field, clamped the same way.
pub open spec fn spec_clamp4(v: u8) -> u8 {
    if v > 15 {
        15u8
    } else {
        v
    }
}

/// The wave-pacing divisor for a requested frequency: the timer clock over
/// the request, with requests above the clock falling back to one.
pub open spec fn spec_wave_divisor(freq: u32) -> u32 {
    if freq > 16000000 {
        1u32
    } else {
        (16000000 as int / freq as int) as u32
    }
}

/// What enabling a resolved analog slot does to the peripheral state: a
/// generator channel is switched on and the wave-pacing timer started; a
/// converter core is switched on at its default ten-bit resolution, once.
pub open spec fn enable_channel_effect(a: Mcu, b: Mcu, core: u8, channel: u8) -> bool {
    if core == 0 {
        &&& (channel == 1 ==> b.dac == (DacState {
            ch1: (DacChannel { enabled: true, ..a.dac.ch1 }),
            ..a.dac
        }))
        &&& (channel != 1 ==> b.dac == (DacState {
            ch2: (DacChannel { enabled: true, ..a.dac.ch2 }),
            ..a.dac
        }))
        &&& b.adcs@ == a.adcs@
        &&& b.wave_timer == (if a.wave_timer.enabled {
            a.wave_timer
        } else {
            WaveTimer { enabled: true, prescaler: 1u16, reload: 16000u32 }
        })
    } else {
        &&& b.dac == a.dac
        &&& b.wave_timer == a.wave_timer
        &&& (a.adcs@[core - 1].on ==> b.adcs@ == a.adcs@)
        &&& (!a.adcs@[core - 1].on ==> b.adcs@ == a.adcs@.update(
            core - 1,
            (AdcState { on: true, resolution: 1u8, ..a.adcs@[core - 1] }),
        ))
    }
}

/// Starts the free-running timer that paces the wave generator, at one
/// kilohertz off the sixteen-megahertz clock; a second start is a no-op.
pub fn start_dac_timer(mcu: &mut Mcu)
    ensures
        *final(mcu) == (Mcu { wave_timer: final(mcu).wave_timer, ..*old(mcu) }),
        final(mcu).wave_timer == (if old(mcu).wave_timer.enabled {
            old(mcu).wave_timer
        } else {
            WaveTimer { enabled: true, prescaler: 1u16, reload: 16000u32 }
        }),
{
    if !mcu.wave_timer.enabled {
        mcu.wave_timer.enabled = true;
        mcu.wave_timer.prescaler = 1;
        mcu.wave_timer.reload = 16000;
    }
}

/// Enables the analog path a pin resolves to: generator channel or
/// converter core. Fails, touching nothing, when the pin has no analog
/// capability.
pub fn enable_channel(mcu: &mut Mcu, pin: (char, u8)) -> (r: Result<(), ProgError>)
    requires
        old(mcu).wf(),
    ensures
        final(mcu).wf(),
        analog_env_same(*old(mcu), *final(mcu)),
        spec_check_channel(old(mcu).adc_map, pin, true, true) is Err ==> r == Err::<(), ProgError>(
            ProgError::InvalidConfiguration,
        ) && *final(mcu) == *old(mcu),
        spec_check_channel(old(mcu).adc_map, pin, true, true) matches Ok(cc) ==> r == Ok::<
            (),
            ProgError,
        >(()) && enable_channel_effect(*old(mcu), *final(mcu), cc.0, cc.1),
{
    let (core, channel) = match check_channel(&mcu.adc_map, pin, true, true) {
        Ok(v) => v,
        Err(_) => {
            return Err(ProgError::InvalidConfiguration);
        },
    };
    proof {
        crate::registry::lemma_resolve_in_table(mcu.adc_map.entries@, pin);
    }
    if core == 0 {
        if channel == 1 {
            mcu.dac.ch1.enabled = true;
        } else {
            mcu.dac.ch2.enabled = true;
        }
        start_dac_timer(mcu);
    } else {
        let i = (core - 1) as usize;
        if !mcu.adcs[i].on {
            let a = mcu.adcs[i];
            mcu.adcs.set(i, AdcState { on: true, resolution: 1, ..a });
        }
    }
    Ok(())
}

/// Reprograms a converter's sample resolution; 6, 8, 10 and 12 bits are
/// the widths the hardware offers, anything else is refused untouched.
pub fn adc_resolution(mcu: &mut Mcu, pin: (char, u8), res: u8) -> (r: Result<(), ProgError>)
    requires
        old(mcu).wf(),
    ensures
        final(mcu).wf(),
        (res != 6 && res != 8 && res != 10 && res != 12) ==> r == Err::<(), ProgError>(
            ProgError::InvalidConfiguration,
        ) && *final(mcu) == *old(mcu),
        (res == 6 || res == 8 || res == 10 || res == 12) && spec_check_channel(
            old(mcu).adc_map,
            pin,
            true,
            false,
        ) is Err ==> r == Err::<(), ProgError>(ProgError::InvalidConfiguration) && *final(mcu)
            == *old(mcu),
        (res == 6 || res == 8 || res == 10 || res == 12) ==> (spec_check_channel(
            old(mcu).adc_map,
            pin,
            true,
            false,
        ) matches Ok(cc) ==> {
            let enc = if res == 6 {
                3u8
            } else if res == 8 {
                2u8
            } else if res == 10 {
                1u8
            } else {
                0u8
            };
            &&& r == Ok::<(), ProgError>(())
            &&& *final(mcu) == (Mcu { adcs: final(mcu).adcs, ..*old(mcu) })
            &&& final(mcu).adcs@ == old(mcu).adcs@.update(
                cc.0 - 1,
                (AdcState { resolution: enc, ..old(mcu).adcs@[cc.0 - 1] }),
            )
        }),
{
    let enc: u8 = if res == 6 {
        3
    } else if res == 8 {
        2
    } else if res == 10 {
        1
    } else if res == 12 {
        0
    } else {
        return Err(ProgError::InvalidConfiguration);
    };
    let (core, _channel) = match check_channel(&mcu.adc_map, pin, true, false) {
        Ok(v) => v,
        Err(_) => {
            return Err(ProgError::InvalidConfiguration);
        },
    };
    proof {
        crate::registry::lemma_resolve_in_table(mcu.adc_map.entries@, pin);
    }
    let i = (core - 1) as usize;
    let a = mcu.adcs[i];
    mcu.adcs.set(i, AdcState { resolution: enc, ..a });
    Ok(())
}

/// Selects the pin's converter channel and reads one conversion. The pin
/// must have converter capability, be in Analog mode, and its core must be
/// on; the conversion result itself comes from the converter.
pub fn analog_read(mcu: &mut Mcu, pin: (char, u8)) -> (r: Result<u16, GpioError>)
    requires
        old(mcu).wf(),
    ensures
        final(mcu).wf(),
        spec_check_channel(old(mcu).adc_map, pin, true, false) is Err ==> r == Err::<
            u16,
            GpioError,
        >(GpioError::Prog(ProgError::InvalidConfiguration)) && *final(mcu) == *old(mcu),
        spec_check_channel(old(mcu).adc_map, pin, true, false) matches Ok(cc) ==> {
            if !(spec_pin_exists(pin) && mode_at(*old(mcu), pin) == GpioMode::Analog) {
                r == Err::<u16, GpioError>(GpioError::WrongMode) && *final(mcu) == *old(mcu)
            } else if !old(mcu).adcs@[cc.0 - 1].on {
                r == Err::<u16, GpioError>(GpioError::WrongMode) && *final(mcu) == *old(mcu)
            } else {
                &&& r == Ok::<u16, GpioError>(old(mcu).adcs@[cc.0 - 1].sample)
                &&& *final(mcu) == (Mcu { adcs: final(mcu).adcs, ..*old(mcu) })
                &&& final(mcu).adcs@ == old(mcu).adcs@.update(
                    cc.0 - 1,
                    (AdcState { selected: cc.1, ..old(mcu).adcs@[cc.0 - 1] }),
                )
            }
        },
{
    let (core, channel) = match check_channel(&mcu.adc_map, pin, true, false) {
        Ok(v) => v,
        Err(_) => {
            return Err(GpioError::Prog(ProgError::InvalidConfiguration));
        },
    };
    proof {
        crate::registry::lemma_resolve_in_table(mcu.adc_map.entries@, pin);
    }
    if check_pin(pin).is_err() {
        return Err(GpioError::WrongMode);
    }
    let bi = bank_index(pin.0);
    let code = get_field2(mcu.banks[bi].moder, pin.1);
    proof {
        crate::gpio::lemma_field2_bound(old(mcu).banks@[bi as int].moder, pin.1);
    }
    if code != 3 {
        return Err(GpioError::WrongMode);
    }
    let i = (core - 1) as usize;
    if !mcu.adcs[i].on {
        return Err(GpioError::WrongMode);
    }
    let a = mcu.adcs[i];
    mcu.adcs.set(i, AdcState { selected: channel, ..a });
    Ok(a.sample)
}

/// Hands a magnitude to a generator channel, clamped to the 12-bit range;
/// wave generation on that channel is switched off so the plain value
/// drives the pin. The pin must have generator capability and be Analog.
pub fn analog_write(mcu: &mut Mcu, pin: (char, u8), value: u16) -> (r: Result<(), GpioError>)
    requires
        old(mcu).wf(),
    ensures
        final(mcu).wf(),
        spec_check_channel(old(mcu).adc_map, pin, false, true) is Err ==> r == Err::<
            (),
            GpioError,
        >(GpioError::Prog(ProgError::InvalidConfiguration)) && *final(mcu) == *old(mcu),
        spec_check_channel(old(mcu).adc_map, pin, false, true) matches Ok(cc) ==> {
            if !(spec_pin_exists(pin) && mode_at(*old(mcu), pin) == GpioMode::Analog) {
                r == Err::<(), GpioError>(GpioError::WrongMode) && *final(mcu) == *old(mcu)
            } else {
                &&& r == Ok::<(), GpioError>(())
                &&& *final(mcu) == (Mcu { dac: final(mcu).dac, ..*old(mcu) })
                &&& (cc.1 == 1 ==> final(mcu).dac == (DacState {
                    ch1: (DacChannel {
                        wave: WaveKind::Off,
                        value: spec_clamp12(value),
                        ..old(mcu).dac.ch1
                    }),
                    ..old(mcu).dac
                }))
                &&& (cc.1 != 1 ==> final(mcu).dac == (DacState {
                    ch2: (DacChannel {
                        wave: WaveKind::Off,
                        value: spec_clamp12(value),
                        ..old(mcu).dac.ch2
                    }),
                    ..old(mcu).dac
                }))
            }
        },
{
    let val: u16 = if value > 4095 {
        4095
    } else {
        value
    };
    let (_core, channel) = match check_channel(&mcu.adc_map, pin, false, true) {
        Ok(v) => v,
        Err(_) => {
            return Err(GpioError::Prog(ProgError::InvalidConfiguration));
        },
    };
    if check_pin(pin).is_err() {
        return Err(GpioError::WrongMode);
    }
    let bi = bank_index(pin.0);
    let code = get_field2(mcu.banks[bi].moder, pin.1);
    proof {
        crate::gpio::lemma_field2_bound(old(mcu).banks@[bi as int].moder, pin.1);
    }
    if code != 3 {
        return Err(GpioError::WrongMode);
    }
    if channel == 1 {
        mcu.dac.ch1.wave = WaveKind::Off;
        mcu.dac.ch1.value = val;
    } else {
        mcu.dac.ch2.wave = WaveKind::Off;
        mcu.dac.ch2.value = val;
    }
    Ok(())
}

/// Switches a generator channel to noise generation at the given amplitude
/// level, clamped to the 4-bit range.
pub fn analog_write_noise(mcu: &mut Mcu, pin: (char, u8), level: u8) -> (r: Result<(), GpioError>)
    requires
        old(mcu).wf(),
    ensures
        final(mcu).wf(),
        spec_check_channel(old(mcu).adc_map, pin, false, true) is Err ==> r == Err::<
            (),
            GpioError,
        >(GpioError::Prog(ProgError::InvalidConfiguration)) && *final(mcu) == *old(mcu),
        spec_check_channel(old(mcu).adc_map, pin, false, true) matches Ok(cc) ==> {
            if !(spec_pin_exists(pin) && mode_at(*old(mcu), pin) == GpioMode::Analog) {
                r == Err::<(), GpioError>(GpioError::WrongMode) && *final(mcu) == *old(mcu)
            } else {
                &&& r == Ok::<(), GpioError>(())
                &&& *final(mcu) == (Mcu { dac: final(mcu).dac, ..*old(mcu) })
                &&& (cc.1 == 1 ==> final(mcu).dac == (DacState {
                    ch1: (DacChannel {
                        wave: WaveKind::Noise,
                        amplitude: spec_clamp4(level),
                        ..old(mcu).dac.ch1
                    }),
                    ..old(mcu).dac
                }))
                &&& (cc.1 != 1 ==> final(mcu).dac == (DacState {
                    ch2: (DacChannel {
                        wave: WaveKind::Noise,
                        amplitude: spec_clamp4(level),
                        ..old(mcu).dac.ch2
                    }),
                    ..old(mcu).dac
                }))
            }
        },
{
    let lvl: u8 = if level > 15 {
        15
    } else {
        level
    };
    let (_core, channel) = match check_channel(&mcu.adc_map, pin, false, true) {
        Ok(v) => v,
        Err(_) => {
            return Err(GpioError::Prog(ProgError::InvalidConfiguration));
        },
    };
    if check_pin(pin).is_err() {
        return Err(GpioError::WrongMode);
    }
    let bi = bank_index(pin.0);
    let code = get_field2(mcu.banks[bi].moder, pin.1);
    proof {
        crate::gpio::lemma_field2_bound(old(mcu).banks@[bi as int].moder, pin.1);
    }
    if code != 3 {
        return Err(GpioError::WrongMode);
    }
    if channel == 1 {
        mcu.dac.ch1.wave = WaveKind::Noise;
        mcu.dac.ch1.amplitude = lvl;
    } else {
        mcu.dac.ch2.wave = WaveKind::Noise;
        mcu.dac.ch2.amplitude = lvl;
    }
    Ok(())
}

/// Switches a generator channel to triangle generation at the given
/// amplitude level, clamped to the 4-bit range.
pub fn analog_write_triangle(mcu: &mut Mcu, pin: (char, u8), level: u8) -> (r: Result<
    (),
    GpioError,
>)
    requires
        old(mcu).wf(),
    ensures
        final(mcu).wf(),
        spec_check_channel(old(mcu).adc_map, pin, false, true) is Err ==> r == Err::<
            (),
            GpioError,
        >(GpioError::Prog(ProgError::InvalidConfiguration)) && *final(mcu) == *old(mcu),
        spec_check_channel(old(mcu).adc_map, pin, false, true) matches Ok(cc) ==> {
            if !(spec_pin_exists(pin) && mode_at(*old(mcu), pin) == GpioMode::Analog) {
                r == Err::<(), GpioError>(GpioError::WrongMode) && *final(mcu) == *old(mcu)
            } else {
                &&& r == Ok::<(), GpioError>(())
                &&& *final(mcu) == (Mcu { dac: final(mcu).dac, ..*old(mcu) })
                &&& (cc.1 == 1 ==> final(mcu).dac == (DacState {
                    ch1: (DacChannel {
                        wave: WaveKind::Triangle,
                        amplitude: spec_clamp4(level),
                        ..old(mcu).dac.ch1
                    }),
                    ..old(mcu).dac
                }))
                &&& (cc.1 != 1 ==> final(mcu).dac == (DacState {
                    ch2: (DacChannel {
                        wave: WaveKind::Triangle,
                        amplitude: spec_clamp4(level),
                        ..old(mcu).dac.ch2
                    }),
                    ..old(mcu).dac
                }))
            }
        },
{
    let lvl: u8 = if level > 15 {
        15
    } else {
        level
    };
    let (_core, channel) = match check_channel(&mcu.adc_map, pin, false, true) {
        Ok(v) => v,
        Err(_) => {
            return Err(GpioError::Prog(ProgError::InvalidConfiguration));
        },
    };
    if check_pin(pin).is_err() {
        return Err(GpioError::WrongMode);
    }
    let bi = bank_index(pin.0);
    let code = get_field2(mcu.banks[bi].moder, pin.1);
    proof {
        crate::gpio::lemma_field2_bound(old(mcu).banks@[bi as int].moder, pin.1);
    }
    if code != 3 {
        return Err(GpioError::WrongMode);
    }
    if channel == 1 {
        mcu.dac.ch1.wave = WaveKind::Triangle;
        mcu.dac.ch1.amplitude = lvl;
    } else {
        mcu.dac.ch2.wave = WaveKind::Triangle;
        mcu.dac.ch2.amplitude = lvl;
    }
    Ok(())
}

/// Repaces the wave generator: the timer reload becomes the clock over the
/// request; a request above the sixteen-megahertz clock falls back to a
/// divisor of one. A clamp-and-continue path, never an error.
pub fn analog_wave_freq(mcu: &mut Mcu, freq: u32)
    requires
        freq > 0,
    ensures
        *final(mcu) == (Mcu { wave_timer: final(mcu).wave_timer, ..*old(mcu) }),
        final(mcu).wave_timer == (WaveTimer {
            reload: spec_wave_divisor(freq),
            ..old(mcu).wave_timer
        }),
{
    let val: u32 = if freq > 16000000 {
        1
    } else {
        16000000 / freq
    };
    mcu.wave_timer.reload = val;
}

} // verus!
