//! Pin mode authority: everything related to digital I/O. A pin's mode is
//! never shadowed in software — it is decoded from the mode field of the
//! bank's control register word every time it is queried.

use vstd::prelude::*;
use crate::analog::{enable_channel, enable_channel_effect, spec_check_channel};
use crate::time::{pwm_configure, selector_for_timer, slot_index};
use crate::{GpioError, Mcu, ProgError};

verus! {

/// The electrical modes a pin can take. Pwm is a configuration request
/// only: the hardware holds it as AlternateFunction with the selector of
/// the resolved timer, which is what a later query reports.
#[derive(Clone, Copy, Debug, PartialEq, Eq, Structural)]
pub enum GpioMode {
    Input,
    Output,
    AlternateFunction(u32),
    Analog,
    Pwm,
}

/// Slew-rate options for a pin's driver stage.
#[derive(Clone, Copy, Debug, PartialEq, Eq, Structural)]
pub enum GpioSpeed {
    Low,
    Medium,
    Fast,
    High,
}

/// Pullup-/pulldown-resistor options.
#[derive(Clone, Copy, Debug, PartialEq, Eq, Structural)]
pub enum GpioBias {
    Floating,
    Pullup,
    Pulldown,
}

/// The register words of one I/O bank, in their hardware reset state when
/// all zero (every pin an input). Two bits per pin in `moder`, `ospeedr`
/// and `pupdr`; four bits per pin in `afrl`/`afrh`; one bit per pin in
/// `otyper`, `idr` and `odr`.
#[derive(Clone, Copy, Debug, PartialEq, Eq, Structural)]
pub struct BankRegs {
    pub moder: u32,
    pub afrl: u32,
    pub afrh: u32,
    pub otyper: u32,
    pub ospeedr: u32,
    pub pupdr: u32,
    pub idr: u32,
    pub odr: u32,
}

/// A bank as the hardware resets it: every word zero.
pub open spec fn bank_reset() -> BankRegs {
    BankRegs {
        moder: 0u32,
        afrl: 0u32,
        afrh: 0u32,
        otyper: 0u32,
        ospeedr: 0u32,
        pupdr: 0u32,
        idr: 0u32,
        odr: 0u32,
    }
}

impl BankRegs {
    /// The reset state of a bank.
    pub fn zeroed() -> (b: BankRegs)
        ensures
            b == bank_reset(),
    {
        BankRegs { moder: 0, afrl: 0, afrh: 0, otyper: 0, ospeedr: 0, pupdr: 0, idr: 0, odr: 0 }
    }
}

/// The position of a bank's register block in the device model, by bank
/// letter; 7 for a letter no bank answers to.
pub open spec fn spec_bank_index(block: char) -> int {
    if block == 'a' {
        0
    } else if block == 'b' {
        1
    } else if block == 'c' {
        2
    } else if block == 'd' {
        3
    } else if block == 'e' {
        4
    } else if block == 'f' {
        5
    } else if block == 'h' {
        6
    } else {
        7
    }
}

pub fn bank_index(block: char) -> (r: usize)
    ensures
        r as int == spec_bank_index(block),
{
    if block == 'a' {
        0
    } else if block == 'b' {
        1
    } else if block == 'c' {
        2
    } else if block == 'd' {
        3
    } else if block == 'e' {
        4
    } else if block == 'f' {
        5
    } else if block == 'h' {
        6
    } else {
        7
    }
}

/// Which (bank, index) pairs are physically present for general-purpose
/// I/O on this chip variant: banks a, b and c in full, pin 2 of bank d,
/// pins 0 and 1 of bank h.
pub open spec fn spec_pin_exists(pin: (char, u8)) -> bool {
    ||| (pin.1 < 16 && (pin.0 == 'a' || pin.0 == 'b' || pin.0 == 'c'))
    ||| (pin.0 == 'd' && pin.1 == 2)
    ||| (pin.0 == 'h' && (pin.1 == 0 || pin.1 == 1))
}

/// Validates that a pin exists; every I/O entry point consults this first.
pub fn check_pin(pin: (char, u8)) -> (r: Result<(), crate::ProgError>)
    ensures
        r is Ok <==> spec_pin_exists(pin),
        r is Err ==> r == Err::<(), crate::ProgError>(crate::ProgError::InvalidConfiguration),
{
    if pin.1 < 16 && (pin.0 == 'a' || pin.0 == 'b' || pin.0 == 'c') {
        Ok(())
    } else if pin.0 == 'd' && pin.1 == 2 {
        Ok(())
    } else if pin.0 == 'h' && (pin.1 == 0 || pin.1 == 1) {
        Ok(())
    } else {
        Err(crate::ProgError::InvalidConfiguration)
    }
}

// ===== Packed register fields ===================================================================
/// The 2-bit field for pin `p` of a packed register word.
pub open spec fn field2(w: u32, p: u8) -> u32 {
    (w >> ((2 * p) as u32)) & 3
}

/// The word with the 2-bit field for pin `p` replaced by `v`.
pub open spec fn with_field2(w: u32, p: u8, v: u32) -> u32 {
    (w & !(3u32 << ((2 * p) as u32))) | (v << ((2 * p) as u32))
}

/// The 4-bit field for position `q` of a packed register word.
pub open spec fn field4(w: u32, q: u8) -> u32 {
    (w >> ((4 * q) as u32)) & 15
}

/// The word with the 4-bit field for position `q` replaced by `v`.
pub open spec fn with_field4(w: u32, q: u8, v: u32) -> u32 {
    (w & !(15u32 << ((4 * q) as u32))) | (v << ((4 * q) as u32))
}

/// The single bit for pin `p` of a register word.
pub open spec fn bit_at(w: u32, p: u8) -> bool {
    w & (1u32 << (p as u32)) != 0
}

/// The word with the bit for pin `p` set or cleared.
pub open spec fn with_bit(w: u32, p: u8, b: bool) -> u32 {
    if b {
        w | (1u32 << (p as u32))
    } else {
        w & !(1u32 << (p as u32))
    }
}

pub proof fn lemma_field2_set(w: u32, p: u8, v: u32)
    by (bit_vector)
    requires
        p < 16,
        v < 4,
    ensures
        field2(with_field2(w, p, v), p) == v,
{
}

pub proof fn lemma_field2_frame(w: u32, p: u8, q: u8, v: u32)
    by (bit_vector)
    requires
        p < 16,
        q < 16,
        p != q,
        v < 4,
    ensures
        field2(with_field2(w, p, v), q) == field2(w, q),
{
}

pub proof fn lemma_field2_bound(w: u32, p: u8)
    by (bit_vector)
    ensures
        field2(w, p) < 4,
{
}

pub proof fn lemma_field4_set(w: u32, q: u8, v: u32)
    by (bit_vector)
    requires
        q < 8,
        v < 16,
    ensures
        field4(with_field4(w, q, v), q) == v,
{
}

pub proof fn lemma_field4_frame(w: u32, q: u8, q2: u8, v: u32)
    by (bit_vector)
    requires
        q < 8,
        q2 < 8,
        q != q2,
        v < 16,
    ensures
        field4(with_field4(w, q, v), q2) == field4(w, q2),
{
}

pub proof fn lemma_bit_set(w: u32, p: u8, b: bool)
    by (bit_vector)
    requires
        p < 16,
    ensures
        bit_at(with_bit(w, p, b), p) == b,
{
}

pub proof fn lemma_bit_frame(w: u32, p: u8, q: u8, b: bool)
    by (bit_vector)
    requires
        p < 16,
        q < 16,
        p != q,
    ensures
        bit_at(with_bit(w, p, b), q) == bit_at(w, q),
{
}

/// Computes `with_field2` on a live register word.
pub fn set_field2(w: u32, p: u8, v: u32) -> (r: u32)
    requires
        p < 16,
        v < 4,
    ensures
        r == with_field2(w, p, v),
        field2(r, p) == v,
        forall|q: u8| q < 16 && q != p ==> field2(r, q) == field2(w, q),
{
    let sh: u32 = 2 * (p as u32);
    let r = (w & !(3u32 << sh)) | (v << sh);
    proof {
        lemma_field2_set(w, p, v);
        assert forall|q: u8| q < 16 && q != p implies field2(r, q) == field2(w, q) by {
            lemma_field2_frame(w, p, q, v);
        }
    }
    r
}

/// Computes `with_field4` on a live register word.
pub fn set_field4(w: u32, q: u8, v: u32) -> (r: u32)
    requires
        q < 8,
        v < 16,
    ensures
        r == with_field4(w, q, v),
        field4(r, q) == v,
        forall|q2: u8| q2 < 8 && q2 != q ==> field4(r, q2) == field4(w, q2),
{
    let sh: u32 = 4 * (q as u32);
    let r = (w & !(15u32 << sh)) | (v << sh);
    proof {
        lemma_field4_set(w, q, v);
        assert forall|q2: u8| q2 < 8 && q2 != q implies field4(r, q2) == field4(w, q2) by {
            lemma_field4_frame(w, q, q2, v);
        }
    }
    r
}

/// Computes `with_bit` on a live register word.
pub fn set_bit(w: u32, p: u8, b: bool) -> (r: u32)
    requires
        p < 16,
    ensures
        r == with_bit(w, p, b),
        bit_at(r, p) == b,
        forall|q: u8| q < 16 && q != p ==> bit_at(r, q) == bit_at(w, q),
{
    let r = if b {
        w | (1u32 << (p as u32))
    } else {
        w & !(1u32 << (p as u32))
    };
    proof {
        lemma_bit_set(w, p, b);
        assert forall|q: u8| q < 16 && q != p implies bit_at(r, q) == bit_at(w, q) by {
            lemma_bit_frame(w, p, q, b);
        }
    }
    r
}

/// Reads the 2-bit field for pin `p`.
pub fn get_field2(w: u32, p: u8) -> (r: u32)
    requires
        p < 16,
    ensures
        r == field2(w, p),
{
    (w >> (2 * (p as u32))) & 3
}

/// Reads the 4-bit field at position `q`.
pub fn get_field4(w: u32, q: u8) -> (r: u32)
    requires
        q < 8,
    ensures
        r == field4(w, q),
{
    (w >> (4 * (q as u32))) & 15
}

/// Reads the bit for pin `p`.
pub fn get_bit(w: u32, p: u8) -> (r: bool)
    requires
        p < 16,
    ensures
        r == bit_at(w, p),
{
    w & (1u32 << (p as u32)) != 0
}

// ===== The live mode of a pin ===================================================================
/// The 2-bit mode selector of a pin, decoded from its bank's mode word.
pub open spec fn mode_code_at(m: Mcu, pin: (char, u8)) -> u32 {
    field2(m.banks@[spec_bank_index(pin.0)].moder, pin.1)
}

/// The 4-bit function selector of a pin, decoded from its bank's function
/// words (low word for pins 0 to 7, high word for 8 to 15).
pub open spec fn af_code_at(m: Mcu, pin: (char, u8)) -> u32 {
    if pin.1 < 8 {
        field4(m.banks@[spec_bank_index(pin.0)].afrl, pin.1)
    } else {
        field4(m.banks@[spec_bank_index(pin.0)].afrh, (pin.1 - 8) as u8)
    }
}

/// The live electrical mode of a pin, decoded from register state on every
/// query; never a shadow copy. An untouched pin decodes as Input, the
/// hardware reset default.
pub open spec fn mode_at(m: Mcu, pin: (char, u8)) -> GpioMode {
    let c = mode_code_at(m, pin);
    if c == 0 {
        GpioMode::Input
    } else if c == 1 {
        GpioMode::Output
    } else if c == 2 {
        GpioMode::AlternateFunction(af_code_at(m, pin))
    } else {
        GpioMode::Analog
    }
}

// ===== Frame predicates =========================================================================
/// Every part of the device other than the I/O banks is as before.
pub open spec fn gpio_env_same(a: Mcu, b: Mcu) -> bool {
    b == (Mcu { banks: b.banks, ..a })
}

/// Every bank other than `bi` is as before.
pub open spec fn only_bank_changed(a: Mcu, b: Mcu, bi: int) -> bool {
    &&& b.banks@.len() == a.banks@.len()
    &&& forall|k: int| 0 <= k < a.banks@.len() && k != bi ==> b.banks@[k] == a.banks@[k]
}

/// In pin `pin`'s bank exactly the mode field of that pin changed, to `v`;
/// every other bank, register and field is as before.
pub open spec fn only_mode_set(a: Mcu, b: Mcu, pin: (char, u8), v: u32) -> bool {
    let bi = spec_bank_index(pin.0);
    &&& only_bank_changed(a, b, bi)
    &&& b.banks@[bi] == (BankRegs { moder: with_field2(a.banks@[bi].moder, pin.1, v), ..a.banks@[bi] })
}

/// In pin `pin`'s bank exactly the mode field (to `v`) and the function
/// field (to `af`) of that pin changed; everything else is as before.
pub open spec fn only_mode_af_set(a: Mcu, b: Mcu, pin: (char, u8), v: u32, af: u32) -> bool {
    let bi = spec_bank_index(pin.0);
    &&& only_bank_changed(a, b, bi)
    &&& (pin.1 < 8 ==> b.banks@[bi] == (BankRegs {
        moder: with_field2(a.banks@[bi].moder, pin.1, v),
        afrl: with_field4(a.banks@[bi].afrl, pin.1, af),
        ..a.banks@[bi]
    }))
    &&& (pin.1 >= 8 ==> b.banks@[bi] == (BankRegs {
        moder: with_field2(a.banks@[bi].moder, pin.1, v),
        afrh: with_field4(a.banks@[bi].afrh, (pin.1 - 8) as u8, af),
        ..a.banks@[bi]
    }))
}

// ===== Pin operations ===========================================================================
/// Replaces pin `pin`'s bank with `nb` in the device model.
pub(crate) fn store_bank(mcu: &mut Mcu, bi: usize, nb: BankRegs)
    requires
        bi < old(mcu).banks@.len(),
    ensures
        gpio_env_same(*old(mcu), *final(mcu)),
        only_bank_changed(*old(mcu), *final(mcu), bi as int),
        final(mcu).banks@[bi as int] == nb,
{
    mcu.banks.set(bi, nb);
}

/// Drives a pin that is in Output mode high or low; any other live mode is
/// refused, with no register touched at all.
pub fn digital_write(mcu: &mut Mcu, pin: (char, u8), value: bool) -> (r: Result<(), GpioError>)
    requires
        old(mcu).wf(),
    ensures
        final(mcu).wf(),
        !spec_pin_exists(pin) ==> r == Err::<(), GpioError>(
            GpioError::Prog(ProgError::InvalidConfiguration),
        ) && *final(mcu) == *old(mcu),
        spec_pin_exists(pin) && mode_code_at(*old(mcu), pin) != 1 ==> r == Err::<(), GpioError>(
            GpioError::WrongMode,
        ) && *final(mcu) == *old(mcu),
        spec_pin_exists(pin) && mode_code_at(*old(mcu), pin) == 1 ==> {
            let bi = spec_bank_index(pin.0);
            &&& r == Ok::<(), GpioError>(())
            &&& gpio_env_same(*old(mcu), *final(mcu))
            &&& only_bank_changed(*old(mcu), *final(mcu), bi)
            &&& final(mcu).banks@[bi] == (BankRegs {
                odr: with_bit(old(mcu).banks@[bi].odr, pin.1, value),
                ..old(mcu).banks@[bi]
            })
            &&& bit_at(final(mcu).banks@[bi].odr, pin.1) == value
        },
{
    if check_pin(pin).is_err() {
        return Err(GpioError::Prog(ProgError::InvalidConfiguration));
    }
    let bi = bank_index(pin.0);
    let b = mcu.banks[bi];
    if get_field2(b.moder, pin.1) != 1 {
        return Err(GpioError::WrongMode);
    }
    let nb = BankRegs { odr: set_bit(b.odr, pin.1, value), ..b };
    store_bank(mcu, bi, nb);
    Ok(())
}

/// Reads a pin's level: the input register in Input mode, the output latch
/// in Output mode; any other live mode is refused. Touches nothing.
pub fn digital_read(mcu: &Mcu, pin: (char, u8)) -> (r: Result<bool, GpioError>)
    requires
        mcu.wf(),
    ensures
        !spec_pin_exists(pin) ==> r == Err::<bool, GpioError>(
            GpioError::Prog(ProgError::InvalidConfiguration),
        ),
        spec_pin_exists(pin) && mode_code_at(*mcu, pin) == 0 ==> r == Ok::<bool, GpioError>(
            bit_at(mcu.banks@[spec_bank_index(pin.0)].idr, pin.1),
        ),
        spec_pin_exists(pin) && mode_code_at(*mcu, pin) == 1 ==> r == Ok::<bool, GpioError>(
            bit_at(mcu.banks@[spec_bank_index(pin.0)].odr, pin.1),
        ),
        spec_pin_exists(pin) && mode_code_at(*mcu, pin) != 0 && mode_code_at(*mcu, pin) != 1 ==> r
            == Err::<bool, GpioError>(GpioError::WrongMode),
{
    if check_pin(pin).is_err() {
        return Err(GpioError::Prog(ProgError::InvalidConfiguration));
    }
    let bi = bank_index(pin.0);
    let b = mcu.banks[bi];
    let code = get_field2(b.moder, pin.1);
    if code == 0 {
        Ok(get_bit(b.idr, pin.1))
    } else if code == 1 {
        Ok(get_bit(b.odr, pin.1))
    } else {
        Err(GpioError::WrongMode)
    }
}

/// Sets a pin's pull resistor field. Gated only by pin existence,
/// independent of the pin's mode.
pub fn set_bias(mcu: &mut Mcu, pin: (char, u8), bias: GpioBias) -> (r: Result<(), GpioError>)
    requires
        old(mcu).wf(),
    ensures
        final(mcu).wf(),
        !spec_pin_exists(pin) ==> r == Err::<(), GpioError>(
            GpioError::Prog(ProgError::InvalidConfiguration),
        ) && *final(mcu) == *old(mcu),
        spec_pin_exists(pin) ==> {
            let bi = spec_bank_index(pin.0);
            let v = match bias {
                GpioBias::Floating => 0u32,
                GpioBias::Pullup => 1u32,
                GpioBias::Pulldown => 2u32,
            };
            &&& r == Ok::<(), GpioError>(())
            &&& gpio_env_same(*old(mcu), *final(mcu))
            &&& only_bank_changed(*old(mcu), *final(mcu), bi)
            &&& final(mcu).banks@[bi] == (BankRegs {
                pupdr: with_field2(old(mcu).banks@[bi].pupdr, pin.1, v),
                ..old(mcu).banks@[bi]
            })
        },
{
    if check_pin(pin).is_err() {
        return Err(GpioError::Prog(ProgError::InvalidConfiguration));
    }
    let bi = bank_index(pin.0);
    let b = mcu.banks[bi];
    let v: u32 = match bias {
        GpioBias::Floating => 0,
        GpioBias::Pullup => 1,
        GpioBias::Pulldown => 2,
    };
    let nb = BankRegs { pupdr: set_field2(b.pupdr, pin.1, v), ..b };
    store_bank(mcu, bi, nb);
    Ok(())
}

/// Sets a pin's slew-rate field. Gated only by pin existence.
pub fn set_speed(mcu: &mut Mcu, pin: (char, u8), speed: GpioSpeed) -> (r: Result<(), GpioError>)
    requires
        old(mcu).wf(),
    ensures
        final(mcu).wf(),
        !spec_pin_exists(pin) ==> r == Err::<(), GpioError>(
            GpioError::Prog(ProgError::InvalidConfiguration),
        ) && *final(mcu) == *old(mcu),
        spec_pin_exists(pin) ==> {
            let bi = spec_bank_index(pin.0);
            let v = match speed {
                GpioSpeed::Low => 0u32,
                GpioSpeed::Medium => 1u32,
                GpioSpeed::Fast => 2u32,
                GpioSpeed::High => 3u32,
            };
            &&& r == Ok::<(), GpioError>(())
            &&& gpio_env_same(*old(mcu), *final(mcu))
            &&& only_bank_changed(*old(mcu), *final(mcu), bi)
            &&& final(mcu).banks@[bi] == (BankRegs {
                ospeedr: with_field2(old(mcu).banks@[bi].ospeedr, pin.1, v),
                ..old(mcu).banks@[bi]
            })
        },
{
    if check_pin(pin).is_err() {
        return Err(GpioError::Prog(ProgError::InvalidConfiguration));
    }
    let bi = bank_index(pin.0);
    let b = mcu.banks[bi];
    let v: u32 = match speed {
        GpioSpeed::Low => 0,
        GpioSpeed::Medium => 1,
        GpioSpeed::Fast => 2,
        GpioSpeed::High => 3,
    };
    let nb = BankRegs { ospeedr: set_field2(b.ospeedr, pin.1, v), ..b };
    store_bank(mcu, bi, nb);
    Ok(())
}

/// Switches a pin's driver between open-drain (`true`) and push-pull
/// (`false`). Gated only by pin existence.
pub fn open_drain(mcu: &mut Mcu, pin: (char, u8), op: bool) -> (r: Result<(), GpioError>)
    requires
        old(mcu).wf(),
    ensures
        final(mcu).wf(),
        !spec_pin_exists(pin) ==> r == Err::<(), GpioError>(
            GpioError::Prog(ProgError::InvalidConfiguration),
        ) && *final(mcu) == *old(mcu),
        spec_pin_exists(pin) ==> {
            let bi = spec_bank_index(pin.0);
            &&& r == Ok::<(), GpioError>(())
            &&& gpio_env_same(*old(mcu), *final(mcu))
            &&& only_bank_changed(*old(mcu), *final(mcu), bi)
            &&& final(mcu).banks@[bi] == (BankRegs {
                otyper: with_bit(old(mcu).banks@[bi].otyper, pin.1, op),
                ..old(mcu).banks@[bi]
            })
        },
{
    if check_pin(pin).is_err() {
        return Err(GpioError::Prog(ProgError::InvalidConfiguration));
    }
    let bi = bank_index(pin.0);
    let b = mcu.banks[bi];
    let nb = BankRegs { otyper: set_bit(b.otyper, pin.1, op), ..b };
    store_bank(mcu, bi, nb);
    Ok(())
}

/// Whether a requested mode carries an alternate-function selector outside
/// the 4-bit range the hardware has.
pub open spec fn af_out_of_range(mode: GpioMode) -> bool {
    match mode {
        GpioMode::AlternateFunction(af) => af > 15,
        _ => false,
    }
}

/// The live mode a successful configuration leaves behind: each mode reads
/// back as itself, and PWM reads back as the alternate function of the
/// resolved timer's group.
pub open spec fn spec_configured_mode(a: Mcu, pin: (char, u8), mode: GpioMode) -> GpioMode {
    match mode {
        GpioMode::Input => GpioMode::Input,
        GpioMode::Output => GpioMode::Output,
        GpioMode::AlternateFunction(af) => GpioMode::AlternateFunction(af),
        GpioMode::Analog => GpioMode::Analog,
        GpioMode::Pwm => match a.timer_map.spec_resolve(pin) {
            Option::Some(tc) => GpioMode::AlternateFunction(selector_for_timer(tc.0)),
            Option::None => GpioMode::Input,
        },
    }
}

/// Gives a pin its electrical mode: the one configuration entry point for
/// plain pins. The pin must exist, the selector must be in range, and the
/// pin must not already stand in the pin ledger; the register write
/// follows, and the Analog and PWM modes then run their peripheral
/// enabling paths. A failure of those later paths is fail-forward: the
/// ledger entry and the mode field written before it stay written.
pub fn pin_mode(mcu: &mut Mcu, pin: (char, u8), mode: GpioMode) -> (r: Result<(), ProgError>)
    requires
        old(mcu).wf(),
    ensures
        final(mcu).wf(),
        !spec_pin_exists(pin) ==> r == Err::<(), ProgError>(ProgError::InvalidConfiguration)
            && *final(mcu) == *old(mcu),
        spec_pin_exists(pin) && af_out_of_range(mode) ==> r == Err::<(), ProgError>(
            ProgError::InvalidConfiguration,
        ) && *final(mcu) == *old(mcu),
        spec_pin_exists(pin) && !af_out_of_range(mode) && old(mcu).pin_ledger.items().contains(pin)
            ==> r == Err::<(), ProgError>(ProgError::AlreadyConfigured) && *final(mcu) == *old(mcu),
        spec_pin_exists(pin) && !af_out_of_range(mode) && !old(mcu).pin_ledger.items().contains(pin)
            && old(mcu).pin_ledger.items().len() >= 50 ==> r == Err::<(), ProgError>(
            ProgError::InvalidConfiguration,
        ) && *final(mcu) == *old(mcu),
        spec_pin_exists(pin) && !af_out_of_range(mode) && !old(mcu).pin_ledger.items().contains(pin)
            && old(mcu).pin_ledger.items().len() < 50 ==> {
            &&& final(mcu).pin_ledger.items() == old(mcu).pin_ledger.items().push(pin)
            &&& match mode {
                GpioMode::Input => {
                    &&& r == Ok::<(), ProgError>(())
                    &&& *final(mcu) == (Mcu {
                        banks: final(mcu).banks,
                        pin_ledger: final(mcu).pin_ledger,
                        ..*old(mcu)
                    })
                    &&& only_mode_set(*old(mcu), *final(mcu), pin, 0)
                },
                GpioMode::Output => {
                    &&& r == Ok::<(), ProgError>(())
                    &&& *final(mcu) == (Mcu {
                        banks: final(mcu).banks,
                        pin_ledger: final(mcu).pin_ledger,
                        ..*old(mcu)
                    })
                    &&& only_mode_set(*old(mcu), *final(mcu), pin, 1)
                },
                GpioMode::AlternateFunction(af) => {
                    &&& r == Ok::<(), ProgError>(())
                    &&& *final(mcu) == (Mcu {
                        banks: final(mcu).banks,
                        pin_ledger: final(mcu).pin_ledger,
                        ..*old(mcu)
                    })
                    &&& only_mode_af_set(*old(mcu), *final(mcu), pin, 2, af)
                },
                GpioMode::Analog => {
                    &&& only_mode_set(*old(mcu), *final(mcu), pin, 3)
                    &&& if spec_check_channel(old(mcu).adc_map, pin, true, true) is Err {
                        &&& r == Err::<(), ProgError>(ProgError::InvalidConfiguration)
                        &&& *final(mcu) == (Mcu {
                            banks: final(mcu).banks,
                            pin_ledger: final(mcu).pin_ledger,
                            ..*old(mcu)
                        })
                    } else {
                        &&& r == Ok::<(), ProgError>(())
                        &&& *final(mcu) == (Mcu {
                            banks: final(mcu).banks,
                            pin_ledger: final(mcu).pin_ledger,
                            dac: final(mcu).dac,
                            adcs: final(mcu).adcs,
                            wave_timer: final(mcu).wave_timer,
                            ..*old(mcu)
                        })
                        &&& (spec_check_channel(old(mcu).adc_map, pin, true, true) matches Ok(cc)
                            ==> enable_channel_effect(*old(mcu), *final(mcu), cc.0, cc.1))
                    }
                },
                GpioMode::Pwm => match old(mcu).timer_map.spec_resolve(pin) {
                    Option::None => {
                        &&& r == Err::<(), ProgError>(ProgError::InvalidConfiguration)
                        &&& *final(mcu) == (Mcu { pin_ledger: final(mcu).pin_ledger, ..*old(mcu) })
                    },
                    Option::Some(tc) => {
                        if old(mcu).timer_slots.slots()[slot_index(tc.0, tc.1)] {
                            &&& r == Err::<(), ProgError>(ProgError::AlreadyConfigured)
                            &&& *final(mcu) == (Mcu {
                                pin_ledger: final(mcu).pin_ledger,
                                ..*old(mcu)
                            })
                        } else {
                            &&& r == Ok::<(), ProgError>(())
                            &&& *final(mcu) == (Mcu {
                                banks: final(mcu).banks,
                                pin_ledger: final(mcu).pin_ledger,
                                timer_slots: final(mcu).timer_slots,
                                ..*old(mcu)
                            })
                            &&& final(mcu).timer_slots.slots()
                                == old(mcu).timer_slots.slots().update(
                                slot_index(tc.0, tc.1),
                                true,
                            )
                            &&& only_mode_af_set(
                                *old(mcu),
                                *final(mcu),
                                pin,
                                2,
                                selector_for_timer(tc.0),
                            )
                        }
                    },
                },
            }
        },
        r is Ok ==> mode_at(*final(mcu), pin) == spec_configured_mode(*old(mcu), pin, mode),
{
    if check_pin(pin).is_err() {
        return Err(ProgError::InvalidConfiguration);
    }
    if let GpioMode::AlternateFunction(af) = mode {
        if af > 15 {
            return Err(ProgError::InvalidConfiguration);
        }
    }
    match mcu.pin_ledger.acquire(pin) {
        Err(e) => {
            return Err(e);
        },
        Ok(()) => {},
    }
    let bi = bank_index(pin.0);
    match mode {
        GpioMode::Input => {
            let b = mcu.banks[bi];
            let nb = BankRegs { moder: set_field2(b.moder, pin.1, 0), ..b };
            store_bank(mcu, bi, nb);
            Ok(())
        },
        GpioMode::Output => {
            let b = mcu.banks[bi];
            let nb = BankRegs { moder: set_field2(b.moder, pin.1, 1), ..b };
            store_bank(mcu, bi, nb);
            Ok(())
        },
        GpioMode::AlternateFunction(af) => {
            let b = mcu.banks[bi];
            let m2 = set_field2(b.moder, pin.1, 2);
            let nb = if pin.1 < 8 {
                BankRegs { moder: m2, afrl: set_field4(b.afrl, pin.1, af), ..b }
            } else {
                BankRegs { moder: m2, afrh: set_field4(b.afrh, pin.1 - 8, af), ..b }
            };
            store_bank(mcu, bi, nb);
            Ok(())
        },
        GpioMode::Analog => {
            let b = mcu.banks[bi];
            let nb = BankRegs { moder: set_field2(b.moder, pin.1, 3), ..b };
            store_bank(mcu, bi, nb);
            match enable_channel(mcu, pin) {
                Err(e) => Err(e),
                Ok(()) => Ok(()),
            }
        },
        GpioMode::Pwm => {
            match pwm_configure(mcu, pin) {
                Err(e) => Err(e),
                Ok(_) => Ok(()),
            }
        },
    }
}

/// A mode query immediately after a successful configuration reports a
/// mode consistent with the request: Input, Output, AlternateFunction and
/// Analog read back as themselves, PWM as the alternate function of its
/// resolved timer's group. The hypotheses are what `pin_mode` ensures on
/// success and what `return_pinmode` ensures always.
pub proof fn lemma_set_then_read(a: Mcu, b: Mcu, pin: (char, u8), mode: GpioMode)
    requires
        spec_pin_exists(pin),
        mode_at(b, pin) == spec_configured_mode(a, pin, mode),
    ensures
        match mode {
            GpioMode::Input => mode_at(b, pin) == GpioMode::Input,
            GpioMode::Output => mode_at(b, pin) == GpioMode::Output,
            GpioMode::AlternateFunction(n) => mode_at(b, pin) == GpioMode::AlternateFunction(n),
            GpioMode::Analog => mode_at(b, pin) == GpioMode::Analog,
            GpioMode::Pwm => a.timer_map.spec_resolve(pin) matches Some(tc) ==> mode_at(b, pin)
                == GpioMode::AlternateFunction(selector_for_timer(tc.0)),
        },
{
}

/// Decodes a pin's live mode from its bank's registers. Always succeeds on
/// an existing pin: an unconfigured pin reports Input.
pub fn return_pinmode(mcu: &Mcu, pin: (char, u8)) -> (r: Result<GpioMode, GpioError>)
    requires
        mcu.wf(),
    ensures
        spec_pin_exists(pin) ==> r == Ok::<GpioMode, GpioError>(mode_at(*mcu, pin)),
        !spec_pin_exists(pin) ==> r == Err::<GpioMode, GpioError>(
            GpioError::Prog(ProgError::InvalidConfiguration),
        ),
{
    if check_pin(pin).is_err() {
        return Err(GpioError::Prog(ProgError::InvalidConfiguration));
    }
    let bi = bank_index(pin.0);
    let b = mcu.banks[bi];
    let code = get_field2(b.moder, pin.1);
    if code == 0 {
        Ok(GpioMode::Input)
    } else if code == 1 {
        Ok(GpioMode::Output)
    } else if code == 2 {
        let af = if pin.1 < 8 {
            get_field4(b.afrl, pin.1)
        } else {
            get_field4(b.afrh, pin.1 - 8)
        };
        Ok(GpioMode::AlternateFunction(af))
    } else {
        Ok(GpioMode::Analog)
    }
}

} // verus!
