//! Timekeeping and PWM: the millisecond time base, the blocking-delay
//! bookkeeping shared between foreground code and the tick handler, and the
//! timer-channel side of PWM output.

use vstd::prelude::*;
use crate::registry::CapTable;
use crate::gpio::{bank_index, mode_at, only_mode_af_set, set_field2, set_field4, spec_bank_index,
    store_bank, BankRegs, GpioMode};
use crate::{Mcu, ProgError, MILLIS_SLOT};

verus! {

/// The millisecond time base: a free-running counter driven by a periodic
/// tick while `counting` is enabled.
#[derive(Clone, Copy, Debug, PartialEq, Eq, Structural)]
pub struct ClockState {
    pub counting: bool,
    pub counter: u64,
}

/// The blocking-delay bookkeeping. The tick handler increments `elapsed`
/// only while `active`; foreground code zeroes `elapsed`, raises `active`,
/// waits, and lowers `active` again.
#[derive(Clone, Copy, Debug, PartialEq, Eq, Structural)]
pub struct DelayState {
    pub initialized: bool,
    pub counting: bool,
    pub active: bool,
    pub elapsed: u32,
}

/// A handle to a pin that has been committed to a PWM timer channel.
#[derive(Clone, Copy, Debug, PartialEq, Eq)]
pub struct PwmPin {
    pub block: char,
    pub pin: u8,
}

pub open spec fn clock_reset() -> ClockState {
    ClockState { counting: false, counter: 0u64 }
}

pub open spec fn delay_reset() -> DelayState {
    DelayState { initialized: false, counting: false, active: false, elapsed: 0u32 }
}

/// The alternate-function selector code for a timer, by the fixed coarse
/// grouping: timers 1 and 2, timers 3 to 5, timers 8 to 11, rest.
pub open spec fn selector_for_timer(t: u8) -> u32 {
    if t == 1 || t == 2 {
        1u32
    } else if t == 3 || t == 4 || t == 5 {
        2u32
    } else if t == 8 || t == 9 || t == 10 || t == 11 {
        3u32
    } else {
        9u32
    }
}

/// How many capture/compare channels a timer offers (0 for the basic
/// timers, which cannot drive a pin).
pub open spec fn channel_count(t: u8) -> u8 {
    if t == 1 || t == 2 || t == 3 || t == 4 || t == 5 || t == 8 {
        4u8
    } else if t == 9 || t == 12 {
        2u8
    } else if t == 10 || t == 11 || t == 13 || t == 14 {
        1u8
    } else {
        0u8
    }
}

/// The ownership-ledger slot of a timer channel.
pub open spec fn slot_index(t: u8, c: u8) -> int {
    4 * t - c
}

/// What the timer family table must promise: unique pins, pins on banks
/// that the PWM path serves, timers 1 to 14 with a channel the timer has.
pub open spec fn timer_table_wf(t: CapTable) -> bool {
    &&& t.pins_unique()
    &&& forall|k: int|
        0 <= k < t.entries@.len() ==> {
            &&& (#[trigger] t.entries@[k]).pin.1 < 16
            &&& spec_bank_index(t.entries@[k].pin.0) < 6
            &&& 1 <= t.entries@[k].instance <= 14
            &&& 1 <= t.entries@[k].channel <= channel_count(t.entries@[k].instance)
        }
}

/// Exec mirror of `channel_count`.
pub fn channel_count_of(t: u8) -> (r: u8)
    ensures
        r == channel_count(t),
{
    if t == 1 || t == 2 || t == 3 || t == 4 || t == 5 || t == 8 {
        4
    } else if t == 9 || t == 12 {
        2
    } else if t == 10 || t == 11 || t == 13 || t == 14 {
        1
    } else {
        0
    }
}

/// Checks the timer family's registry invariant over a supplied table.
pub fn timer_table_check(t: &CapTable) -> (r: bool)
    ensures
        r == timer_table_wf(*t),
{
    if !crate::registry::pins_unique_check(t) {
        return false;
    }
    let n = t.entries.len();
    let mut i: usize = 0;
    while i < n
        invariant
            n == t.entries@.len(),
            i <= n,
            forall|k: int|
                0 <= k < i ==> {
                    &&& (#[trigger] t.entries@[k]).pin.1 < 16
                    &&& spec_bank_index(t.entries@[k].pin.0) < 6
                    &&& 1 <= t.entries@[k].instance <= 14
                    &&& 1 <= t.entries@[k].channel <= channel_count(t.entries@[k].instance)
                },
        decreases n - i,
    {
        let e = t.entries[i];
        let cc = channel_count_of(e.instance);
        if e.pin.1 > 15 || crate::gpio::bank_index(e.pin.0) >= 6 || e.instance < 1 || e.instance
            > 14 || e.channel < 1 || e.channel > cc {
            return false;
        }
        i += 1;
    }
    true
}

/// The millisecond counter after one tick: plus one, wrapping at the
/// integer width.
pub open spec fn wrap_inc64(c: u64) -> u64 {
    if c == 0xFFFF_FFFF_FFFF_FFFFu64 {
        0u64
    } else {
        (c + 1) as u64
    }
}

/// The delay counter after one tick while active.
pub open spec fn wrap_inc32(c: u32) -> u32 {
    if c == 0xFFFF_FFFFu32 {
        0u32
    } else {
        (c + 1) as u32
    }
}

/// One millisecond tick: the counter advances only while counting.
pub open spec fn spec_tick_millis(c: ClockState) -> ClockState {
    if c.counting {
        ClockState { counter: wrap_inc64(c.counter), ..c }
    } else {
        c
    }
}

/// One delay tick: the elapsed count advances only while a delay is active.
pub open spec fn spec_tick_delay(d: DelayState) -> DelayState {
    if d.active {
        DelayState { elapsed: wrap_inc32(d.elapsed), ..d }
    } else {
        d
    }
}

pub open spec fn run_millis_ticks(c: ClockState, n: nat) -> ClockState
    decreases n,
{
    if n == 0 {
        c
    } else {
        spec_tick_millis(run_millis_ticks(c, (n - 1) as nat))
    }
}

pub open spec fn run_delay_ticks(d: DelayState, n: nat) -> DelayState
    decreases n,
{
    if n == 0 {
        d
    } else {
        spec_tick_delay(run_delay_ticks(d, (n - 1) as nat))
    }
}

/// While the counter does not wrap, `n` ticks on a counting time base add
/// exactly `n`, and in particular never take the counter backwards: a later
/// read never returns less than an earlier one.
pub proof fn lemma_millis_ticks_count(c: ClockState, n: nat)
    requires
        c.counting,
        c.counter + n <= 0xFFFF_FFFF_FFFF_FFFFu64,
    ensures
        run_millis_ticks(c, n).counter == c.counter + n,
        run_millis_ticks(c, n).counter >= c.counter,
        run_millis_ticks(c, n).counting,
    decreases n,
{
    if n > 0 {
        lemma_millis_ticks_count(c, (n - 1) as nat);
    }
}

/// While the elapsed count does not wrap, `n` ticks on an active delay
/// raise `elapsed` to exactly `n` from a fresh start.
pub proof fn lemma_delay_ticks_count(d: DelayState, n: nat)
    requires
        d.active,
        d.elapsed + n <= 0xFFFF_FFFFu32,
    ensures
        run_delay_ticks(d, n).elapsed == d.elapsed + n,
        run_delay_ticks(d, n).active,
        run_delay_ticks(d, n).counting == d.counting,
        run_delay_ticks(d, n).initialized == d.initialized,
    decreases n,
{
    if n > 0 {
        lemma_delay_ticks_count(d, (n - 1) as nat);
    }
}

// ===== PWM ======================================================================================
/// Whether a pin stands committed to its PWM timer channel: it resolves in
/// the timer table and its slot is owned.
pub open spec fn pwm_ready(m: Mcu, pin: (char, u8)) -> bool {
    match m.timer_map.spec_resolve(pin) {
        Option::Some(tc) => m.timer_slots.slots()[slot_index(tc.0, tc.1)],
        Option::None => false,
    }
}

/// Exec mirror of `selector_for_timer`.
pub fn selector_of(t: u8) -> (r: u32)
    ensures
        r == selector_for_timer(t),
{
    if t == 1 || t == 2 {
        1
    } else if t == 3 || t == 4 || t == 5 {
        2
    } else if t == 8 || t == 9 || t == 10 || t == 11 {
        3
    } else {
        9
    }
}

/// The PWM-initialization path: resolves the pin's timer channel, claims
/// its ownership slot, and drives the pin to the alternate function of the
/// timer's group. Does not touch the general pin ledger.
pub(crate) fn pwm_configure(mcu: &mut Mcu, pin: (char, u8)) -> (r: Result<(u8, u8), ProgError>)
    requires
        old(mcu).wf(),
    ensures
        final(mcu).wf(),
        final(mcu).pin_ledger.items() == old(mcu).pin_ledger.items(),
        old(mcu).timer_map.spec_resolve(pin) is None ==> r == Err::<(u8, u8), ProgError>(
            ProgError::InvalidConfiguration,
        ) && *final(mcu) == *old(mcu),
        old(mcu).timer_map.spec_resolve(pin) matches Some(tc) ==> {
            if old(mcu).timer_slots.slots()[slot_index(tc.0, tc.1)] {
                r == Err::<(u8, u8), ProgError>(ProgError::AlreadyConfigured) && *final(mcu)
                    == *old(mcu)
            } else {
                &&& r == Ok::<(u8, u8), ProgError>(tc)
                &&& *final(mcu) == (Mcu {
                    banks: final(mcu).banks,
                    timer_slots: final(mcu).timer_slots,
                    ..*old(mcu)
                })
                &&& final(mcu).timer_slots.slots() == old(mcu).timer_slots.slots().update(
                    slot_index(tc.0, tc.1),
                    true,
                )
                &&& only_mode_af_set(*old(mcu), *final(mcu), pin, 2, selector_for_timer(tc.0))
                &&& mode_at(*final(mcu), pin) == GpioMode::AlternateFunction(
                    selector_for_timer(tc.0),
                )
                &&& pwm_ready(*final(mcu), pin)
            }
        },
{
    let (timer, channel) = match mcu.timer_map.resolve(pin) {
        Option::Some(v) => v,
        Option::None => {
            return Err(ProgError::InvalidConfiguration);
        },
    };
    proof {
        crate::registry::lemma_resolve_in_table(mcu.timer_map.entries@, pin);
    }
    let slot = (timer as usize) * 4 - (channel as usize);
    match mcu.timer_slots.acquire(slot) {
        Err(e) => {
            return Err(e);
        },
        Ok(()) => {},
    }
    let bi = bank_index(pin.0);
    let b = mcu.banks[bi];
    let sel = selector_of(timer);
    let m2 = set_field2(b.moder, pin.1, 2);
    let nb = if pin.1 < 8 {
        BankRegs { moder: m2, afrl: set_field4(b.afrl, pin.1, sel), ..b }
    } else {
        BankRegs { moder: m2, afrh: set_field4(b.afrh, pin.1 - 8, sel), ..b }
    };
    store_bank(mcu, bi, nb);
    Ok((timer, channel))
}

/// Conversion of a pin identifier into a PWM output: the way a pin is
/// committed to its timer channel directly, claiming the channel's
/// ownership slot but — deliberately — not the general pin ledger.
pub trait ToPwm: Sized {
    spec fn pin_id(self) -> (char, u8);

    fn pwm(self, mcu: &mut Mcu) -> (r: Result<PwmPin, ProgError>)
        requires
            old(mcu).wf(),
        ensures
            final(mcu).wf(),
            final(mcu).pin_ledger.items() == old(mcu).pin_ledger.items(),
            old(mcu).timer_map.spec_resolve(self.pin_id()) is None ==> r == Err::<
                PwmPin,
                ProgError,
            >(ProgError::InvalidConfiguration) && *final(mcu) == *old(mcu),
            old(mcu).timer_map.spec_resolve(self.pin_id()) matches Some(tc) ==> {
                if old(mcu).timer_slots.slots()[slot_index(tc.0, tc.1)] {
                    r == Err::<PwmPin, ProgError>(ProgError::AlreadyConfigured) && *final(mcu)
                        == *old(mcu)
                } else {
                    &&& r == Ok::<PwmPin, ProgError>(
                        PwmPin { block: self.pin_id().0, pin: self.pin_id().1 },
                    )
                    &&& *final(mcu) == (Mcu {
                        banks: final(mcu).banks,
                        timer_slots: final(mcu).timer_slots,
                        ..*old(mcu)
                    })
                    &&& final(mcu).timer_slots.slots() == old(mcu).timer_slots.slots().update(
                        slot_index(tc.0, tc.1),
                        true,
                    )
                    &&& only_mode_af_set(
                        *old(mcu),
                        *final(mcu),
                        self.pin_id(),
                        2,
                        selector_for_timer(tc.0),
                    )
                    &&& mode_at(*final(mcu), self.pin_id()) == GpioMode::AlternateFunction(
                        selector_for_timer(tc.0),
                    )
                    &&& pwm_ready(*final(mcu), self.pin_id())
                }
            },
    ;
}

impl ToPwm for (char, u8) {
    open spec fn pin_id(self) -> (char, u8) {
        self
    }

    fn pwm(self, mcu: &mut Mcu) -> (r: Result<PwmPin, ProgError>) {
        match pwm_configure(mcu, self) {
            Ok(_) => Ok(PwmPin { block: self.0, pin: self.1 }),
            Err(e) => Err(e),
        }
    }
}

impl PwmPin {
    pub open spec fn id(self) -> (char, u8) {
        (self.block, self.pin)
    }

    /// Writes an 8-bit duty value to the pin's timer channel. The pin must
    /// stand committed to its channel, which a successful PWM configuration
    /// establishes and nothing ever revokes.
    pub fn pwm_write(&self, mcu: &mut Mcu, value: u8)
        requires
            old(mcu).wf(),
            pwm_ready(*old(mcu), self.id()),
        ensures
            final(mcu).wf(),
            old(mcu).timer_map.spec_resolve(self.id()) matches Some(tc) ==> {
                &&& *final(mcu) == (Mcu { pwm_duty: final(mcu).pwm_duty, ..*old(mcu) })
                &&& final(mcu).pwm_duty@ == old(mcu).pwm_duty@.update(
                    slot_index(tc.0, tc.1),
                    value as u16,
                )
            },
    {
        let (timer, channel) = match mcu.timer_map.resolve((self.block, self.pin)) {
            Option::Some(v) => v,
            Option::None => {
                return;
            },
        };
        proof {
            crate::registry::lemma_resolve_in_table(mcu.timer_map.entries@, (self.block, self.pin));
        }
        let slot = (timer as usize) * 4 - (channel as usize);
        if !mcu.timer_slots.taken(slot) {
            return;
        }
        mcu.pwm_duty.set(slot, value as u16);
    }
}

// ===== Time base and delay ======================================================================
/// Brings the millisecond time base up, once: claims the time-base timer's
/// ownership slot and starts counting. A second start is refused and
/// leaves everything untouched.
pub fn start_time(mcu: &mut Mcu) -> (r: Result<(), ProgError>)
    requires
        old(mcu).wf(),
    ensures
        final(mcu).wf(),
        old(mcu).timer_slots.slots()[MILLIS_SLOT as int] ==> r == Err::<(), ProgError>(
            ProgError::AlreadyConfigured,
        ) && *final(mcu) == *old(mcu),
        !old(mcu).timer_slots.slots()[MILLIS_SLOT as int] ==> {
            &&& r == Ok::<(), ProgError>(())
            &&& *final(mcu) == (Mcu {
                timer_slots: final(mcu).timer_slots,
                clock: final(mcu).clock,
                ..*old(mcu)
            })
            &&& final(mcu).timer_slots.slots() == old(mcu).timer_slots.slots().update(
                MILLIS_SLOT as int,
                true,
            )
            &&& final(mcu).clock == (ClockState { counting: true, counter: old(mcu).clock.counter })
        },
{
    match mcu.timer_slots.acquire(MILLIS_SLOT) {
        Err(e) => {
            return Err(e);
        },
        Ok(()) => {},
    }
    mcu.clock.counting = true;
    Ok(())
}

/// Reads the millisecond counter: counting is halted for the copy and
/// resumed, so the read is never torn by a tick.
pub fn millis(mcu: &mut Mcu) -> (r: u64)
    ensures
        r == old(mcu).clock.counter,
        *final(mcu) == (Mcu { clock: final(mcu).clock, ..*old(mcu) }),
        final(mcu).clock == (ClockState { counting: true, counter: old(mcu).clock.counter }),
{
    mcu.clock.counting = false;
    let buffer = mcu.clock.counter;
    mcu.clock.counting = true;
    buffer
}

/// The time base's tick, run from interrupt context: one more millisecond,
/// wrapping at the counter width, while counting is enabled.
pub fn tick_millis(mcu: &mut Mcu)
    ensures
        *final(mcu) == (Mcu { clock: final(mcu).clock, ..*old(mcu) }),
        final(mcu).clock == spec_tick_millis(old(mcu).clock),
{
    if mcu.clock.counting {
        if mcu.clock.counter == 0xFFFF_FFFF_FFFF_FFFF {
            mcu.clock.counter = 0;
        } else {
            mcu.clock.counter = mcu.clock.counter + 1;
        }
    }
}

/// The delay timer's tick, run from interrupt context: the elapsed count
/// advances only while a delay is active.
pub fn tick_delay(mcu: &mut Mcu)
    ensures
        *final(mcu) == (Mcu { delay: final(mcu).delay, ..*old(mcu) }),
        final(mcu).delay == spec_tick_delay(old(mcu).delay),
{
    if mcu.delay.active {
        if mcu.delay.elapsed == 0xFFFF_FFFF {
            mcu.delay.elapsed = 0;
        } else {
            mcu.delay.elapsed = mcu.delay.elapsed + 1;
        }
    }
}

/// Starts a blocking delay: the dedicated timer is brought up on first use
/// and merely re-enabled afterwards, the elapsed count is zeroed, and the
/// tick handler is armed by the active flag. The caller spins on
/// `delay_done` and ends with `delay_finish`.
pub fn delay_begin(mcu: &mut Mcu)
    ensures
        *final(mcu) == (Mcu { delay: final(mcu).delay, ..*old(mcu) }),
        final(mcu).delay == (DelayState {
            initialized: true,
            counting: true,
            active: true,
            elapsed: 0u32,
        }),
{
    if !mcu.delay.initialized {
        mcu.delay.initialized = true;
    }
    mcu.delay.counting = true;
    mcu.delay.elapsed = 0;
    mcu.delay.active = true;
}

/// Whether a running delay of `ms` milliseconds may end: the elapsed count
/// has reached the request.
pub fn delay_done(mcu: &Mcu, ms: u32) -> (r: bool)
    ensures
        r == (mcu.delay.elapsed >= ms),
{
    mcu.delay.elapsed >= ms
}

/// Ends a blocking delay: clears the active flag and halts the delay
/// timer's counting, leaving it initialized for immediate reuse.
pub fn delay_finish(mcu: &mut Mcu)
    ensures
        *final(mcu) == (Mcu { delay: final(mcu).delay, ..*old(mcu) }),
        final(mcu).delay == (DelayState { active: false, counting: false, ..old(mcu).delay }),
{
    mcu.delay.active = false;
    mcu.delay.counting = false;
}

/// The delay protocol in full: starting fresh, the wait condition for `ms`
/// milliseconds can first hold after exactly `ms` ticks — never earlier —
/// and the delay stays active and initialized until the finishing step.
pub proof fn lemma_delay_protocol(n: nat, ms: u32)
    requires
        n <= 0xFFFF_FFFFu32,
    ensures
        ({
            let d = run_delay_ticks(
                DelayState { initialized: true, counting: true, active: true, elapsed: 0u32 },
                n,
            );
            &&& (d.elapsed >= ms <==> n >= ms)
            &&& d.active
            &&& d.initialized
        }),
{
    lemma_delay_ticks_count(
        DelayState { initialized: true, counting: true, active: true, elapsed: 0u32 },
        n,
    );
}

} // verus!
