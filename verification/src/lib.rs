//! Core of a bare-metal pin/peripheral driver suite: capability lookup,
//! exclusive-ownership bookkeeping, pin mode control and a timer-backed
//! time base, all modelled over plain register words and counters. The
//! memory-mapped transfer of these words to and from the silicon is the
//! embedding program's last step and is kept outside this crate.

use vstd::prelude::*;

pub mod analog;
pub mod gpio;
pub mod ledger;
pub mod registry;
pub mod time;
pub mod uart;

use crate::analog::{adc_reset, dac_channel_reset, wave_timer_reset, analog_table_wf, AdcState,
    DacChannel, DacState, WaveKind, WaveTimer};
use crate::gpio::{bank_reset, BankRegs};
use crate::ledger::{PinLedger, SlotLedger};
use crate::registry::CapTable;
use crate::time::{clock_reset, delay_reset, timer_table_wf, ClockState, DelayState};
use crate::uart::{uart_irq_reset, UartIrq, UartTable};

verus! {

/// Errors raised by configuration entry points.
#[derive(Clone, Copy, Debug, PartialEq, Eq, Structural)]
pub enum ProgError {
    /// The pin does not exist, cannot take the requested role, or a
    /// parameter is out of range.
    InvalidConfiguration,
    /// The pin or the underlying peripheral slot is already owned by a
    /// prior configuration.
    AlreadyConfigured,
}

/// Errors raised by pin operations.
#[derive(Clone, Copy, Debug, PartialEq, Eq, Structural)]
pub enum GpioError {
    /// A configuration error, forwarded.
    Prog(ProgError),
    /// The pin's live mode does not match what the operation requires.
    WrongMode,
}

/// The ownership-ledger slot that guards the time base's timer.
pub const MILLIS_SLOT: usize = 20;

/// The whole device model: the three family tables, the two ownership
/// ledgers, the I/O bank register words, and the peripheral state the
/// contracts speak about. Banks are indexed a, b, c, d, e, f, h.
pub struct Mcu {
    pub adc_map: CapTable,
    pub timer_map: CapTable,
    pub uart_map: UartTable,
    pub pin_ledger: PinLedger,
    pub timer_slots: SlotLedger,
    pub uart_slots: SlotLedger,
    pub uart_irqs: Vec<UartIrq>,
    pub banks: Vec<BankRegs>,
    pub dac: DacState,
    pub adcs: Vec<AdcState>,
    pub wave_timer: WaveTimer,
    pub pwm_duty: Vec<u16>,
    pub clock: ClockState,
    pub delay: DelayState,
}

impl Mcu {
    /// Structural well-formedness: the fixed sizes of the model, and the
    /// registry invariants of the three tables.
    pub open spec fn wf(self) -> bool {
        &&& self.banks@.len() == 7
        &&& self.timer_slots.slots().len() == 56
        &&& self.uart_slots.slots().len() == 6
        &&& self.uart_irqs@.len() == 6
        &&& self.adcs@.len() == 3
        &&& self.pwm_duty@.len() == 56
        &&& analog_table_wf(self.adc_map)
        &&& timer_table_wf(self.timer_map)
        &&& self.uart_map.wf()
    }

    /// The process-start state: nothing owned, every register word zero
    /// (all pins inputs), every counter zero, every peripheral off.
    pub open spec fn at_reset(self) -> bool {
        &&& self.pin_ledger.items() == Seq::<(char, u8)>::empty()
        &&& self.timer_slots.slots() == Seq::new(56, |k: int| false)
        &&& self.uart_slots.slots() == Seq::new(6, |k: int| false)
        &&& self.uart_irqs@ == Seq::new(6, |k: int| uart_irq_reset())
        &&& self.banks@ == Seq::new(7, |k: int| bank_reset())
        &&& self.dac == (DacState { ch1: dac_channel_reset(), ch2: dac_channel_reset() })
        &&& self.adcs@ == Seq::new(3, |k: int| adc_reset())
        &&& self.wave_timer == wave_timer_reset()
        &&& self.pwm_duty@ == Seq::new(56, |k: int| 0u16)
        &&& self.clock == clock_reset()
        &&& self.delay == delay_reset()
    }

    /// Assembles the device model around the supplied capability tables,
    /// refusing tables that break a registry invariant. Everything mutable
    /// starts zeroed, as the hardware does at reset.
    pub fn new(adc_map: CapTable, timer_map: CapTable, uart_map: UartTable) -> (r: Result<
        Mcu,
        ProgError,
    >)
        ensures
            r is Ok <==> analog_table_wf(adc_map) && timer_table_wf(timer_map) && uart_map.wf(),
            r matches Ok(m) ==> m.wf() && m.at_reset() && m.adc_map == adc_map && m.timer_map
                == timer_map && m.uart_map == uart_map,
    {
        if !crate::analog::analog_table_check(&adc_map) {
            return Err(ProgError::InvalidConfiguration);
        }
        if !crate::time::timer_table_check(&timer_map) {
            return Err(ProgError::InvalidConfiguration);
        }
        if !uart_map.check() {
            return Err(ProgError::InvalidConfiguration);
        }
        let mut uart_irqs: Vec<UartIrq> = Vec::new();
        let mut u: usize = 0;
        while u < 6
            invariant
                u <= 6,
                uart_irqs@ == Seq::new(u as nat, |k: int| uart_irq_reset()),
            decreases 6 - u,
        {
            uart_irqs.push(UartIrq { rx: false, tx: false });
            proof {
                assert(uart_irqs@ =~= Seq::new((u + 1) as nat, |k: int| uart_irq_reset()));
            }
            u += 1;
        }
        let mut banks: Vec<BankRegs> = Vec::new();
        let mut i: usize = 0;
        while i < 7
            invariant
                i <= 7,
                banks@ == Seq::new(i as nat, |k: int| bank_reset()),
            decreases 7 - i,
        {
            banks.push(BankRegs::zeroed());
            proof {
                assert(banks@ =~= Seq::new((i + 1) as nat, |k: int| bank_reset()));
            }
            i += 1;
        }
        let mut adcs: Vec<AdcState> = Vec::new();
        let mut j: usize = 0;
        while j < 3
            invariant
                j <= 3,
                adcs@ == Seq::new(j as nat, |k: int| adc_reset()),
            decreases 3 - j,
        {
            adcs.push(AdcState { on: false, resolution: 0, selected: 0, sample: 0 });
            proof {
                assert(adcs@ =~= Seq::new((j + 1) as nat, |k: int| adc_reset()));
            }
            j += 1;
        }
        let mut pwm_duty: Vec<u16> = Vec::new();
        let mut d: usize = 0;
        while d < 56
            invariant
                d <= 56,
                pwm_duty@ == Seq::new(d as nat, |k: int| 0u16),
            decreases 56 - d,
        {
            pwm_duty.push(0);
            proof {
                assert(pwm_duty@ =~= Seq::new((d + 1) as nat, |k: int| 0u16));
            }
            d += 1;
        }
        Ok(
            Mcu {
                adc_map,
                timer_map,
                uart_map,
                pin_ledger: PinLedger::new(),
                timer_slots: SlotLedger::new(56),
                uart_slots: SlotLedger::new(6),
                uart_irqs,
                banks,
                dac: DacState {
                    ch1: DacChannel { enabled: false, wave: WaveKind::Off, amplitude: 0, value: 0 },
                    ch2: DacChannel { enabled: false, wave: WaveKind::Off, amplitude: 0, value: 0 },
                },
                adcs,
                wave_timer: WaveTimer { enabled: false, prescaler: 0, reload: 0 },
                pwm_duty,
                clock: ClockState { counting: false, counter: 0 },
                delay: DelayState { initialized: false, counting: false, active: false, elapsed: 0 },
            },
        )
    }
}

} // verus!
