//! Serial channels: the receive/transmit pin table, channel ownership, and
//! the payload decisions of the transmit and receive paths. Wire traffic
//! itself is the caller's to perform.

use vstd::prelude::*;
use crate::{Mcu, ProgError};

verus! {

/// One serial channel's pin pair: the pin that receives on it and the pin
/// that transmits on it.
#[derive(Clone, Copy, Debug, PartialEq, Eq)]
pub struct UartEntry {
    pub rx_pin: (char, u8),
    pub tx_pin: (char, u8),
    pub channel: u8,
}

/// The fixed pin-to-channel table of the serial family.
pub struct UartTable {
    pub entries: Vec<UartEntry>,
}

/// The channel of the first entry whose receive pin matches, if any.
pub open spec fn resolve_rx_seq(s: Seq<UartEntry>, pin: (char, u8)) -> Option<u8>
    decreases s.len(),
{
    if s.len() == 0 {
        None
    } else if s[0].rx_pin == pin {
        Some(s[0].channel)
    } else {
        resolve_rx_seq(s.drop_first(), pin)
    }
}

/// The channel of the first entry whose transmit pin matches, if any.
pub open spec fn resolve_tx_seq(s: Seq<UartEntry>, pin: (char, u8)) -> Option<u8>
    decreases s.len(),
{
    if s.len() == 0 {
        None
    } else if s[0].tx_pin == pin {
        Some(s[0].channel)
    } else {
        resolve_tx_seq(s.drop_first(), pin)
    }
}

impl UartTable {
    /// A pin serves at most one role on at most one channel, and channels
    /// are the six the hardware has.
    pub open spec fn wf(self) -> bool {
        &&& forall|k: int|
            0 <= k < self.entries@.len() ==> 1 <= (#[trigger] self.entries@[k]).channel <= 6
        &&& forall|k: int|
            0 <= k < self.entries@.len() ==> (#[trigger] self.entries@[k]).rx_pin
                != self.entries@[k].tx_pin
        &&& forall|i: int, j: int|
            0 <= i < j < self.entries@.len() ==> {
                &&& (#[trigger] self.entries@[i]).rx_pin != (#[trigger] self.entries@[j]).rx_pin
                &&& self.entries@[i].rx_pin != self.entries@[j].tx_pin
                &&& self.entries@[i].tx_pin != self.entries@[j].rx_pin
                &&& self.entries@[i].tx_pin != self.entries@[j].tx_pin
            }
    }

    /// Checks the serial family's registry invariant over a supplied table.
    pub fn check(&self) -> (r: bool)
        ensures
            r == self.wf(),
    {
        let n = self.entries.len();
        let mut i: usize = 0;
        while i < n
            invariant
                n == self.entries@.len(),
                i <= n,
                forall|k: int|
                    0 <= k < i ==> 1 <= (#[trigger] self.entries@[k]).channel <= 6
                        && self.entries@[k].rx_pin != self.entries@[k].tx_pin,
                forall|a: int, b: int|
                    0 <= a < b < i ==> {
                        &&& (#[trigger] self.entries@[a]).rx_pin != (
                        #[trigger] self.entries@[b]).rx_pin
                        &&& self.entries@[a].rx_pin != self.entries@[b].tx_pin
                        &&& self.entries@[a].tx_pin != self.entries@[b].rx_pin
                        &&& self.entries@[a].tx_pin != self.entries@[b].tx_pin
                    },
            decreases n - i,
        {
            let e2 = self.entries[i];
            if e2.channel < 1 || e2.channel > 6 || (e2.rx_pin.0 == e2.tx_pin.0 && e2.rx_pin.1
                == e2.tx_pin.1) {
                return false;
            }
            let mut j: usize = 0;
            while j < i
                invariant
                    j <= i,
                    i < n,
                    n == self.entries@.len(),
                    e2 == self.entries@[i as int],
                    forall|a: int, b: int|
                        0 <= a < b < i ==> {
                            &&& (#[trigger] self.entries@[a]).rx_pin != (
                            #[trigger] self.entries@[b]).rx_pin
                            &&& self.entries@[a].rx_pin != self.entries@[b].tx_pin
                            &&& self.entries@[a].tx_pin != self.entries@[b].rx_pin
                            &&& self.entries@[a].tx_pin != self.entries@[b].tx_pin
                        },
                    forall|a: int|
                        0 <= a < j ==> {
                            &&& (#[trigger] self.entries@[a]).rx_pin != self.entries@[i as int].rx_pin
                            &&& self.entries@[a].rx_pin != self.entries@[i as int].tx_pin
                            &&& self.entries@[a].tx_pin != self.entries@[i as int].rx_pin
                            &&& self.entries@[a].tx_pin != self.entries@[i as int].tx_pin
                        },
                decreases i - j,
            {
                let e1 = self.entries[j];
                if (e1.rx_pin.0 == e2.rx_pin.0 && e1.rx_pin.1 == e2.rx_pin.1) || (e1.rx_pin.0
                    == e2.tx_pin.0 && e1.rx_pin.1 == e2.tx_pin.1) || (e1.tx_pin.0 == e2.rx_pin.0
                    && e1.tx_pin.1 == e2.rx_pin.1) || (e1.tx_pin.0 == e2.tx_pin.0 && e1.tx_pin.1
                    == e2.tx_pin.1) {
                    return false;
                }
                j += 1;
            }
            i += 1;
        }
        true
    }

    /// A pin's channel and direction: receive entries are consulted first,
    /// then transmit entries; `true` means the pin transmits.
    pub open spec fn spec_resolve(self, pin: (char, u8)) -> Option<(u8, bool)> {
        match resolve_rx_seq(self.entries@, pin) {
            Option::Some(c) => Some((c, false)),
            Option::None => match resolve_tx_seq(self.entries@, pin) {
                Option::Some(c) => Some((c, true)),
                Option::None => None,
            },
        }
    }

    pub fn empty() -> (t: UartTable)
        ensures
            t.entries@ =~= Seq::<UartEntry>::empty(),
    {
        UartTable { entries: Vec::new() }
    }

    /// Appends a channel record; validity of the whole table is checked
    /// when the device model is assembled.
    pub fn add(&mut self, rx_pin: (char, u8), tx_pin: (char, u8), channel: u8)
        ensures
            final(self).entries@ == old(self).entries@.push(
                (UartEntry { rx_pin, tx_pin, channel }),
            ),
    {
        self.entries.push(UartEntry { rx_pin, tx_pin, channel });
    }

    fn find_rx(&self, pin: (char, u8)) -> (r: Option<u8>)
        ensures
            r == resolve_rx_seq(self.entries@, pin),
    {
        let n = self.entries.len();
        proof {
            assert(self.entries@.skip(0) =~= self.entries@);
        }
        let mut i: usize = 0;
        while i < n
            invariant
                n == self.entries@.len(),
                i <= n,
                resolve_rx_seq(self.entries@, pin) == resolve_rx_seq(
                    self.entries@.skip(i as int),
                    pin,
                ),
            decreases n - i,
        {
            let e = self.entries[i];
            proof {
                assert(self.entries@.skip(i as int)[0] == self.entries@[i as int]);
            }
            if e.rx_pin.0 == pin.0 && e.rx_pin.1 == pin.1 {
                return Some(e.channel);
            }
            proof {
                assert(self.entries@.skip(i as int).drop_first() =~= self.entries@.skip(
                    i as int + 1,
                ));
            }
            i += 1;
        }
        proof {
            assert(self.entries@.skip(n as int) =~= Seq::<UartEntry>::empty());
        }
        None
    }

    fn find_tx(&self, pin: (char, u8)) -> (r: Option<u8>)
        ensures
            r == resolve_tx_seq(self.entries@, pin),
    {
        let n = self.entries.len();
        proof {
            assert(self.entries@.skip(0) =~= self.entries@);
        }
        let mut i: usize = 0;
        while i < n
            invariant
                n == self.entries@.len(),
                i <= n,
                resolve_tx_seq(self.entries@, pin) == resolve_tx_seq(
                    self.entries@.skip(i as int),
                    pin,
                ),
            decreases n - i,
        {
            let e = self.entries[i];
            proof {
                assert(self.entries@.skip(i as int)[0] == self.entries@[i as int]);
            }
            if e.tx_pin.0 == pin.0 && e.tx_pin.1 == pin.1 {
                return Some(e.channel);
            }
            proof {
                assert(self.entries@.skip(i as int).drop_first() =~= self.entries@.skip(
                    i as int + 1,
                ));
            }
            i += 1;
        }
        proof {
            assert(self.entries@.skip(n as int) =~= Seq::<UartEntry>::empty());
        }
        None
    }

    /// Looks a pin up in the serial table: its channel, and whether it
    /// transmits (`true`) or receives (`false`).
    pub fn resolve(&self, pin: (char, u8)) -> (r: Option<(u8, bool)>)
        ensures
            r == self.spec_resolve(pin),
    {
        match self.find_rx(pin) {
            Option::Some(c) => Some((c, false)),
            Option::None => match self.find_tx(pin) {
                Option::Some(c) => Some((c, true)),
                Option::None => None,
            },
        }
    }
}

/// A successful receive-side resolution names an entry of the table.
proof fn lemma_resolve_rx_in_table(s: Seq<UartEntry>, pin: (char, u8))
    ensures
        resolve_rx_seq(s, pin) matches Some(c) ==> exists|k: int|
            0 <= k < s.len() && s[k].rx_pin == pin && s[k].channel == c,
    decreases s.len(),
{
    if s.len() > 0 && s[0].rx_pin != pin {
        lemma_resolve_rx_in_table(s.drop_first(), pin);
        if resolve_rx_seq(s, pin) is Some {
            let c = resolve_rx_seq(s, pin)->Some_0;
            let k = choose|k: int|
                0 <= k < s.drop_first().len() && s.drop_first()[k].rx_pin == pin
                    && s.drop_first()[k].channel == c;
            assert(s[k + 1] == s.drop_first()[k]);
        }
    }
}

/// A successful transmit-side resolution names an entry of the table.
proof fn lemma_resolve_tx_in_table(s: Seq<UartEntry>, pin: (char, u8))
    ensures
        resolve_tx_seq(s, pin) matches Some(c) ==> exists|k: int|
            0 <= k < s.len() && s[k].tx_pin == pin && s[k].channel == c,
    decreases s.len(),
{
    if s.len() > 0 && s[0].tx_pin != pin {
        lemma_resolve_tx_in_table(s.drop_first(), pin);
        if resolve_tx_seq(s, pin) is Some {
            let c = resolve_tx_seq(s, pin)->Some_0;
            let k = choose|k: int|
                0 <= k < s.drop_first().len() && s.drop_first()[k].tx_pin == pin
                    && s.drop_first()[k].channel == c;
            assert(s[k + 1] == s.drop_first()[k]);
        }
    }
}

/// The interrupt-enable flags of one serial channel: receive-not-empty and
/// transmit-complete.
#[derive(Clone, Copy, Debug, PartialEq, Eq, Structural)]
pub struct UartIrq {
    pub rx: bool,
    pub tx: bool,
}

pub open spec fn uart_irq_reset() -> UartIrq {
    UartIrq { rx: false, tx: false }
}

/// A serial channel handle: which channel a pin resolved to, and whether
/// the pin transmits on it.
#[derive(Clone, Copy, Debug, PartialEq, Eq, Structural)]
pub struct UartChannel {
    pub channel: u8,
    pub tx: bool,
}

/// Claims a serial channel's ownership slot. The first claim succeeds;
/// every later claim of the same channel is refused untouched.
pub fn uart_acquire(mcu: &mut Mcu, channel: u8) -> (r: Result<(), ProgError>)
    requires
        old(mcu).wf(),
        1 <= channel <= 6,
    ensures
        final(mcu).wf(),
        old(mcu).uart_slots.slots()[channel - 1] ==> r == Err::<(), ProgError>(
            ProgError::AlreadyConfigured,
        ) && *final(mcu) == *old(mcu),
        !old(mcu).uart_slots.slots()[channel - 1] ==> {
            &&& r == Ok::<(), ProgError>(())
            &&& *final(mcu) == (Mcu { uart_slots: final(mcu).uart_slots, ..*old(mcu) })
            &&& final(mcu).uart_slots.slots() == old(mcu).uart_slots.slots().update(
                channel - 1,
                true,
            )
        },
{
    match mcu.uart_slots.acquire((channel - 1) as usize) {
        Err(e) => Err(e),
        Ok(()) => Ok(()),
    }
}

/// Opens a pin's serial channel: resolves the pin's channel and direction
/// and claims the channel's ownership slot. The hardware bring-up of the
/// channel is the caller's step, against the returned handle.
pub fn uart_open(mcu: &mut Mcu, pin: (char, u8)) -> (r: Result<UartChannel, ProgError>)
    requires
        old(mcu).wf(),
    ensures
        final(mcu).wf(),
        old(mcu).uart_map.spec_resolve(pin) is None ==> r == Err::<UartChannel, ProgError>(
            ProgError::InvalidConfiguration,
        ) && *final(mcu) == *old(mcu),
        old(mcu).uart_map.spec_resolve(pin) matches Some(cd) ==> {
            if old(mcu).uart_slots.slots()[cd.0 - 1] {
                r == Err::<UartChannel, ProgError>(ProgError::AlreadyConfigured) && *final(mcu)
                    == *old(mcu)
            } else {
                &&& r == Ok::<UartChannel, ProgError>(UartChannel { channel: cd.0, tx: cd.1 })
                &&& *final(mcu) == (Mcu { uart_slots: final(mcu).uart_slots, ..*old(mcu) })
                &&& final(mcu).uart_slots.slots() == old(mcu).uart_slots.slots().update(
                    cd.0 - 1,
                    true,
                )
            }
        },
{
    let (channel, tx) = match mcu.uart_map.resolve(pin) {
        Option::Some(v) => v,
        Option::None => {
            return Err(ProgError::InvalidConfiguration);
        },
    };
    proof {
        lemma_resolve_rx_in_table(mcu.uart_map.entries@, pin);
        lemma_resolve_tx_in_table(mcu.uart_map.entries@, pin);
    }
    match uart_acquire(mcu, channel) {
        Err(e) => Err(e),
        Ok(()) => Ok(UartChannel { channel, tx }),
    }
}

/// Switches a pin's channel's receive interrupt on or off. The pin names
/// the channel through either of its table roles; a pin without serial
/// wiring is refused untouched.
pub fn uart_rx_interrupt(mcu: &mut Mcu, pin: (char, u8), enable: bool) -> (r: Result<
    (),
    ProgError,
>)
    requires
        old(mcu).wf(),
    ensures
        final(mcu).wf(),
        old(mcu).uart_map.spec_resolve(pin) is None ==> r == Err::<(), ProgError>(
            ProgError::InvalidConfiguration,
        ) && *final(mcu) == *old(mcu),
        old(mcu).uart_map.spec_resolve(pin) matches Some(cd) ==> {
            &&& r == Ok::<(), ProgError>(())
            &&& *final(mcu) == (Mcu { uart_irqs: final(mcu).uart_irqs, ..*old(mcu) })
            &&& final(mcu).uart_irqs@ == old(mcu).uart_irqs@.update(
                cd.0 - 1,
                (UartIrq { rx: enable, ..old(mcu).uart_irqs@[cd.0 - 1] }),
            )
        },
{
    let (channel, _tx) = match mcu.uart_map.resolve(pin) {
        Option::Some(v) => v,
        Option::None => {
            return Err(ProgError::InvalidConfiguration);
        },
    };
    proof {
        lemma_resolve_rx_in_table(mcu.uart_map.entries@, pin);
        lemma_resolve_tx_in_table(mcu.uart_map.entries@, pin);
    }
    let i = (channel - 1) as usize;
    let f = mcu.uart_irqs[i];
    mcu.uart_irqs.set(i, UartIrq { rx: enable, ..f });
    Ok(())
}

/// Switches a pin's channel's transmit interrupt on or off, the same way.
pub fn uart_tx_interrupt(mcu: &mut Mcu, pin: (char, u8), enable: bool) -> (r: Result<
    (),
    ProgError,
>)
    requires
        old(mcu).wf(),
    ensures
        final(mcu).wf(),
        old(mcu).uart_map.spec_resolve(pin) is None ==> r == Err::<(), ProgError>(
            ProgError::InvalidConfiguration,
        ) && *final(mcu) == *old(mcu),
        old(mcu).uart_map.spec_resolve(pin) matches Some(cd) ==> {
            &&& r == Ok::<(), ProgError>(())
            &&& *final(mcu) == (Mcu { uart_irqs: final(mcu).uart_irqs, ..*old(mcu) })
            &&& final(mcu).uart_irqs@ == old(mcu).uart_irqs@.update(
                cd.0 - 1,
                (UartIrq { tx: enable, ..old(mcu).uart_irqs@[cd.0 - 1] }),
            )
        },
{
    let (channel, _tx) = match mcu.uart_map.resolve(pin) {
        Option::Some(v) => v,
        Option::None => {
            return Err(ProgError::InvalidConfiguration);
        },
    };
    proof {
        lemma_resolve_rx_in_table(mcu.uart_map.entries@, pin);
        lemma_resolve_tx_in_table(mcu.uart_map.entries@, pin);
    }
    let i = (channel - 1) as usize;
    let f = mcu.uart_irqs[i];
    mcu.uart_irqs.set(i, UartIrq { tx: enable, ..f });
    Ok(())
}

/// Whether a serial channel has been opened; every traffic operation is
/// gated on this.
pub fn uart_active(mcu: &Mcu, channel: u8) -> (r: bool)
    requires
        mcu.wf(),
        1 <= channel <= 6,
    ensures
        r == mcu.uart_slots.slots()[channel - 1],
{
    mcu.uart_slots.taken((channel - 1) as usize)
}

/// The byte a character goes out as: its own code when it is ASCII, a
/// question mark otherwise.
pub open spec fn spec_tx_byte(c: char) -> u8 {
    if (c as u32) < 128 {
        (c as u32) as u8
    } else {
        (('?' as u32) as u8)
    }
}

/// The transmit payload decision: ASCII passes through, anything else is
/// replaced by a question mark.
pub fn tx_byte_of(c: char) -> (r: u8)
    ensures
        r == spec_tx_byte(c),
{
    let u = c as u32;
    if u < 128 {
        u as u8
    } else {
        let q = '?' as u32;
        q as u8
    }
}

/// Whether a character can serve as a receive-loop stop character: it must
/// be ASCII.
pub fn stopper_ok(c: char) -> (r: bool)
    ensures
        r == ((c as u32) < 128),
{
    (c as u32) < 128
}

/// One step of the receive-accumulate loop: a stop byte ends the loop and
/// is not stored; any other byte is appended. The caller bounds the buffer
/// at thirty bytes, the size of the driver's receive buffer.
pub fn collect_step(buf: &mut Vec<u8>, byte: u8, stopper: u8) -> (stop: bool)
    requires
        old(buf)@.len() < 30,
    ensures
        byte == stopper ==> stop && final(buf)@ == old(buf)@,
        byte != stopper ==> !stop && final(buf)@ == old(buf)@.push(byte),
{
    if byte == stopper {
        true
    } else {
        buf.push(byte);
        false
    }
}

} // verus!
