//! Capability registry: immutable tables mapping a pin to the one physical
//! peripheral instance and channel that may serve it, per peripheral family.

use vstd::prelude::*;
use crate::ProgError;

verus! {

/// One record of a capability table: a pin and the slot it may legally use.
#[derive(Clone, Copy, Debug, PartialEq, Eq)]
pub struct CapEntry {
    pub pin: (char, u8),
    pub instance: u8,
    pub channel: u8,
}

/// A fixed pin-to-slot table for one peripheral family. Built once before
/// the device model is assembled; read-only afterwards.
pub struct CapTable {
    pub entries: Vec<CapEntry>,
}

/// The slot of the first entry whose pin matches, if any.
pub open spec fn resolve_seq(s: Seq<CapEntry>, pin: (char, u8)) -> Option<(u8, u8)>
    decreases s.len(),
{
    if s.len() == 0 {
        None
    } else if s[0].pin == pin {
        Some((s[0].instance, s[0].channel))
    } else {
        resolve_seq(s.drop_first(), pin)
    }
}

impl CapTable {
    /// A pin appears at most once per family table.
    pub open spec fn pins_unique(self) -> bool {
        forall|i: int, j: int|
            0 <= i < j < self.entries@.len() ==> self.entries@[i].pin != self.entries@[j].pin
    }

    pub open spec fn spec_resolve(self, pin: (char, u8)) -> Option<(u8, u8)> {
        resolve_seq(self.entries@, pin)
    }

    pub fn empty() -> (t: CapTable)
        ensures
            t.entries@ =~= Seq::<CapEntry>::empty(),
    {
        CapTable { entries: Vec::new() }
    }

    /// Appends a record; refuses a pin that is already in the table, which
    /// keeps `pins_unique` an invariant of construction.
    pub fn add(&mut self, pin: (char, u8), instance: u8, channel: u8) -> (r: Result<(), ProgError>)
        ensures
            r == Ok::<(), ProgError>(()) <==> resolve_seq(old(self).entries@, pin) is None,
            r is Ok ==> final(self).entries@ == old(self).entries@.push(
                (CapEntry { pin, instance, channel }),
            ),
            r is Err ==> *final(self) == *old(self) && r == Err::<(), ProgError>(
                ProgError::AlreadyConfigured,
            ),
            old(self).pins_unique() ==> final(self).pins_unique(),
    {
        if self.resolve(pin).is_some() {
            return Err(ProgError::AlreadyConfigured);
        }
        proof {
            lemma_resolve_none_means_absent(self.entries@, pin);
        }
        self.entries.push(CapEntry { pin, instance, channel });
        Ok(())
    }

    /// Pure lookup of a pin's slot: no side effects, deterministic, a
    /// function of the table and the pin alone.
    pub fn resolve(&self, pin: (char, u8)) -> (r: Option<(u8, u8)>)
        ensures
            r == self.spec_resolve(pin),
    {
        let n = self.entries.len();
        proof {
            assert(self.entries@.skip(0) =~= self.entries@);
        }
        let mut i: usize = 0;
        while i < n
            invariant
                n == self.entries@.len(),
                i <= n,
                resolve_seq(self.entries@, pin) == resolve_seq(self.entries@.skip(i as int), pin),
            decreases n - i,
        {
            let e = self.entries[i];
            proof {
                assert(self.entries@.skip(i as int)[0] == self.entries@[i as int]);
            }
            if e.pin.0 == pin.0 && e.pin.1 == pin.1 {
                return Some((e.instance, e.channel));
            }
            proof {
                assert(self.entries@.skip(i as int).drop_first() =~= self.entries@.skip(
                    i as int + 1,
                ));
            }
            i += 1;
        }
        proof {
            assert(self.entries@.skip(n as int) =~= Seq::<CapEntry>::empty());
        }
        None
    }
}

/// Checks a table's central registry invariant, that no pin repeats.
pub fn pins_unique_check(t: &CapTable) -> (r: bool)
    ensures
        r == t.pins_unique(),
{
    let n = t.entries.len();
    let mut i: usize = 0;
    while i < n
        invariant
            n == t.entries@.len(),
            i <= n,
            forall|a: int, b: int| 0 <= a < b < i ==> t.entries@[a].pin != t.entries@[b].pin,
        decreases n - i,
    {
        let mut j: usize = 0;
        while j < i
            invariant
                j <= i,
                i < n,
                n == t.entries@.len(),
                forall|a: int, b: int| 0 <= a < b < i ==> t.entries@[a].pin != t.entries@[b].pin,
                forall|a: int| 0 <= a < j ==> t.entries@[a].pin != t.entries@[i as int].pin,
            decreases i - j,
        {
            let e1 = t.entries[j];
            let e2 = t.entries[i];
            if e1.pin.0 == e2.pin.0 && e1.pin.1 == e2.pin.1 {
                proof {
                    assert(t.entries@[j as int].pin == t.entries@[i as int].pin);
                }
                return false;
            }
            j += 1;
        }
        i += 1;
    }
    true
}

/// A successful resolution names the slot of an entry of the table.
pub proof fn lemma_resolve_in_table(s: Seq<CapEntry>, pin: (char, u8))
    ensures
        resolve_seq(s, pin) matches Some(ic) ==> exists|k: int|
            0 <= k < s.len() && s[k].pin == pin && s[k].instance == ic.0 && s[k].channel == ic.1,
    decreases s.len(),
{
    if s.len() > 0 && s[0].pin != pin {
        lemma_resolve_in_table(s.drop_first(), pin);
        if resolve_seq(s, pin) is Some {
            let ic = resolve_seq(s, pin)->Some_0;
            let k = choose|k: int|
                0 <= k < s.drop_first().len() && s.drop_first()[k].pin == pin
                    && s.drop_first()[k].instance == ic.0 && s.drop_first()[k].channel == ic.1;
            assert(s[k + 1] == s.drop_first()[k]);
        }
    }
}

/// When no entry matches a pin, resolution yields nothing.
pub proof fn lemma_resolve_none_means_absent(s: Seq<CapEntry>, pin: (char, u8))
    ensures
        resolve_seq(s, pin) is None <==> forall|k: int| 0 <= k < s.len() ==> s[k].pin != pin,
    decreases s.len(),
{
    if s.len() > 0 {
        lemma_resolve_none_means_absent(s.drop_first(), pin);
        if resolve_seq(s, pin) is None {
            assert forall|k: int| 0 <= k < s.len() implies s[k].pin != pin by {
                if k > 0 {
                    assert(s.drop_first()[k - 1] == s[k]);
                }
            }
        }
        if forall|k: int| 0 <= k < s.len() ==> s[k].pin != pin {
            assert forall|j: int|
                0 <= j < s.drop_first().len() implies #[trigger] s.drop_first()[j].pin != pin by {
                assert(s.drop_first()[j] == s[j + 1]);
            }
            assert(s[0].pin != pin);
        }
    }
}

/// Resolution has no hidden state: in a table whose pins are unique, the
/// slot resolved for a pin is the slot of whichever entry carries that pin,
/// so resolving the same pin any number of times yields the same pair.
pub proof fn lemma_resolve_deterministic(t: CapTable, pin: (char, u8), k: int)
    requires
        t.pins_unique(),
        0 <= k < t.entries@.len(),
        t.entries@[k].pin == pin,
    ensures
        t.spec_resolve(pin) == Some((t.entries@[k].instance, t.entries@[k].channel)),
{
    lemma_resolve_deterministic_seq(t.entries@, pin, k);
}

proof fn lemma_resolve_deterministic_seq(s: Seq<CapEntry>, pin: (char, u8), k: int)
    requires
        forall|i: int, j: int| 0 <= i < j < s.len() ==> s[i].pin != s[j].pin,
        0 <= k < s.len(),
        s[k].pin == pin,
    ensures
        resolve_seq(s, pin) == Some((s[k].instance, s[k].channel)),
    decreases s.len(),
{
    if k > 0 {
        assert(s[0].pin != pin);
        assert(forall|i: int, j: int|
            0 <= i < j < s.drop_first().len() ==> #[trigger] s.drop_first()[i].pin
                != #[trigger] s.drop_first()[j].pin);
        lemma_resolve_deterministic_seq(s.drop_first(), pin, k - 1);
    }
}

} // verus!
