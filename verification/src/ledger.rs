//! Allocation ledger: process-wide record of which peripheral slots and
//! which pins are already committed. Flags are set exactly once, by the
//! first successful configuration, and never cleared.

use vstd::prelude::*;
use crate::ProgError;

verus! {

/// The items currently stored in the fixed-capacity pin vector.
pub uninterp spec fn pin_entries(v: heapless::Vec<(char, u8), 50>) -> Seq<(char, u8)>;

#[verifier::external_type_specification]
#[verifier::external_body]
#[verifier::reject_recursive_types(T)]
pub struct ExHeaplessVec<T, const N: usize>(heapless::Vec<T, N>);

/// Relies on heapless::Vec::new: a fresh vector holds no items.
#[verifier::external_body]
fn hvec_new() -> (v: heapless::Vec<(char, u8), 50>)
    ensures
        pin_entries(v) == Seq::<(char, u8)>::empty(),
{
    heapless::Vec::new()
}

/// Relies on heapless::Vec's slice view (Deref) and core's slice::contains:
/// true exactly when the pair is among the stored items.
#[verifier::external_body]
fn hvec_contains(v: &heapless::Vec<(char, u8), 50>, pin: (char, u8)) -> (r: bool)
    ensures
        r == pin_entries(*v).contains(pin),
{
    v.contains(&pin)
}

/// Relies on heapless::Vec::push: appends the item when the vector holds
/// fewer items than its capacity, and rejects it unchanged otherwise.
#[verifier::external_body]
fn hvec_push(v: &mut heapless::Vec<(char, u8), 50>, pin: (char, u8)) -> (r: bool)
    ensures
        r == (pin_entries(*old(v)).len() < 50),
        r ==> pin_entries(*final(v)) == pin_entries(*old(v)).push(pin),
        !r ==> *final(v) == *old(v),
{
    v.push(pin).is_ok()
}

/// The set of pin identifiers that have already been given a mode.
pub struct PinLedger {
    vec: heapless::Vec<(char, u8), 50>,
}

impl PinLedger {
    pub closed spec fn items(self) -> Seq<(char, u8)> {
        pin_entries(self.vec)
    }

    pub fn new() -> (l: PinLedger)
        ensures
            l.items() == Seq::<(char, u8)>::empty(),
    {
        PinLedger { vec: hvec_new() }
    }

    pub fn contains(&self, pin: (char, u8)) -> (r: bool)
        ensures
            r == self.items().contains(pin),
    {
        hvec_contains(&self.vec, pin)
    }

    /// Check-then-insert, the only way a pin enters the ledger. A pin that
    /// is already present is refused; a pin that does not fit (the backing
    /// store is full) is refused as an invalid configuration.
    pub fn acquire(&mut self, pin: (char, u8)) -> (r: Result<(), ProgError>)
        ensures
            old(self).items().contains(pin) ==> r == Err::<(), ProgError>(
                ProgError::AlreadyConfigured,
            ) && *final(self) == *old(self),
            !old(self).items().contains(pin) && old(self).items().len() >= 50 ==> r == Err::<
                (),
                ProgError,
            >(ProgError::InvalidConfiguration) && *final(self) == *old(self),
            !old(self).items().contains(pin) && old(self).items().len() < 50 ==> r == Ok::<
                (),
                ProgError,
            >(()) && final(self).items() == old(self).items().push(pin),
    {
        if self.contains(pin) {
            return Err(ProgError::AlreadyConfigured);
        }
        if hvec_push(&mut self.vec, pin) {
            Ok(())
        } else {
            Err(ProgError::InvalidConfiguration)
        }
    }
}

/// One boolean ownership flag per (peripheral instance, channel) slot.
pub struct SlotLedger {
    flags: Vec<bool>,
}

impl SlotLedger {
    pub closed spec fn slots(self) -> Seq<bool> {
        self.flags@
    }

    /// A zero-initialised ledger: every slot is free.
    pub fn new(n: usize) -> (l: SlotLedger)
        ensures
            l.slots() == Seq::new(n as nat, |k: int| false),
    {
        let mut flags: Vec<bool> = Vec::new();
        let mut i: usize = 0;
        while i < n
            invariant
                i <= n,
                flags@ == Seq::new(i as nat, |k: int| false),
            decreases n - i,
        {
            flags.push(false);
            proof {
                assert(flags@ =~= Seq::new((i + 1) as nat, |k: int| false));
            }
            i += 1;
        }
        SlotLedger { flags }
    }

    pub fn taken(&self, i: usize) -> (r: bool)
        requires
            i < self.slots().len(),
        ensures
            r == self.slots()[i as int],
    {
        self.flags[i]
    }

    /// Atomic check-then-set: the first acquire of a slot succeeds and
    /// commits it; every later acquire of the same slot fails and changes
    /// nothing. No other slot is touched either way.
    pub fn acquire(&mut self, i: usize) -> (r: Result<(), ProgError>)
        requires
            i < old(self).slots().len(),
        ensures
            old(self).slots()[i as int] ==> r == Err::<(), ProgError>(ProgError::AlreadyConfigured)
                && *final(self) == *old(self),
            !old(self).slots()[i as int] ==> r == Ok::<(), ProgError>(()) && final(self).slots()
                == old(self).slots().update(i as int, true),
    {
        if self.flags[i] {
            Err(ProgError::AlreadyConfigured)
        } else {
            self.flags.set(i, true);
            Ok(())
        }
    }
}

/// The slot model of one acquire: the slot becomes taken, the rest keep
/// their flags (an acquire of an already-taken slot changes nothing, which
/// the update also expresses).
pub open spec fn spec_acquire(s: Seq<bool>, i: int) -> Seq<bool> {
    s.update(i, true)
}

/// The slot model of a whole interleaving: acquires applied in order.
pub open spec fn run_acquires(s: Seq<bool>, ops: Seq<int>) -> Seq<bool>
    decreases ops.len(),
{
    if ops.len() == 0 {
        s
    } else {
        run_acquires(spec_acquire(s, ops[0]), ops.drop_first())
    }
}

/// On the zero-initialised ledger every slot is free, so the first acquire
/// of any slot succeeds.
pub proof fn lemma_first_acquire_succeeds(n: nat, i: int)
    requires
        0 <= i < n,
    ensures
        !Seq::new(n, |k: int| false)[i],
{
}

/// Ownership is permanent: once a slot is taken it stays taken under any
/// further acquires, on any slots, in any order — so a later acquire of
/// that slot always fails, regardless of interleaving.
pub proof fn lemma_slot_stays_taken(s: Seq<bool>, ops: Seq<int>, i: int)
    requires
        0 <= i < s.len(),
        s[i],
        forall|k: int| 0 <= k < ops.len() ==> 0 <= #[trigger] ops[k] < s.len(),
    ensures
        run_acquires(s, ops).len() == s.len(),
        run_acquires(s, ops)[i],
    decreases ops.len(),
{
    if ops.len() > 0 {
        let s2 = spec_acquire(s, ops[0]);
        assert(s2[i]);
        assert(forall|k: int|
            0 <= k < ops.drop_first().len() ==> 0 <= #[trigger] ops.drop_first()[k] < s2.len());
        lemma_slot_stays_taken(s2, ops.drop_first(), i);
    }
}

} // verus!
