//! Gas: a budget that every store operation of a transaction draws on, by
//! a cost that depends on the lengths of the key and the value alone.

use vstd::prelude::*;

verus! {

/// Flat cost of a read.
pub const READ_COST_FLAT: u64 = 1000;

/// Cost of a read for each byte of the key and of the value.
pub const READ_COST_PER_BYTE: u64 = 3;

/// Flat cost of a write.
pub const WRITE_COST_FLAT: u64 = 2000;

/// Cost of a write for each byte of the key and of the value.
pub const WRITE_COST_PER_BYTE: u64 = 30;

/// Cost of a deletion.
pub const DELETE_COST: u64 = 1000;

/// Flat cost of each entry that an iteration yields.
pub const ITER_NEXT_COST_FLAT: u64 = 30;

/// The cost of reading a value of `value_len` bytes under a key of
/// `key_len` bytes; a key that is not there has a value of no bytes.
pub open spec fn read_cost(key_len: nat, value_len: nat) -> nat {
    (READ_COST_FLAT + READ_COST_PER_BYTE * (key_len + value_len)) as nat
}

/// The cost of writing a value of `value_len` bytes under a key of
/// `key_len` bytes.
pub open spec fn write_cost(key_len: nat, value_len: nat) -> nat {
    (WRITE_COST_FLAT + WRITE_COST_PER_BYTE * (key_len + value_len)) as nat
}

/// The cost of deleting a key.
pub open spec fn delete_cost() -> nat {
    DELETE_COST as nat
}

/// The cost of one entry that an iteration yields.
pub open spec fn iter_cost(key_len: nat, value_len: nat) -> nat {
    (ITER_NEXT_COST_FLAT + READ_COST_PER_BYTE * (key_len + value_len)) as nat
}

/// The budget and what has been drawn from it.
pub struct GasState {
    pub limit: nat,
    pub consumed: nat,
}

impl GasState {
    /// What is left of the budget.
    pub open spec fn remaining(self) -> nat {
        (self.limit - self.consumed) as nat
    }

    /// Whether `cost` can be drawn.
    pub open spec fn affords(self, cost: nat) -> bool {
        self.consumed + cost <= self.limit
    }

    /// The state after `cost` was drawn.
    pub open spec fn charged(self, cost: nat) -> GasState {
        GasState { consumed: self.consumed + cost, ..self }
    }

    /// The state after one charge was tried: drawn in full if it can be,
    /// else nothing is drawn.
    pub open spec fn after(self, cost: nat) -> GasState {
        if self.affords(cost) {
            self.charged(cost)
        } else {
            self
        }
    }

    /// The state after the charges in `costs` were tried one after the
    /// other, stopping at the first that cannot be drawn.
    pub open spec fn after_all(self, costs: Seq<nat>) -> GasState
        decreases costs.len(),
    {
        if costs.len() == 0 {
            self
        } else if self.affords_all(costs.drop_last()) {
            self.after_all(costs.drop_last()).after(costs.last())
        } else {
            self.after_all(costs.drop_last())
        }
    }

    /// Whether all the charges in `costs` can be drawn one after the other.
    pub open spec fn affords_all(self, costs: Seq<nat>) -> bool
        decreases costs.len(),
    {
        if costs.len() == 0 {
            true
        } else {
            self.affords_all(costs.drop_last()) && self.after_all(costs.drop_last()).affords(
                costs.last(),
            )
        }
    }
}

/// Charges never change the budget and never give back what was drawn.
pub proof fn lemma_charges_grow(g: GasState, costs: Seq<nat>)
    ensures
        g.after_all(costs).limit == g.limit,
        g.after_all(costs).consumed >= g.consumed,
        g.consumed <= g.limit ==> g.after_all(costs).consumed <= g.limit,
    decreases costs.len(),
{
    if costs.len() > 0 {
        lemma_charges_grow(g, costs.drop_last());
    }
}

/// Charging in two runs is charging in one: whether all of a list of
/// costs can be drawn, and what is left then, is the same whether the
/// list is charged at once or its first part and then the rest. Where
/// the first part cannot be drawn, nothing of the rest is.
pub proof fn lemma_charges_in_parts(g: GasState, first: Seq<nat>, rest: Seq<nat>)
    ensures
        g.affords_all(first + rest) == (g.affords_all(first) && g.after_all(first).affords_all(
            rest,
        )),
        g.affords_all(first) ==> g.after_all(first + rest) == g.after_all(first).after_all(rest),
        !g.affords_all(first) ==> g.after_all(first + rest) == g.after_all(first),
    decreases rest.len(),
{
    if rest.len() == 0 {
        assert(first + rest =~= first);
    } else {
        lemma_charges_in_parts(g, first, rest.drop_last());
        assert((first + rest).drop_last() =~= first + rest.drop_last());
        assert((first + rest).last() == rest.last());
    }
}

/// The budget is used up: a charge could not be drawn in full.
#[derive(Debug, PartialEq, Eq)]
pub struct OutOfGas {
    /// What the charge was for.
    pub description: String,
}

/// A gas meter.
#[derive(Debug)]
pub struct GasMeter {
    limit: u64,
    consumed: u64,
}

impl GasMeter {
    #[verifier::type_invariant]
    spec fn within_limit(&self) -> bool {
        self.consumed <= self.limit
    }

    /// The budget and what has been drawn from it.
    pub closed spec fn view(&self) -> GasState {
        GasState { limit: self.limit as nat, consumed: self.consumed as nat }
    }

    /// A meter with the budget `limit`, nothing drawn.
    pub fn new(limit: u64) -> (m: GasMeter)
        ensures
            m@ == (GasState { limit: limit as nat, consumed: 0 }),
    {
        GasMeter { limit, consumed: 0 }
    }

    /// The budget.
    pub fn limit(&self) -> (r: u64)
        ensures
            r == self@.limit,
    {
        self.limit
    }

    /// What has been drawn.
    pub fn consumed(&self) -> (r: u64)
        ensures
            r == self@.consumed,
            self@.consumed <= self@.limit,
    {
        proof {
            use_type_invariant(self);
        }
        self.consumed
    }

    /// What is left.
    pub fn remaining(&self) -> (r: u64)
        ensures
            r == self@.remaining(),
            self@.consumed <= self@.limit,
    {
        proof {
            use_type_invariant(self);
        }
        self.limit - self.consumed
    }

    /// Draws `amount` from the budget. Either all of it is drawn, or, where
    /// less than `amount` is left, nothing is and the charge fails.
    pub fn charge(&mut self, amount: u64, description: &str) -> (r: Result<(), OutOfGas>)
        ensures
            final(self)@ == old(self)@.after(amount as nat),
            r is Ok == old(self)@.affords(amount as nat),
            r matches Err(e) ==> e.description@ == description@,
    {
        self.charge_wide(amount as u128, description)
    }

    /// As [`GasMeter::charge`], for a cost that may be beyond any budget.
    pub fn charge_wide(&mut self, amount: u128, description: &str) -> (r: Result<(), OutOfGas>)
        ensures
            final(self)@ == old(self)@.after(amount as nat),
            r is Ok == old(self)@.affords(amount as nat),
            r matches Err(e) ==> e.description@ == description@,
    {
        proof {
            use_type_invariant(&*self);
        }
        let left = self.limit - self.consumed;
        if amount <= left as u128 {
            self.consumed = self.consumed + amount as u64;
            Ok(())
        } else {
            Err(OutOfGas { description: description.to_owned() })
        }
    }

    /// As [`GasMeter::charge`], for a cost `exact` that is handed over as
    /// `amount`, cut off at the largest number that fits.
    pub(crate) fn charge_capped(
        &mut self,
        amount: u128,
        description: &str,
        Ghost(exact): Ghost<nat>,
    ) -> (r: Result<(), OutOfGas>)
        requires
            amount == if exact <= u128::MAX { exact } else { u128::MAX as nat },
        ensures
            final(self)@ == old(self)@.after(exact),
            r is Ok == old(self)@.affords(exact),
            r matches Err(e) ==> e.description@ == description@,
    {
        proof {
            use_type_invariant(&*self);
        }
        self.charge_wide(amount, description)
    }

    /// A copy of the meter.
    pub fn duplicate(&self) -> (m: GasMeter)
        ensures
            m@ == self@,
    {
        proof {
            use_type_invariant(self);
        }
        GasMeter { limit: self.limit, consumed: self.consumed }
    }
}

/// The cost of a read, as a number.
pub fn read_cost_of(key_len: usize, value_len: usize) -> (c: u128)
    ensures
        c == read_cost(key_len as nat, value_len as nat),
{
    READ_COST_FLAT as u128 + READ_COST_PER_BYTE as u128 * (key_len as u128 + value_len as u128)
}

/// The cost of a write, as a number.
pub fn write_cost_of(key_len: usize, value_len: usize) -> (c: u128)
    ensures
        c == write_cost(key_len as nat, value_len as nat),
{
    WRITE_COST_FLAT as u128 + WRITE_COST_PER_BYTE as u128 * (key_len as u128 + value_len as u128)
}

/// The cost of one entry of an iteration, as a number.
pub fn iter_cost_of(key_len: usize, value_len: usize) -> (c: u128)
    ensures
        c == iter_cost(key_len as nat, value_len as nat),
{
    ITER_NEXT_COST_FLAT as u128 + READ_COST_PER_BYTE as u128 * (key_len as u128 + value_len as u128)
}

} // verus!
