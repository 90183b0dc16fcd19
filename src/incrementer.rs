//! A counter with a number per account that reads as zero until set.
use vstd::prelude::*;
use crate::account::AccountId;
use crate::store::{entry, numbers_held, NumberTable};

verus! {

/// A shared counter, and a number per account that reads as zero until set.
pub struct Incrementer {
    my_value: NumberTable,
    value: i32,
}

impl Incrementer {
    /// The counter's value.
    pub closed spec fn current(&self) -> int {
        self.value as int
    }

    /// The number recorded for `a`, zero if there is none.
    pub closed spec fn number_of(&self, a: AccountId) -> int {
        match entry(numbers_held(self.my_value), a) {
            Some(v) => v as int,
            None => 0,
        }
    }

    /// A counter starting at `init_value`, with no number recorded.
    pub fn new(init_value: i32) -> (r: Incrementer)
        ensures
            r.current() == init_value,
            forall|a: AccountId| #[trigger] r.number_of(a) == 0,
    {
        Incrementer { value: init_value, my_value: NumberTable::new() }
    }

    /// A counter starting at zero, with no number recorded.
    pub fn default() -> (r: Incrementer)
        ensures
            r.current() == 0,
            forall|a: AccountId| #[trigger] r.number_of(a) == 0,
    {
        Incrementer { value: 0, my_value: NumberTable::new() }
    }

    /// The counter's value.
    pub fn get(&self) -> (r: i32)
        ensures
            r == self.current(),
    {
        self.value
    }

    /// Adds `by` to the counter.
    pub fn inc(&mut self, by: i32)
        requires
            i32::MIN <= old(self).current() + by <= i32::MAX,
        ensures
            final(self).current() == old(self).current() + by,
            forall|a: AccountId| #[trigger] final(self).number_of(a) == old(self).number_of(a),
    {
        self.value = self.value + by;
    }

    /// The number recorded for the caller, zero if there is none.
    pub fn get_mine(&self, caller: AccountId) -> (r: i32)
        ensures
            r == self.number_of(caller),
    {
        self.my_number_or_zero(&caller)
    }

    /// The number recorded for `of`, zero if there is none.
    fn my_number_or_zero(&self, of: &AccountId) -> (r: i32)
        ensures
            r == self.number_of(*of),
    {
        match self.my_value.get(of) {
            Some(v) => v,
            None => 0,
        }
    }
}

} // verus!
