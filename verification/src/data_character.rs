//! The data of a character.

use crate::data::{Data, TypeKey};
use vstd::prelude::*;

verus! {

/// The health of a character.
#[derive(Clone, Copy, Debug, PartialEq, Eq, Structural)]
pub struct Health {
    pub current_health: i32,
    pub max_health: u32,
    pub temporary: u32,
}

impl Default for Health {
    fn default() -> (health: Health)
        ensures
            health == (Health { current_health: 0, max_health: 0, temporary: 0 }),
    {
        Health { current_health: 0, max_health: 0, temporary: 0 }
    }
}

impl Health {
    /// Health without temporary points.
    pub fn new(current_health: i32, max_health: u32) -> (health: Health)
        ensures
            health == (Health { current_health, max_health, temporary: 0 }),
    {
        Health { current_health, max_health, temporary: 0 }
    }

    /// The health after `amount` is added to the current health. The sum
    /// stops at the bounds of `i32`.
    pub open spec fn healed_by(self, amount: i32) -> Health {
        Health {
            current_health: if self.current_health + amount > i32::MAX {
                i32::MAX
            } else if self.current_health + amount < i32::MIN {
                i32::MIN
            } else {
                (self.current_health + amount) as i32
            },
            max_health: self.max_health,
            temporary: self.temporary,
        }
    }

    /// Adds `amount` to the current health. The sum stops at the bounds of
    /// `i32`.
    pub fn heal(&self, amount: i32) -> (health: Health)
        ensures
            health == self.healed_by(amount),
    {
        let current_health = match self.current_health.checked_add(amount) {
            Some(sum) => sum,
            None => if amount > 0 {
                i32::MAX
            } else {
                i32::MIN
            },
        };
        Health { current_health, max_health: self.max_health, temporary: self.temporary }
    }
}

/// A store or sheet that holds nothing but health needs no erasure: a
/// health is its own erased form.
impl Data<Health> for Health {
    open spec fn type_key() -> TypeKey {
        0
    }

    open spec fn erased(self) -> Health {
        self
    }

    open spec fn recovered(v: Health) -> Option<Self> {
        Some(v)
    }

    proof fn lemma_recover_erased(self) {
    }

    fn key() -> (k: TypeKey) {
        0
    }

    fn erase(self) -> (v: Health) {
        self
    }

    fn recover(v: &Health) -> (r: Option<&Self>) {
        Some(v)
    }

    fn recover_mut(v: &mut Health) -> (r: Option<&mut Self>) {
        Some(v)
    }
}

} // verus!
