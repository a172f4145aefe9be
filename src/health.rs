use vstd::prelude::*;

verus! {

/// Hit points of a unit or a structure. Never negative; zero means dead.
#[derive(Clone, Copy, Debug, PartialEq, Eq, Structural)]
pub struct Health {
    pub current: u32,
}

/// Health left after `amount` damage: saturates at zero.
pub open spec fn damaged(h: int, amount: int) -> int {
    if h > amount {
        h - amount
    } else {
        0
    }
}

impl Health {
    pub fn new(initial: u32) -> (r: Health)
        ensures
            r.current == initial,
    {
        Health { current: initial }
    }

    pub fn current(&self) -> (r: u32)
        ensures
            r == self.current,
    {
        self.current
    }

    /// Subtracts `amount`, stopping at zero.
    pub fn damage(&mut self, amount: u32)
        ensures
            final(self).current == damaged(old(self).current as int, amount as int),
    {
        self.current = self.current.saturating_sub(amount);
    }

    /// Drops health to zero at once.
    pub fn kill(&mut self)
        ensures
            final(self).current == 0,
    {
        self.current = 0;
    }

    pub open spec fn spec_is_dead(&self) -> bool {
        self.current == 0
    }

    pub fn is_dead(&self) -> (r: bool)
        ensures
            r == self.spec_is_dead(),
    {
        self.current == 0
    }
}

/// Damage saturates: health after `damage(amount)` is `max(0, h - amount)`,
/// never negative, and never more than before.
pub proof fn lemma_damage_saturates(h: u32, amount: u32)
    ensures
        damaged(h as int, amount as int) == vstd::math::max(0, h - amount),
        damaged(h as int, amount as int) >= 0,
        damaged(h as int, amount as int) <= h,
{
}

} // verus!
