use vstd::prelude::*;

verus! {

/// The simulation speed selector: a three-valued cyclic enumeration, each
/// value mapped to a fixed simulation-step duration.
#[derive(Clone, Copy, PartialEq, Eq, Structural, Debug)]
pub enum TickRate {
    Slow,
    Normal,
    Fast,
}

impl TickRate {
    /// The cyclic successor: one step faster, wrapping from Fast back to Slow.
    pub open spec fn spec_next(self) -> TickRate {
        match self {
            TickRate::Slow => TickRate::Normal,
            TickRate::Normal => TickRate::Fast,
            TickRate::Fast => TickRate::Slow,
        }
    }

    /// The cyclic predecessor: one step slower, wrapping from Slow back to Fast.
    pub open spec fn spec_prev(self) -> TickRate {
        match self {
            TickRate::Slow => TickRate::Fast,
            TickRate::Normal => TickRate::Slow,
            TickRate::Fast => TickRate::Normal,
        }
    }

    /// The simulation-step duration, in milliseconds:
    /// Slow is one second, Normal a fifth, Fast a tenth.
    pub open spec fn spec_duration_ms(self) -> u64 {
        match self {
            TickRate::Slow => 1000,
            TickRate::Normal => 200,
            TickRate::Fast => 100,
        }
    }

    /// Cycle one step faster.
    pub fn increase(&mut self)
        ensures
            *final(self) == old(self).spec_next(),
    {
        *self = match *self {
            TickRate::Slow => TickRate::Normal,
            TickRate::Normal => TickRate::Fast,
            TickRate::Fast => TickRate::Slow,
        }
    }

    /// Cycle one step slower.
    pub fn decrease(&mut self)
        ensures
            *final(self) == old(self).spec_prev(),
    {
        *self = match *self {
            TickRate::Slow => TickRate::Fast,
            TickRate::Normal => TickRate::Slow,
            TickRate::Fast => TickRate::Normal,
        }
    }

    /// The simulation-step duration in milliseconds.
    pub fn duration_ms(&self) -> (d: u64)
        ensures
            d == self.spec_duration_ms(),
    {
        match self {
            TickRate::Slow => 1000,
            TickRate::Normal => 200,
            TickRate::Fast => 100,
        }
    }
}

/// Speed cycling is periodic with period three, and cycling down inverts
/// cycling up: three consecutive increases return to the starting rate, and
/// a decrease undoes an increase.
pub proof fn lemma_tick_rate_cycle(t: TickRate)
    ensures
        t.spec_next().spec_next().spec_next() == t,
        t.spec_next().spec_prev() == t,
        t.spec_prev().spec_next() == t,
{
}

} // verus!
