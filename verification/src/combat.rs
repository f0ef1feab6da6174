use vstd::prelude::*;

verus! {

/// A unit that picked a fight: it spreads the aggression to nearby allies during the tick it
/// started and the next one.
#[derive(PartialEq, Eq, Structural, Clone, Copy, Debug)]
pub enum Agroed<E> {
    ThisTick(E),
    LastTick(E),
}

impl<E> Agroed<E> {
    /// The enemy the unit went after.
    pub fn target(&self) -> (target: E)
        where
            E: Copy,
        ensures
            target == match *self {
                Agroed::ThisTick(e) => e,
                Agroed::LastTick(e) => e,
            },
    {
        match self {
            Agroed::ThisTick(e) => *e,
            Agroed::LastTick(e) => *e,
        }
    }

    /// The marker one tick later; it is gone after its second tick.
    pub fn next_tick(self) -> (next: Option<Agroed<E>>)
        ensures
            next == match self {
                Agroed::ThisTick(e) => Some(Agroed::LastTick(e)),
                Agroed::LastTick(_) => None::<Agroed<E>>,
            },
    {
        match self {
            Agroed::ThisTick(e) => Some(Agroed::LastTick(e)),
            Agroed::LastTick(_) => None,
        }
    }
}

} // verus!
