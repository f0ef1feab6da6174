use vstd::prelude::*;

verus! {

/// One step of the computer player's pre-recorded plan.
#[derive(Clone, Copy, Debug)]
pub enum AiBuildOrderItem<E, P> {
    /// Build a pump on this cheese geyser.
    BuildPump(E),
    BuildArmoury(P),
    /// Queue this many mouse marines, each in the shortest recruitment queue.
    RecruitMarine(usize),
    SetWaypoint(P),
    AttackMove(P),
}

/// The computer player's plan: steps with the game time (`T`) at which each is due, in order.
#[derive(Debug)]
pub struct AiBuildOrders<T, E, P> {
    pub orders: Vec<(T, AiBuildOrderItem<E, P>)>,
}

impl<T, E, P> AiBuildOrders<T, E, P> {
    /// When the next step is due.
    pub fn next_due_time(&self) -> (time: Option<&T>)
        ensures
            match time {
                Some(t) => self.orders@.len() > 0 && *t == self.orders@[0].0,
                None => self.orders@.len() == 0,
            },
    {
        if self.orders.len() > 0 {
            Some(&self.orders[0].0)
        } else {
            None
        }
    }

    /// Takes the next step off the plan when it is due (`due` says whether its time has come).
    pub fn take_due(&mut self, due: bool) -> (step: Option<AiBuildOrderItem<E, P>>)
        ensures
            if due && old(self).orders@.len() > 0 {
                &&& step == Some(old(self).orders@[0].1)
                &&& final(self).orders@ == old(self).orders@.drop_first()
            } else {
                &&& step is None
                &&& final(self).orders@ == old(self).orders@
            },
    {
        if due && self.orders.len() > 0 {
            let (_, item) = self.orders.remove(0);
            Some(item)
        } else {
            None
        }
    }
}

} // verus!
