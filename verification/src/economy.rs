use vstd::prelude::*;
use std::collections::VecDeque;
use crate::entities::{Building, Side, Unit};

verus! {

/// The player's money.
#[derive(PartialEq, Eq, Structural, Clone, Copy, Debug)]
pub struct CheeseCoins(pub u32);

impl CheeseCoins {
    pub fn can_afford(&self, cost: u32) -> (affordable: bool)
        ensures
            affordable == (cost <= self.0),
    {
        cost <= self.0
    }

    pub fn spend(&mut self, cost: u32)
        requires
            cost <= old(self).0,
        ensures
            final(self).0 == old(self).0 - cost,
    {
        self.0 = self.0 - cost;
    }

    /// A finished pump of the player's side pays two coins whenever its cooldown has run out.
    /// Returns whether it paid, in which case its cooldown starts again.
    pub fn collect_from_pump(
        &mut self,
        cooldown_ready: bool,
        building: Building,
        side: Side,
        player_side: Side,
    ) -> (paid: bool)
        requires
            cooldown_ready && building == Building::Pump && side == player_side ==> old(self).0 + 2
                <= u32::MAX,
        ensures
            paid == (cooldown_ready && building == Building::Pump && side == player_side),
            final(self).0 == if paid {
                old(self).0 + 2
            } else {
                old(self).0 as int
            },
    {
        if cooldown_ready && building == Building::Pump && side == player_side {
            self.0 = self.0 + 2;
            true
        } else {
            false
        }
    }
}

/// Counts shown at the end of a scenario.
#[derive(PartialEq, Eq, Structural, Clone, Copy, Debug)]
pub struct GameStats {
    pub units_lost: u32,
    pub enemy_buildings_destroyed: u32,
    pub enemy_units_killed: u32,
}

impl GameStats {
    pub fn new() -> (stats: GameStats)
        ensures
            stats == (GameStats { units_lost: 0, enemy_buildings_destroyed: 0, enemy_units_killed: 0 }),
    {
        GameStats { units_lost: 0, enemy_buildings_destroyed: 0, enemy_units_killed: 0 }
    }

    /// Counts an entity that was destroyed: anything of the player's side is a loss; of the
    /// enemy's side, a building or a unit destroyed.
    pub fn record_destroyed(&mut self, side: Side, player_side: Side, is_building: bool)
        requires
            old(self).units_lost < u32::MAX,
            old(self).enemy_buildings_destroyed < u32::MAX,
            old(self).enemy_units_killed < u32::MAX,
        ensures
            *final(self) == if side == player_side {
                GameStats { units_lost: (old(self).units_lost + 1) as u32, ..*old(self) }
            } else if is_building {
                GameStats {
                    enemy_buildings_destroyed: (old(self).enemy_buildings_destroyed + 1) as u32,
                    ..*old(self)
                }
            } else {
                GameStats {
                    enemy_units_killed: (old(self).enemy_units_killed + 1) as u32,
                    ..*old(self)
                }
            },
    {
        if side == player_side {
            self.units_lost = self.units_lost + 1;
        } else if is_building {
            self.enemy_buildings_destroyed = self.enemy_buildings_destroyed + 1;
        } else {
            self.enemy_units_killed = self.enemy_units_killed + 1;
        }
    }
}

/// The units an armoury has been asked to recruit, first one first, and where new units go.
/// `W` is a position on the map.
#[derive(Debug)]
pub struct RecruitmentQueue<W> {
    pub queue: VecDeque<Unit>,
    pub waypoint: W,
}

impl<W> RecruitmentQueue<W> {
    pub fn new(waypoint: W) -> (queue: Self)
        ensures
            queue.queue@ == Seq::<Unit>::empty(),
            queue.waypoint == waypoint,
    {
        RecruitmentQueue { queue: VecDeque::new(), waypoint }
    }

    pub fn length(&self) -> (length: usize)
        ensures
            length == self.queue@.len(),
    {
        self.queue.len()
    }

    pub fn enqueue(&mut self, unit: Unit)
        ensures
            final(self).queue@ == old(self).queue@.push(unit),
            final(self).waypoint == old(self).waypoint,
    {
        self.queue.push_back(unit);
    }

    /// The unit being recruited now, if any.
    pub fn current(&self) -> (unit: Option<Unit>)
        ensures
            match unit {
                Some(u) => self.queue@.len() > 0 && u == self.queue@[0],
                None => self.queue@.len() == 0,
            },
    {
        if self.queue.len() > 0 {
            Some(self.queue[0])
        } else {
            None
        }
    }

    /// Takes the unit whose recruitment just finished off the queue.
    pub fn finish_recruit(&mut self) -> (unit: Option<Unit>)
        ensures
            match unit {
                Some(u) => old(self).queue@.len() > 0 && u == old(self).queue@[0]
                    && final(self).queue@ == old(self).queue@.drop_first(),
                None => old(self).queue@.len() == 0 && final(self).queue@ == old(self).queue@,
            },
            final(self).waypoint == old(self).waypoint,
    {
        self.queue.pop_front()
    }

    pub fn set_waypoint(&mut self, waypoint: W)
        ensures
            final(self).queue@ == old(self).queue@,
            final(self).waypoint == waypoint,
    {
        self.waypoint = waypoint;
    }
}

/// Index of the first smallest value.
pub open spec fn first_min_index(values: Seq<int>) -> int
    decreases values.len(),
{
    if values.len() <= 1 {
        0
    } else {
        let k = first_min_index(values.drop_last());
        if values.last() < values[k] {
            values.len() - 1
        } else {
            k
        }
    }
}

pub open spec fn as_ints(values: Seq<usize>) -> Seq<int> {
    values.map_values(|v: usize| v as int)
}

pub proof fn lemma_first_min_index(values: Seq<int>)
    requires
        values.len() > 0,
    ensures
        0 <= first_min_index(values) < values.len(),
        forall|j: int| 0 <= j < values.len() ==> values[first_min_index(values)] <= #[trigger] values[j],
        forall|j: int| 0 <= j < first_min_index(values) ==> values[first_min_index(values)] < #[trigger] values[j],
    decreases values.len(),
{
    if values.len() > 1 {
        let d = values.drop_last();
        lemma_first_min_index(d);
        let m = first_min_index(values);
        assert forall|j: int| 0 <= j < values.len() implies values[m] <= #[trigger] values[j] by {
            if j < values.len() - 1 {
                assert(d[j] == values[j]);
            }
        }
        assert forall|j: int| 0 <= j < m implies values[m] < #[trigger] values[j] by {
            assert(d[j] == values[j]);
        }
    }
}

/// The first of the queues with the fewest units waiting, given their lengths.
pub fn shortest_queue(lengths: &Vec<usize>) -> (index: Option<usize>)
    ensures
        match index {
            Some(i) => lengths@.len() > 0 && i == first_min_index(as_ints(lengths@)),
            None => lengths@.len() == 0,
        },
{
    if lengths.len() == 0 {
        return None;
    }
    let mut best: usize = 0;
    let mut i: usize = 1;
    while i < lengths.len()
        invariant
            1 <= i <= lengths@.len(),
            best == first_min_index(as_ints(lengths@).take(i as int)),
            best < i,
        decreases lengths@.len() - i,
    {
        proof {
            let s = as_ints(lengths@);
            assert(s.take(i as int + 1).drop_last() =~= s.take(i as int));
            lemma_first_min_index(s.take(i as int));
        }
        if lengths[i] < lengths[best] {
            best = i;
        }
        i = i + 1;
    }
    proof {
        assert(as_ints(lengths@).take(lengths@.len() as int) =~= as_ints(lengths@));
    }
    Some(best)
}

/// The queues that `count` new recruits join, one after another, each joining the first
/// shortest queue at the time.
pub open spec fn recruit_assignments(lengths: Seq<int>, count: nat) -> Seq<int>
    decreases count,
{
    if count == 0 || lengths.len() == 0 {
        Seq::empty()
    } else {
        let k = first_min_index(lengths);
        seq![k] + recruit_assignments(lengths.update(k, lengths[k] + 1), (count - 1) as nat)
    }
}

/// Queue lengths after `count` recruits joined the shortest queues one by one.
pub open spec fn lengths_after_recruits(lengths: Seq<int>, count: nat) -> Seq<int>
    decreases count,
{
    if count == 0 || lengths.len() == 0 {
        lengths
    } else {
        let k = first_min_index(lengths);
        lengths_after_recruits(lengths.update(k, lengths[k] + 1), (count - 1) as nat)
    }
}

/// Spreads `count` recruits over queues of the given lengths: each goes to the first shortest
/// queue at the time. Returns the index of the queue each one joins, in order.
pub fn distribute_recruits(lengths: &Vec<usize>, count: usize) -> (assignments: Vec<usize>)
    requires
        forall|i: int| 0 <= i < lengths@.len() ==> lengths@[i] + count <= usize::MAX,
    ensures
        as_ints(assignments@) == recruit_assignments(as_ints(lengths@), count as nat),
{
    let mut current = lengths.clone();
    let mut assignments: Vec<usize> = Vec::new();
    let mut remaining = count;
    if lengths.len() == 0 {
        proof {
            assert(as_ints(assignments@) =~= recruit_assignments(as_ints(lengths@), count as nat));
        }
        return assignments;
    }
    let ghost start = as_ints(lengths@);
    while remaining > 0
        invariant
            current@.len() == lengths@.len(),
            lengths@.len() > 0,
            remaining <= count,
            forall|i: int| 0 <= i < current@.len() ==> current@[i] + remaining <= usize::MAX,
            as_ints(assignments@) + recruit_assignments(as_ints(current@), remaining as nat)
                == recruit_assignments(start, count as nat),
        decreases remaining,
    {
        let k = match shortest_queue(&current) {
            Some(k) => k,
            None => 0,
        };
        proof {
            lemma_first_min_index(as_ints(current@));
        }
        let ghost before = current@;
        let bumped = current[k] + 1;
        current.set(k, bumped);
        assignments.push(k);
        proof {
            assert(as_ints(current@) =~= as_ints(before).update(k as int, as_ints(before)[k as int] + 1));
            let rest = recruit_assignments(as_ints(current@), (remaining - 1) as nat);
            assert(recruit_assignments(as_ints(before), remaining as nat) == seq![k as int] + rest);
            assert(as_ints(assignments@) =~= as_ints(assignments@).drop_last().push(k as int));
            assert(as_ints(assignments@) + rest =~= as_ints(assignments@).drop_last() + (seq![k as int] + rest));
        }
        remaining = remaining - 1;
    }
    proof {
        assert(as_ints(assignments@) + Seq::empty() =~= as_ints(assignments@));
    }
    assignments
}

pub open spec fn seq_sum(values: Seq<int>) -> int
    decreases values.len(),
{
    if values.len() == 0 {
        0
    } else {
        seq_sum(values.drop_last()) + values.last()
    }
}

/// The lengths differ by at most one.
pub open spec fn balanced(values: Seq<int>) -> bool {
    forall|i: int, j: int| 0 <= i < values.len() && 0 <= j < values.len() ==> values[i] <= values[j] + 1
}

proof fn lemma_sum_update(values: Seq<int>, k: int, v: int)
    requires
        0 <= k < values.len(),
    ensures
        seq_sum(values.update(k, v)) == seq_sum(values) - values[k] + v,
    decreases values.len(),
{
    if k == values.len() - 1 {
        assert(values.update(k, v).drop_last() =~= values.drop_last());
    } else {
        lemma_sum_update(values.drop_last(), k, v);
        assert(values.update(k, v).drop_last() =~= values.drop_last().update(k, v));
    }
}

/// Recruits only join queues: the queue lengths grow by exactly the number of recruits, and
/// queues that were even stay even (no two lengths differ by more than one).
pub proof fn lemma_recruits_fill_evenly(lengths: Seq<int>, count: nat)
    requires
        lengths.len() > 0,
    ensures
        lengths_after_recruits(lengths, count).len() == lengths.len(),
        seq_sum(lengths_after_recruits(lengths, count)) == seq_sum(lengths) + count,
        balanced(lengths) ==> balanced(lengths_after_recruits(lengths, count)),
        recruit_assignments(lengths, count).len() == count,
    decreases count,
{
    if count > 0 {
        let k = first_min_index(lengths);
        lemma_first_min_index(lengths);
        let next = lengths.update(k, lengths[k] + 1);
        lemma_sum_update(lengths, k, lengths[k] + 1);
        lemma_recruits_fill_evenly(next, (count - 1) as nat);
        if balanced(lengths) {
            assert forall|i: int, j: int| 0 <= i < next.len() && 0 <= j < next.len() implies next[i]
                <= next[j] + 1 by {
                assert(lengths[k] <= lengths[i]);
                assert(lengths[k] <= lengths[j]);
            }
        }
    }
}

} // verus!
