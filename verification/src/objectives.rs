use vstd::prelude::*;
use crate::controls::Mode;
use crate::entities::{Building, Side};

verus! {

#[derive(PartialEq, Eq, Structural, Clone, Copy, Debug)]
pub enum WinCondition {
    /// No entity of the enemy's side is left.
    DestroyAll,
    /// The player owns this many finished buildings of this kind.
    BuildN(u8, Building),
}

#[derive(PartialEq, Eq, Structural, Clone, Copy, Debug)]
pub enum LoseCondition {
    /// The player has no units left.
    LetAllUnitsDie,
}

/// What a scenario asks of the player.
#[derive(Debug)]
pub struct Objectives {
    pub win_conditions: Vec<WinCondition>,
    pub lose_conditions: Vec<LoseCondition>,
}

/// What the objectives look at of an entity that belongs to a side.
#[derive(Clone, Copy, Debug)]
pub struct EntitySummary {
    pub side: Side,
    /// The kind of building and its completeness, for buildings.
    pub building: Option<(Building, u16)>,
    pub is_unit: bool,
}

pub open spec fn all_on_side(entities: Seq<EntitySummary>, side: Side) -> bool {
    forall|i: int| 0 <= i < entities.len() ==> #[trigger] entities[i].side == side
}

pub open spec fn is_finished(e: EntitySummary, side: Side, building: Building) -> bool {
    e.side == side && (e.building matches Some((b, completeness)) && b == building && completeness
        == building.max_health_spec())
}

/// How many finished buildings of the kind the side owns.
pub open spec fn finished_count(entities: Seq<EntitySummary>, side: Side, building: Building) -> nat
    decreases entities.len(),
{
    if entities.len() == 0 {
        0
    } else {
        finished_count(entities.drop_last(), side, building) + if is_finished(
            entities.last(),
            side,
            building,
        ) {
            1nat
        } else {
            0nat
        }
    }
}

/// Whether a win condition holds.
pub open spec fn win_condition_met(
    condition: WinCondition,
    entities: Seq<EntitySummary>,
    player_side: Side,
) -> bool {
    match condition {
        WinCondition::DestroyAll => all_on_side(entities, player_side),
        WinCondition::BuildN(n, building) => finished_count(entities, player_side, building) >= n,
    }
}

pub open spec fn lose_condition_met(
    condition: LoseCondition,
    entities: Seq<EntitySummary>,
    player_side: Side,
) -> bool {
    match condition {
        LoseCondition::LetAllUnitsDie => forall|i: int|
            0 <= i < entities.len() && #[trigger] entities[i].is_unit ==> entities[i].side
                != player_side,
    }
}

pub open spec fn scenario_won(
    conditions: Seq<WinCondition>,
    entities: Seq<EntitySummary>,
    player_side: Side,
) -> bool {
    forall|i: int|
        0 <= i < conditions.len() ==> win_condition_met(#[trigger] conditions[i], entities, player_side)
}

pub open spec fn scenario_lost(
    conditions: Seq<LoseCondition>,
    entities: Seq<EntitySummary>,
    player_side: Side,
) -> bool {
    exists|i: int|
        0 <= i < conditions.len() && lose_condition_met(#[trigger] conditions[i], entities, player_side)
}

fn all_on_side_exec(entities: &Vec<EntitySummary>, side: Side) -> (all: bool)
    ensures
        all == all_on_side(entities@, side),
{
    let mut i: usize = 0;
    while i < entities.len()
        invariant
            i <= entities@.len(),
            forall|j: int| 0 <= j < i ==> #[trigger] entities@[j].side == side,
        decreases entities@.len() - i,
    {
        if entities[i].side != side {
            return false;
        }
        i = i + 1;
    }
    true
}

fn no_units_on_side(entities: &Vec<EntitySummary>, side: Side) -> (none: bool)
    ensures
        none == lose_condition_met(LoseCondition::LetAllUnitsDie, entities@, side),
{
    let mut i: usize = 0;
    while i < entities.len()
        invariant
            i <= entities@.len(),
            forall|j: int| 0 <= j < i && #[trigger] entities@[j].is_unit ==> entities@[j].side != side,
        decreases entities@.len() - i,
    {
        if entities[i].is_unit && entities[i].side == side {
            return false;
        }
        i = i + 1;
    }
    true
}

fn count_finished(entities: &Vec<EntitySummary>, side: Side, building: Building) -> (count: usize)
    ensures
        count == finished_count(entities@, side, building),
{
    let mut count: usize = 0;
    let mut i: usize = 0;
    let max = building.max_health();
    while i < entities.len()
        invariant
            i <= entities@.len(),
            count == finished_count(entities@.take(i as int), side, building),
            count <= i,
            max == building.max_health_spec(),
        decreases entities@.len() - i,
    {
        assert(entities@.take(i as int + 1).drop_last() =~= entities@.take(i as int));
        let e = entities[i];
        let finished = e.side == side && match e.building {
            Some((b, completeness)) => b == building && completeness == max,
            None => false,
        };
        if finished {
            count = count + 1;
        }
        i = i + 1;
    }
    assert(entities@.take(entities@.len() as int) =~= entities@);
    count
}

/// Checks the scenario's objectives against the entities that belong to a side: when every
/// win condition holds the scenario is won, otherwise when some lose condition holds it is
/// lost, otherwise the mode stays as it is.
pub fn update_playing_state(
    objectives: &Objectives,
    player_side: Side,
    entities: &Vec<EntitySummary>,
    mode: &mut Mode,
)
    ensures
        *final(mode) == if scenario_won(objectives.win_conditions@, entities@, player_side) {
            Mode::ScenarioWon
        } else if scenario_lost(objectives.lose_conditions@, entities@, player_side) {
            Mode::ScenarioLost
        } else {
            *old(mode)
        },
{
    let mut won = true;
    let mut i: usize = 0;
    while i < objectives.win_conditions.len()
        invariant
            i <= objectives.win_conditions@.len(),
            won == forall|j: int|
                0 <= j < i ==> win_condition_met(
                    #[trigger] objectives.win_conditions@[j],
                    entities@,
                    player_side,
                ),
        decreases objectives.win_conditions@.len() - i,
    {
        let met = match objectives.win_conditions[i] {
            WinCondition::DestroyAll => all_on_side_exec(entities, player_side),
            WinCondition::BuildN(n, building) => {
                let count = count_finished(entities, player_side, building);
                count >= n as usize
            },
        };
        proof {
            if !met {
                assert(!win_condition_met(objectives.win_conditions@[i as int], entities@, player_side));
            }
        }
        won = won && met;
        i = i + 1;
    }
    if won {
        *mode = Mode::ScenarioWon;
        return;
    }
    let mut lost = false;
    let mut i: usize = 0;
    while i < objectives.lose_conditions.len()
        invariant
            i <= objectives.lose_conditions@.len(),
            lost == exists|j: int|
                0 <= j < i && lose_condition_met(
                    #[trigger] objectives.lose_conditions@[j],
                    entities@,
                    player_side,
                ),
        decreases objectives.lose_conditions@.len() - i,
    {
        let met = match objectives.lose_conditions[i] {
            LoseCondition::LetAllUnitsDie => no_units_on_side(entities, player_side),
        };
        proof {
            if met {
                assert(lose_condition_met(objectives.lose_conditions@[i as int], entities@, player_side));
            }
        }
        lost = lost || met;
        i = i + 1;
    }
    if lost {
        *mode = Mode::ScenarioLost;
    }
}

} // verus!
