use vstd::prelude::*;

verus! {

/// Which player an entity belongs to.
#[derive(PartialEq, Eq, Structural, Clone, Copy, Debug)]
pub enum Side {
    Green,
    Purple,
}

impl Side {
    /// The other player.
    pub open spec fn opponent(self) -> Side {
        match self {
            Side::Green => Side::Purple,
            Side::Purple => Side::Green,
        }
    }

    pub fn flip(self) -> (flipped: Side)
        ensures
            flipped == self.opponent(),
    {
        match self {
            Side::Green => Side::Purple,
            Side::Purple => Side::Green,
        }
    }
}

/// Flipping a side twice gives it back, and a side is never its own opponent.
pub proof fn lemma_flip_involution(side: Side)
    ensures
        side.opponent().opponent() == side,
        side.opponent() != side,
{
}

#[derive(PartialEq, Eq, Structural, Clone, Copy, Debug)]
pub enum Building {
    Armoury,
    Pump,
}

impl Building {
    pub open spec fn max_health_spec(self) -> u16 {
        match self {
            Building::Armoury => 500,
            Building::Pump => 200,
        }
    }

    pub open spec fn cost_spec(self) -> u32 {
        match self {
            Building::Armoury => 200,
            Building::Pump => 50,
        }
    }

    /// Health of a finished building; also the completeness at which it counts as built.
    pub fn max_health(self) -> (health: u16)
        ensures
            health == self.max_health_spec(),
    {
        match self {
            Building::Armoury => 500,
            Building::Pump => 200,
        }
    }

    /// Cheese coins that placing the building costs.
    pub fn cost(self) -> (cost: u32)
        ensures
            cost == self.cost_spec(),
    {
        match self {
            Building::Armoury => 200,
            Building::Pump => 50,
        }
    }
}

#[derive(PartialEq, Eq, Structural, Clone, Copy, Debug)]
pub enum Unit {
    MouseMarine,
    Engineer,
}

impl Unit {
    pub open spec fn max_health_spec(self) -> u16 {
        match self {
            Unit::MouseMarine => 50,
            Unit::Engineer => 40,
        }
    }

    pub open spec fn cost_spec(self) -> u32 {
        match self {
            Unit::MouseMarine => 100,
            Unit::Engineer => 50,
        }
    }

    /// Health a freshly recruited unit starts with.
    pub fn max_health(self) -> (health: u16)
        ensures
            health == self.max_health_spec(),
    {
        match self {
            Unit::MouseMarine => 50,
            Unit::Engineer => 40,
        }
    }

    /// Cheese coins that recruiting the unit costs.
    pub fn cost(self) -> (cost: u32)
        ensures
            cost == self.cost_spec(),
    {
        match self {
            Unit::MouseMarine => 100,
            Unit::Engineer => 50,
        }
    }
}

/// Hit points of a unit or a building.
#[derive(PartialEq, Eq, Structural, Clone, Copy, Debug)]
pub struct Health(pub u16);

/// How far construction of a building has progressed, in the same units as its health.
#[derive(PartialEq, Eq, Structural, Clone, Copy, Debug)]
pub struct BuildingCompleteness(pub u16);

/// `value` grown by `increase`, but no further than `cap`.
pub open spec fn capped_increase(value: u16, increase: u16, cap: u16) -> u16 {
    if value + increase <= cap {
        (value + increase) as u16
    } else {
        cap
    }
}

/// One tick of an engineer working on a building: health and completeness each grow by
/// `increase`, the work done in this tick's time (the building rate times the frame time), never
/// beyond the building's maximum health. Returns whether the health is now full, which is when
/// the engineer is done.
pub fn construct_step(
    building: Building,
    increase: u16,
    health: &mut Health,
    completeness: &mut BuildingCompleteness,
) -> (finished: bool)
    ensures
        final(health).0 == capped_increase(old(health).0, increase, building.max_health_spec()),
        final(completeness).0 == capped_increase(
            old(completeness).0,
            increase,
            building.max_health_spec(),
        ),
        finished == (final(health).0 == building.max_health_spec()),
{
    let max = building.max_health();
    let h: u32 = health.0 as u32 + increase as u32;
    health.0 = if h <= max as u32 {
        h as u16
    } else {
        max
    };
    let c: u32 = completeness.0 as u32 + increase as u32;
    completeness.0 = if c <= max as u32 {
        c as u16
    } else {
        max
    };
    health.0 == max
}

/// Health after one bullet, which takes away two points and never goes below zero.
pub open spec fn health_after_hit(health: u16) -> u16 {
    if health >= 2 {
        (health - 2) as u16
    } else {
        0
    }
}

impl Health {
    /// Applies the damage of one bullet. Returns whether the entity is destroyed.
    pub fn take_hit(&mut self) -> (destroyed: bool)
        ensures
            final(self).0 == health_after_hit(old(self).0),
            destroyed == (final(self).0 == 0),
    {
        self.0 = if self.0 >= 2 {
            self.0 - 2
        } else {
            0
        };
        self.0 == 0
    }
}

/// The animations of the mouse model, in the order they are stored in the model file.
#[derive(PartialEq, Eq, Structural, Clone, Copy, Debug)]
pub enum MouseAnimation {
    Build,
    Idle,
    Shoot,
    Walking,
}

impl MouseAnimation {
    pub open spec fn index_spec(self) -> usize {
        match self {
            MouseAnimation::Build => 0,
            MouseAnimation::Idle => 1,
            MouseAnimation::Shoot => 2,
            MouseAnimation::Walking => 3,
        }
    }

    /// Position of the animation in the model's animation list.
    pub fn index(self) -> (index: usize)
        ensures
            index == self.index_spec(),
    {
        match self {
            MouseAnimation::Build => 0,
            MouseAnimation::Idle => 1,
            MouseAnimation::Shoot => 2,
            MouseAnimation::Walking => 3,
        }
    }
}


impl Building {
    /// Health and completeness of a building the moment it is placed: construction starts
    /// from one point.
    pub fn construction_start(self) -> (state: (Health, BuildingCompleteness))
        ensures
            state.0 == Health(1) && state.1 == BuildingCompleteness(1),
    {
        (Health(1), BuildingCompleteness(1))
    }

    /// Health and completeness of a building that starts out finished.
    pub fn fully_built(self) -> (state: (Health, BuildingCompleteness))
        ensures
            state.0 == Health(self.max_health_spec()),
            state.1 == BuildingCompleteness(self.max_health_spec()),
    {
        let max = self.max_health();
        (Health(max), BuildingCompleteness(max))
    }

    /// A building is finished once its completeness reaches its maximum health; only then does
    /// it animate, pay out or recruit.
    pub fn is_complete(self, completeness: BuildingCompleteness) -> (complete: bool)
        ensures
            complete == (completeness.0 == self.max_health_spec()),
    {
        completeness.0 == self.max_health()
    }
}

/// The maximum health an entity's health bar is measured against: a unit's, else a
/// building's.
pub fn max_health_of(unit: Option<Unit>, building: Option<Building>) -> (max: Option<u16>)
    ensures
        max == match unit {
            Some(u) => Some(u.max_health_spec()),
            None => match building {
                Some(b) => Some(b.max_health_spec()),
                None => None,
            },
        },
{
    match unit {
        Some(u) => Some(u.max_health()),
        None => match building {
            Some(b) => Some(b.max_health()),
            None => None,
        },
    }
}

/// A health bar is drawn for damaged entities only.
pub fn shows_health_bar(health: Health, max_health: u16) -> (shown: bool)
    ensures
        shown == (health.0 != max_health),
{
    health.0 != max_health
}


/// Health after `steps` ticks of construction that each add `increase`.
pub open spec fn after_construction(health: u16, increase: u16, cap: u16, steps: nat) -> u16
    decreases steps,
{
    if steps == 0 {
        health
    } else {
        after_construction(capped_increase(health, increase, cap), increase, cap, (steps - 1) as nat)
    }
}

/// Construction never pushes health past the maximum: after `steps` ticks that each add
/// `increase`, a building at `health` has `health + increase * steps` or its maximum, whichever
/// is less, so it is finished exactly when that sum reaches the maximum.
pub proof fn lemma_construction_finishes(building: Building, health: u16, increase: u16, steps: nat)
    requires
        health <= building.max_health_spec(),
    ensures
        after_construction(health, increase, building.max_health_spec(), steps) == if health
            + increase * steps <= building.max_health_spec() {
            health + increase * steps
        } else {
            building.max_health_spec() as int
        },
        after_construction(health, increase, building.max_health_spec(), steps)
            == building.max_health_spec() <==> health + increase * steps
            >= building.max_health_spec(),
    decreases steps,
{
    let cap = building.max_health_spec();
    if steps == 0 {
        assert(increase * steps == 0) by (nonlinear_arith)
            requires
                steps == 0,
        ;
    } else {
        let next = capped_increase(health, increase, cap);
        assert(after_construction(health, increase, cap, steps) == after_construction(
            next,
            increase,
            cap,
            (steps - 1) as nat,
        ));
        lemma_construction_finishes(building, next, increase, (steps - 1) as nat);
        assert(increase * steps == increase + increase * (steps - 1)) by (nonlinear_arith)
            requires
                steps > 0,
        ;
        assert(increase * (steps - 1) >= 0) by (nonlinear_arith)
            requires
                steps > 0,
        ;
    }
}

/// Health after `hits` bullets.
pub open spec fn after_hits(health: u16, hits: nat) -> u16
    decreases hits,
{
    if hits == 0 {
        health
    } else {
        after_hits(health_after_hit(health), (hits - 1) as nat)
    }
}

/// Every bullet takes two points until nothing is left: after `hits` bullets an entity with
/// `health` has `health - 2 * hits` left, or none.
pub proof fn lemma_hits_wear_down(health: u16, hits: nat)
    ensures
        after_hits(health, hits) == if health >= 2 * hits {
            health - 2 * hits
        } else {
            0
        },
    decreases hits,
{
    if hits > 0 {
        lemma_hits_wear_down(health_after_hit(health), (hits - 1) as nat);
    }
}

} // verus!
