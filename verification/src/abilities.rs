use vstd::prelude::*;
use crate::entities::{Building, Unit};
use crate::ui::Button;

verus! {

/// The keys the game reacts to, in the order the windowing library lists them; every other key
/// is `Other`.
#[derive(PartialEq, Eq, Structural, Clone, Copy, Debug)]
pub enum Key {
    Key1,
    Key2,
    Key3,
    Key4,
    Key5,
    Key6,
    Key7,
    Key8,
    Key9,
    Key0,
    A,
    B,
    E,
    M,
    P,
    R,
    S,
    T,
    W,
    Escape,
    Left,
    Up,
    Right,
    Down,
    LControl,
    LShift,
    Other,
}

#[derive(PartialEq, Eq, Structural, Clone, Copy, Debug)]
pub enum AbilityType {
    Build(Building),
    Recruit(Unit),
    SetRecruitmentWaypoint,
}

/// The hotkey that goes with each ability.
pub open spec fn hotkey_of(ability_type: AbilityType) -> Key {
    match ability_type {
        AbilityType::Build(Building::Pump) => Key::P,
        AbilityType::Build(Building::Armoury) => Key::R,
        AbilityType::Recruit(Unit::Engineer) => Key::E,
        AbilityType::Recruit(Unit::MouseMarine) => Key::M,
        AbilityType::SetRecruitmentWaypoint => Key::W,
    }
}

/// Something a selected unit or building can do, with the key that triggers it.
#[derive(PartialEq, Eq, Structural, Clone, Copy, Debug)]
pub struct Ability {
    pub ability_type: AbilityType,
    pub hotkey: Key,
}

impl Ability {
    pub open spec fn of(ability_type: AbilityType) -> Ability {
        Ability { ability_type, hotkey: hotkey_of(ability_type) }
    }

    pub fn build_pump() -> (ability: Ability)
        ensures
            ability == Ability::of(AbilityType::Build(Building::Pump)),
    {
        Ability { ability_type: AbilityType::Build(Building::Pump), hotkey: Key::P }
    }

    pub fn build_armoury() -> (ability: Ability)
        ensures
            ability == Ability::of(AbilityType::Build(Building::Armoury)),
    {
        Ability { ability_type: AbilityType::Build(Building::Armoury), hotkey: Key::R }
    }

    pub fn recruit_engineer() -> (ability: Ability)
        ensures
            ability == Ability::of(AbilityType::Recruit(Unit::Engineer)),
    {
        Ability { ability_type: AbilityType::Recruit(Unit::Engineer), hotkey: Key::E }
    }

    pub fn recruit_mouse_marine() -> (ability: Ability)
        ensures
            ability == Ability::of(AbilityType::Recruit(Unit::MouseMarine)),
    {
        Ability { ability_type: AbilityType::Recruit(Unit::MouseMarine), hotkey: Key::M }
    }

    pub fn set_recruitment_waypoint() -> (ability: Ability)
        ensures
            ability == Ability::of(AbilityType::SetRecruitmentWaypoint),
    {
        Ability { ability_type: AbilityType::SetRecruitmentWaypoint, hotkey: Key::W }
    }

    /// The ability of the given type with its usual hotkey.
    pub fn from_type(ability_type: AbilityType) -> (ability: Ability)
        ensures
            ability == Ability::of(ability_type),
    {
        match ability_type {
            AbilityType::Build(Building::Pump) => Ability::build_pump(),
            AbilityType::Build(Building::Armoury) => Ability::build_armoury(),
            AbilityType::Recruit(Unit::Engineer) => Ability::recruit_engineer(),
            AbilityType::Recruit(Unit::MouseMarine) => Ability::recruit_mouse_marine(),
            AbilityType::SetRecruitmentWaypoint => Ability::set_recruitment_waypoint(),
        }
    }

    pub open spec fn button_spec(self) -> Button {
        match self.ability_type {
            AbilityType::Build(Building::Armoury) => Button::BuildArmoury,
            AbilityType::Build(Building::Pump) => Button::BuildPump,
            AbilityType::Recruit(Unit::Engineer) => Button::RecruitEngineer,
            AbilityType::Recruit(Unit::MouseMarine) => Button::RecruitMouseMarine,
            AbilityType::SetRecruitmentWaypoint => Button::SetRecruitmentWaypoint,
        }
    }

    /// The picture drawn for the ability in the ability bar.
    pub fn button(&self) -> (button: Button)
        ensures
            button == self.button_spec(),
    {
        match self.ability_type {
            AbilityType::Build(Building::Armoury) => Button::BuildArmoury,
            AbilityType::Build(Building::Pump) => Button::BuildPump,
            AbilityType::Recruit(Unit::Engineer) => Button::RecruitEngineer,
            AbilityType::Recruit(Unit::MouseMarine) => Button::RecruitMouseMarine,
            AbilityType::SetRecruitmentWaypoint => Button::SetRecruitmentWaypoint,
        }
    }

    pub open spec fn cost_spec(self) -> Option<u32> {
        match self.ability_type {
            AbilityType::Build(building) => Some(building.cost_spec()),
            AbilityType::Recruit(unit) => Some(unit.cost_spec()),
            AbilityType::SetRecruitmentWaypoint => None,
        }
    }

    /// What using the ability costs, if it costs anything.
    pub fn cost(&self) -> (cost: Option<u32>)
        ensures
            cost == self.cost_spec(),
    {
        match self.ability_type {
            AbilityType::Build(building) => Some(building.cost()),
            AbilityType::Recruit(unit) => Some(unit.cost()),
            AbilityType::SetRecruitmentWaypoint => None,
        }
    }

    /// Whether the player can afford the ability with the coins they have.
    pub fn can_use(&self, cheese_coins: u32) -> (can_use: bool)
        ensures
            can_use == match self.cost_spec() {
                Some(cost) => cost <= cheese_coins,
                None => true,
            },
    {
        match self.cost() {
            Some(cost) => cost <= cheese_coins,
            None => true,
        }
    }
}

impl Building {
    pub open spec fn abilities_spec(self) -> Seq<Ability> {
        match self {
            Building::Armoury => seq![
                Ability::of(AbilityType::Recruit(Unit::MouseMarine)),
                Ability::of(AbilityType::Recruit(Unit::Engineer)),
                Ability::of(AbilityType::SetRecruitmentWaypoint),
            ],
            Building::Pump => Seq::empty(),
        }
    }

    /// The abilities a finished building of this kind offers.
    pub fn abilities(self) -> (abilities: Vec<Ability>)
        ensures
            abilities@ == self.abilities_spec(),
    {
        let mut abilities = Vec::new();
        match self {
            Building::Armoury => {
                abilities.push(Ability::recruit_mouse_marine());
                abilities.push(Ability::recruit_engineer());
                abilities.push(Ability::set_recruitment_waypoint());
            },
            Building::Pump => {},
        }
        abilities
    }
}

impl Unit {
    pub open spec fn abilities_spec(self) -> Seq<Ability> {
        match self {
            Unit::Engineer => seq![
                Ability::of(AbilityType::Build(Building::Pump)),
                Ability::of(AbilityType::Build(Building::Armoury)),
            ],
            Unit::MouseMarine => Seq::empty(),
        }
    }

    /// The abilities a unit of this kind offers.
    pub fn abilities(self) -> (abilities: Vec<Ability>)
        ensures
            abilities@ == self.abilities_spec(),
    {
        let mut abilities = Vec::new();
        match self {
            Unit::Engineer => {
                abilities.push(Ability::build_pump());
                abilities.push(Ability::build_armoury());
            },
            Unit::MouseMarine => {},
        }
        abilities
    }

    /// Only engineers can construct buildings.
    pub fn can_build(self) -> (can_build: bool)
        ensures
            can_build == (self == Unit::Engineer),
    {
        match self {
            Unit::Engineer => true,
            Unit::MouseMarine => false,
        }
    }
}


/// Position of the key in the windowing library's list of keys.
pub open spec fn key_rank(key: Key) -> nat {
    match key {
        Key::Key1 => 0,
        Key::Key2 => 1,
        Key::Key3 => 2,
        Key::Key4 => 3,
        Key::Key5 => 4,
        Key::Key6 => 5,
        Key::Key7 => 6,
        Key::Key8 => 7,
        Key::Key9 => 8,
        Key::Key0 => 9,
        Key::A => 10,
        Key::B => 11,
        Key::E => 12,
        Key::M => 13,
        Key::P => 14,
        Key::R => 15,
        Key::S => 16,
        Key::T => 17,
        Key::W => 18,
        Key::Escape => 19,
        Key::Left => 20,
        Key::Up => 21,
        Key::Right => 22,
        Key::Down => 23,
        Key::LControl => 24,
        Key::LShift => 25,
        Key::Other => 26,
    }
}

pub open spec fn ability_type_rank(ability_type: AbilityType) -> nat {
    match ability_type {
        AbilityType::Build(Building::Armoury) => 0,
        AbilityType::Build(Building::Pump) => 1,
        AbilityType::Recruit(Unit::MouseMarine) => 2,
        AbilityType::Recruit(Unit::Engineer) => 3,
        AbilityType::SetRecruitmentWaypoint => 4,
    }
}

/// The order abilities are listed in: by type (building before recruiting before setting
/// the waypoint), then by hotkey.
pub open spec fn ability_rank(ability: Ability) -> nat {
    ability_type_rank(ability.ability_type) * 32 + key_rank(ability.hotkey)
}

fn key_rank_exec(key: Key) -> (rank: u32)
    ensures
        rank == key_rank(key),
{
    match key {
        Key::Key1 => 0,
        Key::Key2 => 1,
        Key::Key3 => 2,
        Key::Key4 => 3,
        Key::Key5 => 4,
        Key::Key6 => 5,
        Key::Key7 => 6,
        Key::Key8 => 7,
        Key::Key9 => 8,
        Key::Key0 => 9,
        Key::A => 10,
        Key::B => 11,
        Key::E => 12,
        Key::M => 13,
        Key::P => 14,
        Key::R => 15,
        Key::S => 16,
        Key::T => 17,
        Key::W => 18,
        Key::Escape => 19,
        Key::Left => 20,
        Key::Up => 21,
        Key::Right => 22,
        Key::Down => 23,
        Key::LControl => 24,
        Key::LShift => 25,
        Key::Other => 26,
    }
}

impl Ability {
    /// Where the ability goes in the ability bar.
    pub fn rank(&self) -> (rank: u32)
        ensures
            rank == ability_rank(*self),
    {
        let type_rank: u32 = match self.ability_type {
            AbilityType::Build(Building::Armoury) => 0,
            AbilityType::Build(Building::Pump) => 1,
            AbilityType::Recruit(Unit::MouseMarine) => 2,
            AbilityType::Recruit(Unit::Engineer) => 3,
            AbilityType::SetRecruitmentWaypoint => 4,
        };
        type_rank * 32 + key_rank_exec(self.hotkey)
    }
}

proof fn lemma_rank_injective(a: Ability, b: Ability)
    requires
        ability_rank(a) == ability_rank(b),
    ensures
        a == b,
{
    assert(key_rank(a.hotkey) < 32 && key_rank(b.hotkey) < 32);
    assert(ability_type_rank(a.ability_type) == ability_type_rank(b.ability_type)) by (nonlinear_arith)
        requires
            ability_type_rank(a.ability_type) * 32 + key_rank(a.hotkey) == ability_type_rank(
                b.ability_type,
            ) * 32 + key_rank(b.hotkey),
            key_rank(a.hotkey) < 32,
            key_rank(b.hotkey) < 32,
    ;
}

/// The (caster, ability) pairs of the selected entities, entity by entity.
pub open spec fn ability_pairs<E>(selected: Seq<(E, Seq<Ability>)>) -> Seq<(E, Ability)>
    decreases selected.len(),
{
    if selected.len() == 0 {
        Seq::empty()
    } else {
        let (e, abilities) = selected.last();
        ability_pairs(selected.drop_last()) + abilities.map_values(|a: Ability| (e, a))
    }
}

/// The casters of `ability` among the pairs, in order, once per pair.
pub open spec fn casters_of<E>(pairs: Seq<(E, Ability)>, ability: Ability) -> Seq<E>
    decreases pairs.len(),
{
    if pairs.len() == 0 {
        Seq::empty()
    } else {
        casters_of(pairs.drop_last(), ability) + if pairs.last().1 == ability {
            seq![pairs.last().0]
        } else {
            Seq::empty()
        }
    }
}

/// An ability of the selection together with the entities that can use it.
#[derive(Debug)]
pub struct AbilityCasters<E> {
    pub ability: Ability,
    pub casters: Vec<E>,
}

/// The groups list each ability of the pairs once, in ability order, with its casters.
pub open spec fn groups_of<E>(groups: Seq<AbilityCasters<E>>, pairs: Seq<(E, Ability)>) -> bool {
    &&& forall|i: int, j: int|
        #![trigger groups[i], groups[j]]
        0 <= i < j < groups.len() ==> ability_rank(groups[i].ability) < ability_rank(
            groups[j].ability,
        )
    &&& forall|i: int|
        0 <= i < groups.len() ==> #[trigger] groups[i].casters@ == casters_of(
            pairs,
            groups[i].ability,
        ) && groups[i].casters@.len() > 0
    &&& forall|a: Ability|
        #[trigger] casters_of(pairs, a).len() > 0 ==> exists|i: int|
            0 <= i < groups.len() && #[trigger] groups[i].ability == a
}


/// The pairs of the selection, flattened.
fn flatten_pairs<E: Copy>(selected: &Vec<(E, Vec<Ability>)>) -> (pairs: Vec<(E, Ability)>)
    ensures
        pairs@ == ability_pairs(selection_view(selected@)),
{
    let mut pairs: Vec<(E, Ability)> = Vec::new();
    let mut i: usize = 0;
    while i < selected.len()
        invariant
            i <= selected@.len(),
            pairs@ == ability_pairs(selection_view(selected@).take(i as int)),
        decreases selected@.len() - i,
    {
        let e = selected[i].0;
        let abilities = &selected[i].1;
        let ghost start = pairs@;
        let mut j: usize = 0;
        while j < abilities.len()
            invariant
                j <= abilities@.len(),
                pairs@ == start + abilities@.take(j as int).map_values(|a: Ability| (e, a)),
            decreases abilities@.len() - j,
        {
            pairs.push((e, abilities[j]));
            assert(abilities@.take(j as int + 1).map_values(|a: Ability| (e, a)) =~= abilities@.take(
                j as int,
            ).map_values(|a: Ability| (e, a)).push((e, abilities@[j as int])));
            j = j + 1;
        }
        proof {
            let v = selection_view(selected@);
            assert(v.take(i as int + 1).drop_last() =~= v.take(i as int));
            assert(v[i as int] == (e, abilities@));
            assert(abilities@.take(abilities@.len() as int) =~= abilities@);
        }
        i = i + 1;
    }
    assert(selection_view(selected@).take(selected@.len() as int) =~= selection_view(selected@));
    pairs
}

pub open spec fn selection_view<E>(selected: Seq<(E, Vec<Ability>)>) -> Seq<(E, Seq<Ability>)> {
    selected.map_values(|s: (E, Vec<Ability>)| (s.0, s.1@))
}

proof fn lemma_casters_push<E>(pairs: Seq<(E, Ability)>, pair: (E, Ability), a: Ability)
    ensures
        casters_of(pairs.push(pair), a) == casters_of(pairs, a) + if pair.1 == a {
            seq![pair.0]
        } else {
            Seq::empty()
        },
{
    assert(pairs.push(pair).drop_last() =~= pairs);
}

fn add_pair<E: Copy>(groups: &mut Vec<AbilityCasters<E>>, pair: (E, Ability), Ghost(pairs): Ghost<Seq<(E, Ability)>>)
    requires
        groups_of(old(groups)@, pairs),
    ensures
        groups_of(final(groups)@, pairs.push(pair)),
{
    let (e, a) = pair;
    assert(pair.0 == e && pair.1 == a);
    let ghost new_pairs = pairs.push(pair);
    let mut i: usize = 0;
    while i < groups.len()
        invariant
            i <= groups@.len(),
            groups@ == old(groups)@,
            groups_of(old(groups)@, pairs),
            new_pairs == pairs.push(pair),
            pair.0 == e && pair.1 == a,
            forall|k: int| 0 <= k < i ==> #[trigger] groups@[k].ability != a,
        decreases groups@.len() - i,
    {
        if groups[i].ability == a {
            let ghost before = groups@;
            groups[i].casters.push(e);
            proof {
                assert forall|b: Ability| true implies #[trigger] casters_of(new_pairs, b) == casters_of(pairs, b)
                    + if pair.1 == b {
                    seq![pair.0]
                } else {
                    Seq::empty()
                } by {
                    lemma_casters_push(pairs, pair, b);
                }
                assert forall|k: int| 0 <= k < groups@.len() implies #[trigger] groups@[k].casters@
                    == casters_of(new_pairs, groups@[k].ability) && groups@[k].casters@.len() > 0 by {
                    if k != i {
                        assert(groups@[k] == before[k]);
                        if k < i {
                            assert(ability_rank(before[k].ability) < ability_rank(before[i as int].ability));
                        } else {
                            assert(ability_rank(before[i as int].ability) < ability_rank(before[k].ability));
                        }
                        assert(before[k].ability != a);
                    }
                }
                assert forall|b: Ability| #[trigger] casters_of(new_pairs, b).len() > 0 implies exists|k: int|
                    0 <= k < groups@.len() && #[trigger] groups@[k].ability == b by {
                    if b == a {
                        assert(groups@[i as int].ability == b);
                    } else {
                        assert(casters_of(pairs, b).len() > 0);
                        let k = choose|k: int| 0 <= k < before.len() && #[trigger] before[k].ability == b;
                        assert(groups@[k].ability == b);
                    }
                }
                assert forall|x: int, y: int|
                    #![trigger groups@[x], groups@[y]]
                    0 <= x < y < groups@.len() implies ability_rank(groups@[x].ability) < ability_rank(
                        groups@[y].ability,
                    ) by {
                    assert(groups@[x].ability == before[x].ability);
                    assert(groups@[y].ability == before[y].ability);
                    assert(ability_rank(before[x].ability) < ability_rank(before[y].ability));
                }
            }
            return;
        }
        i = i + 1;
    }
    proof {
        if casters_of(pairs, a).len() > 0 {
            let k = choose|k: int| 0 <= k < groups@.len() && #[trigger] groups@[k].ability == a;
            assert(false);
        }
    }
    let rank = a.rank();
    let mut pos: usize = 0;
    while pos < groups.len() && groups[pos].ability.rank() <= rank
        invariant
            pos <= groups@.len(),
            groups@ == old(groups)@,
            rank == ability_rank(a),
            forall|k: int| 0 <= k < pos ==> ability_rank(#[trigger] groups@[k].ability) <= rank,
        decreases groups@.len() - pos,
    {
        pos = pos + 1;
    }
    let ghost before = groups@;
    let mut casters = Vec::new();
    casters.push(e);
    groups.insert(pos, AbilityCasters { ability: a, casters });
    proof {
        assert forall|b: Ability| true implies #[trigger] casters_of(new_pairs, b) == casters_of(pairs, b)
            + if pair.1 == b {
            seq![pair.0]
        } else {
            Seq::empty()
        } by {
            lemma_casters_push(pairs, pair, b);
        }
        assert(casters_of(new_pairs, a) =~= seq![e]);
        assert forall|k: int| 0 <= k < pos implies ability_rank(#[trigger] before[k].ability) < rank by {
            if ability_rank(before[k].ability) == rank {
                lemma_rank_injective(before[k].ability, a);
            }
        }
        assert forall|k: int| pos <= k < before.len() implies ability_rank(#[trigger] before[k].ability) > rank by {
            if k > pos {
                assert(ability_rank(before[pos as int].ability) < ability_rank(before[k].ability));
            }
        }
        assert forall|x: int, y: int|
            #![trigger groups@[x], groups@[y]]
            0 <= x < y < groups@.len() implies ability_rank(groups@[x].ability) < ability_rank(
                groups@[y].ability,
            ) by {
            if y < pos {
                assert(groups@[x] == before[x] && groups@[y] == before[y]);
            } else if y == pos {
                assert(groups@[x] == before[x]);
            } else if x < pos {
                assert(groups@[x] == before[x] && groups@[y] == before[y - 1]);
            } else if x == pos {
                assert(groups@[y] == before[y - 1]);
            } else {
                assert(groups@[x] == before[x - 1] && groups@[y] == before[y - 1]);
                assert(ability_rank(before[x - 1].ability) < ability_rank(before[y - 1].ability));
            }
        }
        assert forall|k: int| 0 <= k < groups@.len() implies #[trigger] groups@[k].casters@
            == casters_of(new_pairs, groups@[k].ability) && groups@[k].casters@.len() > 0 by {
            if k < pos {
                assert(groups@[k] == before[k]);
            } else if k > pos {
                assert(groups@[k] == before[k - 1]);
            }
        }
        assert forall|b: Ability| #[trigger] casters_of(new_pairs, b).len() > 0 implies exists|k: int|
            0 <= k < groups@.len() && #[trigger] groups@[k].ability == b by {
            if b == a {
                assert(groups@[pos as int].ability == b);
            } else {
                assert(casters_of(pairs, b).len() > 0);
                let k = choose|k: int| 0 <= k < before.len() && #[trigger] before[k].ability == b;
                if k < pos {
                    assert(groups@[k].ability == b);
                } else {
                    assert(groups@[k + 1].ability == b);
                }
            }
        }
    }
}

/// The abilities of the selected entities, each listed once in ability order with every
/// entity that offers it (once for each time it offers it). `selected` pairs each selected
/// entity of the player with its abilities.
pub fn group_abilities<E: Copy>(selected: &Vec<(E, Vec<Ability>)>) -> (groups: Vec<AbilityCasters<E>>)
    ensures
        groups_of(groups@, ability_pairs(selection_view(selected@))),
{
    let pairs = flatten_pairs(selected);
    let mut groups: Vec<AbilityCasters<E>> = Vec::new();
    let mut k: usize = 0;
    proof {
        assert forall|a: Ability| #[trigger] casters_of(pairs@.take(0), a).len() == 0 by {
            assert(pairs@.take(0).len() == 0);
        }
    }
    while k < pairs.len()
        invariant
            k <= pairs@.len(),
            groups_of(groups@, pairs@.take(k as int)),
        decreases pairs@.len() - k,
    {
        add_pair(&mut groups, pairs[k], Ghost(pairs@.take(k as int)));
        assert(pairs@.take(k as int).push(pairs@[k as int]) =~= pairs@.take(k as int + 1));
        k = k + 1;
    }
    assert(pairs@.take(pairs@.len() as int) =~= pairs@);
    groups
}

} // verus!
