use vstd::prelude::*;
use std::collections::VecDeque;
use crate::entities::MouseAnimation;

verus! {

/// Where a unit stands relative to the target of an attack or a construction job.
#[derive(Clone, Debug)]
pub enum ActionState<P> {
    /// The unit walks towards the target along `path`.
    OutOfRange { path: Vec<P> },
    InRange,
}

impl<P> ActionState<P> {
    pub fn is_out_of_range(&self) -> (out_of_range: bool)
        ensures
            out_of_range == (self is OutOfRange),
    {
        match self {
            ActionState::OutOfRange { .. } => true,
            ActionState::InRange => false,
        }
    }
}

/// An order given to a unit. `E` identifies entities, `P` is a position on the map.
#[derive(Clone, Debug)]
#[allow(inconsistent_fields)]
pub enum Command<E, P> {
    MoveTo {
        target: P,
        /// Whether the unit stops to fight enemies it meets on the way.
        attack_move: bool,
        path: Vec<P>,
    },
    Attack {
        target: E,
        /// Whether the player gave this order, rather than an attack move or retaliation.
        explicit: bool,
        /// Whether the unit has not yet been out of range of the target; the first time it is,
        /// it chases the target.
        first_out_of_range: bool,
        state: ActionState<P>,
    },
    Build { target: E, state: ActionState<P> },
}

impl<E, P> Command<E, P> {
    /// The route the unit is following for this command, if it has one.
    pub open spec fn path_of(self) -> Option<Seq<P>> {
        match self {
            Command::MoveTo { path, .. } => Some(path@),
            Command::Attack { state: ActionState::OutOfRange { path }, .. } => Some(path@),
            Command::Build { state: ActionState::OutOfRange { path }, .. } => Some(path@),
            _ => None,
        }
    }

    /// The entity the command is aimed at, if any.
    pub open spec fn target_entity(self) -> Option<E> {
        match self {
            Command::MoveTo { .. } => None,
            Command::Attack { target, .. } => Some(target),
            Command::Build { target, .. } => Some(target),
        }
    }

    /// An attack on `target` that has not been in range yet and has no route yet.
    pub open spec fn is_fresh_attack(self, target: E, explicit: bool) -> bool {
        match self {
            Command::Attack {
                target: t,
                explicit: x,
                first_out_of_range,
                state: ActionState::OutOfRange { path },
            } => t == target && x == explicit && first_out_of_range && path@.len() == 0,
            _ => false,
        }
    }

    pub fn new_attack(target: E, explicit: bool) -> (command: Self)
        ensures
            command.is_fresh_attack(target, explicit),
    {
        Command::Attack {
            target,
            explicit,
            first_out_of_range: true,
            state: ActionState::OutOfRange { path: Vec::new() },
        }
    }

    /// A construction job on `target`, to be started where the unit stands.
    pub fn new_build(target: E) -> (command: Self)
        ensures
            command == (Command::<E, P>::Build { target, state: ActionState::InRange }),
    {
        Command::Build { target, state: ActionState::InRange }
    }

    pub fn path(&self) -> (path: Option<&Vec<P>>)
        ensures
            match path {
                Some(p) => self.path_of() == Some(p@),
                None => self.path_of() is None,
            },
    {
        match self {
            Command::MoveTo { path, .. } => Some(path),
            Command::Attack { state: ActionState::OutOfRange { path }, .. } => Some(path),
            Command::Build { state: ActionState::OutOfRange { path }, .. } => Some(path),
            _ => None,
        }
    }

    /// Whether only units that can build may receive the command.
    pub fn requires_builder(&self) -> (requires_builder: bool)
        ensures
            requires_builder == (self is Build),
    {
        match self {
            Command::Build { .. } => true,
            _ => false,
        }
    }

    pub open spec fn marker_spec(self) -> Option<CommandMarker<E, P>> {
        match self {
            Command::MoveTo { target, .. } => Some(CommandMarker::At(target)),
            Command::Attack { target, explicit, .. } => if explicit {
                Some(CommandMarker::OnEntity(target))
            } else {
                None
            },
            Command::Build { target, .. } => Some(CommandMarker::OnEntity(target)),
        }
    }

    /// Where the command's path indicator is drawn: at a point, at an entity, or (for attacks
    /// the player did not order) nowhere.
    pub fn marker(&self) -> (marker: Option<CommandMarker<E, P>>)
        where
            E: Copy,
            P: Copy,
        ensures
            marker == self.marker_spec(),
    {
        match self {
            Command::MoveTo { target, .. } => Some(CommandMarker::At(*target)),
            Command::Attack { target, explicit, .. } => if *explicit {
                Some(CommandMarker::OnEntity(*target))
            } else {
                None
            },
            Command::Build { target, .. } => Some(CommandMarker::OnEntity(*target)),
        }
    }

    pub open spec fn colour_spec(self) -> CommandColour {
        match self {
            Command::MoveTo { attack_move, .. } => if attack_move {
                CommandColour::Attack
            } else {
                CommandColour::Move
            },
            Command::Attack { .. } => CommandColour::Attack,
            Command::Build { .. } => CommandColour::Build,
        }
    }

    /// The colour the command's path indicator is drawn in.
    pub fn colour(&self) -> (colour: CommandColour)
        ensures
            colour == self.colour_spec(),
    {
        match self {
            Command::MoveTo { attack_move, .. } => if *attack_move {
                CommandColour::Attack
            } else {
                CommandColour::Move
            },
            Command::Attack { .. } => CommandColour::Attack,
            Command::Build { .. } => CommandColour::Build,
        }
    }
}

/// Where a queued command is marked on the map.
#[derive(PartialEq, Eq, Structural, Clone, Copy, Debug)]
pub enum CommandMarker<E, P> {
    At(P),
    OnEntity(E),
}

#[derive(PartialEq, Eq, Structural, Clone, Copy, Debug)]
pub enum CommandColour {
    Move,
    Attack,
    Build,
}

/// The orders a unit will carry out, first one first.
#[derive(Debug)]
pub struct CommandQueue<E, P> {
    commands: VecDeque<Command<E, P>>,
}

impl<E, P> View for CommandQueue<E, P> {
    type V = Seq<Command<E, P>>;

    closed spec fn view(&self) -> Seq<Command<E, P>> {
        self.commands@
    }
}

/// Whether a unit with these orders is free to pick a fight: it is idle or attack-moving.
pub open spec fn available_to_attack<E, P>(commands: Seq<Command<E, P>>) -> bool {
    commands.len() == 0 || commands[0] matches Command::MoveTo { attack_move: true, .. }
}

/// Whether the unit's current order is an attack it was not explicitly told to make.
pub open spec fn passive_attack<E, P>(commands: Seq<Command<E, P>>) -> bool {
    commands.len() > 0 && commands[0] matches Command::Attack { explicit: false, .. }
}

/// The animation a mouse plays while carrying out these orders.
pub open spec fn animation_for<E, P>(commands: Seq<Command<E, P>>) -> MouseAnimation {
    if commands.len() == 0 {
        MouseAnimation::Idle
    } else {
        match commands[0] {
            Command::MoveTo { .. } => MouseAnimation::Walking,
            Command::Attack { state, .. } => if state is OutOfRange {
                MouseAnimation::Walking
            } else {
                MouseAnimation::Shoot
            },
            Command::Build { state, .. } => if state is OutOfRange {
                MouseAnimation::Walking
            } else {
                MouseAnimation::Build
            },
        }
    }
}

/// Only attacks the player did not order are passive. A unit carrying out an order of the
/// player (an explicit attack, a move or a construction job) keeps it when shot, and keeps
/// an explicit attack when an enemy comes close; an idle unit that can attack fights back.
pub proof fn lemma_orders_of_the_player_are_kept<E, P>(commands: Seq<Command<E, P>>)
    ensures
        passive_attack(commands) ==> commands[0] is Attack && !commands[0]->explicit,
        commands.len() > 0 && (commands[0] matches Command::Attack { explicit: true, .. })
            ==> !passive_attack(commands) && !available_to_attack(commands),
        commands.len() > 0 && !(commands[0] is Attack) ==> !passive_attack(commands),
        commands.len() > 0 && (commands[0] matches Command::Attack { explicit: false, .. })
            ==> passive_attack(commands),
        commands.len() == 0 ==> !passive_attack(commands) && available_to_attack(commands),
{
}

impl<E, P> CommandQueue<E, P> {
    pub fn new() -> (queue: Self)
        ensures
            queue@ == Seq::<Command<E, P>>::empty(),
    {
        CommandQueue { commands: VecDeque::new() }
    }

    pub fn len(&self) -> (len: usize)
        ensures
            len == self@.len(),
    {
        self.commands.len()
    }

    pub fn is_empty(&self) -> (is_empty: bool)
        ensures
            is_empty == (self@.len() == 0),
    {
        self.commands.len() == 0
    }

    pub fn get(&self, index: usize) -> (command: Option<&Command<E, P>>)
        ensures
            match command {
                Some(c) => index < self@.len() && *c == self@[index as int],
                None => index >= self@.len(),
            },
    {
        if index < self.commands.len() {
            Some(&self.commands[index])
        } else {
            None
        }
    }

    pub fn front(&self) -> (command: Option<&Command<E, P>>)
        ensures
            match command {
                Some(c) => self@.len() > 0 && *c == self@[0],
                None => self@.len() == 0,
            },
    {
        self.get(0)
    }

    pub fn push_back(&mut self, command: Command<E, P>)
        ensures
            final(self)@ == old(self)@.push(command),
    {
        self.commands.push_back(command);
    }

    pub fn push_front(&mut self, command: Command<E, P>)
        ensures
            final(self)@ == seq![command] + old(self)@,
    {
        self.commands.push_front(command);
    }

    pub fn pop_front(&mut self) -> (command: Option<Command<E, P>>)
        ensures
            match command {
                Some(c) => old(self)@.len() > 0 && c == old(self)@[0] && final(self)@
                    == old(self)@.drop_first(),
                None => old(self)@.len() == 0 && final(self)@ == old(self)@,
            },
    {
        self.commands.pop_front()
    }

    /// Forgets every order; what the stop key does to the selected units.
    pub fn clear(&mut self)
        ensures
            final(self)@ == Seq::<Command<E, P>>::empty(),
    {
        self.commands.clear();
    }

    /// Gives the unit a new order. Without shift held the new order replaces all others;
    /// with shift held it is queued after them.
    pub fn queue_command(&mut self, command: Command<E, P>, shift_held: bool)
        ensures
            final(self)@ == if shift_held {
                old(self)@.push(command)
            } else {
                seq![command]
            },
    {
        if !shift_held {
            self.commands.clear();
        }
        self.commands.push_back(command);
    }

    pub fn is_available_to_attack(&self) -> (available: bool)
        ensures
            available == available_to_attack(self@),
    {
        if self.commands.len() == 0 {
            true
        } else {
            match &self.commands[0] {
                Command::MoveTo { attack_move, .. } => *attack_move,
                _ => false,
            }
        }
    }

    /// Aggression towards an enemy that came close, or that a nearby ally is fighting: a unit
    /// that is idle or attack-moving turns to attack `target`. Returns whether it did.
    pub fn agro_on(&mut self, target: Option<E>) -> (agroed: bool)
        ensures
            agroed == (available_to_attack(old(self)@) && target is Some),
            agroed ==> final(self)@.len() == old(self)@.len() + 1 && final(self)@[0].is_fresh_attack(
                target->0,
                false,
            ) && final(self)@.drop_first() == old(self)@,
            !agroed ==> final(self)@ == old(self)@,
    {
        if self.is_available_to_attack() {
            match target {
                Some(t) => {
                    self.commands.push_front(Command::new_attack(t, false));
                    assert(self@.drop_first() =~= old(self)@);
                    true
                },
                None => false,
            }
        } else {
            false
        }
    }

    /// The target of the current order when it is an attack the player did not order.
    pub fn passive_attack_target(&self) -> (target: Option<E>)
        where
            E: Copy,
        ensures
            target is Some == passive_attack(self@),
            target is Some ==> self@[0].target_entity() == target,
            self@.len() > 0 && (self@[0] matches Command::Attack { explicit: true, .. }) ==> target
                is None,
    {
        if self.commands.len() == 0 {
            None
        } else {
            match &self.commands[0] {
                Command::Attack { target, explicit: false, .. } => Some(*target),
                _ => None,
            }
        }
    }

    /// A unit that was shot fights back when it can attack and it is idle or busy attacking a
    /// building on its own initiative (`passive_target_is_building` tells whether the target of
    /// such an attack is a building).
    pub fn retaliate(&mut self, attacker: E, can_attack: bool, passive_target_is_building: bool)
        ensures
            ({
                let fights_back = can_attack && (old(self)@.len() == 0 || (passive_attack(
                    old(self)@,
                ) && passive_target_is_building));
                &&& fights_back ==> final(self)@.len() == old(self)@.len() + 1
                    && final(self)@[0].is_fresh_attack(attacker, false) && final(self)@.drop_first()
                    == old(self)@
                &&& !fights_back ==> final(self)@ == old(self)@
            }),
            old(self)@.len() > 0 && !(old(self)@[0] matches Command::Attack { explicit: false, .. })
                ==> final(self)@ == old(self)@,
    {
        let passive = if self.commands.len() == 0 {
            false
        } else {
            match &self.commands[0] {
                Command::Attack { explicit: false, .. } => true,
                _ => false,
            }
        };
        if can_attack && (self.commands.len() == 0 || (passive && passive_target_is_building)) {
            self.commands.push_front(Command::new_attack(attacker, false));
            assert(self@.drop_first() =~= old(self)@);
        }
    }

    /// The entity the unit is attacking, if its current order is an attack.
    pub fn attack_target(&self) -> (target: Option<E>)
        where
            E: Copy,
        ensures
            match target {
                Some(t) => self@.len() > 0 && self@[0] is Attack && self@[0].target_entity()
                    == Some(t),
                None => self@.len() == 0 || !(self@[0] is Attack),
            },
    {
        if self.commands.len() == 0 {
            None
        } else {
            match &self.commands[0] {
                Command::Attack { target, .. } => Some(*target),
                _ => None,
            }
        }
    }

    /// The building the unit is constructing, when its current order is a construction job it
    /// is close enough to work on.
    pub fn build_target_in_range(&self) -> (target: Option<E>)
        where
            E: Copy,
        ensures
            match target {
                Some(t) => self@.len() > 0 && (self@[0] matches Command::Build {
                    target: x,
                    state: ActionState::InRange,
                } && x == t),
                None => !(self@.len() > 0 && self@[0] matches Command::Build {
                    state: ActionState::InRange,
                    ..
                }),
            },
    {
        if self.commands.len() == 0 {
            None
        } else {
            match &self.commands[0] {
                Command::Build { target, state: ActionState::InRange } => Some(*target),
                _ => None,
            }
        }
    }

    pub fn animation(&self) -> (animation: MouseAnimation)
        ensures
            animation == animation_for(self@),
    {
        if self.commands.len() == 0 {
            MouseAnimation::Idle
        } else {
            match &self.commands[0] {
                Command::MoveTo { .. } => MouseAnimation::Walking,
                Command::Attack { state, .. } => if state.is_out_of_range() {
                    MouseAnimation::Walking
                } else {
                    MouseAnimation::Shoot
                },
                Command::Build { state, .. } => if state.is_out_of_range() {
                    MouseAnimation::Walking
                } else {
                    MouseAnimation::Build
                },
            }
        }
    }
}


/// The route of the current order, if there is an order and it has a route.
pub open spec fn front_path<E, P>(commands: Seq<Command<E, P>>) -> Option<Seq<P>> {
    if commands.len() > 0 {
        commands[0].path_of()
    } else {
        None
    }
}

/// `b` is the order `a` with a different route (and, for attacks and construction, out of
/// range).
pub open spec fn same_order<E, P>(a: Command<E, P>, b: Command<E, P>) -> bool {
    match (a, b) {
        (
            Command::MoveTo { target: t1, attack_move: m1, .. },
            Command::MoveTo { target: t2, attack_move: m2, .. },
        ) => t1 == t2 && m1 == m2,
        (
            Command::Attack { target: t1, explicit: x1, first_out_of_range: f1, .. },
            Command::Attack { target: t2, explicit: x2, first_out_of_range: f2, state },
        ) => t1 == t2 && x1 == x2 && f1 == f2 && state is OutOfRange,
        (Command::Build { target: t1, .. }, Command::Build { target: t2, state }) => t1 == t2
            && state is OutOfRange,
        _ => false,
    }
}

/// The attack `a` once its target is in range: no route, and no longer chasing.
pub open spec fn attack_in_range<E, P>(a: Command<E, P>, b: Command<E, P>) -> bool {
    match (a, b) {
        (
            Command::Attack { target: t1, explicit: x1, .. },
            Command::Attack { target: t2, explicit: x2, first_out_of_range, state },
        ) => t1 == t2 && x1 == x2 && !first_out_of_range && state is InRange,
        _ => false,
    }
}

impl<E, P> Command<E, P> {
    /// Takes the route out of a command that has one, leaving an empty route behind.
    fn take_path(&mut self) -> (path: Vec<P>)
        requires
            old(self).path_of() is Some,
        ensures
            Some(path@) == old(self).path_of(),
            same_order(*old(self), *final(self)),
            final(self).path_of() == Some(Seq::<P>::empty()),
    {
        let mut taken = Vec::new();
        match self {
            Command::MoveTo { path, .. } => {
                std::mem::swap(path, &mut taken);
            },
            Command::Attack { state, .. } => {
                match state {
                    ActionState::OutOfRange { path } => {
                        std::mem::swap(path, &mut taken);
                    },
                    ActionState::InRange => {},
                }
            },
            Command::Build { state, .. } => {
                match state {
                    ActionState::OutOfRange { path } => {
                        std::mem::swap(path, &mut taken);
                    },
                    ActionState::InRange => {},
                }
            },
        }
        taken
    }

    /// Replaces the route of a command that has one.
    fn set_path(&mut self, new_path: Vec<P>)
        requires
            old(self).path_of() is Some,
        ensures
            same_order(*old(self), *final(self)),
            final(self).path_of() == Some(new_path@),
    {
        match self {
            Command::MoveTo { path, .. } => {
                *path = new_path;
            },
            Command::Attack { state, .. } => {
                *state = ActionState::OutOfRange { path: new_path };
            },
            Command::Build { state, .. } => {
                *state = ActionState::OutOfRange { path: new_path };
            },
        }
    }
}

impl<E, P> CommandQueue<E, P> {
    /// The next point to walk to. A current order whose route is used up is dropped.
    pub fn next_waypoint(&mut self) -> (waypoint: Option<P>)
        where
            P: Copy,
        ensures
            match front_path(old(self)@) {
                None => waypoint is None && final(self)@ == old(self)@,
                Some(path) => if path.len() == 0 {
                    waypoint is None && final(self)@ == old(self)@.drop_first()
                } else {
                    waypoint == Some(path[0]) && final(self)@ == old(self)@
                },
            },
    {
        if self.commands.len() == 0 {
            return None;
        }
        let (empty, first) = match self.commands[0].path() {
            None => {
                return None;
            },
            Some(path) => if path.len() == 0 {
                (true, None)
            } else {
                (false, Some(path[0]))
            },
        };
        if empty {
            self.commands.pop_front();
        }
        first
    }

    /// The unit arrived at the next point of its route: that point is crossed off, and an order
    /// whose route is then used up is done.
    pub fn reach_waypoint(&mut self)
        ensures
            match front_path(old(self)@) {
                None => final(self)@ == old(self)@,
                Some(path) => if path.len() <= 1 {
                    final(self)@ == old(self)@.drop_first()
                } else {
                    &&& final(self)@.len() == old(self)@.len()
                    &&& same_order(old(self)@[0], final(self)@[0])
                    &&& final(self)@[0].path_of() == Some(path.drop_first())
                    &&& final(self)@.drop_first() == old(self)@.drop_first()
                },
            },
    {
        if self.commands.len() == 0 {
            return;
        }
        let path_len = match self.commands[0].path() {
            None => {
                return;
            },
            Some(path) => path.len(),
        };
        let command = self.commands.pop_front();
        if path_len > 1 {
            match command {
                Some(mut c) => {
                    let mut path = c.take_path();
                    path.remove(0);
                    c.set_path(path);
                    self.commands.push_front(c);
                    assert(self@.drop_first() =~= old(self)@.drop_first());
                },
                None => {},
            }
        }
    }
}


/// The check of `is_alive` on the order's target answered that the target is gone.
pub open spec fn reported_dead<E, P, F: Fn(E) -> bool>(command: Command<E, P>, is_alive: F) -> bool {
    match command.target_entity() {
        Some(t) => is_alive.ensures((t,), false),
        None => false,
    }
}

/// The order has no target, or the check of `is_alive` answered that its target exists.
pub open spec fn reported_alive<E, P, F: Fn(E) -> bool>(command: Command<E, P>, is_alive: F) -> bool {
    match command.target_entity() {
        Some(t) => is_alive.ensures((t,), true),
        None => true,
    }
}

impl<E, P> CommandQueue<E, P> {
    /// When the current order is a move whose route is missing, or out of date because the map
    /// changed this tick, the point it has to be routed to.
    pub fn move_target_needing_path(&self, map_updated: bool) -> (target: Option<P>)
        where
            P: Copy,
        ensures
            match target {
                Some(t) => self@.len() > 0 && (self@[0] matches Command::MoveTo { target: x, path, .. }
                    && x == t && (path@.len() == 0 || map_updated)),
                None => !(self@.len() > 0 && (self@[0] matches Command::MoveTo { path, .. } && (
                path@.len() == 0 || map_updated))),
            },
    {
        if self.commands.len() == 0 {
            None
        } else {
            match &self.commands[0] {
                Command::MoveTo { target, path, .. } => if path.len() == 0 || map_updated {
                    Some(*target)
                } else {
                    None
                },
                _ => None,
            }
        }
    }

    /// Installs the route found for the current move order; a move that cannot be routed is
    /// given up.
    pub fn set_move_path(&mut self, found: Option<Vec<P>>)
        requires
            old(self)@.len() > 0,
            old(self)@[0] is MoveTo,
        ensures
            match found {
                Some(path) => {
                    &&& final(self)@.len() == old(self)@.len()
                    &&& same_order(old(self)@[0], final(self)@[0])
                    &&& final(self)@[0].path_of() == Some(path@)
                    &&& final(self)@.drop_first() == old(self)@.drop_first()
                },
                None => final(self)@ == old(self)@.drop_first(),
            },
    {
        let command = self.commands.pop_front();
        match (command, found) {
            (Some(mut c), Some(path)) => {
                c.set_path(path);
                self.commands.push_front(c);
                assert(self@.drop_first() =~= old(self)@.drop_first());
            },
            _ => {},
        }
    }

    /// The target of the current attack and whether the unit has yet to be out of range of it.
    pub fn attack_status(&self) -> (status: Option<(E, bool)>)
        where
            E: Copy,
        ensures
            match status {
                Some((t, first)) => self@.len() > 0 && (self@[0] matches Command::Attack {
                    target,
                    first_out_of_range,
                    ..
                } && target == t && first_out_of_range == first),
                None => self@.len() == 0 || !(self@[0] is Attack),
            },
    {
        if self.commands.len() == 0 {
            None
        } else {
            match &self.commands[0] {
                Command::Attack { target, first_out_of_range, .. } => Some(
                    (*target, *first_out_of_range),
                ),
                _ => None,
            }
        }
    }

    /// Settles the current attack once the distance to its target is known. Out of range for
    /// the first time, the unit chases along `found`, or gives up when no route was found; out
    /// of range again, it gives up; in range, it stops chasing and shoots.
    pub fn resolve_attack_range(&mut self, out_of_range: bool, found: Option<Vec<P>>)
        requires
            old(self)@.len() > 0,
            old(self)@[0] is Attack,
        ensures
            ({
                let first = old(self)@[0]->first_out_of_range;
                if out_of_range && first {
                    match found {
                        Some(path) => {
                            &&& final(self)@.len() == old(self)@.len()
                            &&& same_order(old(self)@[0], final(self)@[0])
                            &&& final(self)@[0].path_of() == Some(path@)
                            &&& final(self)@.drop_first() == old(self)@.drop_first()
                        },
                        None => final(self)@ == old(self)@.drop_first(),
                    }
                } else if out_of_range {
                    final(self)@ == old(self)@.drop_first()
                } else {
                    &&& final(self)@.len() == old(self)@.len()
                    &&& attack_in_range(old(self)@[0], final(self)@[0])
                    &&& final(self)@.drop_first() == old(self)@.drop_first()
                }
            }),
    {
        let command = self.commands.pop_front();
        match command {
            Some(mut c) => {
                let first = match &c {
                    Command::Attack { first_out_of_range, .. } => *first_out_of_range,
                    _ => false,
                };
                if out_of_range && first {
                    match found {
                        Some(path) => {
                            match &mut c {
                                Command::Attack { state, .. } => {
                                    *state = ActionState::OutOfRange { path };
                                },
                                _ => {},
                            }
                            self.commands.push_front(c);
                            assert(self@.drop_first() =~= old(self)@.drop_first());
                        },
                        None => {},
                    }
                } else if !out_of_range {
                    match &mut c {
                        Command::Attack { state, first_out_of_range, .. } => {
                            *state = ActionState::InRange;
                            *first_out_of_range = false;
                        },
                        _ => {},
                    }
                    self.commands.push_front(c);
                    assert(self@.drop_first() =~= old(self)@.drop_first());
                }
            },
            None => {},
        }
    }

    /// Drops orders at the front of the queue whose target no longer exists, asking `is_alive`
    /// once about each target it looks at, and stops at the first order that has no target or
    /// whose target exists.
    pub fn stop_actions_on_dead_entities<F: Fn(E) -> bool>(&mut self, is_alive: F)
        where
            E: Copy,
        requires
            forall|e: E| is_alive.requires((e,)),
        ensures
            exists|k: int|
                #![trigger old(self)@.skip(k)]
                {
                    &&& 0 <= k <= old(self)@.len()
                    &&& final(self)@ == old(self)@.skip(k)
                    &&& forall|i: int|
                        0 <= i < k ==> reported_dead(#[trigger] old(self)@[i], is_alive)
                    &&& k < old(self)@.len() ==> reported_alive(old(self)@[k], is_alive)
                },
    {
        let ghost k: int = 0;
        loop
            invariant
                0 <= k <= old(self)@.len(),
                self@ == old(self)@.skip(k),
                forall|i: int| 0 <= i < k ==> reported_dead(#[trigger] old(self)@[i], is_alive),
                forall|e: E| is_alive.requires((e,)),
            ensures
                0 <= k <= old(self)@.len(),
                self@ == old(self)@.skip(k),
                forall|i: int| 0 <= i < k ==> reported_dead(#[trigger] old(self)@[i], is_alive),
                k < old(self)@.len() ==> reported_alive(old(self)@[k], is_alive),
            decreases self@.len(),
        {
            if self.commands.len() == 0 {
                break;
            }
            let target = match &self.commands[0] {
                Command::Attack { target, .. } => Some(*target),
                Command::Build { target, .. } => Some(*target),
                Command::MoveTo { .. } => None,
            };
            assert(self@[0] == old(self)@[k]);
            match target {
                Some(t) => {
                    let alive = is_alive(t);
                    if alive {
                        break;
                    }
                    self.commands.pop_front();
                    proof {
                        assert(old(self)@.skip(k).drop_first() =~= old(self)@.skip(k + 1));
                        k = k + 1;
                    }
                },
                None => {
                    break;
                },
            }
        }
        assert(self@ == old(self)@.skip(k));
    }
}


impl<E, P> CommandQueue<E, P> {
    /// The orders of a newly spawned unit: just the starting order, if it has one.
    pub fn starting_with(command: Option<Command<E, P>>) -> (queue: Self)
        ensures
            queue@ == match command {
                Some(c) => seq![c],
                None => Seq::<Command<E, P>>::empty(),
            },
    {
        let mut queue = CommandQueue::new();
        match command {
            Some(c) => queue.push_back(c),
            None => {},
        }
        assert(queue@ =~= match command {
            Some(c) => seq![c],
            None => Seq::<Command<E, P>>::empty(),
        });
        queue
    }
}

} // verus!
