use vstd::prelude::*;
use crate::abilities::{Ability, AbilityType, Key};
use crate::commands::{ActionState, Command};
use crate::economy::{first_min_index, as_ints, shortest_queue, CheeseCoins};
use crate::entities::{Building, Side, Unit};
use crate::mouse::{next_frame, MouseButtonState};

verus! {

/// What a left click on the map does.
#[derive(PartialEq, Eq, Structural, Clone, Copy, Debug)]
pub enum CommandMode {
    Normal,
    AttackMove,
    Construct { building: Building },
    SetRecruitmentWaypoint,
}

impl Default for CommandMode {
    fn default() -> (mode: Self)
        ensures
            mode == CommandMode::Normal,
    {
        CommandMode::Normal
    }
}

/// The screen the game is on.
#[derive(PartialEq, Eq, Structural, Clone, Copy, Debug)]
pub enum Mode {
    Titlescreen,
    Playing,
    PlayingMenu,
    ScenarioWon,
    ScenarioLost,
    Quit,
}

/// Keyboard state that drives the unit controls.
#[derive(Debug)]
pub struct RtsControls {
    pub shift_held: bool,
    pub control_held: bool,
    pub stop_pressed: bool,
    pub mode: CommandMode,
    /// Which of the ten control group keys were pressed this frame.
    pub control_group_key_pressed: [bool; 10],
}

impl Default for RtsControls {
    fn default() -> (controls: Self)
        ensures
            !controls.shift_held,
            !controls.control_held,
            !controls.stop_pressed,
            controls.mode == CommandMode::Normal,
            forall|i: int| 0 <= i < 10 ==> !controls.control_group_key_pressed@[i],
    {
        RtsControls {
            shift_held: false,
            control_held: false,
            stop_pressed: false,
            mode: CommandMode::Normal,
            control_group_key_pressed: [false; 10],
        }
    }
}

/// Arrow keys held to scroll the camera.
#[derive(PartialEq, Eq, Structural, Clone, Copy, Debug)]
pub struct CameraControls {
    pub up: bool,
    pub down: bool,
    pub left: bool,
    pub right: bool,
}

impl Default for CameraControls {
    fn default() -> (controls: Self)
        ensures
            controls == (CameraControls { up: false, down: false, left: false, right: false }),
    {
        CameraControls { up: false, down: false, left: false, right: false }
    }
}

#[derive(PartialEq, Eq, Structural, Clone, Copy, Debug)]
pub struct DebugControls {
    pub set_pathfinding_start_pressed: bool,
}

impl Default for DebugControls {
    fn default() -> (controls: Self)
        ensures
            !controls.set_pathfinding_start_pressed,
    {
        DebugControls { set_pathfinding_start_pressed: false }
    }
}

/// The control group a number key selects.
pub open spec fn group_of_key(key: Key) -> Option<int> {
    match key {
        Key::Key0 => Some(0),
        Key::Key1 => Some(1),
        Key::Key2 => Some(2),
        Key::Key3 => Some(3),
        Key::Key4 => Some(4),
        Key::Key5 => Some(5),
        Key::Key6 => Some(6),
        Key::Key7 => Some(7),
        Key::Key8 => Some(8),
        Key::Key9 => Some(9),
        _ => None,
    }
}

/// The control group a number key selects, by scan code: with shift held the number keys give
/// no key code, so they are recognised by scan code as well (2 is the "1" key, 11 the "0" key).
pub open spec fn group_of_scancode(scancode: u32) -> Option<int> {
    if scancode == 11 {
        Some(0)
    } else if 2 <= scancode <= 10 {
        Some(scancode - 1)
    } else {
        None
    }
}

pub fn control_group_for_key(key: Key) -> (group: Option<usize>)
    ensures
        match group {
            Some(g) => group_of_key(key) == Some(g as int),
            None => group_of_key(key) is None,
        },
{
    match key {
        Key::Key0 => Some(0),
        Key::Key1 => Some(1),
        Key::Key2 => Some(2),
        Key::Key3 => Some(3),
        Key::Key4 => Some(4),
        Key::Key5 => Some(5),
        Key::Key6 => Some(6),
        Key::Key7 => Some(7),
        Key::Key8 => Some(8),
        Key::Key9 => Some(9),
        _ => None,
    }
}

pub fn control_group_for_scancode(scancode: u32) -> (group: Option<usize>)
    ensures
        match group {
            Some(g) => group_of_scancode(scancode) == Some(g as int),
            None => group_of_scancode(scancode) is None,
        },
{
    if scancode == 11 {
        Some(0)
    } else if 2 <= scancode && scancode <= 10 {
        Some((scancode - 1) as usize)
    } else {
        None
    }
}

pub open spec fn camera_after_key(camera: CameraControls, key: Option<Key>, pressed: bool) -> CameraControls {
    match key {
        Some(Key::Up) => CameraControls { up: pressed, ..camera },
        Some(Key::Down) => CameraControls { down: pressed, ..camera },
        Some(Key::Left) => CameraControls { left: pressed, ..camera },
        Some(Key::Right) => CameraControls { right: pressed, ..camera },
        _ => camera,
    }
}

pub open spec fn command_mode_after_key(mode: CommandMode, key: Option<Key>, pressed: bool) -> CommandMode {
    if pressed && key == Some(Key::A) {
        CommandMode::AttackMove
    } else if pressed && key == Some(Key::Escape) && mode != CommandMode::Normal {
        CommandMode::Normal
    } else {
        mode
    }
}

/// Escape first leaves a special command mode; pressed again it opens the menu.
pub open spec fn game_mode_after_key(
    command_mode: CommandMode,
    mode: Mode,
    key: Option<Key>,
    pressed: bool,
) -> Mode {
    if pressed && key == Some(Key::Escape) && command_mode == CommandMode::Normal {
        Mode::PlayingMenu
    } else {
        mode
    }
}

pub open spec fn groups_after_key(
    groups: Seq<bool>,
    key: Option<Key>,
    scancode: u32,
    pressed: bool,
) -> Seq<bool> {
    let by_key = match key {
        Some(k) => if pressed && group_of_key(k) is Some {
            groups.update(group_of_key(k)->0, true)
        } else {
            groups
        },
        None => groups,
    };
    if pressed && group_of_scancode(scancode) is Some {
        by_key.update(group_of_scancode(scancode)->0, true)
    } else {
        by_key
    }
}

impl RtsControls {
    /// Forgets the keys that only count for the frame they were pressed in.
    pub fn end_of_frame(&mut self)
        ensures
            !final(self).stop_pressed,
            forall|i: int| 0 <= i < 10 ==> !final(self).control_group_key_pressed@[i],
            final(self).shift_held == old(self).shift_held,
            final(self).control_held == old(self).control_held,
            final(self).mode == old(self).mode,
    {
        self.stop_pressed = false;
        let mut i: usize = 0;
        while i < 10
            invariant
                i <= 10,
                !self.stop_pressed,
                forall|j: int| 0 <= j < i ==> !self.control_group_key_pressed@[j],
                self.shift_held == old(self).shift_held,
                self.control_held == old(self).control_held,
                self.mode == old(self).mode,
            decreases 10 - i,
        {
            self.control_group_key_pressed[i] = false;
            i = i + 1;
        }
    }
}

impl DebugControls {
    pub fn end_of_frame(&mut self)
        ensures
            !final(self).set_pathfinding_start_pressed,
    {
        self.set_pathfinding_start_pressed = false;
    }
}

/// Reacts to one key being pressed or released, apart from ability hotkeys.
pub fn handle_keypress(
    key: Option<Key>,
    scancode: u32,
    pressed: bool,
    camera_controls: &mut CameraControls,
    rts_controls: &mut RtsControls,
    debug_controls: &mut DebugControls,
    mode: &mut Mode,
)
    ensures
        *final(camera_controls) == camera_after_key(*old(camera_controls), key, pressed),
        final(camera_controls).left == if key == Some(Key::Left) {
            pressed
        } else {
            old(camera_controls).left
        },
        final(camera_controls).right == if key == Some(Key::Right) {
            pressed
        } else {
            old(camera_controls).right
        },
        final(camera_controls).up == if key == Some(Key::Up) {
            pressed
        } else {
            old(camera_controls).up
        },
        final(camera_controls).down == if key == Some(Key::Down) {
            pressed
        } else {
            old(camera_controls).down
        },
        final(rts_controls).shift_held == if key == Some(Key::LShift) {
            pressed
        } else {
            old(rts_controls).shift_held
        },
        final(rts_controls).control_held == if key == Some(Key::LControl) {
            pressed
        } else {
            old(rts_controls).control_held
        },
        final(rts_controls).stop_pressed == (old(rts_controls).stop_pressed || (pressed && key
            == Some(Key::S))),
        final(rts_controls).mode == command_mode_after_key(old(rts_controls).mode, key, pressed),
        final(rts_controls).control_group_key_pressed@ == groups_after_key(
            old(rts_controls).control_group_key_pressed@,
            key,
            scancode,
            pressed,
        ),
        final(debug_controls).set_pathfinding_start_pressed == (
        old(debug_controls).set_pathfinding_start_pressed || (pressed && key == Some(Key::T))),
        *final(mode) == game_mode_after_key(old(rts_controls).mode, *old(mode), key, pressed),
{
    match key {
        Some(code) => {
            match code {
                Key::Up => camera_controls.up = pressed,
                Key::Down => camera_controls.down = pressed,
                Key::Left => camera_controls.left = pressed,
                Key::Right => camera_controls.right = pressed,
                Key::LShift => rts_controls.shift_held = pressed,
                Key::LControl => rts_controls.control_held = pressed,
                Key::S => if pressed {
                    rts_controls.stop_pressed = true;
                },
                Key::A => if pressed {
                    rts_controls.mode = CommandMode::AttackMove;
                },
                Key::T => if pressed {
                    debug_controls.set_pathfinding_start_pressed = true;
                },
                Key::Escape => if pressed {
                    if rts_controls.mode != CommandMode::Normal {
                        rts_controls.mode = CommandMode::Normal;
                    } else {
                        *mode = Mode::PlayingMenu;
                    }
                },
                _ => {
                    if pressed {
                        match control_group_for_key(code) {
                            Some(g) => {
                                rts_controls.control_group_key_pressed[g] = true;
                            },
                            None => {},
                        }
                    }
                },
            }
        },
        None => {},
    }
    if pressed {
        match control_group_for_scancode(scancode) {
            Some(g) => {
                rts_controls.control_group_key_pressed[g] = true;
            },
            None => {},
        }
    }
}

impl Ability {
    /// Whether this key event triggers the ability.
    pub fn is_triggered_by(&self, key: Option<Key>, pressed: bool) -> (triggered: bool)
        ensures
            triggered == (pressed && key == Some(self.hotkey)),
    {
        match key {
            Some(k) => pressed && k == self.hotkey,
            None => false,
        }
    }
}

impl RtsControls {
    /// Uses an ability of the selected units. Placing a building or a waypoint switches the
    /// command mode; recruiting, when affordable, pays for the unit and returns which caster
    /// (given the lengths of their recruitment queues) gets it: the first with the shortest queue.
    pub fn use_ability(
        &mut self,
        ability_type: AbilityType,
        cheese_coins: &mut CheeseCoins,
        queue_lengths: &Vec<usize>,
    ) -> (recruit: Option<(usize, Unit)>)
        requires
            ability_type matches AbilityType::Recruit(unit) && unit.cost_spec() <= old(cheese_coins).0
                ==> queue_lengths@.len() > 0,
        ensures
            final(self).shift_held == old(self).shift_held,
            final(self).control_held == old(self).control_held,
            final(self).stop_pressed == old(self).stop_pressed,
            final(self).control_group_key_pressed == old(self).control_group_key_pressed,
            match ability_type {
                AbilityType::SetRecruitmentWaypoint => {
                    &&& final(self).mode == CommandMode::SetRecruitmentWaypoint
                    &&& recruit is None
                    &&& *final(cheese_coins) == *old(cheese_coins)
                },
                AbilityType::Build(building) => {
                    &&& final(self).mode == (CommandMode::Construct { building })
                    &&& recruit is None
                    &&& *final(cheese_coins) == *old(cheese_coins)
                },
                AbilityType::Recruit(unit) => {
                    &&& final(self).mode == old(self).mode
                    &&& if unit.cost_spec() <= old(cheese_coins).0 {
                        &&& final(cheese_coins).0 == old(cheese_coins).0 - unit.cost_spec()
                        &&& recruit == Some(
                            (first_min_index(as_ints(queue_lengths@)) as usize, unit),
                        )
                    } else {
                        &&& *final(cheese_coins) == *old(cheese_coins)
                        &&& recruit is None
                    }
                },
            },
    {
        match ability_type {
            AbilityType::SetRecruitmentWaypoint => {
                self.mode = CommandMode::SetRecruitmentWaypoint;
                None
            },
            AbilityType::Build(building) => {
                self.mode = CommandMode::Construct { building };
                None
            },
            AbilityType::Recruit(unit) => {
                let cost = unit.cost();
                if cheese_coins.can_afford(cost) {
                    cheese_coins.spend(cost);
                    match shortest_queue(queue_lengths) {
                        Some(i) => Some((i, unit)),
                        None => None,
                    }
                } else {
                    None
                }
            },
        }
    }
}


/// What a left click on the map does in the current command mode.
#[derive(PartialEq, Eq, Structural, Clone, Copy, Debug)]
pub enum LeftClickAction {
    IssueCommand,
    Select,
    Construct(Building),
    SetRecruitmentWaypoint,
}

impl RtsControls {
    pub fn left_click_action(&self) -> (action: LeftClickAction)
        ensures
            action == match self.mode {
                CommandMode::AttackMove => LeftClickAction::IssueCommand,
                CommandMode::Normal => LeftClickAction::Select,
                CommandMode::Construct { building } => LeftClickAction::Construct(building),
                CommandMode::SetRecruitmentWaypoint => LeftClickAction::SetRecruitmentWaypoint,
            },
    {
        match self.mode {
            CommandMode::AttackMove => LeftClickAction::IssueCommand,
            CommandMode::Normal => LeftClickAction::Select,
            CommandMode::Construct { building } => LeftClickAction::Construct(building),
            CommandMode::SetRecruitmentWaypoint => LeftClickAction::SetRecruitmentWaypoint,
        }
    }

    /// After a left click the command mode goes back to normal, unless shift is held to keep
    /// using it.
    pub fn finish_left_click(&mut self)
        ensures
            final(self).mode == if old(self).shift_held {
                old(self).mode
            } else {
                CommandMode::Normal
            },
            final(self).shift_held == old(self).shift_held,
            final(self).control_held == old(self).control_held,
            final(self).stop_pressed == old(self).stop_pressed,
            final(self).control_group_key_pressed == old(self).control_group_key_pressed,
    {
        if !self.shift_held {
            self.mode = CommandMode::Normal;
        }
    }

    /// A right click cancels a special command mode; in normal mode it gives an order. Returns
    /// whether to give the order.
    pub fn right_click(&mut self) -> (issue_command: bool)
        ensures
            issue_command == (old(self).mode == CommandMode::Normal),
            final(self).mode == CommandMode::Normal,
            final(self).shift_held == old(self).shift_held,
            final(self).control_held == old(self).control_held,
            final(self).stop_pressed == old(self).stop_pressed,
            final(self).control_group_key_pressed == old(self).control_group_key_pressed,
    {
        if self.mode != CommandMode::Normal {
            self.mode = CommandMode::Normal;
            false
        } else {
            true
        }
    }
}

/// A change to which entities are selected, applied in order.
#[derive(PartialEq, Eq, Structural, Clone, Copy, Debug)]
pub enum SelectionChange<E> {
    DeselectAll,
    Select(E),
    Deselect(E),
}

/// The selectable entity under a left click.
#[derive(PartialEq, Eq, Structural, Clone, Copy, Debug)]
pub struct ClickedEntity<E> {
    pub entity: E,
    pub is_selected: bool,
    pub on_player_side: bool,
}

pub open spec fn click_selection_spec<E>(
    clicked: Option<ClickedEntity<E>>,
    shift_held: bool,
    only_player_units_selected: bool,
) -> Seq<SelectionChange<E>> {
    let start = if shift_held {
        Seq::empty()
    } else {
        seq![SelectionChange::DeselectAll]
    };
    match clicked {
        None => start,
        Some(c) => if shift_held && c.is_selected {
            start.push(SelectionChange::Deselect(c.entity))
        } else if !shift_held {
            start.push(SelectionChange::Select(c.entity))
        } else if only_player_units_selected && c.on_player_side {
            start.push(SelectionChange::Select(c.entity))
        } else {
            start
        },
    }
}

/// Selection by left click. Without shift the click replaces the selection (clicking empty
/// ground clears it); with shift it toggles the clicked entity, adding it only when it and
/// everything already selected belong to the player.
pub fn click_selection<E: Copy>(
    clicked: Option<ClickedEntity<E>>,
    shift_held: bool,
    only_player_units_selected: bool,
) -> (changes: Vec<SelectionChange<E>>)
    ensures
        changes@ == click_selection_spec(clicked, shift_held, only_player_units_selected),
        !shift_held ==> changes@ == match clicked {
            Some(c) => seq![SelectionChange::DeselectAll, SelectionChange::Select(c.entity)],
            None => seq![SelectionChange::<E>::DeselectAll],
        },
        forall|i: int| 0 <= i < changes@.len() && #[trigger] changes@[i] is Deselect ==> shift_held,
{
    let mut changes = Vec::new();
    if !shift_held {
        changes.push(SelectionChange::DeselectAll);
    }
    match clicked {
        None => {},
        Some(c) => {
            if shift_held && c.is_selected {
                changes.push(SelectionChange::Deselect(c.entity));
            } else if !shift_held {
                changes.push(SelectionChange::Select(c.entity));
            } else if only_player_units_selected && c.on_player_side {
                changes.push(SelectionChange::Select(c.entity));
            }
        },
    }
    proof {
        if !shift_held {
            assert(changes@.subrange(0, 1) =~= seq![SelectionChange::<E>::DeselectAll]);
        }
    }
    assert(changes@ =~= click_selection_spec(clicked, shift_held, only_player_units_selected));
    changes
}

/// The selection after applying `changes` in order to the selection `selected`.
pub open spec fn apply_changes<E>(selected: Set<E>, changes: Seq<SelectionChange<E>>) -> Set<E>
    decreases changes.len(),
{
    if changes.len() == 0 {
        selected
    } else {
        let before = apply_changes(selected, changes.drop_last());
        match changes.last() {
            SelectionChange::DeselectAll => Set::empty(),
            SelectionChange::Select(e) => before.insert(e),
            SelectionChange::Deselect(e) => before.remove(e),
        }
    }
}

/// What a left click does to the selection. Without shift the clicked entity becomes the whole
/// selection (clicking empty ground clears it), whether or not it was selected before. With
/// shift a selected entity is taken out, and an unselected one is added only when it and
/// everything already selected belong to the player; clicking empty ground with shift changes
/// nothing.
pub proof fn lemma_click_selects<E>(
    selected: Set<E>,
    clicked: Option<ClickedEntity<E>>,
    shift_held: bool,
    only_player_units_selected: bool,
)
    requires
        clicked matches Some(c) ==> c.is_selected == selected.contains(c.entity),
    ensures
        apply_changes(selected, click_selection_spec(clicked, shift_held, only_player_units_selected))
            == match clicked {
            None => if shift_held {
                selected
            } else {
                Set::empty()
            },
            Some(c) => if !shift_held {
                Set::empty().insert(c.entity)
            } else if c.is_selected {
                selected.remove(c.entity)
            } else if only_player_units_selected && c.on_player_side {
                selected.insert(c.entity)
            } else {
                selected
            },
        },
{
    let changes = click_selection_spec(clicked, shift_held, only_player_units_selected);
    reveal_with_fuel(apply_changes, 3);
    if !shift_held {
        match clicked {
            Some(c) => {
                assert(changes.drop_last() =~= seq![SelectionChange::<E>::DeselectAll]);
                assert(changes.drop_last().drop_last() =~= Seq::<SelectionChange<E>>::empty());
                assert(apply_changes(selected, changes) =~= Set::empty().insert(c.entity));
            },
            None => {
                assert(changes.drop_last() =~= Seq::<SelectionChange<E>>::empty());
                assert(apply_changes(selected, changes) =~= Set::empty());
            },
        }
    } else {
        match clicked {
            Some(c) => {
                if c.is_selected || (only_player_units_selected && c.on_player_side) {
                    assert(changes.drop_last() =~= Seq::<SelectionChange<E>>::empty());
                }
            },
            None => {},
        }
    }
}

proof fn lemma_select_all_adds<E>(selected: Set<E>, start: Seq<SelectionChange<E>>, entities: Seq<E>)
    ensures
        apply_changes(selected, start + select_all(entities)) == apply_changes(selected, start)
            + entities.to_set(),
    decreases entities.len(),
{
    if entities.len() == 0 {
        assert(start + select_all(entities) =~= start);
        assert(entities.to_set() =~= Set::<E>::empty());
        assert(apply_changes(selected, start) + Set::<E>::empty() =~= apply_changes(selected, start));
    } else {
        let init = entities.drop_last();
        lemma_select_all_adds(selected, start, init);
        let all = start + select_all(entities);
        assert(all.drop_last() =~= start + select_all(init));
        assert(all.last() == SelectionChange::Select(entities.last()));
        assert(entities.to_set() =~= init.to_set().insert(entities.last())) by {
            assert forall|x: E| entities.to_set().contains(x) <==> init.to_set().insert(
                entities.last(),
            ).contains(x) by {
                if entities.contains(x) {
                    let i = choose|i: int| 0 <= i < entities.len() && entities[i] == x;
                    if i < entities.len() - 1 {
                        assert(init[i] == x);
                    }
                }
                if init.contains(x) {
                    let i = choose|i: int| 0 <= i < init.len() && init[i] == x;
                    assert(entities[i] == x);
                }
                if x == entities.last() {
                    assert(entities[entities.len() - 1] == x);
                }
            }
        }
        assert(apply_changes(selected, all) =~= apply_changes(selected, start) + entities.to_set());
    }
}

/// What dragging a box does to the selection: without shift exactly the player's entities in
/// the box are selected; with shift they are added to what was selected.
pub proof fn lemma_drag_selects<E>(selected: Set<E>, shift_held: bool, in_box: Seq<E>)
    ensures
        apply_changes(
            selected,
            if shift_held {
                select_all(in_box)
            } else {
                seq![SelectionChange::DeselectAll] + select_all(in_box)
            },
        ) == if shift_held {
            selected + in_box.to_set()
        } else {
            in_box.to_set()
        },
{
    if shift_held {
        lemma_select_all_adds(selected, Seq::empty(), in_box);
        assert(Seq::<SelectionChange<E>>::empty() + select_all(in_box) =~= select_all(in_box));
    } else {
        lemma_select_all_adds(selected, seq![SelectionChange::DeselectAll], in_box);
        reveal_with_fuel(apply_changes, 2);
        assert(seq![SelectionChange::<E>::DeselectAll].drop_last() =~= Seq::<SelectionChange<E>>::empty());
        assert(Set::<E>::empty() + in_box.to_set() =~= in_box.to_set());
    }
}

/// An entity under the cursor when the player gives an order.
#[derive(PartialEq, Eq, Structural, Clone, Copy, Debug)]
pub struct EntityUnderCursor<E> {
    pub entity: E,
    pub on_player_side: bool,
    pub is_building: bool,
}

/// The order an order-giving click gives at `position`: attack an enemy, work on one of the
/// player's buildings, or move there (attacking on the way in attack-move mode). Clicking one
/// of the player's units, or clicking the ground while placing a building or a waypoint, gives
/// no order.
pub fn command_for_click<E: Copy, P: Copy>(
    under_cursor: Option<EntityUnderCursor<E>>,
    mode: CommandMode,
    position: P,
) -> (command: Option<Command<E, P>>)
    ensures
        match under_cursor {
            Some(u) => if !u.on_player_side {
                command matches Some(c) && c.is_fresh_attack(u.entity, true)
            } else if u.is_building {
                command == Some(Command::<E, P>::Build { target: u.entity, state: ActionState::InRange })
            } else {
                command is None
            },
            None => match mode {
                CommandMode::Normal => command matches Some(
                    Command::MoveTo { target, attack_move: false, path },
                ) && target == position && path@.len() == 0,
                CommandMode::AttackMove => command matches Some(
                    Command::MoveTo { target, attack_move: true, path },
                ) && target == position && path@.len() == 0,
                _ => command is None,
            },
        },
{
    match under_cursor {
        Some(u) => if !u.on_player_side {
            Some(Command::new_attack(u.entity, true))
        } else if u.is_building {
            Some(Command::new_build(u.entity))
        } else {
            None
        },
        None => match mode {
            CommandMode::Normal => Some(
                Command::MoveTo { target: position, path: Vec::new(), attack_move: false },
            ),
            CommandMode::AttackMove => Some(
                Command::MoveTo { target: position, path: Vec::new(), attack_move: true },
            ),
            CommandMode::Construct { .. } => None,
            CommandMode::SetRecruitmentWaypoint => None,
        },
    }
}

/// Whether a building can be placed where the cursor is.
#[derive(PartialEq, Eq, Structural, Clone, Copy, Debug)]
pub enum Placement {
    Allowed,
    /// Pumps only go on cheese geysers.
    NotAllowed,
    CantAfford,
}

pub open spec fn placement_spec(building: Building, cheese_coins: u32, snapped_to_guyser: bool) -> Placement {
    if building.cost_spec() > cheese_coins {
        Placement::CantAfford
    } else if building == Building::Pump && !snapped_to_guyser {
        Placement::NotAllowed
    } else {
        Placement::Allowed
    }
}

pub fn placement(building: Building, cheese_coins: u32, snapped_to_guyser: bool) -> (placement: Placement)
    ensures
        placement == placement_spec(building, cheese_coins, snapped_to_guyser),
{
    if building.cost() > cheese_coins {
        Placement::CantAfford
    } else if building == Building::Pump && !snapped_to_guyser {
        Placement::NotAllowed
    } else {
        Placement::Allowed
    }
}


/// Ten numbered groups of entities the player can recall with the number keys.
#[derive(Debug)]
pub struct ControlGroups<E> {
    groups: Vec<Vec<E>>,
}

impl<E> View for ControlGroups<E> {
    type V = Seq<Seq<E>>;

    closed spec fn view(&self) -> Seq<Seq<E>> {
        self.groups@.map_values(|g: Vec<E>| g@)
    }
}

/// A group after its key was pressed (or not): with control held it becomes the selection,
/// with shift held the selection is added to it.
pub open spec fn group_after_key<E>(
    group: Seq<E>,
    pressed: bool,
    control_held: bool,
    shift_held: bool,
    selected: Seq<E>,
) -> Seq<E> {
    if !pressed {
        group
    } else if control_held {
        selected
    } else if shift_held {
        group + selected
    } else {
        group
    }
}

pub open spec fn select_all<E>(entities: Seq<E>) -> Seq<SelectionChange<E>> {
    entities.map_values(|e: E| SelectionChange::Select(e))
}

/// The selection changes of pressing one group's key: with control held none; with shift
/// held everything in the enlarged group gets selected; otherwise the group replaces the
/// selection (unless it is empty).
pub open spec fn group_key_changes<E>(
    group: Seq<E>,
    pressed: bool,
    control_held: bool,
    shift_held: bool,
    selected: Seq<E>,
) -> Seq<SelectionChange<E>> {
    if !pressed || control_held {
        Seq::empty()
    } else if shift_held {
        select_all(group + selected)
    } else if group.len() > 0 {
        seq![SelectionChange::DeselectAll] + select_all(group)
    } else {
        Seq::empty()
    }
}

/// The selection changes for the keys of the first `n` groups, in group order.
pub open spec fn control_group_changes<E>(
    groups: Seq<Seq<E>>,
    pressed: Seq<bool>,
    control_held: bool,
    shift_held: bool,
    selected: Seq<E>,
    n: int,
) -> Seq<SelectionChange<E>>
    decreases n,
{
    if n <= 0 {
        Seq::empty()
    } else {
        control_group_changes(groups, pressed, control_held, shift_held, selected, n - 1)
            + group_key_changes(groups[n - 1], pressed[n - 1], control_held, shift_held, selected)
    }
}

/// `s` with the elements whose `keep` entry is false left out.
pub open spec fn kept<E>(s: Seq<E>, keep: Seq<bool>) -> Seq<E>
    decreases s.len(),
{
    if s.len() == 0 {
        s
    } else {
        let rest = kept(s.drop_last(), keep.drop_last());
        if keep.last() {
            rest.push(s.last())
        } else {
            rest
        }
    }
}

/// The check of `is_alive` answered `keep[j]` about `s[j]`, for every `j`.
pub open spec fn answers<E, F: Fn(E) -> bool>(s: Seq<E>, keep: Seq<bool>, is_alive: F) -> bool {
    keep.len() == s.len() && forall|j: int| 0 <= j < s.len() ==> is_alive.ensures((s[j],), #[trigger] keep[j])
}

impl<E> ControlGroups<E> {
    #[verifier::type_invariant]
    spec fn ten_groups(self) -> bool {
        self.groups@.len() == 10
    }

    pub fn new() -> (groups: Self)
        ensures
            groups@.len() == 10,
            forall|i: int| 0 <= i < 10 ==> groups@[i].len() == 0,
    {
        let mut groups: Vec<Vec<E>> = Vec::new();
        let mut i: usize = 0;
        while i < 10
            invariant
                i <= 10,
                groups@.len() == i,
                forall|j: int| 0 <= j < i ==> groups@[j]@.len() == 0,
            decreases 10 - i,
        {
            groups.push(Vec::new());
            i = i + 1;
        }
        ControlGroups { groups }
    }

    /// The entities in group `index`.
    pub fn group(&self, index: usize) -> (group: &Vec<E>)
        requires
            index < 10,
        ensures
            group@ == self@[index as int],
    {
        proof {
            use_type_invariant(self);
        }
        &self.groups[index]
    }

    /// Reacts to the control group keys pressed this frame, given the selected entities of the
    /// player: control + key stores the selection in the group, shift + key adds the selection
    /// to the group and selects the whole group, the key alone selects the group instead of
    /// the current selection. Returns the selection changes, group by group.
    pub fn handle_keys(&mut self, rts_controls: &RtsControls, selected: &Vec<E>) -> (changes: Vec<
        SelectionChange<E>,
    >)
        where
            E: Copy,
        ensures
            final(self)@.len() == 10,
            forall|i: int|
                0 <= i < 10 ==> #[trigger] final(self)@[i] == group_after_key(
                    old(self)@[i],
                    rts_controls.control_group_key_pressed@[i],
                    rts_controls.control_held,
                    rts_controls.shift_held,
                    selected@,
                ),
            changes@ == control_group_changes(
                old(self)@,
                rts_controls.control_group_key_pressed@,
                rts_controls.control_held,
                rts_controls.shift_held,
                selected@,
                10,
            ),
    {
        proof {
            use_type_invariant(&*self);
        }
        let ghost old_groups = self@;
        let ghost pressed = rts_controls.control_group_key_pressed@;
        let ghost ctrl = rts_controls.control_held;
        let ghost shift = rts_controls.shift_held;
        let mut changes: Vec<SelectionChange<E>> = Vec::new();
        let mut i: usize = 0;
        while i < 10
            invariant
                i <= 10,
                self.groups@.len() == 10,
                old_groups.len() == 10,
                pressed == rts_controls.control_group_key_pressed@,
                ctrl == rts_controls.control_held,
                shift == rts_controls.shift_held,
                forall|k: int|
                    0 <= k < i ==> #[trigger] self.groups@[k]@ == group_after_key(
                        old_groups[k],
                        pressed[k],
                        ctrl,
                        shift,
                        selected@,
                    ),
                forall|k: int| i <= k < 10 ==> #[trigger] self.groups@[k]@ == old_groups[k],
                changes@ == control_group_changes(old_groups, pressed, ctrl, shift, selected@, i as int),
            decreases 10 - i,
        {
            let ghost before = changes@;
            let ghost group_before = self.groups@[i as int]@;
            let ghost snap = self.groups@;
            assert(group_before == old_groups[i as int]);
            if rts_controls.control_group_key_pressed[i] {
                if rts_controls.control_held {
                    self.groups[i].clear();
                    let mut j: usize = 0;
                    while j < selected.len()
                        invariant
                            i < 10,
                            j <= selected@.len(),
                            self.groups@.len() == 10,
                            forall|k: int| 0 <= k < 10 && k != i ==> #[trigger] self.groups@[k] == snap[k],
                            self.groups@[i as int]@ == selected@.take(j as int),
                        decreases selected@.len() - j,
                    {
                        self.groups[i].push(selected[j]);
                        assert(selected@.take(j as int).push(selected@[j as int]) =~= selected@.take(j as int + 1));
                        j = j + 1;
                    }
                    assert(selected@.take(selected@.len() as int) =~= selected@);
                } else if rts_controls.shift_held {
                    let mut j: usize = 0;
                    while j < selected.len()
                        invariant
                            i < 10,
                            j <= selected@.len(),
                            self.groups@.len() == 10,
                            forall|k: int| 0 <= k < 10 && k != i ==> #[trigger] self.groups@[k] == snap[k],
                            self.groups@[i as int]@ == group_before + selected@.take(j as int),
                        decreases selected@.len() - j,
                    {
                        self.groups[i].push(selected[j]);
                        assert((group_before + selected@.take(j as int)).push(selected@[j as int]) =~= group_before + selected@.take(j as int + 1));
                        j = j + 1;
                    }
                    assert(selected@.take(selected@.len() as int) =~= selected@);
                    let mut j: usize = 0;
                    let ghost full = self.groups@[i as int]@;
                    while j < self.groups[i].len()
                        invariant
                            i < 10,
                            self.groups@.len() == 10,
                            forall|k: int| 0 <= k < 10 && k != i ==> #[trigger] self.groups@[k] == snap[k],
                            self.groups@[i as int]@ == full,
                            j <= full.len(),
                            changes@ == before + select_all(full.take(j as int)),
                        decreases full.len() - j,
                    {
                        changes.push(SelectionChange::Select(self.groups[i][j]));
                        assert(select_all(full.take(j as int + 1)) =~= select_all(full.take(j as int)).push(SelectionChange::Select(full[j as int])));
                        j = j + 1;
                    }
                    assert(full.take(full.len() as int) =~= full);
                } else {
                    if self.groups[i].len() > 0 {
                        changes.push(SelectionChange::DeselectAll);
                    }
                    let ghost head = changes@;
                    let mut j: usize = 0;
                    while j < self.groups[i].len()
                        invariant
                            i < 10,
                            self.groups@.len() == 10,
                            forall|k: int| 0 <= k < 10 && k != i ==> #[trigger] self.groups@[k] == snap[k],
                            self.groups@[i as int]@ == group_before,
                            j <= group_before.len(),
                            changes@ == head + select_all(group_before.take(j as int)),
                        decreases group_before.len() - j,
                    {
                        changes.push(SelectionChange::Select(self.groups[i][j]));
                        assert(select_all(group_before.take(j as int + 1)) =~= select_all(group_before.take(j as int)).push(SelectionChange::Select(group_before[j as int])));
                        j = j + 1;
                    }
                    assert(group_before.take(group_before.len() as int) =~= group_before);
                }
            }
            proof {
                let g = group_key_changes(old_groups[i as int], pressed[i as int], ctrl, shift, selected@);
                assert(changes@ =~= before + g);
            }
            i = i + 1;
        }
        proof {
            assert forall|k: int| 0 <= k < 10 implies #[trigger] self@[k] == group_after_key(
                old_groups[k],
                pressed[k],
                ctrl,
                shift,
                selected@,
            ) by {
                assert(self@[k] == self.groups@[k]@);
            }
        }
        changes
    }
}


impl<E> ControlGroups<E> {
    /// Drops entities that no longer exist from every group, asking `is_alive` once about each
    /// member and keeping the order of the rest.
    pub fn remove_dead<F: Fn(E) -> bool>(&mut self, is_alive: F)
        where
            E: Copy,
        requires
            forall|e: E| is_alive.requires((e,)),
        ensures
            final(self)@.len() == 10,
            forall|i: int|
                0 <= i < 10 ==> retained_from(old(self)@[i], #[trigger] final(self)@[i], is_alive),
    {
        proof {
            use_type_invariant(&*self);
        }
        let ghost old_groups = self@;
        let mut survivors_by_group: Vec<Vec<E>> = Vec::new();
        let mut i: usize = 0;
        while i < 10
            invariant
                i <= 10,
                self@ == old_groups,
                self.groups@.len() == 10,
                old_groups.len() == 10,
                survivors_by_group@.len() == i,
                forall|e: E| is_alive.requires((e,)),
                forall|k: int|
                    0 <= k < i ==> retained_from(
                        old_groups[k],
                        #[trigger] survivors_by_group@[k]@,
                        is_alive,
                    ),
            decreases 10 - i,
        {
            assert(self.groups@[i as int]@ == old_groups[i as int]);
            let (survivors, Ghost(keep)) = retain_alive(&self.groups[i], &is_alive);
            survivors_by_group.push(survivors);
            proof {
                assert forall|k: int| 0 <= k < i + 1 implies retained_from(
                    old_groups[k],
                    #[trigger] survivors_by_group@[k]@,
                    is_alive,
                ) by {
                    if k == i {
                        assert(answers(old_groups[k], keep, is_alive));
                        assert(survivors_by_group@[k]@ == kept(old_groups[k], keep));
                    } else {
                        assert(survivors_by_group@[k] == survivors_by_group@.drop_last()[k]);
                    }
                }
            }
            i = i + 1;
        }
        self.groups = survivors_by_group;
        proof {
            assert forall|k: int| 0 <= k < 10 implies retained_from(
                old_groups[k],
                #[trigger] self@[k],
                is_alive,
            ) by {
                assert(self@[k] == self.groups@[k]@);
            }
        }
    }
}

/// `result` is `s` with the members that `is_alive` answered false about left out.
pub open spec fn retained_from<E, F: Fn(E) -> bool>(s: Seq<E>, result: Seq<E>, is_alive: F) -> bool {
    exists|keep: Seq<bool>| answers(s, keep, is_alive) && result == kept(s, keep)
}

/// Keeps the members of `group` that `is_alive` answers true about, in order.
fn retain_alive<E: Copy, F: Fn(E) -> bool>(group: &Vec<E>, is_alive: &F) -> (r: (Vec<E>, Ghost<Seq<bool>>))
    requires forall|e: E| is_alive.requires((e,)),
    ensures answers(group@, r.1@, *is_alive), r.0@ == kept(group@, r.1@),
{
    let mut survivors: Vec<E> = Vec::new();
    let ghost mut keep: Seq<bool> = Seq::empty();
    let mut j: usize = 0;
    let n = group.len();
    while j < n
        invariant
            n == group@.len(),
            j <= n,
            keep.len() == j,
            forall|e: E| is_alive.requires((e,)),
            answers(group@.take(j as int), keep, *is_alive),
            survivors@ == kept(group@.take(j as int), keep),
        decreases n - j,
    {
        let e = group[j];
        let alive = is_alive(e);
        if alive {
            survivors.push(e);
        }
        proof {
            let t = group@.take(j as int + 1);
            let nk = keep.push(alive);
            assert(t.drop_last() =~= group@.take(j as int));
            assert(nk.drop_last() =~= keep);
            assert forall|x: int| 0 <= x < t.len() implies is_alive.ensures((t[x],), #[trigger] nk[x]) by {
                if x < j {
                    assert(t[x] == group@.take(j as int)[x]);
                }
            }
            keep = nk;
        }
        j = j + 1;
    }
    assert(group@.take(n as int) =~= group@);
    (survivors, Ghost(keep))
}




/// Selection by dragging a box: without shift the selection is replaced, with shift the
/// player's entities in the box are added to it. `in_box` lists the player's selectable
/// entities inside the box.
pub fn drag_selection<E: Copy>(shift_held: bool, in_box: &Vec<E>) -> (changes: Vec<
    SelectionChange<E>,
>)
    ensures
        changes@ == if shift_held {
            select_all(in_box@)
        } else {
            seq![SelectionChange::DeselectAll] + select_all(in_box@)
        },
{
    let mut changes = Vec::new();
    if !shift_held {
        changes.push(SelectionChange::DeselectAll);
    }
    let ghost head = changes@;
    let mut i: usize = 0;
    while i < in_box.len()
        invariant
            i <= in_box@.len(),
            changes@ == head + select_all(in_box@.take(i as int)),
        decreases in_box@.len() - i,
    {
        changes.push(SelectionChange::Select(in_box[i]));
        assert(select_all(in_box@.take(i as int + 1)) =~= select_all(in_box@.take(i as int)).push(
            SelectionChange::Select(in_box@[i as int]),
        ));
        i = i + 1;
    }
    assert(in_box@.take(in_box@.len() as int) =~= in_box@);
    proof {
        if shift_held {
            assert(changes@ =~= select_all(in_box@));
        }
    }
    changes
}

/// End of a frame: both mouse buttons advance a frame (`left_moved_far` and `right_moved_far`
/// say whether the mouse is far from where each was pressed), and the keys that only count in
/// the frame they were pressed are forgotten.
pub fn cleanup_controls<P: Copy>(
    left: &mut MouseButtonState<P>,
    left_moved_far: bool,
    right: &mut MouseButtonState<P>,
    right_moved_far: bool,
    rts_controls: &mut RtsControls,
    debug_controls: &mut DebugControls,
)
    ensures
        *final(left) == next_frame(*old(left), left_moved_far),
        *final(right) == next_frame(*old(right), right_moved_far),
        !final(rts_controls).stop_pressed,
        forall|i: int| 0 <= i < 10 ==> !final(rts_controls).control_group_key_pressed@[i],
        final(rts_controls).shift_held == old(rts_controls).shift_held,
        final(rts_controls).control_held == old(rts_controls).control_held,
        final(rts_controls).mode == old(rts_controls).mode,
        !final(debug_controls).set_pathfinding_start_pressed,
{
    left.update(left_moved_far);
    right.update(right_moved_far);
    rts_controls.end_of_frame();
    debug_controls.end_of_frame();
}


/// Each arrow key scrolls the camera its own way: pressing or releasing it sets the flag of its
/// own direction and leaves the other three as they were; every other key leaves the camera
/// alone. Releasing a key after pressing it gives the camera back as it was.
pub proof fn lemma_arrow_keys_scroll_their_own_way(camera: CameraControls, key: Option<Key>, pressed: bool)
    ensures
        camera_after_key(camera, key, pressed).left == if key == Some(Key::Left) {
            pressed
        } else {
            camera.left
        },
        camera_after_key(camera, key, pressed).right == if key == Some(Key::Right) {
            pressed
        } else {
            camera.right
        },
        camera_after_key(camera, key, pressed).up == if key == Some(Key::Up) {
            pressed
        } else {
            camera.up
        },
        camera_after_key(camera, key, pressed).down == if key == Some(Key::Down) {
            pressed
        } else {
            camera.down
        },
        camera_after_key(camera_after_key(camera, key, true), key, false) == camera_after_key(
            camera,
            key,
            false,
        ),
{
}

/// A group stored with control + key holds the selection of that moment; pressing the key
/// alone later replaces whatever is selected by exactly those entities.
pub proof fn lemma_store_then_recall<E>(
    group: Seq<E>,
    stored: Seq<E>,
    shift_when_storing: bool,
    selected_later: Seq<E>,
)
    requires
        stored.len() > 0,
    ensures
        group_after_key(group, true, true, shift_when_storing, stored) == stored,
        group_key_changes(
            group_after_key(group, true, true, shift_when_storing, stored),
            true,
            false,
            false,
            selected_later,
        ) == seq![SelectionChange::<E>::DeselectAll] + select_all(stored),
        group_after_key(stored, true, false, false, selected_later) == stored,
{
}

} // verus!
