use cheese::abilities::{group_abilities, Ability, AbilityType, Key};
use cheese::ai::{AiBuildOrderItem, AiBuildOrders};
use cheese::buffers::{BuildingPlan, DynamicBuffer, UploadAction};
use cheese::combat::Agroed;
use cheese::commands::{ActionState, Command, CommandColour, CommandMarker, CommandQueue};
use cheese::controls::{
    click_selection, cleanup_controls, command_for_click, control_group_for_key,
    control_group_for_scancode, drag_selection, handle_keypress, placement, CameraControls,
    ClickedEntity, CommandMode, ControlGroups, DebugControls, EntityUnderCursor, LeftClickAction,
    Mode, Placement, RtsControls, SelectionChange,
};
use cheese::economy::{distribute_recruits, shortest_queue, CheeseCoins, GameStats, RecruitmentQueue};
use cheese::entities::{
    construct_step, max_health_of, shows_health_bar, Building, BuildingCompleteness, Health,
    MouseAnimation, Side, Unit,
};
use cheese::menus::{
    menu_buttons, menu_escape, menu_title, press_menu_button, press_titlescreen_button,
    MenuButton, TitlescreenButton,
};
use cheese::mouse::MouseButtonState;
use cheese::navmesh::{funnel_portal_edges, Triangle};
use cheese::objectives::{
    update_playing_state, EntitySummary, LoseCondition, Objectives, WinCondition,
};
use cheese::scene::{build_graph_run_indices, joint_children};
use cheese::ui::Font;
use std::collections::HashSet;

type Pos = (i32, i32);

fn apply(selected: &mut HashSet<u64>, changes: &[SelectionChange<u64>]) {
    for change in changes {
        match *change {
            SelectionChange::DeselectAll => selected.clear(),
            SelectionChange::Select(e) => {
                selected.insert(e);
            }
            SelectionChange::Deselect(e) => {
                selected.remove(&e);
            }
        }
    }
}

#[test]
fn selection_and_deselection() {
    // A green mouse marine stands where the cursor at the middle of a 1000 x 1000 window
    // points; a click at (1000, 50) hits empty ground.
    let marine: u64 = 1;
    let mut selected = HashSet::new();
    let mut left: MouseButtonState<(u32, u32)> = MouseButtonState::new();
    assert!(!left.was_clicked());
    assert!(selected.is_empty());

    left = MouseButtonState::Clicked;
    assert!(left.was_clicked());
    let clicked = Some(ClickedEntity { entity: marine, is_selected: false, on_player_side: true });
    apply(&mut selected, &click_selection(clicked, false, true));
    assert!(selected.contains(&marine));
    left.update(false);
    assert!(!left.was_clicked());

    left = MouseButtonState::Clicked;
    assert!(left.was_clicked());
    apply(&mut selected, &click_selection(None, false, true));
    assert!(!selected.contains(&marine));
}

#[test]
fn press_and_release_is_a_click_for_one_frame() {
    let mut state: MouseButtonState<Pos> = MouseButtonState::Up;
    state.handle((3, 4), true);
    assert_eq!(state, MouseButtonState::Down(0, (3, 4)));
    assert_eq!(state.pressed_at(), Some((3, 4)));
    state.update(true);
    state.update(true);
    state.handle((9, 9), false);
    assert_eq!(state, MouseButtonState::Clicked);
    assert!(state.was_clicked());
    state.update(false);
    assert_eq!(state, MouseButtonState::Up);
}

#[test]
fn held_button_turns_into_drag_on_twelfth_frame() {
    let mut state: MouseButtonState<Pos> = MouseButtonState::Up;
    state.handle((1, 1), true);
    for frame in 1..=11u8 {
        state.update(false);
        assert_eq!(state, MouseButtonState::Down(frame, (1, 1)));
    }
    state.update(false);
    assert_eq!(state, MouseButtonState::Dragging((1, 1)));
    assert_eq!(state.is_being_dragged(), Some((1, 1)));
    state.handle((5, 5), false);
    assert_eq!(state.was_dragged(), Some((1, 1)));
    state.update(false);
    assert_eq!(state, MouseButtonState::Up);
}

#[test]
fn moving_far_after_two_frames_starts_drag() {
    let mut state: MouseButtonState<Pos> = MouseButtonState::Down(2, (0, 0));
    state.update(true);
    assert_eq!(state, MouseButtonState::Down(3, (0, 0)));
    state.update(true);
    assert_eq!(state, MouseButtonState::Dragging((0, 0)));
    let mut up: MouseButtonState<Pos> = MouseButtonState::Up;
    up.handle((0, 0), false);
    assert_eq!(up, MouseButtonState::Up);
}

#[test]
fn building_and_unit_numbers() {
    assert_eq!(Building::Armoury.max_health(), 500);
    assert_eq!(Building::Pump.max_health(), 200);
    assert_eq!(Building::Armoury.cost(), 200);
    assert_eq!(Building::Pump.cost(), 50);
    assert_eq!(Unit::MouseMarine.max_health(), 50);
    assert_eq!(Unit::Engineer.max_health(), 40);
    assert_eq!(Unit::MouseMarine.cost(), 100);
    assert_eq!(Unit::Engineer.cost(), 50);
    assert_eq!(Side::Green.flip(), Side::Purple);
    assert_eq!(Side::Purple.flip().flip(), Side::Purple);
    assert!(Unit::Engineer.can_build());
    assert!(!Unit::MouseMarine.can_build());
    assert_eq!(Building::Pump.construction_start(), (Health(1), BuildingCompleteness(1)));
    assert_eq!(Building::Pump.fully_built(), (Health(200), BuildingCompleteness(200)));
    assert!(Building::Armoury.is_complete(BuildingCompleteness(500)));
    assert!(!Building::Armoury.is_complete(BuildingCompleteness(499)));
    assert_eq!(max_health_of(Some(Unit::Engineer), None), Some(40));
    assert_eq!(max_health_of(None, Some(Building::Pump)), Some(200));
    assert_eq!(max_health_of(None, None), None);
    assert!(shows_health_bar(Health(10), 50));
    assert!(!shows_health_bar(Health(50), 50));
}

#[test]
fn construction_finishes_at_max_health() {
    let mut health = Health(198);
    let mut completeness = BuildingCompleteness(150);
    assert!(!construct_step(Building::Pump, 1, &mut health, &mut completeness));
    assert_eq!((health, completeness), (Health(199), BuildingCompleteness(151)));
    assert!(construct_step(Building::Pump, 1, &mut health, &mut completeness));
    assert_eq!(health, Health(200));
    assert!(construct_step(Building::Pump, 1, &mut health, &mut completeness));
    assert_eq!((health, completeness), (Health(200), BuildingCompleteness(153)));
    let mut over = Health(300);
    let mut c = BuildingCompleteness(0);
    assert!(construct_step(Building::Pump, 1, &mut over, &mut c));
    assert_eq!(over, Health(200));
}

#[test]
fn construction_grows_with_the_time_worked() {
    let mut health = Health(100);
    let mut completeness = BuildingCompleteness(10);
    assert!(!construct_step(Building::Pump, 60, &mut health, &mut completeness));
    assert_eq!((health, completeness), (Health(160), BuildingCompleteness(70)));
    assert!(construct_step(Building::Pump, 60, &mut health, &mut completeness));
    assert_eq!((health, completeness), (Health(200), BuildingCompleteness(130)));
    assert!(!construct_step(Building::Armoury, 0, &mut Health(5), &mut BuildingCompleteness(5)));
    let mut big = Health(u16::MAX - 1);
    let mut big_c = BuildingCompleteness(u16::MAX);
    assert!(construct_step(Building::Armoury, u16::MAX, &mut big, &mut big_c));
    assert_eq!((big, big_c), (Health(500), BuildingCompleteness(500)));
}

#[test]
fn bullets_take_two_health() {
    let mut health = Health(5);
    assert!(!health.take_hit());
    assert_eq!(health, Health(3));
    assert!(!health.take_hit());
    assert!(health.take_hit());
    assert_eq!(health, Health(0));
    let mut two = Health(2);
    assert!(two.take_hit());
}

#[test]
fn abilities_and_buttons() {
    let pump = Ability::build_pump();
    assert_eq!(pump.hotkey, Key::P);
    assert_eq!(pump.button(), cheese::ui::Button::BuildPump);
    assert_eq!(Ability::recruit_mouse_marine().cost(), Some(100));
    assert_eq!(Ability::set_recruitment_waypoint().cost(), None);
    assert!(Ability::set_recruitment_waypoint().can_use(0));
    assert!(Ability::build_armoury().can_use(200));
    assert!(!Ability::build_armoury().can_use(199));
    assert_eq!(Ability::from_type(AbilityType::Recruit(Unit::Engineer)), Ability::recruit_engineer());
    assert_eq!(Ability::recruit_engineer().hotkey, Key::E);
    assert_eq!(Building::Armoury.abilities(), vec![
        Ability::recruit_mouse_marine(),
        Ability::recruit_engineer(),
        Ability::set_recruitment_waypoint(),
    ]);
    assert!(Building::Pump.abilities().is_empty());
    assert_eq!(Unit::Engineer.abilities(), vec![Ability::build_pump(), Ability::build_armoury()]);
    assert!(Ability::build_pump().is_triggered_by(Some(Key::P), true));
    assert!(!Ability::build_pump().is_triggered_by(Some(Key::P), false));
    assert!(!Ability::build_pump().is_triggered_by(None, true));
    assert_eq!(Font::Ui.id(), 0);
    assert_eq!(Font::Title.id(), 1);
}

#[test]
fn abilities_of_selection_are_grouped_in_order() {
    let selected = vec![
        (10u64, Unit::Engineer.abilities()),
        (20u64, Building::Armoury.abilities()),
        (30u64, Unit::Engineer.abilities()),
    ];
    let groups = group_abilities(&selected);
    let listed: Vec<(Ability, Vec<u64>)> =
        groups.into_iter().map(|g| (g.ability, g.casters)).collect();
    assert_eq!(listed, vec![
        (Ability::build_armoury(), vec![10, 30]),
        (Ability::build_pump(), vec![10, 30]),
        (Ability::recruit_mouse_marine(), vec![20]),
        (Ability::recruit_engineer(), vec![20]),
        (Ability::set_recruitment_waypoint(), vec![20]),
    ]);
    assert!(group_abilities::<u64>(&Vec::new()).is_empty());
}

fn move_to(target: Pos, attack_move: bool, path: Vec<Pos>) -> Command<u64, Pos> {
    Command::MoveTo { target, attack_move, path }
}

#[test]
fn new_attack_starts_out_of_range() {
    match Command::<u64, Pos>::new_attack(7, true) {
        Command::Attack { target, explicit, first_out_of_range, state } => {
            assert_eq!((target, explicit, first_out_of_range), (7, true, true));
            assert!(state.is_out_of_range());
            assert_eq!(state.path_len(), 0);
        }
        _ => panic!("expected an attack"),
    }
    let build: Command<u64, Pos> = Command::new_build(3);
    assert!(build.requires_builder());
    assert!(!move_to((0, 0), false, vec![]).requires_builder());
}

trait PathLen {
    fn path_len(&self) -> usize;
}

impl PathLen for ActionState<Pos> {
    fn path_len(&self) -> usize {
        match self {
            ActionState::OutOfRange { path } => path.len(),
            ActionState::InRange => 0,
        }
    }
}

#[test]
fn queue_command_with_and_without_shift() {
    let mut queue: CommandQueue<u64, Pos> = CommandQueue::new();
    queue.queue_command(move_to((1, 1), false, vec![]), false);
    queue.queue_command(move_to((2, 2), false, vec![]), true);
    assert_eq!(queue.len(), 2);
    queue.queue_command(Command::new_attack(9, true), false);
    assert_eq!(queue.len(), 1);
    assert!(matches!(queue.front(), Some(Command::Attack { target: 9, .. })));
    queue.clear();
    assert!(queue.is_empty());
}

#[test]
fn dead_targets_are_dropped_from_the_front() {
    let mut queue: CommandQueue<u64, Pos> = CommandQueue::new();
    queue.push_back(Command::new_attack(1, true));
    queue.push_back(Command::new_build(2));
    queue.push_back(move_to((0, 0), false, vec![]));
    queue.push_back(Command::new_attack(3, true));
    queue.stop_actions_on_dead_entities(|e: u64| e == 3);
    assert_eq!(queue.len(), 2);
    assert!(matches!(queue.front(), Some(Command::MoveTo { .. })));
    let mut alive_front: CommandQueue<u64, Pos> = CommandQueue::new();
    alive_front.push_back(Command::new_attack(3, true));
    alive_front.push_back(Command::new_attack(1, true));
    alive_front.stop_actions_on_dead_entities(|e: u64| e == 3);
    assert_eq!(alive_front.len(), 2);
}

#[test]
fn waypoints_are_followed_and_crossed_off() {
    let mut queue: CommandQueue<u64, Pos> = CommandQueue::new();
    queue.push_back(move_to((5, 5), true, vec![(1, 1), (5, 5)]));
    assert_eq!(queue.next_waypoint(), Some((1, 1)));
    queue.reach_waypoint();
    assert_eq!(queue.next_waypoint(), Some((5, 5)));
    queue.reach_waypoint();
    assert!(queue.is_empty());
    queue.push_back(move_to((5, 5), true, vec![]));
    assert_eq!(queue.next_waypoint(), None);
    assert!(queue.is_empty());
    queue.push_back(Command::new_build(4));
    assert_eq!(queue.next_waypoint(), None);
    assert_eq!(queue.len(), 1);
    assert_eq!(queue.build_target_in_range(), Some(4));
}

#[test]
fn move_orders_get_routes() {
    let mut queue: CommandQueue<u64, Pos> = CommandQueue::new();
    queue.push_back(move_to((8, 8), false, vec![]));
    assert_eq!(queue.move_target_needing_path(false), Some((8, 8)));
    queue.set_move_path(Some(vec![(4, 4), (8, 8)]));
    assert_eq!(queue.move_target_needing_path(false), None);
    assert_eq!(queue.move_target_needing_path(true), Some((8, 8)));
    assert_eq!(queue.front().unwrap().path().unwrap(), &vec![(4, 4), (8, 8)]);
    queue.set_move_path(None);
    assert!(queue.is_empty());
}

#[test]
fn attacks_chase_once_then_give_up() {
    let mut queue: CommandQueue<u64, Pos> = CommandQueue::new();
    queue.push_back(Command::new_attack(5, false));
    assert_eq!(queue.attack_status(), Some((5, true)));
    queue.resolve_attack_range(true, Some(vec![(2, 2)]));
    assert_eq!(queue.animation(), MouseAnimation::Walking);
    queue.resolve_attack_range(false, None);
    assert_eq!(queue.attack_status(), Some((5, false)));
    assert_eq!(queue.animation(), MouseAnimation::Shoot);
    queue.resolve_attack_range(true, Some(vec![(3, 3)]));
    assert!(queue.is_empty());
    assert_eq!(queue.animation(), MouseAnimation::Idle);
    queue.push_back(Command::new_attack(6, false));
    queue.resolve_attack_range(true, None);
    assert!(queue.is_empty());
}

#[test]
fn idle_units_retaliate_and_agro() {
    let mut queue: CommandQueue<u64, Pos> = CommandQueue::new();
    assert!(queue.is_available_to_attack());
    queue.retaliate(4, true, false);
    assert_eq!(queue.attack_target(), Some(4));
    assert_eq!(queue.passive_attack_target(), Some(4));
    queue.retaliate(5, true, false);
    assert_eq!(queue.len(), 1);
    queue.retaliate(5, true, true);
    assert_eq!(queue.attack_target(), Some(5));
    assert_eq!(queue.len(), 2);
    let mut marching: CommandQueue<u64, Pos> = CommandQueue::new();
    marching.push_back(move_to((1, 1), true, vec![]));
    assert!(marching.agro_on(Some(9)));
    assert_eq!(marching.attack_target(), Some(9));
    assert!(!marching.agro_on(Some(10)));
    let mut walking: CommandQueue<u64, Pos> = CommandQueue::new();
    walking.push_back(move_to((1, 1), false, vec![]));
    assert!(!walking.is_available_to_attack());
    walking.retaliate(4, false, true);
    assert_eq!(walking.len(), 1);
    let mut unarmed: CommandQueue<u64, Pos> = CommandQueue::new();
    unarmed.retaliate(4, false, false);
    assert!(unarmed.is_empty());
    assert!(!unarmed.agro_on(None));
    assert_eq!(Agroed::ThisTick(3u64).next_tick(), Some(Agroed::LastTick(3)));
    assert_eq!(Agroed::LastTick(3u64).next_tick(), None);
    assert_eq!(Agroed::LastTick(3u64).target(), 3);
}

#[test]
fn command_markers_and_colours() {
    let attack_move = move_to((2, 3), true, vec![]);
    assert_eq!(attack_move.marker(), Some(CommandMarker::At((2, 3))));
    assert_eq!(attack_move.colour(), CommandColour::Attack);
    assert_eq!(move_to((2, 3), false, vec![]).colour(), CommandColour::Move);
    let passive: Command<u64, Pos> = Command::new_attack(4, false);
    assert_eq!(passive.marker(), None);
    let explicit: Command<u64, Pos> = Command::new_attack(4, true);
    assert_eq!(explicit.marker(), Some(CommandMarker::OnEntity(4)));
    let build: Command<u64, Pos> = Command::new_build(8);
    assert_eq!(build.colour(), CommandColour::Build);
    assert_eq!(build.marker(), Some(CommandMarker::OnEntity(8)));
    assert_eq!(build.path(), None);
    let queue: CommandQueue<u64, Pos> = CommandQueue::starting_with(Some(build));
    assert_eq!(queue.animation(), MouseAnimation::Build);
    assert_eq!(MouseAnimation::Idle.index(), 1);
    assert_eq!(MouseAnimation::Walking.index(), 3);
}

#[test]
fn keys_drive_the_controls() {
    let mut camera = CameraControls::default();
    let mut rts = RtsControls::default();
    let mut debug = DebugControls::default();
    let mut mode = Mode::Playing;
    handle_keypress(Some(Key::Up), 0, true, &mut camera, &mut rts, &mut debug, &mut mode);
    assert!(camera.up);
    handle_keypress(Some(Key::LShift), 0, true, &mut camera, &mut rts, &mut debug, &mut mode);
    assert!(rts.shift_held);
    handle_keypress(Some(Key::A), 0, true, &mut camera, &mut rts, &mut debug, &mut mode);
    assert_eq!(rts.mode, CommandMode::AttackMove);
    handle_keypress(Some(Key::Escape), 0, true, &mut camera, &mut rts, &mut debug, &mut mode);
    assert_eq!(rts.mode, CommandMode::Normal);
    assert_eq!(mode, Mode::Playing);
    handle_keypress(Some(Key::Escape), 0, true, &mut camera, &mut rts, &mut debug, &mut mode);
    assert_eq!(mode, Mode::PlayingMenu);
    handle_keypress(Some(Key::S), 0, false, &mut camera, &mut rts, &mut debug, &mut mode);
    assert!(!rts.stop_pressed);
    handle_keypress(Some(Key::S), 0, true, &mut camera, &mut rts, &mut debug, &mut mode);
    assert!(rts.stop_pressed);
    handle_keypress(Some(Key::T), 0, true, &mut camera, &mut rts, &mut debug, &mut mode);
    assert!(debug.set_pathfinding_start_pressed);
    handle_keypress(Some(Key::Key3), 0, true, &mut camera, &mut rts, &mut debug, &mut mode);
    handle_keypress(None, 11, true, &mut camera, &mut rts, &mut debug, &mut mode);
    assert!(rts.control_group_key_pressed[3]);
    assert!(rts.control_group_key_pressed[0]);
    assert_eq!(control_group_for_key(Key::Key9), Some(9));
    assert_eq!(control_group_for_scancode(2), Some(1));
    assert_eq!(control_group_for_scancode(12), None);
    let mut left: MouseButtonState<Pos> = MouseButtonState::Clicked;
    let mut right: MouseButtonState<Pos> = MouseButtonState::Down(0, (0, 0));
    cleanup_controls(&mut left, false, &mut right, false, &mut rts, &mut debug);
    assert_eq!(left, MouseButtonState::Up);
    assert_eq!(right, MouseButtonState::Down(1, (0, 0)));
    assert!(!rts.stop_pressed);
    assert!(rts.control_group_key_pressed.iter().all(|pressed| !pressed));
    assert!(!debug.set_pathfinding_start_pressed);
    assert!(rts.shift_held);
}

#[test]
fn abilities_switch_modes_and_recruit() {
    let mut rts = RtsControls::default();
    let mut coins = CheeseCoins(150);
    let lengths = vec![2, 1, 1];
    assert_eq!(rts.use_ability(AbilityType::Build(Building::Pump), &mut coins, &lengths), None);
    assert_eq!(rts.mode, CommandMode::Construct { building: Building::Pump });
    assert_eq!(rts.left_click_action(), LeftClickAction::Construct(Building::Pump));
    assert_eq!(
        rts.use_ability(AbilityType::Recruit(Unit::MouseMarine), &mut coins, &lengths),
        Some((1, Unit::MouseMarine))
    );
    assert_eq!(coins, CheeseCoins(50));
    assert_eq!(rts.use_ability(AbilityType::Recruit(Unit::MouseMarine), &mut coins, &lengths), None);
    assert_eq!(coins, CheeseCoins(50));
    rts.use_ability(AbilityType::SetRecruitmentWaypoint, &mut coins, &lengths);
    assert_eq!(rts.mode, CommandMode::SetRecruitmentWaypoint);
    rts.shift_held = true;
    rts.finish_left_click();
    assert_eq!(rts.mode, CommandMode::SetRecruitmentWaypoint);
    assert!(!rts.right_click());
    assert_eq!(rts.mode, CommandMode::Normal);
    assert!(rts.right_click());
    rts.shift_held = false;
    rts.mode = CommandMode::AttackMove;
    assert_eq!(rts.left_click_action(), LeftClickAction::IssueCommand);
    rts.finish_left_click();
    assert_eq!(rts.left_click_action(), LeftClickAction::Select);
}

#[test]
fn clicks_select_and_shift_clicks_toggle() {
    let own = ClickedEntity { entity: 1u64, is_selected: false, on_player_side: true };
    let enemy = ClickedEntity { entity: 2u64, is_selected: false, on_player_side: false };
    assert_eq!(click_selection(Some(own), false, true), vec![
        SelectionChange::DeselectAll,
        SelectionChange::Select(1)
    ]);
    assert_eq!(click_selection(Some(own), true, true), vec![SelectionChange::Select(1)]);
    assert_eq!(click_selection(Some(own), true, false), vec![]);
    assert_eq!(click_selection(Some(enemy), true, true), vec![]);
    let selected_own = ClickedEntity { is_selected: true, ..own };
    assert_eq!(click_selection(Some(selected_own), true, true), vec![SelectionChange::Deselect(1)]);
    assert_eq!(drag_selection(false, &vec![4u64, 5]), vec![
        SelectionChange::DeselectAll,
        SelectionChange::Select(4),
        SelectionChange::Select(5)
    ]);
    assert_eq!(drag_selection(true, &vec![4u64]), vec![SelectionChange::Select(4)]);
}

#[test]
fn clicks_give_orders() {
    let enemy = EntityUnderCursor { entity: 3u64, on_player_side: false, is_building: false };
    let own_building = EntityUnderCursor { entity: 4u64, on_player_side: true, is_building: true };
    let own_unit = EntityUnderCursor { entity: 5u64, on_player_side: true, is_building: false };
    assert!(matches!(
        command_for_click::<u64, Pos>(Some(enemy), CommandMode::Normal, (0, 0)),
        Some(Command::Attack { target: 3, explicit: true, first_out_of_range: true, .. })
    ));
    assert!(matches!(
        command_for_click::<u64, Pos>(Some(own_building), CommandMode::Normal, (0, 0)),
        Some(Command::Build { target: 4, state: ActionState::InRange })
    ));
    assert!(command_for_click::<u64, Pos>(Some(own_unit), CommandMode::Normal, (0, 0)).is_none());
    assert!(matches!(
        command_for_click::<u64, Pos>(None, CommandMode::AttackMove, (6, 7)),
        Some(Command::MoveTo { target: (6, 7), attack_move: true, .. })
    ));
    assert!(matches!(
        command_for_click::<u64, Pos>(None, CommandMode::Normal, (6, 7)),
        Some(Command::MoveTo { target: (6, 7), attack_move: false, .. })
    ));
    assert!(command_for_click::<u64, Pos>(None, CommandMode::SetRecruitmentWaypoint, (6, 7)).is_none());
}

#[test]
fn placing_buildings() {
    assert_eq!(placement(Building::Armoury, 199, true), Placement::CantAfford);
    assert_eq!(placement(Building::Pump, 50, false), Placement::NotAllowed);
    assert_eq!(placement(Building::Pump, 50, true), Placement::Allowed);
    assert_eq!(placement(Building::Armoury, 200, false), Placement::Allowed);
    let mut coins = CheeseCoins(60);
    assert!(coins.can_afford(Building::Pump.cost()));
    coins.spend(Building::Pump.cost());
    assert_eq!(coins, CheeseCoins(10));
}

#[test]
fn control_groups_store_add_and_recall() {
    let mut groups: ControlGroups<u64> = ControlGroups::new();
    let mut rts = RtsControls::default();
    rts.control_group_key_pressed[2] = true;
    rts.control_held = true;
    assert!(groups.handle_keys(&rts, &vec![1, 2]).is_empty());
    assert_eq!(groups.group(2), &vec![1, 2]);
    rts.control_held = false;
    rts.shift_held = true;
    assert_eq!(groups.handle_keys(&rts, &vec![3]), vec![
        SelectionChange::Select(1),
        SelectionChange::Select(2),
        SelectionChange::Select(3)
    ]);
    rts.shift_held = false;
    assert_eq!(groups.handle_keys(&rts, &vec![9]), vec![
        SelectionChange::DeselectAll,
        SelectionChange::Select(1),
        SelectionChange::Select(2),
        SelectionChange::Select(3)
    ]);
    rts.control_group_key_pressed[2] = false;
    rts.control_group_key_pressed[5] = true;
    assert!(groups.handle_keys(&rts, &vec![9]).is_empty());
    groups.remove_dead(|e: u64| e != 2);
    assert_eq!(groups.group(2), &vec![1, 3]);
    assert!(groups.group(0).is_empty());
}

#[test]
fn economy_pays_and_counts() {
    let mut coins = CheeseCoins(10);
    assert!(coins.collect_from_pump(true, Building::Pump, Side::Green, Side::Green));
    assert_eq!(coins, CheeseCoins(12));
    assert!(!coins.collect_from_pump(false, Building::Pump, Side::Green, Side::Green));
    assert!(!coins.collect_from_pump(true, Building::Armoury, Side::Green, Side::Green));
    assert!(!coins.collect_from_pump(true, Building::Pump, Side::Purple, Side::Green));
    assert_eq!(coins, CheeseCoins(12));
    let mut full = CheeseCoins(u32::MAX);
    assert!(!full.collect_from_pump(false, Building::Pump, Side::Green, Side::Green));
    assert!(!full.collect_from_pump(true, Building::Armoury, Side::Green, Side::Green));
    assert_eq!(full, CheeseCoins(u32::MAX));
    let mut stats = GameStats::new();
    stats.record_destroyed(Side::Green, Side::Green, true);
    stats.record_destroyed(Side::Purple, Side::Green, true);
    stats.record_destroyed(Side::Purple, Side::Green, false);
    stats.record_destroyed(Side::Purple, Side::Green, false);
    assert_eq!(stats, GameStats { units_lost: 1, enemy_buildings_destroyed: 1, enemy_units_killed: 2 });
}

#[test]
fn recruitment_queues_fill_evenly() {
    assert_eq!(shortest_queue(&vec![3, 1, 1, 2]), Some(1));
    assert_eq!(shortest_queue(&vec![]), None);
    assert_eq!(distribute_recruits(&vec![2, 0, 1], 4), vec![1, 1, 2, 0]);
    assert_eq!(distribute_recruits(&vec![], 4), Vec::<usize>::new());
    let mut queue: RecruitmentQueue<Pos> = RecruitmentQueue::new((0, 0));
    queue.enqueue(Unit::MouseMarine);
    queue.enqueue(Unit::Engineer);
    assert_eq!(queue.length(), 2);
    assert_eq!(queue.current(), Some(Unit::MouseMarine));
    assert_eq!(queue.finish_recruit(), Some(Unit::MouseMarine));
    queue.set_waypoint((4, 4));
    assert_eq!(queue.waypoint, (4, 4));
    assert_eq!(queue.finish_recruit(), Some(Unit::Engineer));
    assert_eq!(queue.finish_recruit(), None);
}

#[test]
fn ai_plan_steps_come_when_due() {
    let mut plan: AiBuildOrders<u32, u64, Pos> = AiBuildOrders {
        orders: vec![(10, AiBuildOrderItem::RecruitMarine(2)), (20, AiBuildOrderItem::AttackMove((1, 1)))],
    };
    assert_eq!(plan.next_due_time(), Some(&10));
    assert!(plan.take_due(false).is_none());
    assert!(matches!(plan.take_due(true), Some(AiBuildOrderItem::RecruitMarine(2))));
    assert_eq!(plan.next_due_time(), Some(&20));
    assert!(matches!(plan.take_due(true), Some(AiBuildOrderItem::AttackMove((1, 1)))));
    assert!(plan.take_due(true).is_none());
}

fn summary(side: Side, building: Option<(Building, u16)>, is_unit: bool) -> EntitySummary {
    EntitySummary { side, building, is_unit }
}

#[test]
fn scenarios_are_won_and_lost() {
    let objectives = Objectives {
        win_conditions: vec![WinCondition::DestroyAll],
        lose_conditions: vec![LoseCondition::LetAllUnitsDie],
    };
    let mut mode = Mode::Playing;
    let both = vec![summary(Side::Green, None, true), summary(Side::Purple, None, true)];
    update_playing_state(&objectives, Side::Green, &both, &mut mode);
    assert_eq!(mode, Mode::Playing);
    let only_green = vec![summary(Side::Green, None, true)];
    update_playing_state(&objectives, Side::Green, &only_green, &mut mode);
    assert_eq!(mode, Mode::ScenarioWon);
    let mut mode = Mode::Playing;
    let green_building = vec![
        summary(Side::Green, Some((Building::Pump, 200)), false),
        summary(Side::Purple, None, true),
    ];
    update_playing_state(&objectives, Side::Green, &green_building, &mut mode);
    assert_eq!(mode, Mode::ScenarioLost);
    let build_two = Objectives {
        win_conditions: vec![WinCondition::BuildN(2, Building::Pump)],
        lose_conditions: vec![],
    };
    let mut mode = Mode::Playing;
    let pumps = vec![
        summary(Side::Green, Some((Building::Pump, 200)), false),
        summary(Side::Green, Some((Building::Pump, 199)), false),
    ];
    update_playing_state(&build_two, Side::Green, &pumps, &mut mode);
    assert_eq!(mode, Mode::Playing);
    let pumps = vec![
        summary(Side::Green, Some((Building::Pump, 200)), false),
        summary(Side::Green, Some((Building::Pump, 200)), false),
    ];
    update_playing_state(&build_two, Side::Green, &pumps, &mut mode);
    assert_eq!(mode, Mode::ScenarioWon);
}

#[test]
fn many_finished_buildings_count_in_full() {
    let build_one = Objectives {
        win_conditions: vec![WinCondition::BuildN(1, Building::Pump)],
        lose_conditions: vec![],
    };
    let pumps = vec![summary(Side::Green, Some((Building::Pump, 200)), false); 256];
    let mut mode = Mode::Playing;
    update_playing_state(&build_one, Side::Green, &pumps, &mut mode);
    assert_eq!(mode, Mode::ScenarioWon);
}

#[test]
fn menus_and_title_screen() {
    assert_eq!(menu_buttons(Mode::PlayingMenu), vec![MenuButton::Continue, MenuButton::BackToMainMenu]);
    assert_eq!(menu_buttons(Mode::ScenarioLost), vec![MenuButton::BackToMainMenu]);
    assert!(menu_buttons(Mode::Playing).is_empty());
    assert_eq!(menu_title(Mode::ScenarioWon), Some("Scenario Won"));
    assert_eq!(menu_title(Mode::Titlescreen), None);
    assert_eq!(MenuButton::BackToMainMenu.label(), "Back to main menu");
    let mut mode = Mode::PlayingMenu;
    assert!(!menu_escape(&mut mode, Some(Key::Escape), false));
    assert!(menu_escape(&mut mode, Some(Key::Escape), true));
    assert_eq!(mode, Mode::Playing);
    press_menu_button(&mut mode, MenuButton::BackToMainMenu);
    assert_eq!(mode, Mode::Titlescreen);
    assert!(press_titlescreen_button(&mut mode, TitlescreenButton::Skirmish));
    assert_eq!(mode, Mode::Playing);
    assert!(!press_titlescreen_button(&mut mode, TitlescreenButton::Quit));
    assert_eq!(mode, Mode::Quit);
    assert_eq!(TitlescreenButton::Skirmish.label(), "Skirmish");
}

#[test]
fn dynamic_buffer_grows_to_fit() {
    let mut buffer: DynamicBuffer<u8> = DynamicBuffer::new(2);
    assert_eq!(buffer.get(), None);
    let (action, items) = buffer.upload();
    assert_eq!((action, items.len()), (UploadAction::Nothing, 0));
    buffer.push(1);
    buffer.push(2);
    assert_eq!(buffer.len_waiting(), 2);
    assert_eq!(buffer.upload(), (UploadAction::Write, vec![1, 2]));
    assert_eq!(buffer.get(), Some(2));
    for i in 0..5 {
        buffer.push(i);
    }
    assert_eq!(buffer.upload().0, UploadAction::Resize(5));
    assert_eq!(buffer.capacity(), 5);
    for i in 0..6 {
        buffer.push(i);
    }
    assert_eq!(buffer.upload().0, UploadAction::Resize(10));
    assert_eq!(buffer.len_waiting(), 0);
    assert_eq!(buffer.get(), Some(6));
    let mut plan = BuildingPlan::new();
    assert_eq!(plan.get(), None);
    plan.set(Building::Armoury);
    assert_eq!(plan.get(), Some(Building::Armoury));
    plan.clear();
    assert_eq!(plan.get(), None);
}

#[test]
fn portals_follow_the_corridor() {
    let t = |a, b, c| Triangle { a, b, c };
    // A strip of triangles 0-1-2, 1-2-3, 2-3-4.
    let strip = vec![t(0, 1, 2), t(1, 2, 3), t(3, 2, 4)];
    assert_eq!(funnel_portal_edges(&strip), vec![(1, 2), (3, 2)]);
    assert_eq!(t(0, 1, 2).shared_edge(&t(5, 6, 7)), None);
    assert_eq!(t(0, 1, 2).opposite_point(1, 2), Some(0));
    assert!(t(0, 1, 2).contains(2));
    assert!(!t(0, 1, 2).contains(3));
}

#[test]
fn node_tree_runs_parents_first() {
    // Node 0 has children 1 and 2, node 1 has child 3; node 4 is a second root.
    let children = vec![vec![1, 2], vec![3], vec![], vec![], vec![]];
    let order = build_graph_run_indices(&vec![0, 4], &children);
    assert_eq!(order, vec![(0, None), (1, Some(0)), (3, Some(1)), (2, Some(0)), (4, None)]);
    let joints = joint_children(&vec![7, 3, 9], &vec![vec![3, 9], vec![], vec![]]);
    assert_eq!(joints, vec![vec![1, 2], vec![], vec![]]);
    assert_eq!(joint_children(&vec![7, 7], &vec![vec![7]]), vec![vec![1]]);
}
