use vstd::prelude::*;
use crate::abilities::Key;
use crate::controls::{command_mode_after_key, game_mode_after_key, CommandMode, Mode};

verus! {

/// The buttons of the in-game menus.
#[derive(PartialEq, Eq, Structural, Clone, Copy, Debug)]
pub enum MenuButton {
    Continue,
    BackToMainMenu,
}

impl MenuButton {
    pub fn label(self) -> (label: &'static str)
        ensures
            label@ == match self {
                MenuButton::Continue => "Continue"@,
                MenuButton::BackToMainMenu => "Back to main menu"@,
            },
    {
        match self {
            MenuButton::Continue => "Continue",
            MenuButton::BackToMainMenu => "Back to main menu",
        }
    }
}

pub open spec fn menu_buttons_spec(mode: Mode) -> Seq<MenuButton> {
    match mode {
        Mode::ScenarioWon | Mode::ScenarioLost => seq![MenuButton::BackToMainMenu],
        Mode::PlayingMenu => seq![MenuButton::Continue, MenuButton::BackToMainMenu],
        _ => Seq::empty(),
    }
}

/// The buttons shown on the menu of the given screen, top to bottom.
pub fn menu_buttons(mode: Mode) -> (buttons: Vec<MenuButton>)
    ensures
        buttons@ == menu_buttons_spec(mode),
{
    let mut buttons = Vec::new();
    match mode {
        Mode::ScenarioWon | Mode::ScenarioLost => {
            buttons.push(MenuButton::BackToMainMenu);
        },
        Mode::PlayingMenu => {
            buttons.push(MenuButton::Continue);
            buttons.push(MenuButton::BackToMainMenu);
        },
        _ => {},
    }
    buttons
}

/// The heading of the menu on the given screen, if it has a menu.
pub fn menu_title(mode: Mode) -> (title: Option<&'static str>)
    ensures
        match mode {
            Mode::ScenarioWon => title matches Some(t) && t@ == "Scenario Won"@,
            Mode::ScenarioLost => title matches Some(t) && t@ == "Scenario Lost"@,
            Mode::PlayingMenu => title matches Some(t) && t@ == "Playing Menu"@,
            _ => title is None,
        },
{
    match mode {
        Mode::ScenarioWon => Some("Scenario Won"),
        Mode::ScenarioLost => Some("Scenario Lost"),
        Mode::PlayingMenu => Some("Playing Menu"),
        _ => None,
    }
}

pub open spec fn after_menu_escape(mode: Mode, key: Option<Key>, pressed: bool) -> Mode {
    if pressed && key == Some(Key::Escape) && mode == Mode::PlayingMenu {
        Mode::Playing
    } else {
        mode
    }
}

/// Escape closes the in-game menu. Returns whether it did.
pub fn menu_escape(mode: &mut Mode, key: Option<Key>, pressed: bool) -> (closed: bool)
    ensures
        closed == (pressed && key == Some(Key::Escape) && *old(mode) == Mode::PlayingMenu),
        *final(mode) == after_menu_escape(*old(mode), key, pressed),
{
    let escape = match key {
        Some(Key::Escape) => true,
        _ => false,
    };
    if pressed && escape && *mode == Mode::PlayingMenu {
        *mode = Mode::Playing;
        true
    } else {
        false
    }
}

/// A click on a menu button: continue playing, or go back to the title screen.
pub fn press_menu_button(mode: &mut Mode, button: MenuButton)
    ensures
        *final(mode) == match button {
            MenuButton::Continue => Mode::Playing,
            MenuButton::BackToMainMenu => Mode::Titlescreen,
        },
{
    *mode = match button {
        MenuButton::Continue => Mode::Playing,
        MenuButton::BackToMainMenu => Mode::Titlescreen,
    };
}

/// The buttons of the title screen.
#[derive(PartialEq, Eq, Structural, Clone, Copy, Debug)]
pub enum TitlescreenButton {
    Skirmish,
    Quit,
}

impl TitlescreenButton {
    pub fn label(self) -> (label: &'static str)
        ensures
            label@ == match self {
                TitlescreenButton::Skirmish => "Skirmish"@,
                TitlescreenButton::Quit => "Quit"@,
            },
    {
        match self {
            TitlescreenButton::Skirmish => "Skirmish",
            TitlescreenButton::Quit => "Quit",
        }
    }
}

/// A click on the title screen: skirmish starts a game, which resets the camera (the result
/// says whether to), quit ends the program.
pub fn press_titlescreen_button(mode: &mut Mode, button: TitlescreenButton) -> (reset_camera: bool)
    ensures
        reset_camera == (button == TitlescreenButton::Skirmish),
        *final(mode) == match button {
            TitlescreenButton::Skirmish => Mode::Playing,
            TitlescreenButton::Quit => Mode::Quit,
        },
{
    match button {
        TitlescreenButton::Skirmish => {
            *mode = Mode::Playing;
            true
        },
        TitlescreenButton::Quit => {
            *mode = Mode::Quit;
            false
        },
    }
}


/// Escape backs out one step at a time: in a special command mode it only returns to the
/// normal mode; in the normal mode it opens the menu; in the menu it closes it again.
pub proof fn lemma_escape_steps_back(command_mode: CommandMode)
    ensures
        command_mode != CommandMode::Normal ==> command_mode_after_key(
            command_mode,
            Some(Key::Escape),
            true,
        ) == CommandMode::Normal && game_mode_after_key(
            command_mode,
            Mode::Playing,
            Some(Key::Escape),
            true,
        ) == Mode::Playing,
        game_mode_after_key(CommandMode::Normal, Mode::Playing, Some(Key::Escape), true)
            == Mode::PlayingMenu,
        after_menu_escape(
            game_mode_after_key(CommandMode::Normal, Mode::Playing, Some(Key::Escape), true),
            Some(Key::Escape),
            true,
        ) == Mode::Playing,
{
}

} // verus!
