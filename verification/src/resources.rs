use vstd::prelude::*;
use crate::entities::Side;

verus! {

/// Size of the window in pixels.
#[derive(PartialEq, Eq, Structural, Clone, Copy, Debug)]
pub struct ScreenDimensions {
    pub width: u32,
    pub height: u32,
}

/// The side the person at the keyboard plays.
#[derive(PartialEq, Eq, Structural, Clone, Copy, Debug)]
pub struct PlayerSide(pub Side);

/// Set when the program should exit.
#[derive(PartialEq, Eq, Structural, Clone, Copy, Debug)]
pub struct ShouldQuit(pub bool);

impl Default for ShouldQuit {
    fn default() -> (quit: Self)
        ensures
            quit == ShouldQuit(false),
    {
        ShouldQuit(false)
    }
}

/// Marks a unit that steers away from others.
#[derive(PartialEq, Eq, Structural, Clone, Copy, Debug)]
pub struct Avoids;

/// Marks an entity that others steer away from.
#[derive(PartialEq, Eq, Structural, Clone, Copy, Debug)]
pub struct Avoidable;

} // verus!
