use vstd::prelude::*;

verus! {

/// What a mouse button is doing, frame by frame. `P` is a screen position.
#[derive(PartialEq, Eq, Structural, Clone, Copy, Debug)]
pub enum MouseButtonState<P> {
    /// Held down and moved: a drag that started at the position.
    Dragging(P),
    /// A drag that started at the position ended this frame.
    Dragged(P),
    Up,
    /// Pressed and released without dragging; lasts one frame.
    Clicked,
    /// Held for the given number of frames since being pressed at the position.
    Down(u8, P),
}

/// A held button becomes a drag after more than two frames once the mouse has moved far enough
/// from where it was pressed, and after more than ten frames in any case.
pub open spec fn starts_drag(frames: u8, moved_far: bool) -> bool {
    frames > 2 && (frames > 10 || moved_far)
}

/// The state one frame later. `moved_far` says whether the mouse is now more than ten pixels
/// from where the button was pressed along either axis.
pub open spec fn next_frame<P>(state: MouseButtonState<P>, moved_far: bool) -> MouseButtonState<P> {
    match state {
        MouseButtonState::Clicked => MouseButtonState::Up,
        MouseButtonState::Down(frames, start) => if starts_drag(frames, moved_far) {
            MouseButtonState::Dragging(start)
        } else {
            MouseButtonState::Down((frames + 1) as u8, start)
        },
        MouseButtonState::Dragged(_) => MouseButtonState::Up,
        MouseButtonState::Up => MouseButtonState::Up,
        MouseButtonState::Dragging(start) => MouseButtonState::Dragging(start),
    }
}

/// The state after the button was pressed (at `mouse`) or released.
pub open spec fn after_button_event<P>(
    state: MouseButtonState<P>,
    mouse: P,
    pressed: bool,
) -> MouseButtonState<P> {
    if pressed {
        MouseButtonState::Down(0, mouse)
    } else {
        match state {
            MouseButtonState::Down(_, _) => MouseButtonState::Clicked,
            MouseButtonState::Dragging(start) => MouseButtonState::Dragged(start),
            _ => MouseButtonState::Up,
        }
    }
}

impl<P> MouseButtonState<P> {
    pub fn new() -> (state: Self)
        ensures
            state == MouseButtonState::<P>::Up,
    {
        MouseButtonState::Up
    }

    /// Advances the state by one frame.
    pub fn update(&mut self, moved_far: bool)
        where
            P: Copy,
        ensures
            *final(self) == next_frame(*old(self), moved_far),
    {
        match *self {
            MouseButtonState::Clicked => {
                *self = MouseButtonState::Up;
            },
            MouseButtonState::Down(frames, start) => {
                let drag = frames > 2 && (frames > 10 || moved_far);
                if drag {
                    *self = MouseButtonState::Dragging(start);
                } else {
                    *self = MouseButtonState::Down(frames + 1, start);
                }
            },
            MouseButtonState::Dragged(_) => {
                *self = MouseButtonState::Up;
            },
            MouseButtonState::Up | MouseButtonState::Dragging(_) => {},
        }
    }

    /// Where the button was pressed, while it is held and not yet dragging.
    pub fn pressed_at(&self) -> (start: Option<P>)
        where
            P: Copy,
        ensures
            match *self {
                MouseButtonState::Down(_, p) => start == Some(p),
                _ => start is None,
            },
    {
        match self {
            MouseButtonState::Down(_, p) => Some(*p),
            _ => None,
        }
    }

    /// Records the button being pressed at `mouse` or released.
    pub fn handle(&mut self, mouse: P, pressed: bool)
        where
            P: Copy,
        ensures
            *final(self) == after_button_event(*old(self), mouse, pressed),
    {
        if pressed {
            self.handle_down(mouse);
        } else {
            self.handle_up();
        }
    }

    fn handle_down(&mut self, mouse: P)
        ensures
            *final(self) == MouseButtonState::Down(0, mouse),
    {
        *self = MouseButtonState::Down(0, mouse);
    }

    fn handle_up(&mut self)
        where
            P: Copy,
        ensures
            *final(self) == after_button_event(*old(self), arbitrary(), false),
    {
        match *self {
            MouseButtonState::Down(_, _) => {
                *self = MouseButtonState::Clicked;
            },
            MouseButtonState::Dragging(start) => {
                *self = MouseButtonState::Dragged(start);
            },
            _ => {
                *self = MouseButtonState::Up;
            },
        }
    }

    pub fn was_clicked(&self) -> (clicked: bool)
        ensures
            clicked == (*self is Clicked),
    {
        match self {
            MouseButtonState::Clicked => true,
            _ => false,
        }
    }

    /// Where the drag in progress started.
    pub fn is_being_dragged(&self) -> (start: Option<P>)
        where
            P: Copy,
        ensures
            match *self {
                MouseButtonState::Dragging(p) => start == Some(p),
                _ => start is None,
            },
    {
        match self {
            MouseButtonState::Dragging(start) => Some(*start),
            _ => None,
        }
    }

    /// Where the drag that ended this frame started.
    pub fn was_dragged(&self) -> (start: Option<P>)
        where
            P: Copy,
        ensures
            match *self {
                MouseButtonState::Dragged(p) => start == Some(p),
                _ => start is None,
            },
    {
        match self {
            MouseButtonState::Dragged(start) => Some(*start),
            _ => None,
        }
    }
}

/// The state after `frames` frames in which the mouse stays near where it was pressed.
pub open spec fn after_still_frames<P>(state: MouseButtonState<P>, frames: nat) -> MouseButtonState<P>
    decreases frames,
{
    if frames == 0 {
        state
    } else {
        after_still_frames(next_frame(state, false), (frames - 1) as nat)
    }
}

/// Pressing and releasing a button with no frame in between is a click.
pub proof fn lemma_press_release_is_click<P>(state: MouseButtonState<P>, at: P, released_at: P)
    ensures
        after_button_event(after_button_event(state, at, true), released_at, false)
            == MouseButtonState::<P>::Clicked,
{
}

/// A click is seen for exactly one frame.
pub proof fn lemma_click_lasts_one_frame<P>(moved_far: bool)
    ensures
        next_frame(MouseButtonState::<P>::Clicked, moved_far) == MouseButtonState::<P>::Up,
{
}

/// Released within the first three frames, a press is a click wherever the mouse went.
pub proof fn lemma_short_press_is_click<P>(at: P, moves: Seq<bool>, released_at: P)
    requires
        moves.len() <= 3,
    ensures
        ({
            let pressed = MouseButtonState::Down(0u8, at);
            let held = if moves.len() == 0 {
                pressed
            } else if moves.len() == 1 {
                next_frame(pressed, moves[0])
            } else if moves.len() == 2 {
                next_frame(next_frame(pressed, moves[0]), moves[1])
            } else {
                next_frame(next_frame(next_frame(pressed, moves[0]), moves[1]), moves[2])
            };
            after_button_event(held, released_at, false) == MouseButtonState::<P>::Clicked
        }),
{
}

proof fn lemma_still_frames_count<P>(frames: u8, at: P, n: nat)
    requires
        frames + n <= 11,
    ensures
        after_still_frames(MouseButtonState::Down(frames, at), n) == MouseButtonState::Down(
            (frames + n) as u8,
            at,
        ),
    decreases n,
{
    if n > 0 {
        lemma_still_frames_count((frames + 1) as u8, at, (n - 1) as nat);
    }
}

/// A pressed button held still stays a press for eleven frames and turns into a drag from where
/// it was pressed on the twelfth.
pub proof fn lemma_held_button_starts_drag<P>(at: P)
    ensures
        forall|n: nat|
            n <= 11 ==> after_still_frames(MouseButtonState::Down(0u8, at), n)
                == MouseButtonState::Down(n as u8, at),
        after_still_frames(MouseButtonState::Down(0u8, at), 12) == MouseButtonState::Dragging(at),
{
    assert forall|n: nat| n <= 11 implies after_still_frames(MouseButtonState::Down(0u8, at), n)
        == MouseButtonState::Down(n as u8, at) by {
        lemma_still_frames_count(0u8, at, n);
    }
    lemma_still_frames_count(0u8, at, 11);
    assert(after_still_frames(MouseButtonState::Down(11u8, at), 1) == MouseButtonState::Dragging(
        at,
    )) by {
        reveal_with_fuel(after_still_frames, 2);
    }
    lemma_still_frames_split(MouseButtonState::Down(0u8, at), 11, 1);
}

proof fn lemma_still_frames_split<P>(state: MouseButtonState<P>, a: nat, b: nat)
    ensures
        after_still_frames(state, a + b) == after_still_frames(after_still_frames(state, a), b),
    decreases a,
{
    if a > 0 {
        lemma_still_frames_split(next_frame(state, false), (a - 1) as nat, b);
        assert((a + b - 1) as nat == ((a - 1) as nat + b) as nat);
    }
}

/// Once the mouse has moved far, a button held for more than two frames is dragging.
pub proof fn lemma_moving_starts_drag<P>(frames: u8, at: P)
    requires
        frames > 2,
    ensures
        next_frame(MouseButtonState::Down(frames, at), true) == MouseButtonState::Dragging(at),
{
}

/// A drag keeps its start until the button is released; then it is reported for one frame,
/// and the button is up again.
pub proof fn lemma_drag_release<P>(start: P, moved_far: bool, released_at: P)
    ensures
        next_frame(MouseButtonState::Dragging(start), moved_far) == MouseButtonState::Dragging(
            start,
        ),
        after_button_event(MouseButtonState::Dragging(start), released_at, false)
            == MouseButtonState::Dragged(start),
        next_frame(MouseButtonState::<P>::Dragged(start), moved_far) == MouseButtonState::<P>::Up,
{
}

} // verus!
