//! What the mouse does over a widget, frame by frame: a button goes down, drags while it
//! is held and the pointer moves, and goes up; with no button held, the wheel turns.
use vstd::prelude::*;

verus! {

/// The mouse buttons that widgets follow.
#[derive(Clone, Copy, Debug, PartialEq, Eq, Structural)]
pub enum MouseButtonId {
    Left,
    Middle,
    Right,
}

/// What the mouse did in a frame.
#[derive(Clone, Copy, Debug, PartialEq, Eq, Structural)]
pub enum MouseEvent {
    /// Nothing to report.
    Nothing,
    /// The button held was let go.
    Up(MouseButtonId),
    /// The button went down.
    Down(MouseButtonId),
    /// The pointer moved while the button was held.
    Drag(MouseButtonId),
    /// The wheel turned while no button was held.
    Wheel,
}

/// The state of the mouse in a frame: which buttons are held, whether the pointer moved
/// since the position last reported, and whether the wheel turned.
#[derive(Clone, Copy, Debug)]
pub struct MouseInput {
    pub left_down: bool,
    pub middle_down: bool,
    pub right_down: bool,
    pub moved: bool,
    pub wheel_turned: bool,
}

/// Whether `button` is held in `input`.
pub open spec fn held(input: MouseInput, button: MouseButtonId) -> bool {
    match button {
        MouseButtonId::Left => input.left_down,
        MouseButtonId::Middle => input.middle_down,
        MouseButtonId::Right => input.right_down,
    }
}

/// The button followed after a frame, and what the frame reports. A button followed is
/// let go when no longer held, and drags when the pointer moved; otherwise the first
/// button held, in the order left, middle, right, goes down; otherwise the wheel may turn.
pub open spec fn mouse_step(state: Option<MouseButtonId>, input: MouseInput) -> (Option<MouseButtonId>, MouseEvent) {
    match state {
        Some(b) => if !held(input, b) {
            (None, MouseEvent::Up(b))
        } else if input.moved {
            (Some(b), MouseEvent::Drag(b))
        } else {
            (Some(b), MouseEvent::Nothing)
        },
        None => if input.left_down {
            (Some(MouseButtonId::Left), MouseEvent::Down(MouseButtonId::Left))
        } else if input.middle_down {
            (Some(MouseButtonId::Middle), MouseEvent::Down(MouseButtonId::Middle))
        } else if input.right_down {
            (Some(MouseButtonId::Right), MouseEvent::Down(MouseButtonId::Right))
        } else if input.wheel_turned {
            (None, MouseEvent::Wheel)
        } else {
            (None, MouseEvent::Nothing)
        },
    }
}

/// The button that a widget follows from the frame it went down to the frame it is let go.
pub struct MouseTracker {
    pub button_down: Option<MouseButtonId>,
}

impl MouseTracker {
    /// No button followed.
    pub fn new() -> (t: Self)
        ensures
            t.button_down is None,
    {
        MouseTracker { button_down: None }
    }

    /// Takes a frame's input and tells what happened.
    pub fn update(&mut self, input: &MouseInput) -> (event: MouseEvent)
        ensures
            (final(self).button_down, event) == mouse_step(old(self).button_down, *input),
    {
        match self.button_down {
            Some(b) => {
                let still_held = match b {
                    MouseButtonId::Left => input.left_down,
                    MouseButtonId::Middle => input.middle_down,
                    MouseButtonId::Right => input.right_down,
                };
                if !still_held {
                    self.button_down = None;
                    return MouseEvent::Up(b);
                }
                if input.moved {
                    return MouseEvent::Drag(b);
                }
                MouseEvent::Nothing
            },
            None => {
                let order: [MouseButtonId; 3] = [MouseButtonId::Left, MouseButtonId::Middle, MouseButtonId::Right];
                let held_now: [bool; 3] = [input.left_down, input.middle_down, input.right_down];
                let mut k: usize = 0;
                while k < 3
                    invariant
                        k <= 3,
                        self.button_down is None,
                        old(self).button_down is None,
                        order@ == seq![MouseButtonId::Left, MouseButtonId::Middle, MouseButtonId::Right],
                        held_now@ == seq![input.left_down, input.middle_down, input.right_down],
                        forall|j: int| 0 <= j < k ==> !held_now@[j],
                    decreases 3 - k,
                {
                    if held_now[k] {
                        self.button_down = Some(order[k]);
                        return MouseEvent::Down(order[k]);
                    }
                    k = k + 1;
                }
                if input.wheel_turned {
                    return MouseEvent::Wheel;
                }
                MouseEvent::Nothing
            },
        }
    }
}

/// A button is reported let go only when it was the one followed, and down only when none
/// was; after a frame, the button followed is the one that went down, or the one still
/// held.
pub proof fn law_press_release(state: Option<MouseButtonId>, input: MouseInput)
    ensures
        mouse_step(state, input).1 matches MouseEvent::Up(b) ==> state == Some(b)
            && mouse_step(state, input).0 is None,
        mouse_step(state, input).1 matches MouseEvent::Down(b) ==> state is None
            && mouse_step(state, input).0 == Some(b) && held(input, b),
        mouse_step(state, input).1 matches MouseEvent::Drag(b) ==> state == Some(b)
            && mouse_step(state, input).0 == Some(b),
        mouse_step(state, input).1 is Wheel ==> state is None,
        mouse_step(state, input).0 matches Some(b) ==> held(input, b),
{
}

/// The button held down after the events `events`: the one of the last press that no
/// release followed.
pub open spec fn pressed_after(events: Seq<MouseEvent>) -> Option<MouseButtonId>
    decreases events.len(),
{
    if events.len() == 0 {
        None
    } else {
        match events.last() {
            MouseEvent::Down(b) => Some(b),
            MouseEvent::Up(_) => None,
            _ => pressed_after(events.drop_last()),
        }
    }
}

/// The button followed and the events reported after frames with inputs `inputs`, from a
/// new tracker.
pub open spec fn mouse_trace(inputs: Seq<MouseInput>) -> (Option<MouseButtonId>, Seq<MouseEvent>)
    decreases inputs.len(),
{
    if inputs.len() == 0 {
        (None, seq![])
    } else {
        let before = mouse_trace(inputs.drop_last());
        let step = mouse_step(before.0, inputs.last());
        (step.0, before.1.push(step.1))
    }
}

/// Over any run of frames from a new tracker, a release or a drag of a button comes only
/// while that button is pressed (after its press, with no release between), a press only
/// while none is, and the button followed is the one pressed and not yet released.
pub proof fn law_press_release_pairing(inputs: Seq<MouseInput>)
    ensures
        mouse_trace(inputs).1.len() == inputs.len(),
        mouse_trace(inputs).0 == pressed_after(mouse_trace(inputs).1),
        forall|k: int| 0 <= k < inputs.len() ==> match #[trigger] mouse_trace(inputs).1[k] {
            MouseEvent::Up(b) => pressed_after(mouse_trace(inputs).1.take(k)) == Some(b),
            MouseEvent::Drag(b) => pressed_after(mouse_trace(inputs).1.take(k)) == Some(b),
            MouseEvent::Down(_) => pressed_after(mouse_trace(inputs).1.take(k)) is None,
            _ => true,
        },
    decreases inputs.len(),
{
    if inputs.len() > 0 {
        let rest = inputs.drop_last();
        law_press_release_pairing(rest);
        let before = mouse_trace(rest);
        let es = mouse_trace(inputs).1;
        assert(es == before.1.push(mouse_step(before.0, inputs.last()).1));
        assert(es.drop_last() =~= before.1);
        assert forall|k: int| 0 <= k < inputs.len() implies match #[trigger] es[k] {
            MouseEvent::Up(b) => pressed_after(es.take(k)) == Some(b),
            MouseEvent::Drag(b) => pressed_after(es.take(k)) == Some(b),
            MouseEvent::Down(_) => pressed_after(es.take(k)) is None,
            _ => true,
        } by {
            if k < inputs.len() - 1 {
                assert(es.take(k) =~= before.1.take(k));
                assert(es[k] == before.1[k]);
            } else {
                assert(es.take(k) =~= before.1);
            }
        }
    }
}

} // verus!
