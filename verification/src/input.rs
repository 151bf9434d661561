//! What the viewer does with the events of its window.
//!
//! The viewer polls its window once per frame and hands each event to
//! [`Controls::handle`], which keeps track of what the events have led to and
//! names what is to be done with the camera. The arithmetic on the camera
//! itself, which is in floating point, is left to the caller.

use vstd::prelude::*;

verus! {

/// A key of the keyboard, as far as the viewer tells keys apart.
#[derive(Clone, Copy, Debug, PartialEq, Eq, Structural)]
pub enum Key {
    W,
    S,
    Q,
    E,
    D,
    A,
    F1,
    Other,
}

/// A button of the mouse.
#[derive(Clone, Copy, Debug, PartialEq, Eq, Structural)]
pub enum Button {
    Left,
    Other,
}

/// An event of the window.
#[derive(Clone, Copy, Debug, PartialEq, Eq, Structural)]
pub enum Event {
    /// The user asked to close the window.
    CloseRequested,
    /// A key went down (`pressed`) or up. Some keys have no code.
    Keyboard { pressed: bool, key: Option<Key> },
    /// A button of the mouse went down (`pressed`) or up.
    Mouse { pressed: bool, button: Button },
    /// The cursor moved to a new place.
    CursorMoved,
    /// Any other event.
    Other,
}

/// A step of the camera.
#[derive(Clone, Copy, Debug, PartialEq, Eq, Structural)]
pub enum Step {
    /// Along the direction that the camera faces.
    Forward,
    /// Against the direction that the camera faces.
    Backward,
    /// Along the second axis of the world.
    Up,
    /// Against the second axis of the world.
    Down,
    /// Sideways, to the right of the direction that the camera faces.
    Right,
    /// Sideways, to the left of the direction that the camera faces.
    Left,
}

/// What the caller is to do after an event.
#[derive(Clone, Copy, Debug, PartialEq, Eq, Structural)]
pub enum Action {
    /// Nothing.
    Nothing,
    /// Move the camera one step.
    Move(Step),
    /// Print where the camera is and where it faces.
    PrintCamera,
    /// Remember where the cursor is now; where `turn` is set, first turn the
    /// camera by as much as the cursor has moved since it was last remembered.
    Track { turn: bool },
}

/// What the events so far have led to.
#[derive(Clone, Copy, Debug, PartialEq, Eq, Structural)]
pub struct Controls {
    /// Whether the user has asked to close the window.
    pub closed: bool,
    /// Whether the left button of the mouse is held down.
    pub mouse_pressed: bool,
}

/// The step that a key stands for, if any.
pub open spec fn step_of(key: Key) -> Option<Step> {
    match key {
        Key::W => Some(Step::Forward),
        Key::S => Some(Step::Backward),
        Key::Q => Some(Step::Up),
        Key::E => Some(Step::Down),
        Key::D => Some(Step::Right),
        Key::A => Some(Step::Left),
        _ => None,
    }
}

impl Controls {
    /// The controls after `event`. A request to close is kept for good. The
    /// left button is held from the moment it goes down until any button of
    /// the mouse goes up or another one goes down.
    pub open spec fn after(self, event: Event) -> Controls {
        match event {
            Event::CloseRequested => Controls { closed: true, ..self },
            Event::Mouse { pressed, button } => Controls {
                mouse_pressed: pressed && button == Button::Left,
                ..self
            },
            _ => self,
        }
    }

    /// What is to be done after `event`. A key that goes down moves the
    /// camera or prints it; a key that goes up does nothing. A cursor that
    /// moves turns the camera while the left button is held.
    pub open spec fn action(self, event: Event) -> Action {
        match event {
            Event::Keyboard { pressed: true, key: Some(key) } => match step_of(key) {
                Some(step) => Action::Move(step),
                None => if key == Key::F1 {
                    Action::PrintCamera
                } else {
                    Action::Nothing
                },
            },
            Event::CursorMoved => Action::Track { turn: self.mouse_pressed },
            _ => Action::Nothing,
        }
    }

    /// The controls of a window that was just opened.
    pub fn new() -> (controls: Self)
        ensures
            controls == (Controls { closed: false, mouse_pressed: false }),
    {
        Controls { closed: false, mouse_pressed: false }
    }

    /// Takes note of `event` and says what is to be done after it.
    pub fn handle(&mut self, event: Event) -> (action: Action)
        ensures
            *final(self) == old(self).after(event),
            action == old(self).action(event),
    {
        match event {
            Event::CloseRequested => {
                self.closed = true;
                Action::Nothing
            },
            Event::Keyboard { pressed, key } => {
                if !pressed {
                    return Action::Nothing;
                }
                match key {
                    Some(Key::W) => Action::Move(Step::Forward),
                    Some(Key::S) => Action::Move(Step::Backward),
                    Some(Key::Q) => Action::Move(Step::Up),
                    Some(Key::E) => Action::Move(Step::Down),
                    Some(Key::D) => Action::Move(Step::Right),
                    Some(Key::A) => Action::Move(Step::Left),
                    Some(Key::F1) => Action::PrintCamera,
                    _ => Action::Nothing,
                }
            },
            Event::Mouse { pressed, button } => {
                self.mouse_pressed = match button {
                    Button::Left => pressed,
                    Button::Other => false,
                };
                Action::Nothing
            },
            Event::CursorMoved => Action::Track { turn: self.mouse_pressed },
            Event::Other => Action::Nothing,
        }
    }
}

/// The controls after each of `events` in turn.
pub open spec fn after_all(controls: Controls, events: Seq<Event>) -> Controls
    decreases events.len(),
{
    if events.len() == 0 {
        controls
    } else {
        after_all(controls, events.drop_last()).after(events.last())
    }
}

/// A window that was asked to close stays so, whatever events follow.
pub proof fn lemma_closed_for_good(controls: Controls, events: Seq<Event>)
    requires
        controls.closed,
    ensures
        after_all(controls, events).closed,
    decreases events.len(),
{
    if events.len() > 0 {
        lemma_closed_for_good(controls, events.drop_last());
    }
}

/// The cursor turns the camera only while the left button is held: after a
/// button of the mouse went up, and until one goes down again, a cursor that
/// moves turns nothing.
pub proof fn lemma_no_turn_after_release(controls: Controls, button: Button, events: Seq<Event>)
    requires
        forall|i: int| 0 <= i < events.len() ==> !(#[trigger] events[i] is Mouse),
    ensures
        after_all(controls.after(Event::Mouse { pressed: false, button }), events).action(
            Event::CursorMoved,
        ) == (Action::Track { turn: false }),
    decreases events.len(),
{
    let released = controls.after(Event::Mouse { pressed: false, button });
    lemma_mouse_kept(released, events);
}

/// Events other than those of the mouse buttons leave the button as it is.
pub proof fn lemma_mouse_kept(controls: Controls, events: Seq<Event>)
    requires
        forall|i: int| 0 <= i < events.len() ==> !(#[trigger] events[i] is Mouse),
    ensures
        after_all(controls, events).mouse_pressed == controls.mouse_pressed,
    decreases events.len(),
{
    if events.len() > 0 {
        let earlier = events.drop_last();
        assert forall|i: int| 0 <= i < earlier.len() implies !(#[trigger] earlier[i] is Mouse) by {
            assert(earlier[i] == events[i]);
        }
        lemma_mouse_kept(controls, earlier);
        assert(!(events[events.len() - 1] is Mouse));
    }
}

} // verus!
