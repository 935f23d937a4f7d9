//! What the viewer decides between two frames: how a window event changes
//! the held keys and the focus, what it asks the surrounding program to do,
//! and which camera movements the held keys stand for.

use vstd::prelude::*;

use crate::camera::Movement;

verus! {

/// The keys that the viewer tells apart.
#[derive(Clone, Copy, Debug, PartialEq, Eq, Structural)]
pub enum Key {
    W,
    A,
    S,
    D,
    Escape,
    Other,
}

/// A window or device event, as far as the viewer tells events apart.
#[derive(Clone, Copy, Debug, PartialEq, Eq, Structural)]
pub enum Event {
    /// The window was asked to close.
    CloseRequested,
    /// The left mouse button was pressed.
    LeftButtonPressed,
    /// The window gained (`true`) or lost (`false`) the focus.
    Focused(bool),
    /// A key was pressed (`true`) or released (`false`).
    Keyboard { key: Key, pressed: bool },
    /// The mouse was moved.
    MouseMotion,
    /// All pending events were handled; a frame is due.
    MainEventsCleared,
    /// Any other event.
    Other,
}

/// What the surrounding program is to do after an event.
#[derive(Clone, Copy, Debug, PartialEq, Eq, Structural)]
pub enum Action {
    Nothing,
    /// Leave the event loop.
    Exit,
    /// Print the camera's state.
    PrintCamera,
    /// Turn the camera by the motion that the event reports.
    RotateCamera,
    /// Move the camera by the held keys and draw a frame.
    UpdateAndRender,
}

/// Which movement keys are held down.
#[derive(Clone, Copy, Debug, Default, PartialEq, Eq, Structural)]
pub struct Input {
    pub forward: bool,
    pub back: bool,
    pub left: bool,
    pub right: bool,
}

/// The viewer's state between events.
#[derive(Clone, Copy, Debug, PartialEq, Eq, Structural)]
pub struct Game {
    pub input: Input,
    pub in_focus: bool,
}

impl Input {
    /// The input after a key was pressed or released: W, A, S and D hold
    /// forward, left, back and right; another key changes nothing.
    pub open spec fn after_key(self, key: Key, pressed: bool) -> Input {
        match key {
            Key::W => Input { forward: pressed, ..self },
            Key::A => Input { left: pressed, ..self },
            Key::S => Input { back: pressed, ..self },
            Key::D => Input { right: pressed, ..self },
            _ => self,
        }
    }

    /// The movements that the held keys stand for, in the order in which
    /// the camera makes them: forward, left, backward, right.
    pub open spec fn spec_movements(self) -> Seq<Movement> {
        (if self.forward {
            seq![Movement::Forward]
        } else {
            Seq::empty()
        }) + (if self.left {
            seq![Movement::Left]
        } else {
            Seq::empty()
        }) + (if self.back {
            seq![Movement::Backward]
        } else {
            Seq::empty()
        }) + (if self.right {
            seq![Movement::Right]
        } else {
            Seq::empty()
        })
    }

    /// Lists the movements that the held keys stand for.
    pub fn movements(&self) -> (r: Vec<Movement>)
        ensures
            r@ == self.spec_movements(),
    {
        let mut moves: Vec<Movement> = Vec::new();
        if self.forward {
            moves.push(Movement::Forward);
        }
        if self.left {
            moves.push(Movement::Left);
        }
        if self.back {
            moves.push(Movement::Backward);
        }
        if self.right {
            moves.push(Movement::Right);
        }
        moves
    }
}

impl Game {
    /// The state after `event`.
    pub open spec fn after(self, event: Event) -> Game {
        match event {
            Event::Focused(focused) => Game { in_focus: focused, ..self },
            Event::Keyboard { key, pressed } => Game { input: self.input.after_key(key, pressed), ..self },
            _ => self,
        }
    }

    /// What `event` asks for in this state: closing the window and the
    /// escape key end the loop, a left click prints the camera, mouse motion
    /// turns the camera while the window has the focus, and a frame is
    /// drawn when all events are handled.
    pub open spec fn action(self, event: Event) -> Action {
        match event {
            Event::CloseRequested => Action::Exit,
            Event::LeftButtonPressed => Action::PrintCamera,
            Event::Keyboard { key: Key::Escape, pressed: _ } => Action::Exit,
            Event::MouseMotion => if self.in_focus {
                Action::RotateCamera
            } else {
                Action::Nothing
            },
            Event::MainEventsCleared => Action::UpdateAndRender,
            _ => Action::Nothing,
        }
    }

    /// A viewer in focus with no key held.
    pub fn new() -> (r: Game)
        ensures
            r == (Game {
                input: Input { forward: false, back: false, left: false, right: false },
                in_focus: true,
            }),
    {
        Game { input: Input { forward: false, back: false, left: false, right: false }, in_focus: true }
    }

    /// Takes one event: updates the held keys and the focus, and says what
    /// the surrounding program is to do.
    pub fn main_loop(&mut self, event: Event) -> (action: Action)
        ensures
            *final(self) == old(self).after(event),
            action == old(self).action(event),
    {
        match event {
            Event::CloseRequested => Action::Exit,
            Event::LeftButtonPressed => Action::PrintCamera,
            Event::Focused(focused) => {
                self.in_focus = focused;
                Action::Nothing
            },
            Event::Keyboard { key, pressed } => {
                match key {
                    Key::W => {
                        self.input.forward = pressed;
                        Action::Nothing
                    },
                    Key::A => {
                        self.input.left = pressed;
                        Action::Nothing
                    },
                    Key::S => {
                        self.input.back = pressed;
                        Action::Nothing
                    },
                    Key::D => {
                        self.input.right = pressed;
                        Action::Nothing
                    },
                    Key::Escape => Action::Exit,
                    Key::Other => Action::Nothing,
                }
            },
            Event::MouseMotion => {
                if self.in_focus {
                    Action::RotateCamera
                } else {
                    Action::Nothing
                }
            },
            Event::MainEventsCleared => Action::UpdateAndRender,
            Event::Other => Action::Nothing,
        }
    }
}

} // verus!
