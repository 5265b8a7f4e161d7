//! The typed input surface the widget layer consumes, and the event surface
//! it produces for the application.
//!
//! The host window driver normalises raw window events into these values.
//! Views (`InputV`, `EventV`) present the same data with every piece of text
//! as a character sequence, so that contracts can speak of it directly.

use vstd::prelude::*;

verus! {

/// A mouse button, as far as the widgets distinguish them.
#[derive(Clone, Copy, Debug, PartialEq, Eq, Structural)]
pub enum MouseButtonKind {
    Left,
    Right,
    Middle,
    Other,
}

/// Whether a button or key went down or up.
#[derive(Clone, Copy, Debug, PartialEq, Eq, Structural)]
pub enum ButtonState {
    Pressed,
    Released,
}

/// A keyboard key, as far as the widgets distinguish them.
#[derive(Clone, Copy, Debug, PartialEq, Eq, Structural)]
pub enum KeyCode {
    Return,
    Back,
    Escape,
    Delete,
    V,
    Other,
}

/// One key event: the key, its direction, and whether control is held.
#[derive(Clone, Copy, Debug, PartialEq, Eq, Structural)]
pub struct KeyInput {
    pub key: KeyCode,
    pub state: ButtonState,
    pub ctrl: bool,
}

/// The cursor shape a widget asks for under the mouse.
#[derive(Clone, Copy, Debug, PartialEq, Eq, Structural)]
pub enum CursorKind {
    Default,
    Hand,
    Text,
}

/// An input event, dispatched to every widget of a collection in turn.  A
/// key event carries the clipboard text the host read for it, if any, so
/// that a focused text field can paste on control-V.
#[derive(Debug)]
pub enum InputEvent {
    MouseButton { button: MouseButtonKind, state: ButtonState, pos: (i32, i32) },
    MouseWheel { delta_x: i32, delta_y: i32 },
    MouseMove { pos: (i32, i32) },
    Key { input: KeyInput, clipboard: Option<String> },
    Char { ch: char },
}

/// The view of an input event: the clipboard text as a character sequence.
pub enum InputV {
    MouseButton { button: MouseButtonKind, state: ButtonState, pos: (i32, i32) },
    MouseWheel { delta_x: i32, delta_y: i32 },
    MouseMove { pos: (i32, i32) },
    Key { input: KeyInput, clipboard: Option<Seq<char>> },
    Char { ch: char },
}

impl View for InputEvent {
    type V = InputV;

    open spec fn view(&self) -> InputV {
        match self {
            InputEvent::MouseButton { button, state, pos } => InputV::MouseButton {
                button: *button,
                state: *state,
                pos: *pos,
            },
            InputEvent::MouseWheel { delta_x, delta_y } => InputV::MouseWheel {
                delta_x: *delta_x,
                delta_y: *delta_y,
            },
            InputEvent::MouseMove { pos } => InputV::MouseMove { pos: *pos },
            InputEvent::Key { input, clipboard } => InputV::Key {
                input: *input,
                clipboard: match clipboard {
                    Some(s) => Some(s@),
                    None => None,
                },
            },
            InputEvent::Char { ch } => InputV::Char { ch: *ch },
        }
    }
}

/// An event a widget emits in response to input, consumed once by the
/// collection for focus bookkeeping and once by the application.
#[derive(Debug, PartialEq)]
pub enum WidgetEvent {
    ButtonClicked { id: String },
    TextValueChanged { id: String, value: String },
    ScrollValueChanged { id: String, value: i32, max: i32, steps: u32 },
    FocusChanged { id: String, focus: bool },
}

/// The view of a widget event: identifier and text as character sequences.
pub enum EventV {
    ButtonClicked { id: Seq<char> },
    TextValueChanged { id: Seq<char>, value: Seq<char> },
    ScrollValueChanged { id: Seq<char>, value: i32, max: i32, steps: u32 },
    FocusChanged { id: Seq<char>, focus: bool },
}

impl View for WidgetEvent {
    type V = EventV;

    open spec fn view(&self) -> EventV {
        match self {
            WidgetEvent::ButtonClicked { id } => EventV::ButtonClicked { id: id@ },
            WidgetEvent::TextValueChanged { id, value } => EventV::TextValueChanged {
                id: id@,
                value: value@,
            },
            WidgetEvent::ScrollValueChanged { id, value, max, steps } => EventV::ScrollValueChanged {
                id: id@,
                value: *value,
                max: *max,
                steps: *steps,
            },
            WidgetEvent::FocusChanged { id, focus } => EventV::FocusChanged {
                id: id@,
                focus: *focus,
            },
        }
    }
}

impl DeepView for WidgetEvent {
    type V = EventV;

    open spec fn deep_view(&self) -> EventV {
        self.view()
    }
}

} // verus!
