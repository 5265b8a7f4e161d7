//! The widget variants and their input handling.
//!
//! A widget is one of a closed set of variants — [`Button`], [`TextField`],
//! [`ScrollBar`] — dispatched by matching.  Every input handler is a pure
//! state transition, mirrored one-for-one by a spec function over the
//! widget's view; the collection in `ui` folds those transitions over all
//! its widgets.
//!
//! Focus discipline: a handler never grants its own widget focus.  It emits
//! a `FocusChanged { focus: true }` *request* and leaves the granting to the
//! collection, which arbitrates requests and keeps focus exclusive.  A
//! handler may clear its own focus flag (clicking outside a field, escape,
//! releasing a scroll bar), which can never break exclusivity.

use vstd::prelude::*;

use crate::geometry::{opaque_white, Bounds, Color};
use crate::input::{
    ButtonState, CursorKind, EventV, InputEvent, InputV, KeyCode, KeyInput, MouseButtonKind,
    WidgetEvent,
};
use crate::numeric::TextFilter;

verus! {

/// What fills a widget's rectangle: a named texture or a flat color.
#[derive(Clone, Debug, PartialEq)]
pub enum Background {
    Texture(String),
    Color(Color),
}

/// The view of a background: the texture name as a character sequence.
pub enum BackgroundV {
    Texture(Seq<char>),
    Color(Color),
}

impl View for Background {
    type V = BackgroundV;

    open spec fn view(&self) -> BackgroundV {
        match self {
            Background::Texture(name) => BackgroundV::Texture(name@),
            Background::Color(c) => BackgroundV::Color(*c),
        }
    }
}

/// Whether `c` is a control character: the C0 controls, delete, or the C1
/// controls.
pub open spec fn spec_is_control(c: char) -> bool {
    (c as u32) < 32 || (127 <= c as u32 <= 159)
}

/// Decides [`spec_is_control`].
pub fn is_control_char(c: char) -> (r: bool)
    ensures
        r == spec_is_control(c),
{
    let u = c as u32;
    u < 32 || (127 <= u && u <= 159)
}

/// A push button with a label, an optional icon, and hover / pressed state.
pub struct Button {
    pub id: String,
    pub label: String,
    pub bounds: Bounds,
    pub pressed: bool,
    pub hover: bool,
    pub focused: bool,
    pub background: Background,
    pub color: Color,
    pub icon: Option<String>,
}

/// The view of a button.
pub struct ButtonV {
    pub id: Seq<char>,
    pub label: Seq<char>,
    pub bounds: Bounds,
    pub pressed: bool,
    pub hover: bool,
    pub focused: bool,
    pub background: BackgroundV,
    pub color: Color,
    pub icon: Option<Seq<char>>,
}

impl View for Button {
    type V = ButtonV;

    open spec fn view(&self) -> ButtonV {
        ButtonV {
            id: self.id@,
            label: self.label@,
            bounds: self.bounds,
            pressed: self.pressed,
            hover: self.hover,
            focused: self.focused,
            background: self.background@,
            color: self.color,
            icon: match &self.icon {
                Some(s) => Some(s@),
                None => None,
            },
        }
    }
}

/// An editable line of text with a placeholder and an optional character
/// filter.
pub struct TextField {
    pub id: String,
    pub placeholder: String,
    pub value: String,
    pub filter: Option<TextFilter>,
    pub focused: bool,
    pub bounds: Bounds,
    pub background: Background,
}

/// The view of a text field.
pub struct TextFieldV {
    pub id: Seq<char>,
    pub placeholder: Seq<char>,
    pub value: Seq<char>,
    pub filter: Option<TextFilter>,
    pub focused: bool,
    pub bounds: Bounds,
    pub background: BackgroundV,
}

impl View for TextField {
    type V = TextFieldV;

    open spec fn view(&self) -> TextFieldV {
        TextFieldV {
            id: self.id@,
            placeholder: self.placeholder@,
            value: self.value@,
            filter: self.filter,
            focused: self.focused,
            bounds: self.bounds,
            background: self.background@,
        }
    }
}

/// A horizontal scroll bar over `0..=max`, with a step count that only
/// shapes how it is drawn.
pub struct ScrollBar {
    pub id: String,
    pub steps: u32,
    pub value: i32,
    pub max: i32,
    pub focused: bool,
    pub bounds: Bounds,
    pub color: Color,
}

/// The view of a scroll bar.
pub struct ScrollBarV {
    pub id: Seq<char>,
    pub steps: u32,
    pub value: i32,
    pub max: i32,
    pub focused: bool,
    pub bounds: Bounds,
    pub color: Color,
}

impl View for ScrollBar {
    type V = ScrollBarV;

    open spec fn view(&self) -> ScrollBarV {
        ScrollBarV {
            id: self.id@,
            steps: self.steps,
            value: self.value,
            max: self.max,
            focused: self.focused,
            bounds: self.bounds,
            color: self.color,
        }
    }
}

/// The scroll value a horizontal position names: the mouse offset into the
/// bar, as a fraction of the bar's width, scaled to `max` and clamped into
/// `0..=max`.
pub open spec fn spec_scroll_value(b: Bounds, mx: int, max: int) -> int {
    let dx = mx - b.x;
    if dx <= 0 {
        0
    } else {
        let t = dx * max / (b.w as int);
        if t > max {
            max
        } else {
            t
        }
    }
}

fn scroll_value(b: Bounds, mx: i32, max: i32) -> (r: i32)
    requires
        b.w > 0,
        max >= 0,
    ensures
        r == spec_scroll_value(b, mx as int, max as int),
        0 <= r <= max,
{
    if mx <= b.x {
        return 0;
    }
    let dx = (mx as i64 - b.x as i64) as u64;
    let maxu = max as u64;
    let wu = b.w as u64;
    proof {
        assert(dx * maxu <= 0xFFFF_FFFFu64 * 0x7FFF_FFFFu64) by (nonlinear_arith)
            requires
                dx <= 0xFFFF_FFFFu64,
                maxu <= 0x7FFF_FFFFu64,
        ;
    }
    let t = dx * maxu / wu;
    if t > maxu {
        max
    } else {
        t as i32
    }
}

impl Button {
    /// A fresh, unfocused button; a missing color defaults to opaque white.
    pub fn new(
        id: String,
        label: String,
        bounds: Bounds,
        background: Background,
        color: Option<Color>,
        icon: Option<String>,
    ) -> (r: Button)
        ensures
            r@ == (ButtonV {
                id: id@,
                label: label@,
                bounds,
                pressed: false,
                hover: false,
                focused: false,
                background: background@,
                color: match color {
                    Some(c) => c,
                    None => opaque_white(),
                },
                icon: match icon {
                    Some(s) => Some(s@),
                    None => None::<Seq<char>>,
                },
            }),
    {
        let c = match color {
            Some(c) => c,
            None => Color { r: 255, g: 255, b: 255, a: 255 },
        };
        Button {
            id,
            label,
            bounds,
            pressed: false,
            hover: false,
            focused: false,
            background,
            color: c,
            icon,
        }
    }

    /// A left press over a hovered button arms it and requests focus; a
    /// left release over it fires the click.  Everything else is ignored.
    pub fn on_mouse_button(&mut self, button: MouseButtonKind, state: ButtonState, _pos: (i32, i32)) -> (r:
        Vec<WidgetEvent>)
        ensures
            final(self)@ == button_mouse_button(old(self)@, button, state).0,
            r.deep_view() == button_mouse_button(old(self)@, button, state).1,
    {
        let mut events: Vec<WidgetEvent> = Vec::new();
        if self.hover {
            match button {
                MouseButtonKind::Left => {
                    if state == ButtonState::Pressed {
                        self.pressed = true;
                        events.push(WidgetEvent::FocusChanged { id: self.id.clone(), focus: true });
                    } else {
                        self.pressed = false;
                        events.push(WidgetEvent::ButtonClicked { id: self.id.clone() });
                    }
                },
                _ => {},
            }
        }
        proof {
            assert(events.deep_view() =~= button_mouse_button(old(self)@, button, state).1);
        }
        events
    }

    /// Mouse movement only tracks whether the pointer hovers the button.
    pub fn on_mouse_move(&mut self, pos: (i32, i32)) -> (r: Vec<WidgetEvent>)
        ensures
            final(self)@ == button_mouse_move(old(self)@, pos).0,
            r.deep_view() == button_mouse_move(old(self)@, pos).1,
    {
        self.hover = self.bounds.contains(pos.0, pos.1);
        let events: Vec<WidgetEvent> = Vec::new();
        proof {
            assert(events.deep_view() =~= button_mouse_move(old(self)@, pos).1);
        }
        events
    }

    /// Return pressed on a focused button arms it; the release fires the
    /// click.
    pub fn on_keyboard_key(&mut self, input: KeyInput) -> (r: Vec<WidgetEvent>)
        ensures
            final(self)@ == button_key(old(self)@, input).0,
            r.deep_view() == button_key(old(self)@, input).1,
    {
        let mut events: Vec<WidgetEvent> = Vec::new();
        if self.focused && input.key == KeyCode::Return {
            if input.state == ButtonState::Pressed {
                self.pressed = true;
            } else {
                self.pressed = false;
                events.push(WidgetEvent::ButtonClicked { id: self.id.clone() });
            }
        }
        proof {
            assert(events.deep_view() =~= button_key(old(self)@, input).1);
        }
        events
    }
}

/// The button's transition on mouse-button input.
pub open spec fn button_mouse_button(b: ButtonV, button: MouseButtonKind, state: ButtonState) -> (
    ButtonV,
    Seq<EventV>,
) {
    if b.hover && button is Left {
        if state is Pressed {
            (
                ButtonV { pressed: true, ..b },
                seq![EventV::FocusChanged { id: b.id, focus: true }],
            )
        } else {
            (ButtonV { pressed: false, ..b }, seq![EventV::ButtonClicked { id: b.id }])
        }
    } else {
        (b, Seq::<EventV>::empty())
    }
}

/// The button's transition on mouse movement.
pub open spec fn button_mouse_move(b: ButtonV, pos: (i32, i32)) -> (ButtonV, Seq<EventV>) {
    (
        ButtonV { hover: b.bounds.spec_contains(pos.0 as int, pos.1 as int), ..b },
        Seq::<EventV>::empty(),
    )
}

/// The button's transition on key input.
pub open spec fn button_key(b: ButtonV, input: KeyInput) -> (ButtonV, Seq<EventV>) {
    if b.focused && input.key is Return {
        if input.state is Pressed {
            (ButtonV { pressed: true, ..b }, Seq::<EventV>::empty())
        } else {
            (ButtonV { pressed: false, ..b }, seq![EventV::ButtonClicked { id: b.id }])
        }
    } else {
        (b, Seq::<EventV>::empty())
    }
}

impl TextField {
    /// A fresh, unfocused text field.
    pub fn new(
        id: String,
        placeholder: String,
        value: String,
        bounds: Bounds,
        background: Background,
        filter: Option<TextFilter>,
    ) -> (r: TextField)
        ensures
            r@ == (TextFieldV {
                id: id@,
                placeholder: placeholder@,
                value: value@,
                filter,
                focused: false,
                bounds,
                background: background@,
            }),
    {
        TextField { id, placeholder, value, filter, focused: false, bounds, background }
    }

    /// What the field displays: the placeholder while empty, else the value.
    pub fn get_display_text(&self) -> (r: String)
        ensures
            r@ == (if self.value@.len() == 0 {
                self.placeholder@
            } else {
                self.value@
            }),
    {
        if self.value.as_str().is_empty() {
            self.placeholder.clone()
        } else {
            self.value.clone()
        }
    }

    /// A left press inside the field requests focus; any press outside
    /// drops the field's own focus.
    pub fn on_mouse_button(&mut self, button: MouseButtonKind, state: ButtonState, pos: (i32, i32)) -> (r:
        Vec<WidgetEvent>)
        ensures
            final(self)@ == textfield_mouse_button(old(self)@, button, state, pos).0,
            r.deep_view() == textfield_mouse_button(old(self)@, button, state, pos).1,
    {
        let mut events: Vec<WidgetEvent> = Vec::new();
        if self.bounds.contains(pos.0, pos.1) {
            if button == MouseButtonKind::Left && state == ButtonState::Pressed {
                events.push(WidgetEvent::FocusChanged { id: self.id.clone(), focus: true });
            }
        } else {
            self.focused = false;
        }
        proof {
            assert(events.deep_view() =~= textfield_mouse_button(old(self)@, button, state, pos).1);
        }
        events
    }

    /// Editing keys for a focused field: backspace removes the last
    /// character, delete clears, escape drops focus, and control-V appends
    /// the clipboard text supplied by the host.
    pub fn on_keyboard_key(&mut self, input: KeyInput, clipboard: Option<&String>) -> (r: Vec<
        WidgetEvent,
    >)
        ensures
            ({
                let cb = match clipboard {
                    Some(s) => Some(s@),
                    None => None::<Seq<char>>,
                };
                &&& final(self)@ == textfield_key(old(self)@, input, cb).0
                &&& r.deep_view() == textfield_key(old(self)@, input, cb).1
            }),
    {
        let ghost cb = match clipboard {
            Some(s) => Some(s@),
            None => None::<Seq<char>>,
        };
        let mut events: Vec<WidgetEvent> = Vec::new();
        if self.focused && input.state == ButtonState::Pressed {
            match input.key {
                KeyCode::Back => {
                    if !self.value.as_str().is_empty() {
                        self.value.pop();
                        events.push(
                            WidgetEvent::TextValueChanged {
                                id: self.id.clone(),
                                value: self.value.clone(),
                            },
                        );
                    }
                },
                KeyCode::Escape => {
                    self.focused = false;
                },
                KeyCode::Delete => {
                    self.value.clear();
                },
                KeyCode::V => {
                    if input.ctrl {
                        match clipboard {
                            Some(contents) => {
                                self.value.push_str(contents.as_str());
                                events.push(
                                    WidgetEvent::TextValueChanged {
                                        id: self.id.clone(),
                                        value: self.value.clone(),
                                    },
                                );
                            },
                            None => {},
                        }
                    }
                },
                _ => {},
            }
        }
        proof {
            if self.value@.len() == 0 {
                assert(self.value@ =~= Seq::<char>::empty());
            }
            assert(self@ == textfield_key(old(self)@, input, cb).0);
            assert(events.deep_view() =~= textfield_key(old(self)@, input, cb).1);
        }
        events
    }

    /// A printable character typed into a focused field is appended if the
    /// filter, when there is one, admits it.
    pub fn on_keyboard_char(&mut self, ch: char) -> (r: Vec<WidgetEvent>)
        ensures
            final(self)@ == textfield_char(old(self)@, ch).0,
            r.deep_view() == textfield_char(old(self)@, ch).1,
    {
        let mut events: Vec<WidgetEvent> = Vec::new();
        if self.focused && (ch == ' ' || !is_control_char(ch)) {
            let admitted = match &self.filter {
                Some(f) => f.matches(ch, &self.value),
                None => true,
            };
            if admitted {
                self.value.push(ch);
                events.push(
                    WidgetEvent::TextValueChanged {
                        id: self.id.clone(),
                        value: self.value.clone(),
                    },
                );
            }
        }
        proof {
            assert(events.deep_view() =~= textfield_char(old(self)@, ch).1);
        }
        events
    }
}

/// The text field's transition on mouse-button input.
pub open spec fn textfield_mouse_button(
    t: TextFieldV,
    button: MouseButtonKind,
    state: ButtonState,
    pos: (i32, i32),
) -> (TextFieldV, Seq<EventV>) {
    if t.bounds.spec_contains(pos.0 as int, pos.1 as int) {
        if button is Left && state is Pressed {
            (t, seq![EventV::FocusChanged { id: t.id, focus: true }])
        } else {
            (t, Seq::<EventV>::empty())
        }
    } else {
        (TextFieldV { focused: false, ..t }, Seq::<EventV>::empty())
    }
}

/// The text field's transition on key input.
pub open spec fn textfield_key(t: TextFieldV, input: KeyInput, clipboard: Option<Seq<char>>) -> (
    TextFieldV,
    Seq<EventV>,
) {
    if t.focused && input.state is Pressed {
        match input.key {
            KeyCode::Back => if t.value.len() > 0 {
                let v2 = t.value.drop_last();
                (
                    TextFieldV { value: v2, ..t },
                    seq![EventV::TextValueChanged { id: t.id, value: v2 }],
                )
            } else {
                (t, Seq::<EventV>::empty())
            },
            KeyCode::Escape => (TextFieldV { focused: false, ..t }, Seq::<EventV>::empty()),
            KeyCode::Delete => (
                TextFieldV { value: Seq::<char>::empty(), ..t },
                Seq::<EventV>::empty(),
            ),
            KeyCode::V => if input.ctrl {
                match clipboard {
                    Some(cb) => {
                        let v2 = t.value + cb;
                        (
                            TextFieldV { value: v2, ..t },
                            seq![EventV::TextValueChanged { id: t.id, value: v2 }],
                        )
                    },
                    None => (t, Seq::<EventV>::empty()),
                }
            } else {
                (t, Seq::<EventV>::empty())
            },
            _ => (t, Seq::<EventV>::empty()),
        }
    } else {
        (t, Seq::<EventV>::empty())
    }
}

/// The text field's transition on a typed character.
pub open spec fn textfield_char(t: TextFieldV, ch: char) -> (TextFieldV, Seq<EventV>) {
    if t.focused && (ch == ' ' || !spec_is_control(ch)) {
        let admitted = match t.filter {
            Some(f) => f.spec_matches(ch, t.value),
            None => true,
        };
        if admitted {
            let v2 = t.value.push(ch);
            (
                TextFieldV { value: v2, ..t },
                seq![EventV::TextValueChanged { id: t.id, value: v2 }],
            )
        } else {
            (t, Seq::<EventV>::empty())
        }
    } else {
        (t, Seq::<EventV>::empty())
    }
}

impl ScrollBar {
    /// The scroll bar invariant: a positive width to divide by and a
    /// non-negative range.
    pub open spec fn wf(&self) -> bool {
        self.max >= 0 && self.bounds.w > 0
    }

    /// A fresh, unfocused scroll bar.
    pub fn new(id: String, value: i32, max: i32, steps: u32, bounds: Bounds, color: Color) -> (r:
        ScrollBar)
        requires
            max >= 0,
            bounds.w > 0,
        ensures
            r@ == (ScrollBarV { id: id@, steps, value, max, focused: false, bounds, color }),
            r.wf(),
    {
        ScrollBar { id, steps, value, max, focused: false, bounds, color }
    }

    /// Sets the value, clamped into `0..=max`.
    pub fn set_value(&mut self, value: i32)
        requires
            old(self).wf(),
        ensures
            final(self)@ == (ScrollBarV {
                value: (if value < 0 {
                    0
                } else if value > old(self).max {
                    old(self).max
                } else {
                    value
                }) as i32,
                ..old(self)@
            }),
            final(self).wf(),
    {
        let v = if value > self.max {
            self.max
        } else {
            value
        };
        self.value = if v < 0 {
            0
        } else {
            v
        };
    }

    /// Sets the value to the fraction `numer / denom` of `max`, the
    /// fraction clamped into `0..=1`.
    pub fn set_ratio_value(&mut self, numer: u32, denom: u32)
        requires
            old(self).wf(),
            denom > 0,
        ensures
            final(self)@ == (ScrollBarV {
                value: spec_ratio_value(numer as int, denom as int, old(self).max as int) as i32,
                ..old(self)@
            }),
            final(self).wf(),
    {
        if numer >= denom {
            self.value = self.max;
        } else {
            let nu = numer as u64;
            let maxu = self.max as u64;
            let du = denom as u64;
            proof {
                assert(nu * maxu <= 0xFFFF_FFFFu64 * 0x7FFF_FFFFu64) by (nonlinear_arith)
                    requires
                        nu <= 0xFFFF_FFFFu64,
                        maxu <= 0x7FFF_FFFFu64,
                ;
                assert((nu as int) * (maxu as int) <= (du as int) * (maxu as int))
                    by (nonlinear_arith)
                    requires
                        nu <= du,
                        maxu >= 0,
                ;
                vstd::arithmetic::div_mod::lemma_div_is_ordered(
                    (nu as int) * (maxu as int),
                    (du as int) * (maxu as int),
                    du as int,
                );
                vstd::arithmetic::div_mod::lemma_div_multiples_vanish(maxu as int, du as int);
            }
            let v = nu * maxu / du;
            self.value = v as i32;
        }
    }

    /// The current value.
    pub fn get_value(&self) -> (r: i32)
        ensures
            r == self.value,
    {
        self.value
    }

    /// Where the bar draws its handle, as `(offset, width)` from the bar's
    /// left edge: the handle is one slot of the bar divided into
    /// `steps + 1` slots, centred on the fraction `value / max` of the
    /// width and clamped so it stays inside the bar.
    pub fn handle_bounds(&self) -> (r: (i32, i32))
        requires
            self.wf(),
        ensures
            r == spec_handle_bounds(self@),
            0 <= r.1 <= self.bounds.w,
            0 <= r.0,
            r.0 + r.1 <= self.bounds.w,
    {
        let w = self.bounds.w as i64;
        let v: i64 = if self.value < 0 {
            0
        } else if self.value > self.max {
            self.max as i64
        } else {
            self.value as i64
        };
        let slots = self.steps as i64 + 1;
        let sw = w / slots;
        proof {
            vstd::arithmetic::div_mod::lemma_div_of0(slots as int);
            vstd::arithmetic::div_mod::lemma_div_is_ordered(0, w as int, slots as int);
            vstd::arithmetic::div_mod::lemma_div_basics(w as int);
            vstd::arithmetic::div_mod::lemma_div_is_ordered_by_denominator(
                w as int,
                1,
                slots as int,
            );
            assert(0 <= sw <= w);
        }
        let t: i64 = if self.max > 0 {
            proof {
                assert(v * w <= 0x7FFF_FFFFi64 * 0x7FFF_FFFFi64) by (nonlinear_arith)
                    requires
                        0 <= v <= 0x7FFF_FFFFi64,
                        0 < w <= 0x7FFF_FFFFi64,
                ;
                assert(0 <= v * w) by (nonlinear_arith)
                    requires
                        0 <= v,
                        0 <= w,
                ;
                vstd::arithmetic::div_mod::lemma_div_is_ordered(
                    0,
                    (v as int) * (w as int),
                    self.max as int,
                );
                vstd::arithmetic::div_mod::lemma_div_of0(self.max as int);
            }
            v * w / (self.max as i64)
        } else {
            0
        };
        let half = sw / 2;
        proof {
            vstd::arithmetic::div_mod::lemma_div_is_ordered(0, sw as int, 2);
        }
        let sx: i64 = if t - half < 0 {
            0
        } else if t - half > w - sw {
            w - sw
        } else {
            t - half
        };
        proof {
            assert(0 <= sx && sx + sw <= w);
        }
        (sx as i32, sw as i32)
    }

    /// A left press inside the bar requests focus, jumps the value to the
    /// clicked position, and reports it; the release inside drops focus.
    /// Any press outside drops the bar's own focus.
    pub fn on_mouse_button(&mut self, button: MouseButtonKind, state: ButtonState, pos: (i32, i32)) -> (r:
        Vec<WidgetEvent>)
        requires
            old(self).wf(),
        ensures
            final(self)@ == scrollbar_mouse_button(old(self)@, button, state, pos).0,
            r.deep_view() == scrollbar_mouse_button(old(self)@, button, state, pos).1,
            final(self).wf(),
    {
        let mut events: Vec<WidgetEvent> = Vec::new();
        if self.bounds.contains(pos.0, pos.1) {
            if button == MouseButtonKind::Left {
                if state == ButtonState::Pressed {
                    let value = scroll_value(self.bounds, pos.0, self.max);
                    self.value = value;
                    events.push(WidgetEvent::FocusChanged { id: self.id.clone(), focus: true });
                    events.push(
                        WidgetEvent::ScrollValueChanged {
                            id: self.id.clone(),
                            value,
                            max: self.max,
                            steps: self.steps,
                        },
                    );
                } else {
                    self.focused = false;
                    events.push(WidgetEvent::FocusChanged { id: self.id.clone(), focus: false });
                }
            }
        } else {
            self.focused = false;
        }
        proof {
            assert(events.deep_view() =~= scrollbar_mouse_button(old(self)@, button, state, pos).1);
        }
        events
    }

    /// Dragging: while the bar holds focus, moving the mouse tracks the
    /// value and reports each change.
    pub fn on_mouse_move(&mut self, pos: (i32, i32)) -> (r: Vec<WidgetEvent>)
        requires
            old(self).wf(),
        ensures
            final(self)@ == scrollbar_mouse_move(old(self)@, pos).0,
            r.deep_view() == scrollbar_mouse_move(old(self)@, pos).1,
            final(self).wf(),
    {
        let mut events: Vec<WidgetEvent> = Vec::new();
        if self.focused {
            let value = scroll_value(self.bounds, pos.0, self.max);
            if value != self.value {
                self.value = value;
                events.push(
                    WidgetEvent::ScrollValueChanged {
                        id: self.id.clone(),
                        value,
                        max: self.max,
                        steps: self.steps,
                    },
                );
            }
        }
        proof {
            assert(events.deep_view() =~= scrollbar_mouse_move(old(self)@, pos).1);
        }
        events
    }
}

/// Where a scroll bar's handle sits, as `(offset, width)`: one of
/// `steps + 1` slots, centred on `value / max` of the width, clamped so the
/// whole handle stays inside the bar.
pub open spec fn spec_handle_bounds(s: ScrollBarV) -> (i32, i32) {
    let w = s.bounds.w as int;
    let v = if s.value < 0 {
        0
    } else if s.value > s.max {
        s.max as int
    } else {
        s.value as int
    };
    let sw = w / (s.steps + 1);
    let t = if s.max > 0 {
        v * w / (s.max as int)
    } else {
        0
    };
    let half = sw / 2;
    let sx = if t - half < 0 {
        0
    } else if t - half > w - sw {
        w - sw
    } else {
        t - half
    };
    (sx as i32, sw as i32)
}

/// The fraction `numer / denom` of `max`, the fraction clamped into `0..=1`.
pub open spec fn spec_ratio_value(numer: int, denom: int, max: int) -> int {
    if numer >= denom {
        max
    } else {
        numer * max / denom
    }
}

/// The scroll bar's transition on mouse-button input.
pub open spec fn scrollbar_mouse_button(
    s: ScrollBarV,
    button: MouseButtonKind,
    state: ButtonState,
    pos: (i32, i32),
) -> (ScrollBarV, Seq<EventV>) {
    if s.bounds.spec_contains(pos.0 as int, pos.1 as int) {
        if button is Left {
            if state is Pressed {
                let v = spec_scroll_value(s.bounds, pos.0 as int, s.max as int) as i32;
                (
                    ScrollBarV { value: v, ..s },
                    seq![
                        EventV::FocusChanged { id: s.id, focus: true },
                        EventV::ScrollValueChanged { id: s.id, value: v, max: s.max, steps: s.steps },
                    ],
                )
            } else {
                (
                    ScrollBarV { focused: false, ..s },
                    seq![EventV::FocusChanged { id: s.id, focus: false }],
                )
            }
        } else {
            (s, Seq::<EventV>::empty())
        }
    } else {
        (ScrollBarV { focused: false, ..s }, Seq::<EventV>::empty())
    }
}

/// The scroll bar's transition on mouse movement.
pub open spec fn scrollbar_mouse_move(s: ScrollBarV, pos: (i32, i32)) -> (ScrollBarV, Seq<EventV>) {
    if s.focused {
        let v = spec_scroll_value(s.bounds, pos.0 as int, s.max as int) as i32;
        if v != s.value {
            (
                ScrollBarV { value: v, ..s },
                seq![
                    EventV::ScrollValueChanged { id: s.id, value: v, max: s.max, steps: s.steps },
                ],
            )
        } else {
            (s, Seq::<EventV>::empty())
        }
    } else {
        (s, Seq::<EventV>::empty())
    }
}

/// One widget of a collection: a closed set of variants dispatched by
/// matching.
pub enum Widget {
    Button(Button),
    TextField(TextField),
    ScrollBar(ScrollBar),
}

/// The view of a widget.
pub enum WidgetV {
    Button(ButtonV),
    TextField(TextFieldV),
    ScrollBar(ScrollBarV),
}

impl View for Widget {
    type V = WidgetV;

    open spec fn view(&self) -> WidgetV {
        match self {
            Widget::Button(b) => WidgetV::Button(b@),
            Widget::TextField(t) => WidgetV::TextField(t@),
            Widget::ScrollBar(s) => WidgetV::ScrollBar(s@),
        }
    }
}

impl DeepView for Widget {
    type V = WidgetV;

    open spec fn deep_view(&self) -> WidgetV {
        self@
    }
}

/// The widget's identifier.
pub open spec fn wv_id(w: WidgetV) -> Seq<char> {
    match w {
        WidgetV::Button(b) => b.id,
        WidgetV::TextField(t) => t.id,
        WidgetV::ScrollBar(s) => s.id,
    }
}

/// The widget's bounding rectangle.
pub open spec fn wv_bounds(w: WidgetV) -> Bounds {
    match w {
        WidgetV::Button(b) => b.bounds,
        WidgetV::TextField(t) => t.bounds,
        WidgetV::ScrollBar(s) => s.bounds,
    }
}

/// The widget's focus flag.
pub open spec fn wv_focused(w: WidgetV) -> bool {
    match w {
        WidgetV::Button(b) => b.focused,
        WidgetV::TextField(t) => t.focused,
        WidgetV::ScrollBar(s) => s.focused,
    }
}

/// The widget with its focus flag set to `f` and nothing else changed.
pub open spec fn wv_set_focused(w: WidgetV, f: bool) -> WidgetV {
    match w {
        WidgetV::Button(b) => WidgetV::Button(ButtonV { focused: f, ..b }),
        WidgetV::TextField(t) => WidgetV::TextField(TextFieldV { focused: f, ..t }),
        WidgetV::ScrollBar(s) => WidgetV::ScrollBar(ScrollBarV { focused: f, ..s }),
    }
}

/// The widget's own invariant.
pub open spec fn wv_wf(w: WidgetV) -> bool {
    match w {
        WidgetV::ScrollBar(s) => s.max >= 0 && s.bounds.w > 0,
        _ => true,
    }
}

/// The cursor a widget asks for: a hand over a button or scroll bar, a text
/// cursor over a text field, nothing while the pointer is outside.
pub open spec fn wv_cursor(w: WidgetV, pos: (i32, i32)) -> Option<CursorKind> {
    if wv_bounds(w).spec_contains(pos.0 as int, pos.1 as int) {
        match w {
            WidgetV::Button(_) => Some(CursorKind::Hand),
            WidgetV::TextField(_) => Some(CursorKind::Text),
            WidgetV::ScrollBar(_) => Some(CursorKind::Hand),
        }
    } else {
        None
    }
}

/// The widget's transition on one input event: the matching handler of the
/// variant, or no change where the variant has none.
pub open spec fn widget_step(w: WidgetV, e: InputV) -> (WidgetV, Seq<EventV>) {
    match w {
        WidgetV::Button(b) => match e {
            InputV::MouseButton { button, state, .. } => {
                let s = button_mouse_button(b, button, state);
                (WidgetV::Button(s.0), s.1)
            },
            InputV::MouseMove { pos } => {
                let s = button_mouse_move(b, pos);
                (WidgetV::Button(s.0), s.1)
            },
            InputV::Key { input, .. } => {
                let s = button_key(b, input);
                (WidgetV::Button(s.0), s.1)
            },
            _ => (w, Seq::<EventV>::empty()),
        },
        WidgetV::TextField(t) => match e {
            InputV::MouseButton { button, state, pos } => {
                let s = textfield_mouse_button(t, button, state, pos);
                (WidgetV::TextField(s.0), s.1)
            },
            InputV::Key { input, clipboard } => {
                let s = textfield_key(t, input, clipboard);
                (WidgetV::TextField(s.0), s.1)
            },
            InputV::Char { ch } => {
                let s = textfield_char(t, ch);
                (WidgetV::TextField(s.0), s.1)
            },
            _ => (w, Seq::<EventV>::empty()),
        },
        WidgetV::ScrollBar(sb) => match e {
            InputV::MouseButton { button, state, pos } => {
                let s = scrollbar_mouse_button(sb, button, state, pos);
                (WidgetV::ScrollBar(s.0), s.1)
            },
            InputV::MouseMove { pos } => {
                let s = scrollbar_mouse_move(sb, pos);
                (WidgetV::ScrollBar(s.0), s.1)
            },
            _ => (w, Seq::<EventV>::empty()),
        },
    }
}

/// A handler never grants focus: a stepped widget is focused only if it
/// already was.  (It may drop its own focus.)
pub proof fn lemma_widget_step_no_focus_gain(w: WidgetV, e: InputV)
    ensures
        wv_focused(widget_step(w, e).0) ==> wv_focused(w),
{
}

/// Setting the focus flag to the value it already has changes nothing.
pub proof fn lemma_set_focused_identity(w: WidgetV, f: bool)
    requires
        wv_focused(w) == f,
    ensures
        wv_set_focused(w, f) == w,
{
    match w {
        WidgetV::Button(b) => {
            assert(wv_set_focused(w, f) == WidgetV::Button(ButtonV { focused: f, ..b }));
            assert(ButtonV { focused: f, ..b } == b);
        },
        WidgetV::TextField(t) => {
            assert(wv_set_focused(w, f) == WidgetV::TextField(TextFieldV { focused: f, ..t }));
            assert(TextFieldV { focused: f, ..t } == t);
        },
        WidgetV::ScrollBar(sb) => {
            assert(wv_set_focused(w, f) == WidgetV::ScrollBar(ScrollBarV { focused: f, ..sb }));
            assert(ScrollBarV { focused: f, ..sb } == sb);
        },
    }
}

/// A step never changes a widget's identity, bounds, or its own invariant.
pub proof fn lemma_widget_step_shape(w: WidgetV, e: InputV)
    ensures
        wv_id(widget_step(w, e).0) == wv_id(w),
        wv_bounds(widget_step(w, e).0) == wv_bounds(w),
        wv_wf(widget_step(w, e).0) == wv_wf(w),
{
}

impl Widget {
    /// The widget's identifier.
    pub fn get_id(&self) -> (r: &String)
        ensures
            r@ == wv_id(self@),
    {
        match self {
            Widget::Button(b) => &b.id,
            Widget::TextField(t) => &t.id,
            Widget::ScrollBar(s) => &s.id,
        }
    }

    /// The widget's bounding rectangle.
    pub fn get_bounds(&self) -> (r: Bounds)
        ensures
            r == wv_bounds(self@),
    {
        match self {
            Widget::Button(b) => b.bounds,
            Widget::TextField(t) => t.bounds,
            Widget::ScrollBar(s) => s.bounds,
        }
    }

    /// Whether the widget currently holds focus.
    pub fn is_focused(&self) -> (r: bool)
        ensures
            r == wv_focused(self@),
    {
        match self {
            Widget::Button(b) => b.focused,
            Widget::TextField(t) => t.focused,
            Widget::ScrollBar(s) => s.focused,
        }
    }

    /// Sets the focus flag; only the collection calls this, after
    /// arbitrating the focus requests of one dispatch round.
    pub fn set_focused(&mut self, focused: bool)
        ensures
            final(self)@ == wv_set_focused(old(self)@, focused),
    {
        match self {
            Widget::Button(b) => b.focused = focused,
            Widget::TextField(t) => t.focused = focused,
            Widget::ScrollBar(s) => s.focused = focused,
        }
    }

    /// Edge-inclusive hit test against the widget's bounds.
    pub fn is_mouse_over(&self, pos: (i32, i32)) -> (r: bool)
        ensures
            r == wv_bounds(self@).spec_contains(pos.0 as int, pos.1 as int),
    {
        let b = self.get_bounds();
        b.contains(pos.0, pos.1)
    }

    /// The cursor the widget asks for under the mouse.
    pub fn get_cursor(&self, pos: (i32, i32)) -> (r: Option<CursorKind>)
        ensures
            r == wv_cursor(self@, pos),
    {
        if self.is_mouse_over(pos) {
            match self {
                Widget::Button(_) => Some(CursorKind::Hand),
                Widget::TextField(_) => Some(CursorKind::Text),
                Widget::ScrollBar(_) => Some(CursorKind::Hand),
            }
        } else {
            None
        }
    }

    /// Dispatches one input event to the variant's matching handler.
    pub fn handle(&mut self, e: &InputEvent) -> (r: Vec<WidgetEvent>)
        requires
            wv_wf(old(self)@),
        ensures
            final(self)@ == widget_step(old(self)@, e@).0,
            r.deep_view() == widget_step(old(self)@, e@).1,
            wv_wf(final(self)@),
    {
        let r = match self {
            Widget::Button(b) => match e {
                InputEvent::MouseButton { button, state, pos } => b.on_mouse_button(
                    *button,
                    *state,
                    *pos,
                ),
                InputEvent::MouseMove { pos } => b.on_mouse_move(*pos),
                InputEvent::Key { input, clipboard } => b.on_keyboard_key(*input),
                _ => Vec::new(),
            },
            Widget::TextField(t) => match e {
                InputEvent::MouseButton { button, state, pos } => t.on_mouse_button(
                    *button,
                    *state,
                    *pos,
                ),
                InputEvent::Key { input, clipboard } => t.on_keyboard_key(
                    *input,
                    clipboard.as_ref(),
                ),
                InputEvent::Char { ch } => t.on_keyboard_char(*ch),
                _ => Vec::new(),
            },
            Widget::ScrollBar(s) => match e {
                InputEvent::MouseButton { button, state, pos } => s.on_mouse_button(
                    *button,
                    *state,
                    *pos,
                ),
                InputEvent::MouseMove { pos } => s.on_mouse_move(*pos),
                _ => Vec::new(),
            },
        };
        proof {
            if r@.len() == 0 {
                assert(r.deep_view() =~= Seq::<EventV>::empty());
            }
        }
        r
    }
}

} // verus!
