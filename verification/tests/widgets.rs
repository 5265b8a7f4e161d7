use guikit::geometry::{Bounds, Color};
use guikit::input::{ButtonState, CursorKind, KeyCode, KeyInput, MouseButtonKind, WidgetEvent};
use guikit::numeric::{NumericKind, TextFilter};
use guikit::ui::Widgets;
use guikit::widget::{Background, Button, ScrollBar, TextField, Widget};

const GREY: Color = Color { r: 128, g: 128, b: 128, a: 255 };

fn button(id: &str, bounds: Bounds) -> Widget {
    Widget::Button(Button::new(
        id.to_string(),
        format!("label of {}", id),
        bounds,
        Background::Color(GREY),
        None,
        None,
    ))
}

fn text_field(id: &str, bounds: Bounds, filter: Option<TextFilter>) -> Widget {
    Widget::TextField(TextField::new(
        id.to_string(),
        "type here".to_string(),
        String::new(),
        bounds,
        Background::Color(GREY),
        filter,
    ))
}

fn scroll_bar(id: &str, value: i32, max: i32, steps: u32, bounds: Bounds) -> Widget {
    Widget::ScrollBar(ScrollBar::new(id.to_string(), value, max, steps, bounds, GREY))
}

fn focused_count(widgets: &Widgets) -> usize {
    let mut count: usize = 0;
    for i in 0..widgets.len() {
        if widgets.get(i).unwrap().is_focused() {
            count += 1;
        }
    }
    count
}

fn key(code: KeyCode, state: ButtonState, ctrl: bool) -> KeyInput {
    KeyInput { key: code, state, ctrl }
}

#[test]
fn button_click_emits_focus_then_click() {
    let mut ws = Widgets::new();
    ws.add(button("ok", Bounds { x: 0, y: 0, w: 20, h: 10 }));

    let moved = ws.on_mouse_move((5, 5));
    assert_eq!(moved, vec![]);

    let down = ws.on_mouse_button(MouseButtonKind::Left, ButtonState::Pressed, (5, 5));
    assert_eq!(
        down,
        vec![WidgetEvent::FocusChanged { id: "ok".to_string(), focus: true }]
    );

    let up = ws.on_mouse_button(MouseButtonKind::Left, ButtonState::Released, (5, 5));
    assert_eq!(up, vec![WidgetEvent::ButtonClicked { id: "ok".to_string() }]);
}

#[test]
fn releasing_outside_the_button_does_not_click() {
    let mut ws = Widgets::new();
    ws.add(button("ok", Bounds { x: 0, y: 0, w: 20, h: 10 }));

    ws.on_mouse_move((5, 5));
    ws.on_mouse_button(MouseButtonKind::Left, ButtonState::Pressed, (5, 5));
    // drag off the button before releasing
    ws.on_mouse_move((100, 100));
    let up = ws.on_mouse_button(MouseButtonKind::Left, ButtonState::Released, (100, 100));
    assert!(up.iter().all(|e| !matches!(e, WidgetEvent::ButtonClicked { .. })));
}

#[test]
fn right_clicks_are_ignored_by_buttons() {
    let mut ws = Widgets::new();
    ws.add(button("ok", Bounds { x: 0, y: 0, w: 20, h: 10 }));
    ws.on_mouse_move((5, 5));
    let down = ws.on_mouse_button(MouseButtonKind::Right, ButtonState::Pressed, (5, 5));
    assert_eq!(down, vec![]);
}

#[test]
fn return_key_clicks_a_focused_button() {
    let mut ws = Widgets::new();
    ws.add(button("ok", Bounds { x: 0, y: 0, w: 20, h: 10 }));
    ws.on_mouse_move((5, 5));
    ws.on_mouse_button(MouseButtonKind::Left, ButtonState::Pressed, (5, 5));

    let down = ws.on_keyboard_key(key(KeyCode::Return, ButtonState::Pressed, false), None);
    assert_eq!(down, vec![]);
    let up = ws.on_keyboard_key(key(KeyCode::Return, ButtonState::Released, false), None);
    assert_eq!(up, vec![WidgetEvent::ButtonClicked { id: "ok".to_string() }]);
}

#[test]
fn scroll_bar_click_reports_value_then_focus() {
    let mut ws = Widgets::new();
    ws.add(scroll_bar("vol", 0, 100, 4, Bounds { x: 0, y: 0, w: 200, h: 20 }));

    // click at the midpoint of the bar
    let events = ws.on_mouse_button(MouseButtonKind::Left, ButtonState::Pressed, (100, 10));
    assert_eq!(
        events,
        vec![
            WidgetEvent::ScrollValueChanged {
                id: "vol".to_string(),
                value: 50,
                max: 100,
                steps: 4,
            },
            WidgetEvent::FocusChanged { id: "vol".to_string(), focus: true },
        ]
    );
}

#[test]
fn scroll_bar_drag_tracks_the_mouse() {
    let mut ws = Widgets::new();
    ws.add(scroll_bar("vol", 0, 100, 4, Bounds { x: 0, y: 0, w: 200, h: 20 }));
    ws.on_mouse_button(MouseButtonKind::Left, ButtonState::Pressed, (100, 10));

    let moved = ws.on_mouse_move((150, 10));
    assert_eq!(
        moved,
        vec![WidgetEvent::ScrollValueChanged {
            id: "vol".to_string(),
            value: 75,
            max: 100,
            steps: 4,
        }]
    );
    // past the end of the bar the value clamps to the maximum
    let past = ws.on_mouse_move((400, 10));
    assert_eq!(
        past,
        vec![WidgetEvent::ScrollValueChanged {
            id: "vol".to_string(),
            value: 100,
            max: 100,
            steps: 4,
        }]
    );
    // no movement of the value, no event
    let same = ws.on_mouse_move((500, 10));
    assert_eq!(same, vec![]);
}

#[test]
fn scroll_bar_setters_clamp() {
    let mut bar = ScrollBar::new(
        "vol".to_string(),
        0,
        100,
        4,
        Bounds { x: 0, y: 0, w: 200, h: 20 },
        GREY,
    );
    bar.set_value(250);
    assert_eq!(bar.get_value(), 100);
    bar.set_value(-3);
    assert_eq!(bar.get_value(), 0);
    bar.set_value(42);
    assert_eq!(bar.get_value(), 42);
    bar.set_ratio_value(1, 4);
    assert_eq!(bar.get_value(), 25);
    bar.set_ratio_value(9, 4);
    assert_eq!(bar.get_value(), 100);
}

#[test]
fn numeric_field_rejects_letters_and_accepts_digits() {
    let mut ws = Widgets::new();
    ws.add(text_field(
        "amount",
        Bounds { x: 0, y: 0, w: 100, h: 20 },
        Some(TextFilter::numeric(NumericKind::U32)),
    ));
    // focus the field
    ws.on_mouse_button(MouseButtonKind::Left, ButtonState::Pressed, (10, 10));

    let rejected = ws.on_keyboard_char('a');
    assert_eq!(rejected, vec![]);

    let accepted = ws.on_keyboard_char('5');
    assert_eq!(
        accepted,
        vec![WidgetEvent::TextValueChanged { id: "amount".to_string(), value: "5".to_string() }]
    );
}

#[test]
fn unfocused_fields_ignore_typing() {
    let mut ws = Widgets::new();
    ws.add(text_field("name", Bounds { x: 0, y: 0, w: 100, h: 20 }, None));
    assert_eq!(ws.on_keyboard_char('h'), vec![]);
}

#[test]
fn text_editing_keys() {
    let mut ws = Widgets::new();
    ws.add(text_field("name", Bounds { x: 0, y: 0, w: 100, h: 20 }, None));
    ws.on_mouse_button(MouseButtonKind::Left, ButtonState::Pressed, (10, 10));
    ws.on_keyboard_char('h');
    ws.on_keyboard_char('i');

    let back = ws.on_keyboard_key(key(KeyCode::Back, ButtonState::Pressed, false), None);
    assert_eq!(
        back,
        vec![WidgetEvent::TextValueChanged { id: "name".to_string(), value: "h".to_string() }]
    );

    // delete clears without an event
    let cleared = ws.on_keyboard_key(key(KeyCode::Delete, ButtonState::Pressed, false), None);
    assert_eq!(cleared, vec![]);
    // backspace on the now-empty value does nothing
    let empty = ws.on_keyboard_key(key(KeyCode::Back, ButtonState::Pressed, false), None);
    assert_eq!(empty, vec![]);
}

#[test]
fn control_v_pastes_the_clipboard_text() {
    let mut ws = Widgets::new();
    ws.add(text_field("name", Bounds { x: 0, y: 0, w: 100, h: 20 }, None));
    ws.on_mouse_button(MouseButtonKind::Left, ButtonState::Pressed, (10, 10));

    let pasted = ws.on_keyboard_key(
        key(KeyCode::V, ButtonState::Pressed, true),
        Some("abc".to_string()),
    );
    assert_eq!(
        pasted,
        vec![WidgetEvent::TextValueChanged { id: "name".to_string(), value: "abc".to_string() }]
    );
    // without control held, 'v' is no paste
    let plain = ws.on_keyboard_key(key(KeyCode::V, ButtonState::Pressed, false), None);
    assert_eq!(plain, vec![]);
}

#[test]
fn escape_drops_focus() {
    let mut ws = Widgets::new();
    ws.add(text_field("name", Bounds { x: 0, y: 0, w: 100, h: 20 }, None));
    ws.on_mouse_button(MouseButtonKind::Left, ButtonState::Pressed, (10, 10));
    assert_eq!(focused_count(&ws), 1);
    ws.on_keyboard_key(key(KeyCode::Escape, ButtonState::Pressed, false), None);
    assert_eq!(focused_count(&ws), 0);
}

#[test]
fn placeholder_shows_while_the_value_is_empty() {
    let field = TextField::new(
        "name".to_string(),
        "type here".to_string(),
        String::new(),
        Bounds { x: 0, y: 0, w: 100, h: 20 },
        Background::Color(GREY),
        None,
    );
    assert_eq!(field.get_display_text(), "type here".to_string());
    let filled = TextField::new(
        "name".to_string(),
        "type here".to_string(),
        "hello".to_string(),
        Bounds { x: 0, y: 0, w: 100, h: 20 },
        Background::Color(GREY),
        None,
    );
    assert_eq!(filled.get_display_text(), "hello".to_string());
}

#[test]
fn at_most_one_widget_holds_focus() {
    let mut ws = Widgets::new();
    ws.add(text_field("a", Bounds { x: 0, y: 0, w: 20, h: 20 }, None));
    ws.add(text_field("b", Bounds { x: 30, y: 0, w: 20, h: 20 }, None));
    ws.add(button("c", Bounds { x: 60, y: 0, w: 20, h: 20 }));

    ws.on_mouse_button(MouseButtonKind::Left, ButtonState::Pressed, (10, 10));
    assert_eq!(focused_count(&ws), 1);

    ws.on_mouse_button(MouseButtonKind::Left, ButtonState::Pressed, (40, 10));
    assert_eq!(focused_count(&ws), 1);
    assert!(ws.get(1).unwrap().is_focused());
    assert!(!ws.get(0).unwrap().is_focused());

    ws.on_mouse_move((70, 10));
    ws.on_mouse_button(MouseButtonKind::Left, ButtonState::Pressed, (70, 10));
    assert_eq!(focused_count(&ws), 1);
    assert!(ws.get(2).unwrap().is_focused());

    ws.tab_focus(true);
    assert_eq!(focused_count(&ws), 1);
}

#[test]
fn focus_moves_to_the_widget_clicked_last() {
    // two overlapping fields both request focus; the later one wins
    let mut ws = Widgets::new();
    ws.add(text_field("under", Bounds { x: 0, y: 0, w: 20, h: 20 }, None));
    ws.add(text_field("over", Bounds { x: 0, y: 0, w: 20, h: 20 }, None));
    let events = ws.on_mouse_button(MouseButtonKind::Left, ButtonState::Pressed, (10, 10));
    assert!(!ws.get(0).unwrap().is_focused());
    assert!(ws.get(1).unwrap().is_focused());
    assert_eq!(
        events,
        vec![WidgetEvent::FocusChanged { id: "over".to_string(), focus: true }]
    );
}

#[test]
fn tab_focus_cycles_back_after_a_full_round() {
    let mut ws = Widgets::new();
    ws.add(button("a", Bounds { x: 0, y: 0, w: 10, h: 10 }));
    ws.add(button("b", Bounds { x: 20, y: 0, w: 10, h: 10 }));
    ws.add(button("c", Bounds { x: 40, y: 0, w: 10, h: 10 }));
    assert_eq!(ws.focus, 0);

    ws.tab_focus(true);
    assert_eq!(ws.focus, 1);
    ws.tab_focus(true);
    assert_eq!(ws.focus, 2);
    ws.tab_focus(true);
    assert_eq!(ws.focus, 0);
    assert!(ws.get(0).unwrap().is_focused());
    assert_eq!(focused_count(&ws), 1);
}

#[test]
fn tab_focus_backwards_wraps_around() {
    let mut ws = Widgets::new();
    ws.add(button("a", Bounds { x: 0, y: 0, w: 10, h: 10 }));
    ws.add(button("b", Bounds { x: 20, y: 0, w: 10, h: 10 }));
    ws.tab_focus(false);
    assert_eq!(ws.focus, 1);
    assert!(ws.get(1).unwrap().is_focused());
}

#[test]
fn tab_focus_on_an_empty_collection_is_a_no_op() {
    let mut ws = Widgets::new();
    let events = ws.tab_focus(true);
    assert_eq!(events, vec![]);
    assert_eq!(ws.len(), 0);
}

#[test]
fn tab_focus_with_a_single_widget_stays_put() {
    let mut ws = Widgets::new();
    ws.add(button("only", Bounds { x: 0, y: 0, w: 10, h: 10 }));
    let events = ws.tab_focus(true);
    assert_eq!(events, vec![]);
    assert_eq!(ws.focus, 0);
}

#[test]
fn tab_focus_emits_focus_changes_for_both_sides() {
    let mut ws = Widgets::new();
    ws.add(button("a", Bounds { x: 0, y: 0, w: 10, h: 10 }));
    ws.add(button("b", Bounds { x: 20, y: 0, w: 10, h: 10 }));
    ws.tab_focus(true);
    let second = ws.tab_focus(true);
    assert_eq!(
        second,
        vec![
            WidgetEvent::FocusChanged { id: "a".to_string(), focus: true },
            WidgetEvent::FocusChanged { id: "b".to_string(), focus: false },
        ]
    );
}

#[test]
fn cursor_prefers_the_topmost_widget() {
    let mut ws = Widgets::new();
    ws.add(button("under", Bounds { x: 0, y: 0, w: 20, h: 20 }));
    ws.add(text_field("over", Bounds { x: 10, y: 10, w: 20, h: 20 }, None));

    assert_eq!(ws.get_cursor((15, 15)), CursorKind::Text);
    assert_eq!(ws.get_cursor((5, 5)), CursorKind::Hand);
    assert_eq!(ws.get_cursor((100, 100)), CursorKind::Default);
}

#[test]
fn widgets_are_found_by_identifier() {
    let mut ws = Widgets::new();
    ws.add(button("a", Bounds { x: 0, y: 0, w: 10, h: 10 }));
    ws.add(scroll_bar("vol", 3, 10, 1, Bounds { x: 0, y: 20, w: 50, h: 10 }));

    let found = ws.find(&"vol".to_string()).expect("the bar is present");
    assert_eq!(found.get_id().as_str(), "vol");
    match found {
        Widget::ScrollBar(bar) => assert_eq!(bar.get_value(), 3),
        _ => panic!("found the wrong widget"),
    }
    assert!(ws.find(&"missing".to_string()).is_none());

    match ws.find_mut(&"vol".to_string()).expect("the bar is present") {
        Widget::ScrollBar(bar) => {
            bar.set_value(7);
        },
        _ => panic!("found the wrong widget"),
    }
    match ws.get(1).unwrap() {
        Widget::ScrollBar(bar) => assert_eq!(bar.get_value(), 7),
        _ => panic!("index 1 holds the bar"),
    }
}

#[test]
fn get_by_index() {
    let mut ws = Widgets::new();
    ws.add(button("a", Bounds { x: 0, y: 0, w: 10, h: 10 }));
    assert!(ws.get(0).is_some());
    assert!(ws.get(1).is_none());
    assert!(ws.get_mut(0).is_some());
    assert!(ws.get_mut(5).is_none());
    assert_eq!(ws.len(), 1);
}

#[test]
fn widget_accessors_expose_bounds_and_hit_test() {
    let w = button("a", Bounds { x: 5, y: 6, w: 10, h: 12 });
    assert_eq!(w.get_bounds(), Bounds { x: 5, y: 6, w: 10, h: 12 });
    assert!(w.is_mouse_over((5, 6)));
    assert!(w.is_mouse_over((15, 18)));
    assert!(!w.is_mouse_over((16, 18)));
    assert_eq!(w.get_cursor((6, 7)), Some(CursorKind::Hand));
    assert_eq!(w.get_cursor((60, 70)), None);
}

#[test]
fn scroll_handle_geometry() {
    let bar = ScrollBar::new(
        "vol".to_string(),
        50,
        100,
        4,
        Bounds { x: 0, y: 0, w: 200, h: 20 },
        GREY,
    );
    // five slots of forty pixels; value 50 of 100 centres the handle at 100
    assert_eq!(bar.handle_bounds(), (80, 40));

    let mut at_start = bar;
    at_start.set_value(0);
    assert_eq!(at_start.handle_bounds(), (0, 40));
    at_start.set_value(100);
    assert_eq!(at_start.handle_bounds(), (160, 40));
}
