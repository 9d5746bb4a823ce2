use gpu_ui::button::{ButtonInput, ButtonKind, ButtonLook, ButtonOutcome, ButtonState};

fn out(handled: bool, clicked: bool, dirty: bool) -> ButtonOutcome {
    ButtonOutcome { handled, clicked, dirty }
}

#[test]
fn text_button_consumes_pointer_events_and_clicks() {
    let mut s = ButtonState::new();
    assert_eq!(s.look(), ButtonLook::Normal);
    assert_eq!(s.step(ButtonKind::Text, ButtonInput::PointerMove { inside: true }), out(true, false, true));
    assert_eq!(s.look(), ButtonLook::Highlighted);
    assert_eq!(s.step(ButtonKind::Text, ButtonInput::PointerMove { inside: true }), out(true, false, false));
    assert_eq!(s.step(ButtonKind::Text, ButtonInput::PointerDown), out(true, false, true));
    assert_eq!(s.look(), ButtonLook::Pressed);
    assert_eq!(s.step(ButtonKind::Text, ButtonInput::PointerUp), out(true, false, true));
    assert_eq!(s.step(ButtonKind::Text, ButtonInput::Click { inside: false }), out(true, true, false));
    assert_eq!(s.step(ButtonKind::Text, ButtonInput::CharInput(' ')), out(true, true, false));
    assert_eq!(s.step(ButtonKind::Text, ButtonInput::CharInput('x')), out(false, false, false));
    assert_eq!(s.step(ButtonKind::Text, ButtonInput::KeyDown { activates: true }), out(true, true, false));
    assert_eq!(s.step(ButtonKind::Text, ButtonInput::Other), out(false, false, false));
}

#[test]
fn dragging_looks_dragged_and_clears_hover() {
    let mut s = ButtonState::new();
    s.step(ButtonKind::Icon, ButtonInput::PointerMove { inside: true });
    s.step(ButtonKind::Icon, ButtonInput::PointerDown);
    assert_eq!(s.step(ButtonKind::Icon, ButtonInput::DragStart), out(false, false, true));
    assert!(!s.hovered);
    assert_eq!(s.look(), ButtonLook::Dragging);
    s.step(ButtonKind::Icon, ButtonInput::DragEnd);
    assert_eq!(s.look(), ButtonLook::Pressed);
    s.step(ButtonKind::Icon, ButtonInput::DragEnter);
    assert!(s.hovered);
    s.step(ButtonKind::Icon, ButtonInput::DragLeave);
    assert!(!s.hovered);
}

#[test]
fn icon_button_leaves_pointer_events_to_content() {
    let mut s = ButtonState::new();
    assert_eq!(s.step(ButtonKind::Icon, ButtonInput::PointerDown), out(false, false, true));
    assert!(s.pressed);
    assert_eq!(s.step(ButtonKind::Icon, ButtonInput::Click { inside: false }), out(false, false, false));
    assert_eq!(s.step(ButtonKind::Icon, ButtonInput::Click { inside: true }), out(true, true, false));
    assert_eq!(s.step(ButtonKind::Icon, ButtonInput::CharInput(' ')), out(false, false, false));
    assert_eq!(s.step(ButtonKind::Icon, ButtonInput::Focus(true)), out(false, false, true));
    assert_eq!(s.step(ButtonKind::Icon, ButtonInput::Focus(true)), out(false, false, false));
}

#[test]
fn canvas_button_tracks_hover_only() {
    let mut s = ButtonState::new();
    assert_eq!(s.step(ButtonKind::Canvas, ButtonInput::PointerMove { inside: true }), out(true, false, true));
    assert_eq!(s.step(ButtonKind::Canvas, ButtonInput::PointerMove { inside: false }), out(false, false, true));
    assert_eq!(s.step(ButtonKind::Canvas, ButtonInput::PointerDown), out(false, false, false));
    assert!(!s.pressed);
    assert_eq!(s.step(ButtonKind::Canvas, ButtonInput::Focus(true)), out(false, false, true));
    assert!(!s.focused);
    assert_eq!(s.step(ButtonKind::Canvas, ButtonInput::DragStart), out(false, false, false));
    assert_eq!(s.step(ButtonKind::Canvas, ButtonInput::Click { inside: true }), out(true, true, false));
}
