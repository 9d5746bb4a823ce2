use gpu_ui::drag_drop_manager::{DragAction, DragDropManager, MoveDecision};
use gpu_ui::interactive_state::{InteractiveInput, InteractiveOutcome, InteractiveState, VisualState};
use gpu_ui::ui_manager::{
    next_focus_target, position_of, previous_focus_target, route_pointer_down, route_pointer_up,
    FocusAction, FocusManager, KeyRoute, UiAction,
};
use gpu_ui::widget_tree::{collect_focusable, find_drop_target, find_widget, find_widgets, hit_test, WidgetNode};

type Pt = (i32, i32);

#[test]
fn drag_starts_past_threshold_and_drops_on_target() {
    let mut m: DragDropManager<&str, Pt> = DragDropManager::new();
    assert!(!m.is_drag_active());
    m.on_pointer_down((1, 1), Some(7), true);
    assert_eq!(m.drag_start_point(), Some((1, 1)));
    assert_eq!(m.pointer_move_decision(false), MoveDecision::Ignore);
    let d = m.pointer_move_decision(true);
    assert_eq!(d, MoveDecision::StartDrag { source: 7, start: (1, 1) });
    assert_eq!(m.start_drag(7, (1, 1), Some("text")), Some(DragAction::Start { source: 7, point: (1, 1) }));
    assert!(m.is_drag_active());
    assert_eq!(m.drag_data(), Some(&"text"));
    assert_eq!(m.pointer_move_decision(false), MoveDecision::ContinueDrag);

    let a = m.handle_drag_move((5, 5), Some(9), true);
    assert_eq!(a, vec![DragAction::Enter { target: 9, point: (5, 5) }, DragAction::Move { source: 7, point: (5, 5) }]);
    assert_eq!(m.current_drop_target(), Some(9));

    let a = m.handle_drag_move((6, 6), Some(9), true);
    assert_eq!(a, vec![DragAction::Move { source: 7, point: (6, 6) }]);

    let (handled, a) = m.on_pointer_up((6, 6), true);
    assert!(handled);
    assert_eq!(a, vec![
        DragAction::Drop { target: 9, point: (6, 6) },
        DragAction::End { source: 7, point: (6, 6), cancelled: false },
    ]);
    assert!(!m.is_drag_active());
    assert_eq!(m.current_drop_target(), None);
    assert_eq!(m.drag_source(), None);
}

#[test]
fn drag_leaves_old_target_and_skips_refusing_one() {
    let mut m: DragDropManager<u8, Pt> = DragDropManager::new();
    m.start_drag(1, (0, 0), Some(3));
    m.handle_drag_move((1, 0), Some(2), true);
    let a = m.handle_drag_move((2, 0), Some(4), false);
    assert_eq!(a, vec![DragAction::Leave { target: 2 }, DragAction::Move { source: 1, point: (2, 0) }]);
    assert_eq!(m.current_drop_target(), None);
    let a = m.end_drag((2, 0), true, true);
    assert_eq!(a, vec![DragAction::End { source: 1, point: (2, 0), cancelled: true }]);
}

#[test]
fn source_without_data_starts_no_drag() {
    let mut m: DragDropManager<u8, Pt> = DragDropManager::new();
    m.on_pointer_down((0, 0), Some(3), true);
    assert_eq!(m.start_drag(3, (0, 0), None), None);
    assert!(!m.is_drag_active());
    let (handled, a) = m.on_pointer_up((0, 0), false);
    assert!(!handled);
    assert!(a.is_empty());
    assert_eq!(m.drag_start_point(), None);
    assert_eq!(m.pointer_move_decision(true), MoveDecision::Ignore);
}

#[test]
fn press_on_undraggable_widget_is_not_remembered() {
    let mut m: DragDropManager<u8, Pt> = DragDropManager::new();
    m.on_pointer_down((0, 0), Some(3), false);
    assert_eq!(m.drag_start_point(), None);
    m.on_pointer_down((0, 0), None, true);
    assert_eq!(m.drag_start_point(), None);
}

#[test]
fn tab_order_wraps_both_ways() {
    let all = vec![10, 20, 30];
    assert_eq!(next_focus_target(&all, None), Some(10));
    assert_eq!(next_focus_target(&all, Some(10)), Some(20));
    assert_eq!(next_focus_target(&all, Some(30)), Some(10));
    assert_eq!(next_focus_target(&all, Some(99)), Some(10));
    assert_eq!(previous_focus_target(&all, Some(10)), Some(30));
    assert_eq!(previous_focus_target(&all, Some(30)), Some(20));
    assert_eq!(previous_focus_target(&all, None), Some(10));
    assert_eq!(next_focus_target(&vec![], Some(1)), None);
    assert_eq!(previous_focus_target(&vec![], None), None);
    assert_eq!(position_of(&vec![5, 6, 5], 5), Some(0));
    assert_eq!(position_of(&vec![5, 6, 5], 7), None);
}

#[test]
fn focus_moves_and_clears() {
    let mut f = FocusManager::new();
    assert_eq!(f.focused(), None);
    let (ok, a) = f.set_focus_to_widget(4, true);
    assert!(ok);
    assert_eq!(a, vec![FocusAction::Focus(4)]);
    let (ok, a) = f.set_focus_to_widget(4, true);
    assert!(!ok);
    assert!(a.is_empty());
    let (ok, a) = f.set_focus_to_widget(5, false);
    assert!(!ok);
    assert_eq!(a, vec![FocusAction::Unfocus(4)]);
    assert_eq!(f.focused(), None);
    f.set_focus_to_widget(6, true);
    assert_eq!(f.clear_focus(), vec![FocusAction::Unfocus(6)]);
    assert!(f.clear_focus().is_empty());
}

#[test]
fn tab_keys_navigate_focus() {
    let mut f = FocusManager::new();
    assert_eq!(f.key_down_route(false, false), KeyRoute::Unhandled);
    assert_eq!(f.key_down_route(true, false), KeyRoute::FocusNext);
    assert_eq!(f.key_down_route(true, true), KeyRoute::FocusPrevious);
    let all = vec![1, 2];
    assert_eq!(f.focus_next(&all), vec![FocusAction::Focus(1)]);
    assert_eq!(f.focus_next(&all), vec![FocusAction::Unfocus(1), FocusAction::Focus(2)]);
    assert_eq!(f.focus_previous(&all), vec![FocusAction::Unfocus(2), FocusAction::Focus(1)]);
    assert_eq!(f.key_down_route(false, true), KeyRoute::ToWidget(1));
    assert!(f.focus_next(&vec![]).is_empty());
    assert_eq!(f.focused(), Some(1));
}

#[test]
fn pointer_routing_focuses_or_clicks() {
    let mut d: DragDropManager<u8, Pt> = DragDropManager::new();
    let mut f = FocusManager::new();
    let a = route_pointer_down(&mut d, &mut f, (3, 3), Some(8), false);
    assert_eq!(a, vec![UiAction::Focus(FocusAction::Focus(8))]);
    let (handled, a) = route_pointer_up(&mut d, (3, 3), Some(8), false);
    assert!(handled);
    assert_eq!(a, vec![UiAction::Click { widget: 8, point: (3, 3) }]);
    let a = route_pointer_down(&mut d, &mut f, (0, 0), None, false);
    assert_eq!(a, vec![UiAction::Focus(FocusAction::Unfocus(8))]);
    let (handled, a) = route_pointer_up(&mut d, (0, 0), None, false);
    assert!(!handled);
    assert!(a.is_empty());
}

#[test]
fn pointer_routing_during_drag() {
    let mut d: DragDropManager<u8, Pt> = DragDropManager::new();
    let mut f = FocusManager::new();
    d.start_drag(2, (0, 0), Some(1));
    let a = route_pointer_down(&mut d, &mut f, (4, 4), Some(5), false);
    assert_eq!(a, vec![UiAction::PointerDown { widget: 5, point: (4, 4) }]);
    assert_eq!(f.focused(), None);
    let (handled, a) = route_pointer_up(&mut d, (4, 4), Some(5), false);
    assert!(handled);
    assert_eq!(a, vec![UiAction::Drag(DragAction::End { source: 2, point: (4, 4), cancelled: false })]);
}

#[test]
fn press_then_release_inside_clicks() {
    let mut s = InteractiveState::new();
    assert_eq!(s.visual_state(), VisualState::Normal);
    s.handle_event(InteractiveInput::PointerMove { inside: true });
    assert!(s.hovered);
    assert_eq!(s.visual_state(), VisualState::Hovered);
    assert_eq!(s.handle_event(InteractiveInput::PointerDown { inside: true }), InteractiveOutcome { handled: true, clicked: false });
    assert_eq!(s.visual_state(), VisualState::Pressed);
    assert_eq!(s.handle_event(InteractiveInput::PointerUp), InteractiveOutcome { handled: true, clicked: true });
    assert!(!s.pressed);
}

#[test]
fn release_without_press_does_not_click() {
    let mut s = InteractiveState::new();
    assert_eq!(s.handle_event(InteractiveInput::PointerUp), InteractiveOutcome { handled: false, clicked: false });
    assert_eq!(s.handle_event(InteractiveInput::PointerDown { inside: false }), InteractiveOutcome { handled: false, clicked: false });
    assert!(!s.pressed);
    assert_eq!(s.handle_event(InteractiveInput::PointerUp), InteractiveOutcome { handled: false, clicked: false });
}

#[test]
fn release_outside_after_press_clicks() {
    let mut s = InteractiveState::new();
    s.handle_event(InteractiveInput::PointerDown { inside: true });
    s.handle_event(InteractiveInput::PointerMove { inside: false });
    assert_eq!(s.handle_event(InteractiveInput::PointerUp), InteractiveOutcome { handled: true, clicked: true });
    assert!(!s.pressed);
}

#[test]
fn keys_click_only_focused_widgets() {
    let mut s = InteractiveState::new();
    assert!(!s.handle_event(InteractiveInput::KeyDown { activates: true }).clicked);
    s.set_focused(true);
    assert_eq!(s.visual_state(), VisualState::Hovered);
    assert!(s.handle_event(InteractiveInput::KeyDown { activates: true }).clicked);
    assert!(!s.handle_event(InteractiveInput::KeyDown { activates: false }).handled);
    assert!(s.handle_event(InteractiveInput::CharInput(' ')).clicked);
    assert!(s.handle_event(InteractiveInput::CharInput('\n')).clicked);
    assert!(!s.handle_event(InteractiveInput::CharInput('x')).clicked);
    assert!(!s.handle_event(InteractiveInput::KeyUp).handled);
}

#[test]
fn dragging_looks_pressed_and_reset_keeps_focus() {
    let mut s = InteractiveState::new();
    s.set_focused(true);
    assert!(s.handle_event(InteractiveInput::DragStart).handled);
    assert!(s.dragging);
    assert_eq!(s.modify_color("normal", "pressed", "hovered"), "pressed");
    assert_eq!(s.modify_alpha(1, 2, 3), 2);
    s.reset();
    assert!(!s.dragging && !s.pressed && !s.hovered && s.focused);
    assert_eq!(s.modify_color("normal", "pressed", "hovered"), "hovered");
    s.set_focused(false);
    assert_eq!(s.modify_color("normal", "pressed", "hovered"), "normal");
    assert!(s.handle_event(InteractiveInput::DragEnd).handled);
    assert!(!s.handle_event(InteractiveInput::Other).handled);
}

fn node(id: Option<u64>, hit: bool, focusable: bool, accepts_drop: bool, children: Vec<WidgetNode>) -> WidgetNode {
    WidgetNode { id, hit, focusable, accepts_drop, children }
}

fn sample_tree() -> WidgetNode {
    node(Some(1), true, false, false, vec![
        node(Some(2), true, true, true, vec![]),
        node(Some(3), true, true, false, vec![node(Some(4), false, true, true, vec![])]),
        node(None, false, false, false, vec![node(Some(5), true, true, false, vec![])]),
    ])
}

#[test]
fn hit_test_prefers_topmost_deepest_widget() {
    let t = sample_tree();
    assert_eq!(hit_test(&t), Some(3));
    assert_eq!(find_drop_target(&t), Some(2));
    let missed = node(Some(1), false, false, false, vec![node(Some(2), true, false, false, vec![])]);
    assert_eq!(hit_test(&missed), None);
    let anonymous = node(Some(1), true, false, false, vec![node(None, true, false, false, vec![])]);
    assert_eq!(hit_test(&anonymous), Some(1));
}

#[test]
fn focusable_widgets_in_tree_order() {
    let t = sample_tree();
    let mut out = vec![99];
    collect_focusable(&t, &mut out);
    assert_eq!(out, vec![99, 2, 3, 4, 5]);
}

#[test]
fn widget_paths_lead_to_first_match() {
    let t = sample_tree();
    assert_eq!(find_widget(&t, 1), Some(vec![]));
    assert_eq!(find_widget(&t, 4), Some(vec![1, 0]));
    assert_eq!(find_widget(&t, 5), Some(vec![2, 0]));
    assert_eq!(find_widget(&t, 6), None);
}

#[test]
fn repeated_tab_visits_every_focusable_widget() {
    let all = vec![7, 3, 9, 4];
    let mut focused = Some(9);
    let mut seen = Vec::new();
    for _ in 0..all.len() {
        focused = next_focus_target(&all, focused);
        seen.push(focused.unwrap());
    }
    assert_eq!(seen, vec![4, 7, 3, 9]);
    for _ in 0..all.len() {
        focused = previous_focus_target(&all, focused);
    }
    assert_eq!(focused, Some(9));
}

#[test]
fn all_outermost_matches_in_tree_order() {
    let t = node(None, false, false, false, vec![
        node(Some(7), false, false, false, vec![node(Some(7), false, false, false, vec![])]),
        node(Some(8), false, false, false, vec![node(Some(7), false, false, false, vec![])]),
        node(Some(7), false, false, false, vec![]),
    ]);
    assert_eq!(find_widgets(&t, 7), vec![vec![0], vec![1, 0], vec![2]]);
    assert_eq!(find_widget(&t, 7), Some(vec![0]));
    assert_eq!(find_widgets(&t, 9), Vec::<Vec<usize>>::new());
    assert_eq!(find_widgets(&sample_tree(), 1), vec![Vec::<usize>::new()]);
}
