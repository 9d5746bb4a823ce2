//! The interactive state of a widget: hover, press, keyboard focus and
//! dragging, and how pointer, key and drag events change it.
use vstd::prelude::*;

verus! {

/// An event as the interactive state sees it. Where the event has a point,
/// `inside` tells whether the point lies in the widget's rectangle.
#[derive(Debug, Clone, Copy, PartialEq, Eq, Structural)]
pub enum InteractiveInput {
    PointerMove { inside: bool },
    PointerDown { inside: bool },
    /// A pointer release, wherever it lands.
    PointerUp,
    /// A key press; `activates` tells whether the key is Enter or Space.
    KeyDown { activates: bool },
    KeyUp,
    CharInput(char),
    DragStart,
    DragEnd,
    /// Any other event.
    Other,
}

/// What an event did: whether it was consumed, and whether the widget's
/// click action is to run.
#[derive(Debug, Clone, Copy, PartialEq, Eq, Structural)]
pub struct InteractiveOutcome {
    pub handled: bool,
    pub clicked: bool,
}

/// Which of three looks a widget takes.
#[derive(Debug, Clone, Copy, PartialEq, Eq, Structural)]
pub enum VisualState {
    Normal,
    Pressed,
    Hovered,
}

/// The interactive state of a widget.
#[derive(Debug, Clone, Copy, PartialEq, Eq, Structural)]
pub struct InteractiveState {
    /// The pointer is over the widget.
    pub hovered: bool,
    /// The pointer was pressed on the widget and not yet released.
    pub pressed: bool,
    /// The widget has keyboard focus.
    pub focused: bool,
    /// The widget is being dragged.
    pub dragging: bool,
}

/// The state after an event, and what the event did.
pub open spec fn spec_handle(s: InteractiveState, input: InteractiveInput) -> (
    InteractiveState,
    InteractiveOutcome,
) {
    match input {
        InteractiveInput::PointerMove { inside } => (
            InteractiveState { hovered: inside, ..s },
            InteractiveOutcome { handled: false, clicked: false },
        ),
        InteractiveInput::PointerDown { inside } => if inside {
            (InteractiveState { pressed: true, ..s }, InteractiveOutcome { handled: true, clicked: false })
        } else {
            (s, InteractiveOutcome { handled: false, clicked: false })
        },
        InteractiveInput::PointerUp => {
            let click = s.pressed;
            (
                InteractiveState { pressed: false, ..s },
                InteractiveOutcome { handled: click, clicked: click },
            )
        },
        InteractiveInput::KeyDown { activates } => {
            let click = s.focused && activates;
            (s, InteractiveOutcome { handled: click, clicked: click })
        },
        InteractiveInput::KeyUp => (s, InteractiveOutcome { handled: false, clicked: false }),
        InteractiveInput::CharInput(ch) => {
            let click = s.focused && (ch == ' ' || ch == '\n');
            (s, InteractiveOutcome { handled: click, clicked: click })
        },
        InteractiveInput::DragStart => (
            InteractiveState { dragging: true, ..s },
            InteractiveOutcome { handled: true, clicked: false },
        ),
        InteractiveInput::DragEnd => (
            InteractiveState { dragging: false, ..s },
            InteractiveOutcome { handled: true, clicked: false },
        ),
        InteractiveInput::Other => (s, InteractiveOutcome { handled: false, clicked: false }),
    }
}

/// The look of a widget: pressed while dragged or pressed, hovered while
/// the pointer is over it or it has focus, normal otherwise.
pub open spec fn spec_visual(s: InteractiveState) -> VisualState {
    if s.dragging || s.pressed {
        VisualState::Pressed
    } else if s.hovered || s.focused {
        VisualState::Hovered
    } else {
        VisualState::Normal
    }
}

impl InteractiveState {
    /// Not hovered, not pressed, not focused, not dragged.
    pub fn new() -> (s: Self)
        ensures
            !s.hovered && !s.pressed && !s.focused && !s.dragging,
    {
        InteractiveState { hovered: false, pressed: false, focused: false, dragging: false }
    }

    /// Applies an event to the state. A move sets hover; a press inside
    /// presses the widget and is consumed; a release un-presses it and,
    /// whenever the press was on the widget, clicks it and is consumed;
    /// Enter or Space, and the characters space and newline, click a
    /// focused widget; drag start and end set dragging and are consumed.
    pub fn handle_event(&mut self, input: InteractiveInput) -> (r: InteractiveOutcome)
        ensures
            (*final(self), r) == spec_handle(*old(self), input),
    {
        match input {
            InteractiveInput::PointerMove { inside } => {
                if inside != self.hovered {
                    self.hovered = inside;
                }
                InteractiveOutcome { handled: false, clicked: false }
            },
            InteractiveInput::PointerDown { inside } => {
                if inside {
                    self.pressed = true;
                    InteractiveOutcome { handled: true, clicked: false }
                } else {
                    InteractiveOutcome { handled: false, clicked: false }
                }
            },
            InteractiveInput::PointerUp => {
                let was_pressed = self.pressed;
                self.pressed = false;
                if was_pressed {
                    InteractiveOutcome { handled: true, clicked: true }
                } else {
                    InteractiveOutcome { handled: false, clicked: false }
                }
            },
            InteractiveInput::KeyDown { activates } => {
                if self.focused && activates {
                    InteractiveOutcome { handled: true, clicked: true }
                } else {
                    InteractiveOutcome { handled: false, clicked: false }
                }
            },
            InteractiveInput::KeyUp => InteractiveOutcome { handled: false, clicked: false },
            InteractiveInput::CharInput(ch) => {
                if self.focused && (ch == ' ' || ch == '\n') {
                    InteractiveOutcome { handled: true, clicked: true }
                } else {
                    InteractiveOutcome { handled: false, clicked: false }
                }
            },
            InteractiveInput::DragStart => {
                self.dragging = true;
                InteractiveOutcome { handled: true, clicked: false }
            },
            InteractiveInput::DragEnd => {
                self.dragging = false;
                InteractiveOutcome { handled: true, clicked: false }
            },
            InteractiveInput::Other => InteractiveOutcome { handled: false, clicked: false },
        }
    }

    /// Clears hover, press and dragging (focus stays).
    pub fn reset(&mut self)
        ensures
            *final(self) == (InteractiveState {
                hovered: false,
                pressed: false,
                dragging: false,
                focused: old(self).focused,
            }),
    {
        self.hovered = false;
        self.pressed = false;
        self.dragging = false;
    }

    /// Sets keyboard focus.
    pub fn set_focused(&mut self, focused: bool)
        ensures
            *final(self) == (InteractiveState { focused, ..*old(self) }),
    {
        self.focused = focused;
    }

    /// The widget's look.
    pub fn visual_state(&self) -> (v: VisualState)
        ensures
            v == spec_visual(*self),
    {
        if self.dragging || self.pressed {
            VisualState::Pressed
        } else if self.hovered || self.focused {
            VisualState::Hovered
        } else {
            VisualState::Normal
        }
    }

    /// The colour for the widget's look, out of a normal, a pressed and a
    /// hovered colour.
    pub fn modify_color<T>(&self, normal: T, pressed: T, hovered: T) -> (c: T)
        ensures
            c == match spec_visual(*self) {
                VisualState::Pressed => pressed,
                VisualState::Hovered => hovered,
                VisualState::Normal => normal,
            },
    {
        match self.visual_state() {
            VisualState::Pressed => pressed,
            VisualState::Hovered => hovered,
            VisualState::Normal => normal,
        }
    }

    /// The opacity for the widget's look, out of a normal, a pressed and a
    /// hovered opacity.
    pub fn modify_alpha<T>(&self, normal_alpha: T, pressed_alpha: T, hovered_alpha: T) -> (a: T)
        ensures
            a == match spec_visual(*self) {
                VisualState::Pressed => pressed_alpha,
                VisualState::Hovered => hovered_alpha,
                VisualState::Normal => normal_alpha,
            },
    {
        self.modify_color(normal_alpha, pressed_alpha, hovered_alpha)
    }
}

/// A click happens only on a release after a press that the widget took,
/// wherever the release lands, or on an activating key or character while the widget
/// has focus; and after any release the widget is no longer pressed.
pub proof fn lemma_click_needs_press_or_focus(s: InteractiveState, input: InteractiveInput)
    ensures
        spec_handle(s, input).1.clicked ==> match input {
            InteractiveInput::PointerUp => s.pressed,
            InteractiveInput::KeyDown { activates } => s.focused && activates,
            InteractiveInput::CharInput(_) => s.focused,
            _ => false,
        },
        input is PointerUp ==> !spec_handle(s, input).0.pressed,
        spec_handle(s, input).1.clicked ==> spec_handle(s, input).1.handled,
{
}

/// Pointer and key events never change keyboard focus, and only drag start
/// and drag end change dragging.
pub proof fn lemma_events_keep_focus(s: InteractiveState, input: InteractiveInput)
    ensures
        spec_handle(s, input).0.focused == s.focused,
        !(input is DragStart || input is DragEnd) ==> spec_handle(s, input).0.dragging == s.dragging,
{
}

/// A press inside followed by a release clicks the widget, wherever the
/// release lands, and a release without a press does not.
pub proof fn lemma_press_release_clicks(s: InteractiveState)
    ensures
        ({
            let (s1, _) = spec_handle(s, InteractiveInput::PointerDown { inside: true });
            spec_handle(s1, InteractiveInput::PointerUp).1.clicked
        }),
        !s.pressed ==> !spec_handle(s, InteractiveInput::PointerUp).1.clicked,
{
}

/// Hover follows the pointer: after a move the widget is hovered exactly
/// when the move lands inside it, and no other event changes hover; a press
/// is taken only by a press inside and given up only by a release.
pub proof fn lemma_hover_follows_pointer(s: InteractiveState, input: InteractiveInput)
    ensures
        spec_handle(s, input).0.hovered == match input {
            InteractiveInput::PointerMove { inside } => inside,
            _ => s.hovered,
        },
        spec_handle(s, input).0.pressed == match input {
            InteractiveInput::PointerDown { inside } => s.pressed || inside,
            InteractiveInput::PointerUp => false,
            _ => s.pressed,
        },
        input is PointerMove ==> !spec_handle(s, input).1.handled && !spec_handle(s, input).1.clicked,
{
}

/// The pointer entering and then leaving a widget that is neither pressed,
/// dragged nor focused leaves it unhovered and normal-looking again.
pub proof fn lemma_enter_leave_restores_look(s: InteractiveState)
    requires
        !s.pressed,
        !s.dragging,
        !s.focused,
    ensures
        ({
            let s1 = spec_handle(s, InteractiveInput::PointerMove { inside: true }).0;
            let s2 = spec_handle(s1, InteractiveInput::PointerMove { inside: false }).0;
            &&& spec_visual(s1) == VisualState::Hovered
            &&& !s2.hovered
            &&& spec_visual(s2) == VisualState::Normal
        }),
{
}

/// The look of a widget: pressed whenever it is dragged or pressed;
/// otherwise hovered whenever the pointer is over it or it has keyboard
/// focus; otherwise normal.
pub proof fn lemma_visual_by_priority(s: InteractiveState)
    ensures
        (s.dragging || s.pressed) ==> spec_visual(s) == VisualState::Pressed,
        (!s.dragging && !s.pressed && (s.hovered || s.focused)) ==> spec_visual(s) == VisualState::Hovered,
        (!s.dragging && !s.pressed && !s.hovered && !s.focused) ==> spec_visual(s) == VisualState::Normal,
{
}

} // verus!
