//! The state of button widgets: how pointer, key, focus and drag events
//! change hover, press, focus and drag, when the button is clicked, and
//! which look it takes.
use vstd::prelude::*;

verus! {

/// Which kind of button: a text button consumes pointer events and clicks
/// on any click it is sent; an icon button leaves pointer events to its
/// content and clicks only on a click inside it; a canvas button tracks
/// hover only, says whether the pointer is over it, and clicks on a click
/// inside it.
#[derive(Debug, Clone, Copy, PartialEq, Eq, Structural)]
pub enum ButtonKind {
    Text,
    Icon,
    Canvas,
}

/// An event as a button sees it. Where the event has a point, `inside`
/// tells whether the point lies in the button.
#[derive(Debug, Clone, Copy, PartialEq, Eq, Structural)]
pub enum ButtonInput {
    Click { inside: bool },
    PointerDown,
    PointerUp,
    PointerMove { inside: bool },
    /// A key press; `activates` tells whether the key is Enter or Space.
    KeyDown { activates: bool },
    CharInput(char),
    /// Focus is given (`true`) or taken away.
    Focus(bool),
    DragStart,
    DragEnd,
    DragEnter,
    DragLeave,
    Other,
}

/// What an event did: whether the button consumed it, whether its click
/// action is to run, and whether its cached geometry must be rebuilt.
#[derive(Debug, Clone, Copy, PartialEq, Eq, Structural)]
pub struct ButtonOutcome {
    pub handled: bool,
    pub clicked: bool,
    pub dirty: bool,
}

/// The look of a button, by priority: dragged, pressed, highlighted
/// (hovered or focused), normal.
#[derive(Debug, Clone, Copy, PartialEq, Eq, Structural)]
pub enum ButtonLook {
    Dragging,
    Pressed,
    Highlighted,
    Normal,
}

/// The state of a button.
#[derive(Debug, Clone, Copy, PartialEq, Eq, Structural)]
pub struct ButtonState {
    pub hovered: bool,
    pub pressed: bool,
    pub focused: bool,
    pub dragging: bool,
}

/// An outcome.
pub open spec fn outcome(handled: bool, clicked: bool, dirty: bool) -> ButtonOutcome {
    ButtonOutcome { handled, clicked, dirty }
}

/// The state after an event, and what the event did, for a button of kind
/// `kind`.
pub open spec fn spec_button_step(kind: ButtonKind, s: ButtonState, input: ButtonInput) -> (
    ButtonState,
    ButtonOutcome,
) {
    match kind {
        ButtonKind::Canvas => match input {
            ButtonInput::PointerMove { inside } => (
                ButtonState { hovered: inside, ..s },
                outcome(inside, false, inside != s.hovered),
            ),
            ButtonInput::Click { inside } => (s, outcome(inside, inside, false)),
            ButtonInput::KeyDown { activates } => (s, outcome(activates, activates, false)),
            ButtonInput::Focus(_) => (s, outcome(false, false, true)),
            _ => (s, outcome(false, false, false)),
        },
        _ => {
            let text = kind == ButtonKind::Text;
            match input {
                ButtonInput::Click { inside } => {
                    let click = text || inside;
                    (s, outcome(click, click, false))
                },
                ButtonInput::PointerDown => (ButtonState { pressed: true, ..s }, outcome(text, false, true)),
                ButtonInput::PointerUp => (ButtonState { pressed: false, ..s }, outcome(text, false, true)),
                ButtonInput::PointerMove { inside } => (
                    ButtonState { hovered: inside, ..s },
                    outcome(text, false, inside != s.hovered),
                ),
                ButtonInput::KeyDown { activates } => (s, outcome(activates, activates, false)),
                ButtonInput::CharInput(ch) => {
                    let click = text && ch == ' ';
                    (s, outcome(click, click, false))
                },
                ButtonInput::Focus(f) => (ButtonState { focused: f, ..s }, outcome(false, false, f != s.focused)),
                ButtonInput::DragStart => (
                    ButtonState { dragging: true, hovered: false, ..s },
                    outcome(false, false, true),
                ),
                ButtonInput::DragEnd => (ButtonState { dragging: false, ..s }, outcome(false, false, true)),
                ButtonInput::DragEnter => (ButtonState { hovered: true, ..s }, outcome(false, false, true)),
                ButtonInput::DragLeave => (ButtonState { hovered: false, ..s }, outcome(false, false, true)),
                ButtonInput::Other => (s, outcome(false, false, false)),
            }
        },
    }
}

/// The look of a button in state `s`.
pub open spec fn spec_button_look(s: ButtonState) -> ButtonLook {
    if s.dragging {
        ButtonLook::Dragging
    } else if s.pressed {
        ButtonLook::Pressed
    } else if s.hovered || s.focused {
        ButtonLook::Highlighted
    } else {
        ButtonLook::Normal
    }
}

impl ButtonState {
    /// Not hovered, not pressed, not focused, not dragged.
    pub fn new() -> (s: Self)
        ensures
            !s.hovered && !s.pressed && !s.focused && !s.dragging,
    {
        ButtonState { hovered: false, pressed: false, focused: false, dragging: false }
    }

    /// Applies an event to the state of a button of kind `kind`.
    pub fn step(&mut self, kind: ButtonKind, input: ButtonInput) -> (r: ButtonOutcome)
        ensures
            (*final(self), r) == spec_button_step(kind, *old(self), input),
    {
        if kind == ButtonKind::Canvas {
            return match input {
                ButtonInput::PointerMove { inside } => {
                    let changed = inside != self.hovered;
                    self.hovered = inside;
                    ButtonOutcome { handled: inside, clicked: false, dirty: changed }
                },
                ButtonInput::Click { inside } => ButtonOutcome { handled: inside, clicked: inside, dirty: false },
                ButtonInput::KeyDown { activates } => ButtonOutcome {
                    handled: activates,
                    clicked: activates,
                    dirty: false,
                },
                ButtonInput::Focus(_) => ButtonOutcome { handled: false, clicked: false, dirty: true },
                _ => ButtonOutcome { handled: false, clicked: false, dirty: false },
            };
        }
        let text = kind == ButtonKind::Text;
        match input {
            ButtonInput::Click { inside } => {
                let click = text || inside;
                ButtonOutcome { handled: click, clicked: click, dirty: false }
            },
            ButtonInput::PointerDown => {
                self.pressed = true;
                ButtonOutcome { handled: text, clicked: false, dirty: true }
            },
            ButtonInput::PointerUp => {
                self.pressed = false;
                ButtonOutcome { handled: text, clicked: false, dirty: true }
            },
            ButtonInput::PointerMove { inside } => {
                let changed = inside != self.hovered;
                self.hovered = inside;
                ButtonOutcome { handled: text, clicked: false, dirty: changed }
            },
            ButtonInput::KeyDown { activates } => ButtonOutcome { handled: activates, clicked: activates, dirty: false },
            ButtonInput::CharInput(ch) => {
                let click = text && ch == ' ';
                ButtonOutcome { handled: click, clicked: click, dirty: false }
            },
            ButtonInput::Focus(f) => {
                let changed = f != self.focused;
                self.focused = f;
                ButtonOutcome { handled: false, clicked: false, dirty: changed }
            },
            ButtonInput::DragStart => {
                self.dragging = true;
                self.hovered = false;
                ButtonOutcome { handled: false, clicked: false, dirty: true }
            },
            ButtonInput::DragEnd => {
                self.dragging = false;
                ButtonOutcome { handled: false, clicked: false, dirty: true }
            },
            ButtonInput::DragEnter => {
                self.hovered = true;
                ButtonOutcome { handled: false, clicked: false, dirty: true }
            },
            ButtonInput::DragLeave => {
                self.hovered = false;
                ButtonOutcome { handled: false, clicked: false, dirty: true }
            },
            ButtonInput::Other => ButtonOutcome { handled: false, clicked: false, dirty: false },
        }
    }

    /// The button's look.
    pub fn look(&self) -> (l: ButtonLook)
        ensures
            l == spec_button_look(*self),
    {
        if self.dragging {
            ButtonLook::Dragging
        } else if self.pressed {
            ButtonLook::Pressed
        } else if self.hovered || self.focused {
            ButtonLook::Highlighted
        } else {
            ButtonLook::Normal
        }
    }
}

/// A button clicks only on a click it is sent (inside it, for icon and
/// canvas buttons), on an activating key, or, for a text button, on a space
/// character; every click is consumed; and a state change always asks for
/// the geometry to be rebuilt.
pub proof fn lemma_button_clicks(kind: ButtonKind, s: ButtonState, input: ButtonInput)
    ensures
        spec_button_step(kind, s, input).1.clicked ==> match input {
            ButtonInput::Click { inside } => kind == ButtonKind::Text || inside,
            ButtonInput::KeyDown { activates } => activates,
            ButtonInput::CharInput(ch) => kind == ButtonKind::Text && ch == ' ',
            _ => false,
        },
        spec_button_step(kind, s, input).1.clicked ==> spec_button_step(kind, s, input).1.handled,
        spec_button_step(kind, s, input).0 != s ==> spec_button_step(kind, s, input).1.dirty,
{
}

/// A dragged button looks dragged whatever else holds, and leaving a drag
/// gives back the look of its other flags.
pub proof fn lemma_drag_look(kind: ButtonKind, s: ButtonState)
    requires
        kind != ButtonKind::Canvas,
    ensures
        spec_button_look(spec_button_step(kind, s, ButtonInput::DragStart).0) == ButtonLook::Dragging,
        !spec_button_step(kind, s, ButtonInput::DragStart).0.hovered,
        spec_button_look(spec_button_step(kind, s, ButtonInput::DragEnd).0) == spec_button_look(
            ButtonState { dragging: false, ..s },
        ),
{
}

/// The look of a button: dragged whenever it is dragged; otherwise pressed
/// whenever it is pressed; otherwise highlighted whenever the pointer is
/// over it or it has keyboard focus; otherwise normal.
pub proof fn lemma_look_by_priority(s: ButtonState)
    ensures
        s.dragging ==> spec_button_look(s) == ButtonLook::Dragging,
        (!s.dragging && s.pressed) ==> spec_button_look(s) == ButtonLook::Pressed,
        (!s.dragging && !s.pressed && (s.hovered || s.focused)) ==> spec_button_look(s)
            == ButtonLook::Highlighted,
        (!s.dragging && !s.pressed && !s.hovered && !s.focused) ==> spec_button_look(s) == ButtonLook::Normal,
{
}

/// Giving a text or icon button keyboard focus highlights it unless it is
/// pressed or dragged, and taking focus away from a button the pointer is
/// not over makes it normal again; hover follows the pointer.
pub proof fn lemma_focus_highlights(kind: ButtonKind, s: ButtonState, inside: bool)
    requires
        kind != ButtonKind::Canvas,
    ensures
        (!s.pressed && !s.dragging) ==> spec_button_look(spec_button_step(kind, s, ButtonInput::Focus(true)).0)
            == ButtonLook::Highlighted,
        (!s.pressed && !s.dragging && !s.hovered) ==> spec_button_look(
            spec_button_step(kind, s, ButtonInput::Focus(false)).0,
        ) == ButtonLook::Normal,
        spec_button_step(kind, s, ButtonInput::Focus(true)).0.focused,
        !spec_button_step(kind, s, ButtonInput::Focus(false)).0.focused,
        spec_button_step(kind, s, ButtonInput::PointerMove { inside }).0.hovered == inside,
{
}

} // verus!
