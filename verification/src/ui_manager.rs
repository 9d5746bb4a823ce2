//! Keyboard focus, focus navigation with Tab, and the routing of pointer and
//! key events between focus, drag and drop and the widgets.
use vstd::prelude::*;
use crate::drag_drop_manager::{DragAction, DragDropManager, drag_wf, end_drag_actions};

verus! {

/// The first position of `x` in `s`, if it occurs.
pub open spec fn first_index(s: Seq<u64>, x: u64) -> Option<int>
    decreases s.len(),
{
    if s.len() == 0 {
        None
    } else {
        match first_index(s.drop_last(), x) {
            Some(i) => Some(i),
            None => if s.last() == x {
                Some(s.len() - 1)
            } else {
                None
            },
        }
    }
}

/// The position Tab moves focus to among `n` focusable widgets when the
/// focused widget is at `current`: the next one, wrapping to the first; the
/// first when nothing focusable is focused.
pub open spec fn next_position(current: Option<int>, n: int) -> int {
    match current {
        Some(i) => if i + 1 < n {
            i + 1
        } else {
            0
        },
        None => 0,
    }
}

/// The position Shift+Tab moves focus to: the previous one, wrapping to the
/// last; the first when nothing focusable is focused.
pub open spec fn previous_position(current: Option<int>, n: int) -> int {
    match current {
        Some(i) => if i == 0 {
            if n > 0 {
                n - 1
            } else {
                0
            }
        } else {
            i - 1
        },
        None => 0,
    }
}

/// The widget at a position of the focus order, if the position exists.
pub open spec fn at_position(s: Seq<u64>, p: int) -> Option<u64> {
    if 0 <= p < s.len() {
        Some(s[p])
    } else {
        None
    }
}

/// The first position of `x` in `s`, if it occurs.
pub fn position_of(s: &Vec<u64>, x: u64) -> (r: Option<usize>)
    ensures
        r is None <==> first_index(s@, x) is None,
        r matches Some(i) ==> first_index(s@, x) == Some(i as int) && i < s@.len() && s@[i as int]
            == x,
{
    let mut i: usize = 0;
    while i < s.len()
        invariant
            i <= s@.len(),
            first_index(s@.take(i as int), x) is None,
        decreases s@.len() - i,
    {
        proof {
            assert(s@.take(i + 1).drop_last() =~= s@.take(i as int));
        }
        if s[i] == x {
            proof {
                assert(first_index(s@.take(i + 1), x) == Some(i as int));
                lemma_first_index_prefix(s@, x, i + 1);
            }
            return Some(i);
        }
        i = i + 1;
    }
    proof {
        assert(s@.take(s@.len() as int) =~= s@);
    }
    None
}

/// The first occurrence in a prefix that holds `x` is the first occurrence
/// in the whole sequence.
proof fn lemma_first_index_prefix(s: Seq<u64>, x: u64, k: int)
    requires
        0 <= k <= s.len(),
        first_index(s.take(k), x) is Some,
    ensures
        first_index(s, x) == first_index(s.take(k), x),
        first_index(s, x) matches Some(i) ==> 0 <= i < s.len() && s[i] == x,
    decreases s.len(),
{
    lemma_first_index_found(s.take(k), x);
    if k < s.len() {
        assert(s.drop_last().take(k) =~= s.take(k));
        lemma_first_index_prefix(s.drop_last(), x, k);
    } else {
        assert(s.take(k) =~= s);
    }
}

/// A found position holds the searched value.
proof fn lemma_first_index_found(s: Seq<u64>, x: u64)
    ensures
        first_index(s, x) matches Some(i) ==> 0 <= i < s.len() && s[i] == x,
    decreases s.len(),
{
    if s.len() > 0 {
        lemma_first_index_found(s.drop_last(), x);
    }
}

/// In a sequence without repeats, the first position of an element is its
/// position.
proof fn lemma_first_index_unique(s: Seq<u64>, j: int)
    requires
        s.no_duplicates(),
        0 <= j < s.len(),
    ensures
        first_index(s, s[j]) == Some(j),
    decreases s.len(),
{
    let p = s.drop_last();
    if j < s.len() - 1 {
        assert(p[j] == s[j]);
        lemma_first_index_unique(p, j);
    } else {
        lemma_first_index_absent(p, s[j]);
    }
}

/// A value that is not in a sequence has no first position in it.
proof fn lemma_first_index_absent(s: Seq<u64>, x: u64)
    requires
        !s.contains(x),
    ensures
        first_index(s, x) is None,
    decreases s.len(),
{
    if s.len() > 0 {
        assert(!s.drop_last().contains(x)) by {
            if s.drop_last().contains(x) {
                let k = choose|k: int| 0 <= k < s.drop_last().len() && s.drop_last()[k] == x;
                assert(s[k] == x);
            }
        }
        lemma_first_index_absent(s.drop_last(), x);
        assert(s.last() != x) by {
            assert(s[s.len() - 1] == s.last());
        }
    }
}

/// With focusable widgets listed once each, Shift+Tab after Tab gives focus
/// back to the widget that had it, and Tab after Shift+Tab does too.
pub proof fn lemma_tab_round_trip(all: Seq<u64>, f: u64)
    requires
        all.no_duplicates(),
        all.contains(f),
    ensures
        spec_next_target(all, Some(f)) matches Some(t) && spec_previous_target(all, Some(t)) == Some(f),
        spec_previous_target(all, Some(f)) matches Some(t) && spec_next_target(all, Some(t)) == Some(f),
{
    let i = choose|i: int| 0 <= i < all.len() && all[i] == f;
    lemma_first_index_unique(all, i);
    let n = all.len() as int;
    let j = if i + 1 < n { i + 1 } else { 0 };
    lemma_first_index_unique(all, j);
    let k = if i == 0 { n - 1 } else { i - 1 };
    lemma_first_index_unique(all, k);
}

/// Tab and Shift+Tab always land on a focusable widget when there is one,
/// and on none when there is none.
pub proof fn lemma_tab_lands_on_focusable(all: Seq<u64>, focused: Option<u64>)
    ensures
        all.len() > 0 ==> (spec_next_target(all, focused) matches Some(t) && all.contains(t)),
        all.len() > 0 ==> (spec_previous_target(all, focused) matches Some(t) && all.contains(t)),
        all.len() == 0 ==> spec_next_target(all, focused) is None && spec_previous_target(all, focused) is None,
{
    if let Some(f) = focused {
        lemma_first_index_found(all, f);
    }
    if all.len() > 0 {
        let n = all.len() as int;
        let current = match focused {
            Some(f) => first_index(all, f),
            None => None,
        };
        let p = next_position(current, n);
        let q = previous_position(current, n);
        assert(all[p] == all[p]);
        assert(all[q] == all[q]);
    }
}

/// With focusable widgets listed once each, Tab from the widget at position
/// `i` focuses the one at `(i + 1) % n` and Shift+Tab the one at
/// `(i + n - 1) % n`: repeated Tab visits every focusable widget in turn.
pub proof fn lemma_tab_cycles(all: Seq<u64>, i: int)
    requires
        all.no_duplicates(),
        0 <= i < all.len(),
    ensures
        spec_next_target(all, Some(all[i])) == Some(all[(i + 1) % (all.len() as int)]),
        spec_previous_target(all, Some(all[i])) == Some(all[(i + all.len() - 1) % (all.len() as int)]),
{
    lemma_first_index_unique(all, i);
    let n = all.len() as int;
    assert((i + 1) % n == if i + 1 < n { i + 1 } else { 0 }) by {
        if i + 1 < n {
            vstd::arithmetic::div_mod::lemma_small_mod((i + 1) as nat, n as nat);
        } else {
            vstd::arithmetic::div_mod::lemma_mod_self_0(n);
        }
    }
    assert((i + n - 1) % n == if i == 0 { n - 1 } else { i - 1 }) by {
        if i == 0 {
            vstd::arithmetic::div_mod::lemma_small_mod((n - 1) as nat, n as nat);
        } else {
            vstd::arithmetic::div_mod::lemma_mod_add_multiples_vanish(i - 1, n);
            vstd::arithmetic::div_mod::lemma_small_mod((i - 1) as nat, n as nat);
        }
    }
}

/// A change of keyboard focus that a widget is told of.
#[derive(Debug, Clone, Copy, PartialEq, Eq, Structural)]
pub enum FocusAction {
    /// The widget loses focus.
    Unfocus(u64),
    /// The widget gains focus.
    Focus(u64),
}

/// Where a key press goes.
#[derive(Debug, Clone, Copy, PartialEq, Eq, Structural)]
pub enum KeyRoute {
    /// Tab: focus moves to the next focusable widget.
    FocusNext,
    /// Shift+Tab: focus moves to the previous focusable widget.
    FocusPrevious,
    /// The key goes to the focused widget.
    ToWidget(u64),
    /// Nothing is focused: the key is not handled.
    Unhandled,
}

/// A widget event that pointer routing asks to be delivered, or a focus or
/// drag and drop event.
#[derive(Debug, Clone, Copy, PartialEq, Eq)]
pub enum UiAction<P> {
    /// A focus change.
    Focus(FocusAction),
    /// The pointer press goes to the widget under it (during a drag).
    PointerDown { widget: u64, point: P },
    /// A click goes to the widget under the pointer.
    Click { widget: u64, point: P },
    /// A drag and drop event.
    Drag(DragAction<P>),
}

/// Which widget holds the keyboard focus.
pub struct FocusManager {
    focused: Option<u64>,
}

impl View for FocusManager {
    type V = Option<u64>;

    closed spec fn view(&self) -> Option<u64> {
        self.focused
    }
}

/// The focus events of moving focus to `id` from `focused`, and the focus
/// afterwards: nothing happens when `id` already has focus; otherwise the
/// old widget loses focus, and `id` gains it when it exists (else nothing is
/// focused).
pub open spec fn spec_set_focus(focused: Option<u64>, id: u64, exists: bool) -> (
    bool,
    Seq<FocusAction>,
    Option<u64>,
) {
    if focused == Some(id) {
        (false, Seq::empty(), focused)
    } else {
        let unfocus: Seq<FocusAction> = match focused {
            Some(old) => seq![FocusAction::Unfocus(old)],
            None => Seq::empty(),
        };
        if exists {
            (true, unfocus.push(FocusAction::Focus(id)), Some(id))
        } else {
            (false, unfocus, None)
        }
    }
}

/// Moving focus tells exactly the widgets whose focus changes: nothing
/// happens when the focus stays, otherwise the widget that had focus is told
/// first that it lost it, and the widget that has it afterwards is told last
/// that it gained it; focus goes only to `id`, and to `id` exactly when it
/// exists.
pub proof fn lemma_set_focus_events(focused: Option<u64>, id: u64, exists: bool)
    ensures
        ({
            let (gained, a, f) = spec_set_focus(focused, id, exists);
            &&& f == focused ==> a.len() == 0
            &&& f != focused ==> (focused matches Some(o) ==> a.len() >= 1 && a[0] == FocusAction::Unfocus(o))
            &&& f != focused ==> (f matches Some(n) ==> a.len() >= 1 && a.last() == FocusAction::Focus(n))
            &&& a.len() == (if f == focused { 0int } else if focused is Some && f is Some { 2 } else { 1 })
            &&& (f is Some ==> f == Some(id))
            &&& (focused != Some(id) ==> (f == Some(id) <==> exists))
            &&& gained == (f == Some(id) && focused != Some(id))
        }),
{
}

/// The widget that Tab focuses among the focusable widgets `all`.
pub open spec fn spec_next_target(all: Seq<u64>, focused: Option<u64>) -> Option<u64> {
    let current = match focused {
        Some(f) => first_index(all, f),
        None => None,
    };
    at_position(all, next_position(current, all.len() as int))
}

/// The widget that Shift+Tab focuses among the focusable widgets `all`.
pub open spec fn spec_previous_target(all: Seq<u64>, focused: Option<u64>) -> Option<u64> {
    let current = match focused {
        Some(f) => first_index(all, f),
        None => None,
    };
    at_position(all, previous_position(current, all.len() as int))
}

/// The widget that Tab focuses among the focusable widgets `all` (in tree
/// order) when `focused` has focus.
pub fn next_focus_target(all: &Vec<u64>, focused: Option<u64>) -> (r: Option<u64>)
    ensures
        r == spec_next_target(all@, focused),
{
    let mut next: usize = 0;
    if let Some(f) = focused {
        if let Some(i) = position_of(all, f) {
            assert(first_index(all@, f) == Some(i as int));
            if i < all.len() - 1 {
                next = i + 1;
            }
        }
    }
    if next < all.len() {
        Some(all[next])
    } else {
        None
    }
}

/// The widget that Shift+Tab focuses among the focusable widgets `all` (in
/// tree order) when `focused` has focus.
pub fn previous_focus_target(all: &Vec<u64>, focused: Option<u64>) -> (r: Option<u64>)
    ensures
        r == spec_previous_target(all@, focused),
{
    let mut prev: usize = 0;
    if let Some(f) = focused {
        if let Some(i) = position_of(all, f) {
            assert(first_index(all@, f) == Some(i as int));
            if i == 0 {
                prev = all.len().saturating_sub(1);
            } else {
                prev = i - 1;
            }
        }
    }
    if prev < all.len() {
        Some(all[prev])
    } else {
        None
    }
}

impl FocusManager {
    /// Nothing focused.
    pub fn new() -> (f: Self)
        ensures
            f@ is None,
    {
        FocusManager { focused: None }
    }

    /// The focused widget.
    pub fn focused(&self) -> (r: Option<u64>)
        ensures
            r == self@,
    {
        self.focused
    }

    /// Moves focus to `id`, where `exists` tells whether a widget with that
    /// identifier is in the tree. Returns whether `id` gained focus and the
    /// focus events to deliver.
    pub fn set_focus_to_widget(&mut self, id: u64, exists: bool) -> (r: (bool, Vec<FocusAction>))
        ensures
            (r.0, r.1@, final(self)@) == spec_set_focus(old(self)@, id, exists),
    {
        let mut actions: Vec<FocusAction> = Vec::new();
        if self.focused == Some(id) {
            return (false, actions);
        }
        if let Some(old_id) = self.focused {
            actions.push(FocusAction::Unfocus(old_id));
        }
        if exists {
            actions.push(FocusAction::Focus(id));
            self.focused = Some(id);
        } else {
            self.focused = None;
        }
        (exists, actions)
    }

    /// Removes focus from the focused widget, if any.
    pub fn clear_focus(&mut self) -> (actions: Vec<FocusAction>)
        ensures
            final(self)@ is None,
            actions@ == match old(self)@ {
                Some(old) => seq![FocusAction::Unfocus(old)],
                None => Seq::<FocusAction>::empty(),
            },
    {
        let mut actions: Vec<FocusAction> = Vec::new();
        if let Some(id) = self.focused {
            actions.push(FocusAction::Unfocus(id));
            self.focused = None;
        }
        actions
    }

    /// Tab: focuses the focusable widget after the focused one in `all`
    /// (the widgets in tree order), wrapping around; the first one when none
    /// of them is focused. Nothing changes when `all` is empty.
    pub fn focus_next(&mut self, all: &Vec<u64>) -> (actions: Vec<FocusAction>)
        ensures
            match spec_next_target(all@, old(self)@) {
                Some(t) => {
                    let (_, a, f) = spec_set_focus(old(self)@, t, true);
                    actions@ == a && final(self)@ == f
                },
                None => actions@.len() == 0 && final(self)@ == old(self)@,
            },
    {
        match next_focus_target(all, self.focused) {
            Some(t) => {
                let (_, actions) = self.set_focus_to_widget(t, true);
                actions
            },
            None => Vec::new(),
        }
    }

    /// Shift+Tab: focuses the focusable widget before the focused one in
    /// `all`, wrapping around; the first one when none of them is focused.
    /// Nothing changes when `all` is empty.
    pub fn focus_previous(&mut self, all: &Vec<u64>) -> (actions: Vec<FocusAction>)
        ensures
            match spec_previous_target(all@, old(self)@) {
                Some(t) => {
                    let (_, a, f) = spec_set_focus(old(self)@, t, true);
                    actions@ == a && final(self)@ == f
                },
                None => actions@.len() == 0 && final(self)@ == old(self)@,
            },
    {
        match previous_focus_target(all, self.focused) {
            Some(t) => {
                let (_, actions) = self.set_focus_to_widget(t, true);
                actions
            },
            None => Vec::new(),
        }
    }

    /// Where a key press goes: Tab moves focus (backwards with shift), any
    /// other key goes to the focused widget.
    pub fn key_down_route(&self, is_tab: bool, shift: bool) -> (r: KeyRoute)
        ensures
            r == (if is_tab {
                if shift {
                    KeyRoute::FocusPrevious
                } else {
                    KeyRoute::FocusNext
                }
            } else {
                match self@ {
                    Some(id) => KeyRoute::ToWidget(id),
                    None => KeyRoute::Unhandled,
                }
            }),
    {
        if is_tab {
            if shift {
                KeyRoute::FocusPrevious
            } else {
                KeyRoute::FocusNext
            }
        } else {
            match self.focused {
                Some(id) => KeyRoute::ToWidget(id),
                None => KeyRoute::Unhandled,
            }
        }
    }
}

/// Focus events as user-interface events.
pub open spec fn focus_events<P>(a: Seq<FocusAction>) -> Seq<UiAction<P>> {
    a.map_values(|f: FocusAction| UiAction::Focus(f))
}

/// Drag and drop events as user-interface events.
pub open spec fn drag_events<P>(a: Seq<DragAction<P>>) -> Seq<UiAction<P>> {
    a.map_values(|d: DragAction<P>| UiAction::Drag(d))
}

fn wrap_focus<P>(a: Vec<FocusAction>) -> (r: Vec<UiAction<P>>)
    ensures
        r@ == focus_events::<P>(a@),
{
    let mut r: Vec<UiAction<P>> = Vec::new();
    let mut i: usize = 0;
    while i < a.len()
        invariant
            i <= a@.len(),
            r@ == focus_events::<P>(a@.take(i as int)),
        decreases a@.len() - i,
    {
        r.push(UiAction::Focus(a[i]));
        assert(focus_events::<P>(a@.take(i + 1)) =~= focus_events::<P>(a@.take(i as int)).push(UiAction::Focus(a@[i as int])));
        i = i + 1;
    }
    assert(a@.take(a@.len() as int) =~= a@);
    r
}

fn wrap_drag<P: Copy>(a: Vec<DragAction<P>>) -> (r: Vec<UiAction<P>>)
    ensures
        r@ == drag_events(a@),
{
    let mut r: Vec<UiAction<P>> = Vec::new();
    let mut i: usize = 0;
    while i < a.len()
        invariant
            i <= a@.len(),
            r@ == drag_events(a@.take(i as int)),
        decreases a@.len() - i,
    {
        r.push(UiAction::Drag(a[i]));
        assert(drag_events(a@.take(i + 1)) =~= drag_events(a@.take(i as int)).push(UiAction::Drag(a@[i as int])));
        i = i + 1;
    }
    assert(a@.take(a@.len() as int) =~= a@);
    r
}

/// A pointer press at `point` over the widget `hit`: drag and drop first
/// remembers a draggable widget; then, outside a drag, focus moves to the
/// pressed widget (or is cleared when nothing is hit), while during a drag
/// the press goes to the widget under the pointer.
pub fn route_pointer_down<D, P: Copy>(
    drag: &mut DragDropManager<D, P>,
    focus: &mut FocusManager,
    point: P,
    hit: Option<u64>,
    hit_can_drag: bool,
) -> (actions: Vec<UiAction<P>>)
    ensures
        drag_wf(final(drag)@),
        final(drag)@.active == old(drag)@.active,
        final(drag)@.source == old(drag)@.source,
        final(drag)@.data == old(drag)@.data,
        final(drag)@.target == old(drag)@.target,
        (hit is Some && hit_can_drag) ==> final(drag)@.potential_source == hit && final(drag)@.start
            == Some(point),
        !(hit is Some && hit_can_drag) ==> final(drag)@.potential_source == old(drag)@.potential_source
            && final(drag)@.start == old(drag)@.start,
        !old(drag)@.active ==> match hit {
            Some(id) => {
                let (_, a, f) = spec_set_focus(old(focus)@, id, true);
                actions@ == focus_events::<P>(a) && final(focus)@ == f
            },
            None => {
                &&& final(focus)@ is None
                &&& actions@ == focus_events::<P>(
                    match old(focus)@ {
                        Some(old_id) => seq![FocusAction::Unfocus(old_id)],
                        None => Seq::<FocusAction>::empty(),
                    },
                )
            },
        },
        old(drag)@.active ==> {
            &&& final(focus)@ == old(focus)@
            &&& actions@ == match hit {
                Some(id) => seq![UiAction::PointerDown { widget: id, point }],
                None => Seq::<UiAction<P>>::empty(),
            }
        },
{
    drag.on_pointer_down(point, hit, hit_can_drag);
    if !drag.is_drag_active() {
        match hit {
            Some(id) => {
                let (_, a) = focus.set_focus_to_widget(id, true);
                wrap_focus(a)
            },
            None => {
                let a = focus.clear_focus();
                wrap_focus(a)
            },
        }
    } else {
        let mut actions: Vec<UiAction<P>> = Vec::new();
        if let Some(id) = hit {
            actions.push(UiAction::PointerDown { widget: id, point });
        }
        actions
    }
}

/// A pointer release at `point` over the widget `hit`: a drag in progress
/// ends there and the release is handled; otherwise the widget under the
/// pointer is clicked and the release is handled, and a release over no
/// widget is not handled.
pub fn route_pointer_up<D, P: Copy>(
    drag: &mut DragDropManager<D, P>,
    point: P,
    hit: Option<u64>,
    target_can_drop: bool,
) -> (r: (bool, Vec<UiAction<P>>))
    ensures
        drag_wf(final(drag)@),
        !final(drag)@.active,
        old(drag)@.active ==> {
            &&& r.0
            &&& r.1@ == drag_events(end_drag_actions(old(drag)@, point, false, target_can_drop))
            &&& final(drag)@.potential_source == old(drag)@.potential_source
            &&& final(drag)@.start == old(drag)@.start
        },
        !old(drag)@.active ==> {
            &&& final(drag)@.potential_source is None
            &&& final(drag)@.start is None
            &&& r.0 == hit is Some
            &&& r.1@ == match hit {
                Some(id) => seq![UiAction::Click { widget: id, point }],
                None => Seq::<UiAction<P>>::empty(),
            }
        },
{
    let (handled, a) = drag.on_pointer_up(point, target_can_drop);
    if handled {
        return (true, wrap_drag(a));
    }
    let mut actions: Vec<UiAction<P>> = Vec::new();
    match hit {
        Some(id) => {
            actions.push(UiAction::Click { widget: id, point });
            (true, actions)
        },
        None => (false, actions),
    }
}

} // verus!
