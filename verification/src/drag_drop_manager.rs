//! The drag and drop state machine: which widget may start a drag, which
//! widget is being dragged, which widget is the current drop target, and
//! the widget events that each step sends.
use vstd::prelude::*;

verus! {

/// A widget event that the drag and drop manager asks to be delivered.
/// The dragged data travels with `Start`, `Enter` and `Drop`; the caller
/// attaches it from [`DragDropManager::drag_data`].
#[derive(Debug, Clone, Copy, PartialEq, Eq)]
pub enum DragAction<P> {
    /// The source widget starts being dragged from the given point.
    Start { source: u64, point: P },
    /// The dragged data enters a drop target.
    Enter { target: u64, point: P },
    /// The dragged data leaves a drop target.
    Leave { target: u64 },
    /// The pointer moves while the source widget is dragged.
    Move { source: u64, point: P },
    /// The dragged data is dropped on a target.
    Drop { target: u64, point: P },
    /// The drag of the source widget ends, cancelled or not.
    End { source: u64, point: P, cancelled: bool },
}

/// What a pointer move means for drag and drop.
#[derive(Debug, Clone, Copy, PartialEq, Eq)]
pub enum MoveDecision<P> {
    /// A drag is active: the move continues it.
    ContinueDrag,
    /// The pointer went past the drag threshold from where it was pressed
    /// on a draggable widget: a drag of that widget may start.
    StartDrag { source: u64, start: P },
    /// The move is no concern of drag and drop.
    Ignore,
}

/// The drag and drop state of a user interface. `D` is the dragged data and
/// `P` a pointer position.
pub struct DragDropManager<D, P> {
    drag_active: bool,
    drag_source_id: Option<u64>,
    drag_data: Option<D>,
    drag_start_point: Option<P>,
    potential_drag_source: Option<u64>,
    current_drop_target: Option<u64>,
}

/// The state of the manager as plain values: whether a drag is active, the
/// dragged widget, the dragged data, the press point, the widget that was
/// pressed and may be dragged, and the current drop target.
pub struct DragView<D, P> {
    pub active: bool,
    pub source: Option<u64>,
    pub data: Option<D>,
    pub start: Option<P>,
    pub potential_source: Option<u64>,
    pub target: Option<u64>,
}

impl<D, P> View for DragDropManager<D, P> {
    type V = DragView<D, P>;

    closed spec fn view(&self) -> DragView<D, P> {
        DragView {
            active: self.drag_active,
            source: self.drag_source_id,
            data: self.drag_data,
            start: self.drag_start_point,
            potential_source: self.potential_drag_source,
            target: self.current_drop_target,
        }
    }
}

/// The invariant of the manager: a drag is active exactly when there is a
/// dragged widget and exactly when there is dragged data, and there is a
/// drop target only during a drag.
pub open spec fn drag_wf<D, P>(v: DragView<D, P>) -> bool {
    &&& v.active == v.source.is_some()
    &&& v.active == v.data.is_some()
    &&& v.target.is_some() ==> v.active
}

impl<D, P> DragDropManager<D, P> {
    /// The manager's invariant holds of every manager.
    #[verifier::type_invariant]
    spec fn drag_inv(self) -> bool {
        drag_wf(self@)
    }
}

impl<D, P: Copy> DragDropManager<D, P> {
    /// A manager with no drag in progress.
    pub fn new() -> (m: Self)
        ensures
            !m@.active,
            m@.source is None,
            m@.data is None,
            m@.start is None,
            m@.potential_source is None,
            m@.target is None,
            drag_wf(m@),
    {
        DragDropManager {
            drag_active: false,
            drag_source_id: None,
            drag_data: None,
            drag_start_point: None,
            potential_drag_source: None,
            current_drop_target: None,
        }
    }

    /// Whether a drag is in progress.
    pub fn is_drag_active(&self) -> (b: bool)
        ensures
            b == self@.active,
    {
        self.drag_active
    }

    /// The dragged data, during a drag.
    pub fn drag_data(&self) -> (r: Option<&D>)
        ensures
            r == match self@.data {
                Some(d) => Some(&d),
                None => None::<&D>,
            },
    {
        match &self.drag_data {
            Some(d) => Some(d),
            None => None,
        }
    }

    /// The point where a draggable widget was pressed.
    pub fn drag_start_point(&self) -> (r: Option<P>)
        ensures
            r == self@.start,
    {
        self.drag_start_point
    }

    /// The widget that is dragged.
    pub fn drag_source(&self) -> (r: Option<u64>)
        ensures
            r == self@.source,
    {
        self.drag_source_id
    }

    /// The current drop target.
    pub fn current_drop_target(&self) -> (r: Option<u64>)
        ensures
            r == self@.target,
    {
        self.current_drop_target
    }

    /// A pointer press: when it hits a widget that can be dragged, that
    /// widget and the press point are remembered as a possible drag.
    pub fn on_pointer_down(&mut self, point: P, hit: Option<u64>, hit_can_drag: bool)
        ensures
            drag_wf(final(self)@),
            final(self)@.active == old(self)@.active,
            final(self)@.source == old(self)@.source,
            final(self)@.data == old(self)@.data,
            final(self)@.target == old(self)@.target,
            (hit is Some && hit_can_drag) ==> final(self)@.potential_source == hit && final(self)@.start
                == Some(point),
            !(hit is Some && hit_can_drag) ==> final(self)@.potential_source == old(
                self,
            )@.potential_source && final(self)@.start == old(self)@.start,
    {
        proof {
            use_type_invariant(&*self);
        }
        if let Some(widget_id) = hit {
            if hit_can_drag {
                self.potential_drag_source = Some(widget_id);
                self.drag_start_point = Some(point);
            }
        }
    }

    /// What a pointer move means: continuing the active drag, starting a
    /// drag of the pressed widget once the pointer went past the threshold,
    /// or nothing.
    pub fn pointer_move_decision(&self, beyond_threshold: bool) -> (d: MoveDecision<P>)
        ensures
            d == (if self@.active {
                MoveDecision::ContinueDrag
            } else {
                match (self@.potential_source, self@.start) {
                    (Some(s), Some(p)) => if beyond_threshold {
                        MoveDecision::StartDrag { source: s, start: p }
                    } else {
                        MoveDecision::Ignore
                    },
                    _ => MoveDecision::Ignore,
                }
            }),
    {
        if self.drag_active {
            return MoveDecision::ContinueDrag;
        }
        match (self.potential_drag_source, self.drag_start_point) {
            (Some(s), Some(p)) => if beyond_threshold {
                MoveDecision::StartDrag { source: s, start: p }
            } else {
                MoveDecision::Ignore
            },
            _ => MoveDecision::Ignore,
        }
    }

    /// Starts dragging `source` when it offers data: the drag becomes
    /// active and the source is told where it started. A source without
    /// data starts nothing.
    pub fn start_drag(&mut self, source: u64, start_point: P, data: Option<D>) -> (a: Option<
        DragAction<P>,
    >)
        requires
            !old(self)@.active,
        ensures
            drag_wf(final(self)@),
            final(self)@.start == old(self)@.start,
            final(self)@.potential_source == old(self)@.potential_source,
            final(self)@.target == old(self)@.target,
            match data {
                Some(d) => {
                    &&& final(self)@.active
                    &&& final(self)@.source == Some(source)
                    &&& final(self)@.data == Some(d)
                    &&& a == Some(DragAction::Start { source, point: start_point })
                },
                None => {
                    &&& !final(self)@.active
                    &&& final(self)@.source == old(self)@.source
                    &&& final(self)@.data == old(self)@.data
                    &&& a is None
                },
            },
    {
        proof {
            use_type_invariant(&*self);
        }
        match data {
            Some(d) => {
                *self = DragDropManager {
                    drag_active: true,
                    drag_source_id: Some(source),
                    drag_data: Some(d),
                    drag_start_point: self.drag_start_point,
                    potential_drag_source: self.potential_drag_source,
                    current_drop_target: self.current_drop_target,
                };
                Some(DragAction::Start { source, point: start_point })
            },
            None => None,
        }
    }

    /// The pointer moved to `point` during a drag, over the widget
    /// `new_target`. When the target changes, the old target is left, and the
    /// new one is entered and becomes the drop target only if there is
    /// dragged data and it accepts the data; otherwise there is no drop
    /// target. The dragged widget is then told of the move.
    pub fn handle_drag_move(&mut self, point: P, new_target: Option<u64>, new_can_drop: bool) -> (actions:
        Vec<DragAction<P>>)
        ensures
            drag_wf(final(self)@),
            final(self)@.active == old(self)@.active,
            final(self)@.source == old(self)@.source,
            final(self)@.data == old(self)@.data,
            final(self)@.start == old(self)@.start,
            final(self)@.potential_source == old(self)@.potential_source,
            final(self)@.target == (if new_target == old(self)@.target {
                old(self)@.target
            } else if new_target is Some && old(self)@.data is Some && new_can_drop {
                new_target
            } else {
                None
            }),
            actions@ == drag_move_actions(old(self)@, point, new_target, new_can_drop),
            final(self)@.target != old(self)@.target ==> (final(self)@.target matches Some(t)
                ==> actions@.contains(DragAction::Enter { target: t, point })),
            final(self)@.target != old(self)@.target ==> (old(self)@.target matches Some(o)
                ==> actions@.contains(DragAction::Leave { target: o })),
    {
        proof {
            use_type_invariant(&*self);
        }
        let mut actions: Vec<DragAction<P>> = Vec::new();
        if new_target != self.current_drop_target {
            if let Some(old_target) = self.current_drop_target {
                actions.push(DragAction::Leave { target: old_target });
            }
            match new_target {
                Some(new) => {
                    if self.drag_data.is_some() && new_can_drop {
                        actions.push(DragAction::Enter { target: new, point });
                        self.current_drop_target = Some(new);
                    } else {
                        self.current_drop_target = None;
                    }
                },
                None => {
                    self.current_drop_target = None;
                },
            }
        }
        if let Some(source) = self.drag_source_id {
            actions.push(DragAction::Move { source, point });
        }
        proof {
            lemma_drag_move_target_events(old(self)@, point, new_target, new_can_drop);
        }
        actions
    }

    /// Ends the drag at `point`. Unless it is cancelled, the data is dropped
    /// on the current drop target when there is data and the target accepts
    /// it. The dragged widget is told that the drag ended, and the drag,
    /// its source, data and target are cleared.
    pub fn end_drag(&mut self, point: P, cancelled: bool, target_can_drop: bool) -> (actions: Vec<
        DragAction<P>,
    >)
        ensures
            drag_wf(final(self)@),
            !final(self)@.active,
            final(self)@.source is None,
            final(self)@.data is None,
            final(self)@.target is None,
            final(self)@.start == old(self)@.start,
            final(self)@.potential_source == old(self)@.potential_source,
            actions@ == end_drag_actions(old(self)@, point, cancelled, target_can_drop),
    {
        proof {
            use_type_invariant(&*self);
        }
        let mut actions: Vec<DragAction<P>> = Vec::new();
        if !cancelled {
            if let Some(target) = self.current_drop_target {
                if self.drag_data.is_some() && target_can_drop {
                    actions.push(DragAction::Drop { target, point });
                }
            }
        }
        if let Some(source) = self.drag_source_id {
            actions.push(DragAction::End { source, point, cancelled });
        }
        *self = DragDropManager {
            drag_active: false,
            drag_source_id: None,
            drag_data: None,
            drag_start_point: self.drag_start_point,
            potential_drag_source: self.potential_drag_source,
            current_drop_target: None,
        };
        actions
    }

    /// A pointer release. During a drag it ends the drag, not cancelled,
    /// and is handled; otherwise it forgets the pressed widget and is not
    /// handled.
    pub fn on_pointer_up(&mut self, point: P, target_can_drop: bool) -> (r: (bool, Vec<DragAction<P>>))
        ensures
            drag_wf(final(self)@),
            r.0 == old(self)@.active,
            old(self)@.active ==> {
                &&& !final(self)@.active
                &&& final(self)@.source is None
                &&& final(self)@.data is None
                &&& final(self)@.target is None
                &&& final(self)@.start == old(self)@.start
                &&& final(self)@.potential_source == old(self)@.potential_source
                &&& r.1@ == end_drag_actions(old(self)@, point, false, target_can_drop)
            },
            !old(self)@.active ==> {
                &&& !final(self)@.active
                &&& final(self)@.source == old(self)@.source
                &&& final(self)@.data == old(self)@.data
                &&& final(self)@.target == old(self)@.target
                &&& final(self)@.start is None
                &&& final(self)@.potential_source is None
                &&& r.1@.len() == 0
            },
    {
        proof {
            use_type_invariant(&*self);
        }
        if self.drag_active {
            let actions = self.end_drag(point, false, target_can_drop);
            return (true, actions);
        }
        self.potential_drag_source = None;
        self.drag_start_point = None;
        (false, Vec::new())
    }
}

/// The events of a drag move: leaving the old target and entering the new
/// one when the target changes (entering only when there is data and the
/// new target accepts it), then the move of the dragged widget.
pub open spec fn drag_move_actions<D, P>(
    v: DragView<D, P>,
    point: P,
    new_target: Option<u64>,
    new_can_drop: bool,
) -> Seq<DragAction<P>> {
    let change: Seq<DragAction<P>> = if new_target != v.target {
        let leave: Seq<DragAction<P>> = match v.target {
            Some(t) => seq![DragAction::Leave { target: t }],
            None => Seq::empty(),
        };
        let enter: Seq<DragAction<P>> = match new_target {
            Some(n) => if v.data is Some && new_can_drop {
                seq![DragAction::Enter { target: n, point }]
            } else {
                Seq::empty()
            },
            None => Seq::empty(),
        };
        leave + enter
    } else {
        Seq::empty()
    };
    let moved: Seq<DragAction<P>> = match v.source {
        Some(s) => seq![DragAction::Move { source: s, point }],
        None => Seq::empty(),
    };
    change + moved
}

/// The events of ending a drag: the drop on the current target, unless
/// cancelled and only when there is data and the target accepts it, then the
/// end of the drag for the dragged widget.
pub open spec fn end_drag_actions<D, P>(
    v: DragView<D, P>,
    point: P,
    cancelled: bool,
    target_can_drop: bool,
) -> Seq<DragAction<P>> {
    let dropped: Seq<DragAction<P>> = match v.target {
        Some(t) => if !cancelled && v.data is Some && target_can_drop {
            seq![DragAction::Drop { target: t, point }]
        } else {
            Seq::empty()
        },
        None => Seq::empty(),
    };
    let ended: Seq<DragAction<P>> = match v.source {
        Some(s) => seq![DragAction::End { source: s, point, cancelled }],
        None => Seq::empty(),
    };
    dropped + ended
}

/// Ending an active drag always tells the dragged widget, as the last
/// event, that its drag ended; a drop, if any, comes first and goes to the
/// current drop target.
pub proof fn lemma_end_drag_notifies_source<D, P>(
    v: DragView<D, P>,
    point: P,
    cancelled: bool,
    target_can_drop: bool,
)
    requires
        drag_wf(v),
        v.active,
    ensures
        ({
            let a = end_drag_actions(v, point, cancelled, target_can_drop);
            &&& a.len() >= 1
            &&& a.last() == DragAction::End { source: v.source->0, point, cancelled }
            &&& a.len() == 2 ==> a[0] == DragAction::<P>::Drop { target: v.target->0, point }
            &&& cancelled ==> a.len() == 1
        }),
{
}

/// When the pointer leaves the current drop target for another widget, the
/// old target is told first; a widget is entered only when it accepts the
/// data; and the dragged widget is told of every move.
pub proof fn lemma_drag_move_events<D, P>(v: DragView<D, P>, point: P, new_target: Option<u64>, new_can_drop: bool)
    requires
        drag_wf(v),
        v.active,
    ensures
        ({
            let a = drag_move_actions(v, point, new_target, new_can_drop);
            &&& a.len() >= 1
            &&& a.last() == DragAction::Move { source: v.source->0, point }
            &&& (new_target != v.target && v.target is Some) ==> a[0] == DragAction::<P>::Leave {
                target: v.target->0,
            }
            &&& forall|k: int|
                0 <= k < a.len() ==> (#[trigger] a[k] matches DragAction::Enter { target, .. } ==> new_target
                    == Some(target) && new_can_drop && new_target != v.target)
        }),
{
    let a = drag_move_actions(v, point, new_target, new_can_drop);
    assert forall|k: int|
        0 <= k < a.len() implies (#[trigger] a[k] matches DragAction::Enter { target, .. } ==> new_target
        == Some(target) && new_can_drop && new_target != v.target) by {
    }
}

/// Whenever a drag move changes the drop target, the old target is told
/// that the data left it and the new one that the data entered it.
proof fn lemma_drag_move_target_events<D, P>(v: DragView<D, P>, point: P, new_target: Option<u64>, new_can_drop: bool)
    ensures
        ({
            let a = drag_move_actions(v, point, new_target, new_can_drop);
            let t2 = if new_target == v.target {
                v.target
            } else if new_target is Some && v.data is Some && new_can_drop {
                new_target
            } else {
                None
            };
            &&& t2 != v.target ==> (t2 matches Some(t) ==> a.contains(DragAction::Enter { target: t, point }))
            &&& t2 != v.target ==> (v.target matches Some(o) ==> a.contains(DragAction::Leave { target: o }))
        }),
{
    let a = drag_move_actions(v, point, new_target, new_can_drop);
    if new_target != v.target {
        if let Some(o) = v.target {
            assert(a[0] == DragAction::<P>::Leave { target: o });
        }
        if let Some(t) = new_target {
            if v.data is Some && new_can_drop {
                let k: int = if v.target is Some { 1 } else { 0 };
                assert(a[k] == DragAction::Enter { target: t, point });
            }
        }
    }
}

/// Moving during a drag onto a widget other than the current drop target
/// that accepts the data enters that widget, whatever the old target was:
/// the old target, if any, is left first, then the new one is entered at
/// the pointer, then the dragged widget is told of the move.
pub proof fn lemma_drag_move_enters_new_target<D, P>(v: DragView<D, P>, point: P, t: u64)
    requires
        drag_wf(v),
        v.active,
        v.target != Some(t),
    ensures
        drag_move_actions(v, point, Some(t), true) == (match v.target {
            Some(o) => seq![DragAction::Leave { target: o }],
            None => Seq::<DragAction<P>>::empty(),
        }) + seq![DragAction::Enter { target: t, point }, DragAction::Move { source: v.source->0, point }],
{
    let a = drag_move_actions(v, point, Some(t), true);
    match v.target {
        Some(o) => {
            assert(a =~= seq![DragAction::Leave { target: o }] + seq![
                DragAction::Enter { target: t, point },
                DragAction::Move { source: v.source->0, point },
            ]);
        },
        None => {
            assert(a =~= Seq::<DragAction<P>>::empty() + seq![
                DragAction::Enter { target: t, point },
                DragAction::Move { source: v.source->0, point },
            ]);
        },
    }
}

/// Ending a drag that is not cancelled drops the data on the current drop
/// target at the pointer whenever the target accepts it, before the dragged
/// widget is told that the drag ended; a cancelled drag, one without a
/// target, or a target that refuses the data drops nothing.
pub proof fn lemma_end_drag_drops_on_target<D, P>(v: DragView<D, P>, point: P, cancelled: bool, target_can_drop: bool)
    requires
        drag_wf(v),
        v.active,
    ensures
        ({
            let a = end_drag_actions(v, point, cancelled, target_can_drop);
            &&& (!cancelled && target_can_drop && v.target is Some) ==> a == seq![
                DragAction::Drop { target: v.target->0, point },
                DragAction::End { source: v.source->0, point, cancelled },
            ]
            &&& !(!cancelled && target_can_drop && v.target is Some) ==> a == seq![
                DragAction::End { source: v.source->0, point, cancelled },
            ]
        }),
{
    let a = end_drag_actions(v, point, cancelled, target_can_drop);
    if !cancelled && target_can_drop && v.target is Some {
        assert(a =~= seq![
            DragAction::Drop { target: v.target->0, point },
            DragAction::End { source: v.source->0, point, cancelled },
        ]);
    } else {
        assert(a =~= seq![DragAction::End { source: v.source->0, point, cancelled }]);
    }
}

} // verus!
