//! The widget collection: an ordered sequence of widgets and one focus
//! arbiter.
//!
//! Every input event is handed to every widget in order — a widget decides
//! by its own hit test whether to react — and the events they emit are
//! gathered.  `FocusChanged` emissions are consumed here: the last widget
//! that requested focus in the round wins, and the collection then applies
//! focus authoritatively, emitting a synthesized `FocusChanged` for every
//! widget whose flag actually changes.  That arbitration is what keeps focus
//! exclusive, whatever the widgets do internally.

use vstd::prelude::*;

use crate::input::{ButtonState, CursorKind, EventV, InputEvent, InputV, KeyInput, MouseButtonKind,
    WidgetEvent};
use crate::widget::{widget_step, wv_cursor, wv_focused, wv_id, wv_set_focused, wv_wf, Widget,
    WidgetV};

verus! {

/// The outcome of handing one input event to the first `n` widgets: the
/// stepped widgets, the non-focus events they emitted, and the index of the
/// last widget that requested focus, if any.
pub struct DispatchV {
    pub widgets: Seq<WidgetV>,
    pub events: Seq<EventV>,
    pub winner: Option<int>,
}

/// Whether one of the emitted events requests focus.
pub open spec fn requests_focus(evs: Seq<EventV>) -> bool
    decreases evs.len(),
{
    if evs.len() == 0 {
        false
    } else {
        requests_focus(evs.drop_last()) || (evs.last() matches EventV::FocusChanged {
            focus: true,
            ..
        })
    }
}

/// The events the collection forwards to the application: everything except
/// focus changes, which it consumes and re-issues itself.
pub open spec fn forwarded(evs: Seq<EventV>) -> Seq<EventV>
    decreases evs.len(),
{
    if evs.len() == 0 {
        Seq::<EventV>::empty()
    } else {
        let rest = forwarded(evs.drop_last());
        if evs.last() is FocusChanged {
            rest
        } else {
            rest.push(evs.last())
        }
    }
}

/// Handing the event to the first `n` widgets in order.
pub open spec fn dispatch_upto(ws: Seq<WidgetV>, e: InputV, n: int) -> DispatchV
    decreases n,
{
    if n <= 0 {
        DispatchV { widgets: ws, events: Seq::<EventV>::empty(), winner: None }
    } else {
        let prev = dispatch_upto(ws, e, n - 1);
        let s = widget_step(ws[n - 1], e);
        DispatchV {
            widgets: prev.widgets.update(n - 1, s.0),
            events: prev.events + forwarded(s.1),
            winner: if requests_focus(s.1) {
                Some(n - 1)
            } else {
                prev.winner
            },
        }
    }
}

/// Every focus flag overwritten so that exactly the widget at `id` holds
/// focus.
pub open spec fn focus_applied(ws: Seq<WidgetV>, id: int) -> Seq<WidgetV> {
    Seq::new(ws.len(), |i: int| wv_set_focused(ws[i], i == id))
}

/// The focus-change events the collection issues while granting focus to
/// the widget at `id`: one per widget among the first `n` whose flag
/// actually changes, in widget order.
pub open spec fn focus_events_upto(ws: Seq<WidgetV>, id: int, n: int) -> Seq<EventV>
    decreases n,
{
    if n <= 0 {
        Seq::<EventV>::empty()
    } else {
        let prev = focus_events_upto(ws, id, n - 1);
        let desired = (n - 1) == id;
        if wv_focused(ws[n - 1]) != desired {
            prev.push(EventV::FocusChanged { id: wv_id(ws[n - 1]), focus: desired })
        } else {
            prev
        }
    }
}

/// At most one widget of the sequence holds focus.
pub open spec fn at_most_one_focused(ws: Seq<WidgetV>) -> bool {
    forall|i: int, j: int|
        0 <= i < ws.len() && 0 <= j < ws.len() && wv_focused(ws[i]) && wv_focused(ws[j]) ==> i == j
}

/// The full outcome of one input dispatch: the widgets stepped in order,
/// then, if any widget requested focus, the last requester granted it
/// authoritatively.  Yields the widgets, the focus index, and the events
/// handed to the application.
pub open spec fn dispatch_spec(ws: Seq<WidgetV>, focus: int, e: InputV) -> (
    Seq<WidgetV>,
    int,
    Seq<EventV>,
) {
    let d = dispatch_upto(ws, e, ws.len() as int);
    match d.winner {
        Some(i) => (
            focus_applied(d.widgets, i),
            i,
            d.events + focus_events_upto(d.widgets, i, ws.len() as int),
        ),
        None => (d.widgets, focus, d.events),
    }
}

/// The cursor decided by the widgets among the first `n`, topmost (highest
/// index) first; the default cursor if none of them claims the position.
pub open spec fn cursor_from(ws: Seq<WidgetV>, pos: (i32, i32), n: int) -> CursorKind
    decreases n,
{
    if n <= 0 {
        CursorKind::Default
    } else {
        match wv_cursor(ws[n - 1], pos) {
            Some(c) => c,
            None => cursor_from(ws, pos, n - 1),
        }
    }
}

/// The index of the first widget at or after `i` whose identifier is `id`.
pub open spec fn first_match_from(ws: Seq<WidgetV>, id: Seq<char>, i: int) -> Option<int>
    decreases ws.len() - i,
{
    if i < 0 || i >= ws.len() {
        None
    } else if wv_id(ws[i]) == id {
        Some(i)
    } else {
        first_match_from(ws, id, i + 1)
    }
}

/// The focus index after one tab step over `len` widgets: the next index
/// forward, the previous one backward, wrapping around.
pub open spec fn next_focus(focus: int, len: int, forward: bool) -> int {
    if forward {
        if focus + 1 == len {
            0
        } else {
            focus + 1
        }
    } else {
        if focus == 0 {
            len - 1
        } else {
            focus - 1
        }
    }
}

/// The focus index after `k` forward tab steps.
pub open spec fn iterate_next_focus(focus: int, len: int, k: nat) -> int
    decreases k,
{
    if k == 0 {
        focus
    } else {
        next_focus(iterate_next_focus(focus, len, (k - 1) as nat), len, true)
    }
}

proof fn lemma_iterate_next_focus_shift(focus: int, len: int, k: nat)
    requires
        0 <= focus < len,
        k <= len,
    ensures
        iterate_next_focus(focus, len, k) == if focus + k < len {
            focus + k
        } else {
            focus + k - len
        },
    decreases k,
{
    if k > 0 {
        lemma_iterate_next_focus_shift(focus, len, (k - 1) as nat);
    }
}

/// Law: on a non-empty collection of `len` widgets, `len` forward tab steps
/// return the focus index to where it started.
pub proof fn lemma_tab_focus_cycles(focus: int, len: int)
    requires
        0 <= focus < len,
    ensures
        iterate_next_focus(focus, len, len as nat) == focus,
{
    lemma_iterate_next_focus_shift(focus, len, len as nat);
}

/// Law: focus stays exclusive.  If at most one widget holds focus before an
/// input dispatch, at most one holds it afterwards, whichever event arrives:
/// either no widget requested focus and no handler can grant itself any, or
/// the collection granted it to exactly the last requester.
pub proof fn lemma_dispatch_keeps_focus_exclusive(ws: Seq<WidgetV>, focus: int, e: InputV)
    requires
        at_most_one_focused(ws),
    ensures
        at_most_one_focused(dispatch_spec(ws, focus, e).0),
{
    let d = dispatch_upto(ws, e, ws.len() as int);
    lemma_dispatch_upto_suffix(ws, e, ws.len() as int);
    match d.winner {
        Some(i) => {
            lemma_focus_applied_exclusive(d.widgets, i);
        },
        None => {
            lemma_dispatch_upto_no_gain(ws, e, ws.len() as int);
            assert forall|a: int, b: int|
                0 <= a < d.widgets.len() && 0 <= b < d.widgets.len() && wv_focused(d.widgets[a])
                    && wv_focused(d.widgets[b]) implies a == b by {
                assert(wv_focused(ws[a]) && wv_focused(ws[b]));
            }
        },
    }
}

/// Granting focus to `id` leaves exactly the widget at `id` focused.
pub proof fn lemma_focus_applied_exclusive(ws: Seq<WidgetV>, id: int)
    ensures
        at_most_one_focused(focus_applied(ws, id)),
        forall|i: int|
            0 <= i < ws.len() ==> wv_focused(#[trigger] focus_applied(ws, id)[i]) == (i == id),
{
    assert forall|i: int|
        0 <= i < ws.len() implies wv_focused(#[trigger] focus_applied(ws, id)[i]) == (i == id) by {
        assert(focus_applied(ws, id)[i] == wv_set_focused(ws[i], i == id));
    }
}

/// An ordered collection of widgets with a single focus index.
pub struct Widgets {
    pub widgets: Vec<Widget>,
    pub focus: usize,
}

impl Widgets {
    /// The views of the widgets, in order.
    pub open spec fn wsv(&self) -> Seq<WidgetV> {
        self.widgets.deep_view()
    }

    /// The collection invariant: the focus index is in range (or zero while
    /// the collection is empty), every widget satisfies its own invariant,
    /// and at most one widget holds focus.
    pub open spec fn wf(&self) -> bool {
        &&& self.wsv().len() == 0 ==> self.focus == 0
        &&& self.wsv().len() > 0 ==> (self.focus as int) < self.wsv().len()
        &&& forall|i: int| 0 <= i < self.wsv().len() ==> wv_wf(#[trigger] self.wsv()[i])
        &&& at_most_one_focused(self.wsv())
    }

    /// An empty collection.
    pub fn new() -> (r: Widgets)
        ensures
            r.wf(),
            r.wsv().len() == 0,
            r.focus == 0,
    {
        let r = Widgets { widgets: Vec::new(), focus: 0 };
        proof {
            assert(r.wsv() =~= Seq::<WidgetV>::empty());
        }
        r
    }

    /// How many widgets the collection holds.
    pub fn len(&self) -> (r: usize)
        ensures
            r == self.wsv().len(),
    {
        self.widgets.len()
    }

    /// The widget at index `id`, if there is one.
    pub fn get(&self, id: usize) -> (r: Option<&Widget>)
        ensures
            match r {
                Some(w) => id < self.wsv().len() && w@ == self.wsv()[id as int],
                None => id >= self.wsv().len(),
            },
    {
        if id < self.widgets.len() {
            Some(&self.widgets[id])
        } else {
            None
        }
    }

    /// The widget at index `id`, for mutation, if there is one.  Mutation
    /// can disturb the collection invariant, so the caller re-establishes
    /// `wf` before the next dispatch.
    pub fn get_mut(&mut self, id: usize) -> (r: Option<&mut Widget>)
        ensures
            match r {
                Some(w) => {
                    &&& id < old(self).wsv().len()
                    &&& *w == old(self).widgets@[id as int]
                    &&& final(self).widgets@ == old(self).widgets@.update(id as int, *final(w))
                    &&& final(self).focus == old(self).focus
                },
                None => id >= old(self).wsv().len() && *final(self) == *old(self),
            },
    {
        if id < self.widgets.len() {
            Some(&mut self.widgets[id])
        } else {
            None
        }
    }

    /// The first widget carrying the identifier, for mutation, if any.
    pub fn find_mut(&mut self, id: &String) -> (r: Option<&mut Widget>)
        ensures
            match r {
                Some(w) => {
                    &&& first_match_from(old(self).wsv(), id@, 0) matches Some(m)
                    &&& *w == old(self).widgets@[m]
                    &&& final(self).widgets@ == old(self).widgets@.update(m, *final(w))
                    &&& final(self).focus == old(self).focus
                },
                None => {
                    &&& first_match_from(old(self).wsv(), id@, 0) is None
                    &&& *final(self) == *old(self)
                },
            },
    {
        let n = self.widgets.len();
        let mut i: usize = 0;
        while i < n
            invariant
                i <= n,
                n == self.wsv().len(),
                first_match_from(self.wsv(), id@, 0) == first_match_from(self.wsv(), id@, i as int),
                *self == *old(self),
            decreases n - i,
        {
            if self.widgets[i].get_id().eq(id) {
                return Some(&mut self.widgets[i]);
            }
            i += 1;
        }
        None
    }

    /// The first widget carrying the identifier, if any.
    pub fn find<'a>(&'a self, id: &String) -> (r: Option<&'a Widget>)
        ensures
            match r {
                Some(w) => {
                    &&& first_match_from(self.wsv(), id@, 0) is Some
                    &&& w@ == self.wsv()[first_match_from(self.wsv(), id@, 0)->0]
                },
                None => first_match_from(self.wsv(), id@, 0) is None,
            },
    {
        let n = self.widgets.len();
        let mut i: usize = 0;
        while i < n
            invariant
                i <= n,
                n == self.wsv().len(),
                first_match_from(self.wsv(), id@, 0) == first_match_from(self.wsv(), id@, i as int),
            decreases n - i,
        {
            if self.widgets[i].get_id().eq(id) {
                return Some(&self.widgets[i]);
            }
            i += 1;
        }
        None
    }

    /// Appends a widget; new widgets arrive unfocused, so exclusivity is
    /// untouched.
    pub fn add(&mut self, widget: Widget)
        requires
            old(self).wf(),
            wv_wf(widget@),
            !wv_focused(widget@),
        ensures
            final(self).wf(),
            final(self).wsv() == old(self).wsv().push(widget@),
            final(self).focus == old(self).focus,
    {
        self.widgets.push(widget);
        proof {
            assert(self.wsv() =~= old(self).wsv().push(widget@));
        }
    }

    fn change_focus(&mut self, id: usize) -> (r: Vec<WidgetEvent>)
        requires
            (id as int) < old(self).wsv().len(),
        ensures
            final(self).wsv() == focus_applied(old(self).wsv(), id as int),
            final(self).focus == id,
            r.deep_view() == focus_events_upto(
                old(self).wsv(),
                id as int,
                old(self).wsv().len() as int,
            ),
    {
        let mut events: Vec<WidgetEvent> = Vec::new();
        let n = self.widgets.len();
        let mut i: usize = 0;
        while i < n
            invariant
                i <= n,
                (id as int) < n,
                n == old(self).wsv().len(),
                self.widgets@.len() == n,
                self.focus == old(self).focus,
                forall|k: int| i <= k < n ==> self.wsv()[k] == old(self).wsv()[k],
                forall|k: int|
                    0 <= k < i ==> self.wsv()[k] == wv_set_focused(old(self).wsv()[k], k == id),
                events.deep_view() == focus_events_upto(old(self).wsv(), id as int, i as int),
            decreases n - i,
        {
            let ghost pre_vec = self.widgets@;
            let ghost pre_ws = self.wsv();
            proof {
                assert(self.wsv()[i as int] == old(self).wsv()[i as int]);
            }
            let desired = i == id;
            let was = self.widgets[i].is_focused();
            if was != desired {
                let name = self.widgets[i].get_id().clone();
                self.widgets[i].set_focused(desired);
                events.push(WidgetEvent::FocusChanged { id: name, focus: desired });
                proof {
                    assert(self.widgets@ == pre_vec.update(i as int, self.widgets@[i as int]));
                    assert forall|k: int| 0 <= k < n && k != i implies #[trigger] self.wsv()[k]
                        == pre_ws[k] by {
                        assert(self.widgets@[k] == pre_vec[k]);
                        assert(self.wsv()[k] == pre_vec[k].deep_view());
                        assert(pre_ws[k] == pre_vec[k].deep_view());
                    }
                    assert(self.wsv()[i as int] == wv_set_focused(
                        old(self).wsv()[i as int],
                        i == id,
                    ));
                    assert(events.deep_view() =~= focus_events_upto(
                        old(self).wsv(),
                        id as int,
                        i + 1,
                    ));
                }
            } else {
                proof {
                    crate::widget::lemma_set_focused_identity(old(self).wsv()[i as int], desired);
                    assert(self.wsv()[i as int] == wv_set_focused(
                        old(self).wsv()[i as int],
                        i == id,
                    ));
                }
            }
            i += 1;
        }
        proof {
            assert forall|k: int|
                0 <= k < n implies #[trigger] self.wsv()[k] == focus_applied(
                old(self).wsv(),
                id as int,
            )[k] by {
                assert(self.wsv()[k] == wv_set_focused(old(self).wsv()[k], k == id));
                assert(focus_applied(old(self).wsv(), id as int)[k] == wv_set_focused(
                    old(self).wsv()[k],
                    k == id as int,
                ));
            }
            assert(self.wsv() =~= focus_applied(old(self).wsv(), id as int));
        }
        let ghost done_ws = self.wsv();
        self.focus = id;
        proof {
            assert(self.wsv() == done_ws);
        }
        events
    }

    fn propagate_event(&mut self, e: &InputEvent) -> (r: Vec<WidgetEvent>)
        requires
            old(self).wf(),
        ensures
            final(self).wf(),
            final(self).wsv() == dispatch_spec(old(self).wsv(), old(self).focus as int, e@).0,
            final(self).focus == dispatch_spec(old(self).wsv(), old(self).focus as int, e@).1,
            r.deep_view() == dispatch_spec(old(self).wsv(), old(self).focus as int, e@).2,
    {
        let ghost ws0 = self.wsv();
        let mut events: Vec<WidgetEvent> = Vec::new();
        let mut winner: Option<usize> = None;
        let n = self.widgets.len();
        let mut i: usize = 0;
        while i < n
            invariant
                i <= n,
                n == ws0.len(),
                old(self).wf(),
                ws0 == old(self).wsv(),
                self.widgets@.len() == n,
                self.focus == old(self).focus,
                ({
                    let d = dispatch_upto(ws0, e@, i as int);
                    &&& self.wsv() == d.widgets
                    &&& events.deep_view() == d.events
                    &&& match (winner, d.winner) {
                        (Some(a), Some(b)) => a as int == b && (a as int) < n,
                        (None, None) => true,
                        _ => false,
                    }
                }),
                forall|k: int| 0 <= k < n ==> wv_wf(#[trigger] self.wsv()[k]),
            decreases n - i,
        {
            let ghost pre = self.wsv();
            let ghost pre_vec = self.widgets@;
            proof {
                assert(pre[i as int] == ws0[i as int]) by {
                    lemma_dispatch_upto_suffix(ws0, e@, i as int);
                }
                assert(wv_wf(pre[i as int]));
                assert(self.widgets@[i as int]@ == pre[i as int]);
            }
            let mut evs = self.widgets[i].handle(e);
            let ghost evsv = evs.deep_view();
            let ghost base = events.deep_view();
            proof {
                assert(self.widgets@ == pre_vec.update(i as int, self.widgets@[i as int]));
                assert forall|k: int| 0 <= k < n && k != i implies #[trigger] self.wsv()[k]
                    == pre[k] by {
                    assert(self.widgets@[k] == pre_vec[k]);
                    assert(self.wsv()[k] == pre_vec[k].deep_view());
                    assert(pre[k] == pre_vec[k].deep_view());
                }
                assert(self.wsv()[i as int] == widget_step(ws0[i as int], e@).0);
                assert(self.wsv() =~= dispatch_upto(ws0, e@, i + 1).widgets);
                assert forall|k: int| 0 <= k < n implies wv_wf(#[trigger] self.wsv()[k]) by {
                    if k != i {
                        assert(self.wsv()[k] == pre[k]);
                    }
                }
                assert(evsv.subrange(0, evsv.len() as int) =~= evsv);
                assert(evsv == widget_step(ws0[i as int], e@).1);
            }
            let mut req = false;
            let ghost consumed: int = 0;
            while evs.len() > 0
                invariant
                    0 <= consumed <= evsv.len(),
                    evs.deep_view() == evsv.subrange(consumed, evsv.len() as int),
                    req == requests_focus(evsv.subrange(0, consumed)),
                    events.deep_view() == base + forwarded(evsv.subrange(0, consumed)),
                decreases evs@.len(),
            {
                let ghost pre_evs = evs.deep_view();
                let ghost pre_raw = evs@;
                let ev = evs.remove(0);
                proof {
                    assert(pre_evs.len() == pre_raw.len());
                    assert(0 <= consumed < evsv.len());
                    assert(ev.deep_view() == pre_raw[0].deep_view());
                    assert(pre_evs[0] == pre_raw[0].deep_view());
                    assert(ev.deep_view() == evsv[consumed]);
                    assert forall|k: int| 0 <= k < evs@.len() implies #[trigger] evs.deep_view()[k]
                        == evsv[consumed + 1 + k] by {
                        assert(evs@[k] == pre_raw[k + 1]);
                        assert(evs.deep_view()[k] == evs@[k].deep_view());
                        assert(pre_evs[k + 1] == pre_raw[k + 1].deep_view());
                        assert(pre_evs[k + 1] == evsv[consumed + 1 + k]);
                    }
                    assert(evs.deep_view() =~= evsv.subrange(consumed + 1, evsv.len() as int));
                }
                proof {
                    let done = evsv.subrange(0, consumed + 1);
                    assert(done.drop_last() =~= evsv.subrange(0, consumed));
                    assert(done.last() == evsv[consumed]);
                }
                let is_fc = match &ev {
                    WidgetEvent::FocusChanged { .. } => true,
                    _ => false,
                };
                if is_fc {
                    let f = match &ev {
                        WidgetEvent::FocusChanged { focus, .. } => *focus,
                        _ => false,
                    };
                    if f {
                        req = true;
                    }
                    proof {
                        assert(ev.deep_view() is FocusChanged);
                        assert((ev.deep_view() matches EventV::FocusChanged { focus: true, .. })
                            == f);
                        consumed = consumed + 1;
                        assert(req == requests_focus(evsv.subrange(0, consumed)));
                        assert(forwarded(evsv.subrange(0, consumed)) == forwarded(
                            evsv.subrange(0, consumed - 1),
                        ));
                        assert(events.deep_view() =~= base + forwarded(
                            evsv.subrange(0, consumed),
                        ));
                    }
                } else {
                    let ghost pre_events_raw = events@;
                    let ghost pre_events_deep = events.deep_view();
                    events.push(ev);
                    proof {
                        assert(!(ev.deep_view() is FocusChanged));
                        assert(events@ == pre_events_raw.push(ev));
                        assert forall|k: int|
                            0 <= k < pre_events_raw.len() implies #[trigger] events.deep_view()[k]
                            == pre_events_deep[k] by {
                            assert(events@[k] == pre_events_raw[k]);
                            assert(events.deep_view()[k] == events@[k].deep_view());
                            assert(pre_events_deep[k] == pre_events_raw[k].deep_view());
                        }
                        assert(events.deep_view()[pre_events_raw.len() as int] == ev.deep_view());
                        assert(events.deep_view() =~= pre_events_deep.push(ev.deep_view()));
                        consumed = consumed + 1;
                        assert(req == requests_focus(evsv.subrange(0, consumed)));
                        assert(forwarded(evsv.subrange(0, consumed)) == forwarded(
                            evsv.subrange(0, consumed - 1),
                        ).push(evsv[consumed - 1]));
                        assert(events.deep_view() =~= base + forwarded(
                            evsv.subrange(0, consumed),
                        ));
                    }
                }
            }
            proof {
                assert(evsv.subrange(0, evsv.len() as int) =~= evsv);
            }
            if req {
                winner = Some(i);
            }
            i += 1;
        }
        proof {
            assert(dispatch_upto(ws0, e@, n as int).winner matches Some(b) ==> 0 <= b < n) by {
                lemma_dispatch_upto_winner_range(ws0, e@, n as int);
            }
        }
        match winner {
            Some(idx) => {
                let mut extra = self.change_focus(idx);
                events.append(&mut extra);
                proof {
                    let d = dispatch_upto(ws0, e@, n as int);
                    lemma_focus_applied_exclusive(d.widgets, idx as int);
                    assert forall|k: int|
                        0 <= k < n implies wv_wf(#[trigger] self.wsv()[k]) by {
                        assert(self.wsv()[k] == wv_set_focused(d.widgets[k], k == idx as int));
                        lemma_set_focused_keeps_wf(d.widgets[k], k == idx as int);
                    }
                }
                events
            },
            None => {
                proof {
                    let d = dispatch_upto(ws0, e@, n as int);
                    lemma_dispatch_upto_no_gain(ws0, e@, n as int);
                    assert(at_most_one_focused(self.wsv())) by {
                        assert forall|a: int, b: int|
                            0 <= a < n && 0 <= b < n && wv_focused(self.wsv()[a]) && wv_focused(
                                self.wsv()[b],
                            ) implies a == b by {
                            assert(wv_focused(ws0[a]) && wv_focused(ws0[b]));
                        }
                    }
                }
                events
            },
        }
    }

    /// Mouse-button input, dispatched to every widget in order.
    pub fn on_mouse_button(
        &mut self,
        button: MouseButtonKind,
        state: ButtonState,
        pos: (i32, i32),
    ) -> (r: Vec<WidgetEvent>)
        requires
            old(self).wf(),
        ensures
            final(self).wf(),
            ({
                let e = InputV::MouseButton { button, state, pos };
                let d = dispatch_spec(old(self).wsv(), old(self).focus as int, e);
                &&& final(self).wsv() == d.0
                &&& final(self).focus == d.1
                &&& r.deep_view() == d.2
            }),
    {
        self.propagate_event(&(InputEvent::MouseButton { button, state, pos }))
    }

    /// Mouse-wheel input, dispatched to every widget in order.
    pub fn on_mouse_wheel(&mut self, delta_x: i32, delta_y: i32) -> (r: Vec<WidgetEvent>)
        requires
            old(self).wf(),
        ensures
            final(self).wf(),
            ({
                let e = InputV::MouseWheel { delta_x, delta_y };
                let d = dispatch_spec(old(self).wsv(), old(self).focus as int, e);
                &&& final(self).wsv() == d.0
                &&& final(self).focus == d.1
                &&& r.deep_view() == d.2
            }),
    {
        self.propagate_event(&(InputEvent::MouseWheel { delta_x, delta_y }))
    }

    /// Mouse movement, dispatched to every widget in order.
    pub fn on_mouse_move(&mut self, pos: (i32, i32)) -> (r: Vec<WidgetEvent>)
        requires
            old(self).wf(),
        ensures
            final(self).wf(),
            ({
                let e = InputV::MouseMove { pos };
                let d = dispatch_spec(old(self).wsv(), old(self).focus as int, e);
                &&& final(self).wsv() == d.0
                &&& final(self).focus == d.1
                &&& r.deep_view() == d.2
            }),
    {
        self.propagate_event(&(InputEvent::MouseMove { pos }))
    }

    /// Key input, dispatched to every widget in order.  `clipboard` carries
    /// the clipboard text the host read for this event, if any; a focused
    /// text field pastes it on control-V.
    pub fn on_keyboard_key(&mut self, input: KeyInput, clipboard: Option<String>) -> (r: Vec<
        WidgetEvent,
    >)
        requires
            old(self).wf(),
        ensures
            final(self).wf(),
            ({
                let e = InputV::Key {
                    input,
                    clipboard: match clipboard {
                        Some(s) => Some(s@),
                        None => None::<Seq<char>>,
                    },
                };
                let d = dispatch_spec(old(self).wsv(), old(self).focus as int, e);
                &&& final(self).wsv() == d.0
                &&& final(self).focus == d.1
                &&& r.deep_view() == d.2
            }),
    {
        self.propagate_event(&(InputEvent::Key { input, clipboard }))
    }

    /// A typed character, dispatched to every widget in order.
    pub fn on_keyboard_char(&mut self, ch: char) -> (r: Vec<WidgetEvent>)
        requires
            old(self).wf(),
        ensures
            final(self).wf(),
            ({
                let e = InputV::Char { ch };
                let d = dispatch_spec(old(self).wsv(), old(self).focus as int, e);
                &&& final(self).wsv() == d.0
                &&& final(self).focus == d.1
                &&& r.deep_view() == d.2
            }),
    {
        self.propagate_event(&(InputEvent::Char { ch }))
    }

    /// Moves focus to the next (or previous) widget index, cyclically,
    /// emitting the same focus-change events as any focus grant.  On an
    /// empty collection, or when the step lands where it started, nothing
    /// happens.
    pub fn tab_focus(&mut self, next: bool) -> (r: Vec<WidgetEvent>)
        requires
            old(self).wf(),
        ensures
            final(self).wf(),
            old(self).wsv().len() == 0 ==> *final(self) == *old(self) && r.deep_view()
                == Seq::<EventV>::empty(),
            old(self).wsv().len() > 0 ==> ({
                let len = old(self).wsv().len() as int;
                let new = next_focus(old(self).focus as int, len, next);
                if new == old(self).focus as int {
                    &&& *final(self) == *old(self)
                    &&& r.deep_view() == Seq::<EventV>::empty()
                } else {
                    &&& final(self).wsv() == focus_applied(old(self).wsv(), new)
                    &&& final(self).focus == new
                    &&& r.deep_view() == focus_events_upto(old(self).wsv(), new, len)
                }
            }),
    {
        let len = self.widgets.len();
        if len == 0 {
            let r: Vec<WidgetEvent> = Vec::new();
            proof {
                assert(r.deep_view() =~= Seq::<EventV>::empty());
            }
            return r;
        }
        let prev = self.focus;
        let new = if next {
            if prev + 1 == len {
                0
            } else {
                prev + 1
            }
        } else {
            if prev == 0 {
                len - 1
            } else {
                prev - 1
            }
        };
        if new != prev {
            let r = self.change_focus(new);
            proof {
                lemma_focus_applied_exclusive(old(self).wsv(), new as int);
                assert forall|k: int| 0 <= k < len implies wv_wf(#[trigger] self.wsv()[k]) by {
                    assert(self.wsv()[k] == wv_set_focused(old(self).wsv()[k], k == new as int));
                    lemma_set_focused_keeps_wf(old(self).wsv()[k], k == new as int);
                }
            }
            r
        } else {
            let r: Vec<WidgetEvent> = Vec::new();
            proof {
                assert(r.deep_view() =~= Seq::<EventV>::empty());
            }
            r
        }
    }

    /// The cursor for the given mouse position: widgets are consulted
    /// topmost (last-added) first, and the first that claims the position
    /// decides; the default cursor otherwise.
    pub fn get_cursor(&self, pos: (i32, i32)) -> (r: CursorKind)
        ensures
            r == cursor_from(self.wsv(), pos, self.wsv().len() as int),
    {
        let n = self.widgets.len();
        let mut i: usize = n;
        while i > 0
            invariant
                i <= n,
                n == self.wsv().len(),
                cursor_from(self.wsv(), pos, n as int) == cursor_from(self.wsv(), pos, i as int),
            decreases i,
        {
            i -= 1;
            if self.widgets[i].is_mouse_over(pos) {
                match self.widgets[i].get_cursor(pos) {
                    Some(c) => {
                        return c;
                    },
                    None => {},
                }
            }
        }
        CursorKind::Default
    }
}

/// Stepping a widget keeps its own invariant; setting its focus flag does
/// too.
pub proof fn lemma_set_focused_keeps_wf(w: WidgetV, f: bool)
    ensures
        wv_wf(wv_set_focused(w, f)) == wv_wf(w),
{
}

/// Widgets past `n` are untouched by a dispatch over the first `n`.
proof fn lemma_dispatch_upto_suffix(ws: Seq<WidgetV>, e: InputV, n: int)
    requires
        0 <= n <= ws.len(),
    ensures
        dispatch_upto(ws, e, n).widgets.len() == ws.len(),
        forall|k: int| n <= k < ws.len() ==> dispatch_upto(ws, e, n).widgets[k] == ws[k],
    decreases n,
{
    if n > 0 {
        lemma_dispatch_upto_suffix(ws, e, n - 1);
    }
}

/// A dispatch winner is a valid widget index.
proof fn lemma_dispatch_upto_winner_range(ws: Seq<WidgetV>, e: InputV, n: int)
    requires
        n <= ws.len(),
    ensures
        dispatch_upto(ws, e, n).winner matches Some(b) ==> 0 <= b < n,
    decreases n,
{
    if n > 0 {
        lemma_dispatch_upto_winner_range(ws, e, n - 1);
    }
}

/// Dispatching never grants focus: a widget focused afterwards was focused
/// before.
proof fn lemma_dispatch_upto_no_gain(ws: Seq<WidgetV>, e: InputV, n: int)
    requires
        0 <= n <= ws.len(),
    ensures
        forall|k: int|
            0 <= k < ws.len() && wv_focused(#[trigger] dispatch_upto(ws, e, n).widgets[k])
                ==> wv_focused(ws[k]),
    decreases n,
{
    if n > 0 {
        lemma_dispatch_upto_no_gain(ws, e, n - 1);
        crate::widget::lemma_widget_step_no_focus_gain(ws[n - 1], e);
        lemma_dispatch_upto_suffix(ws, e, n - 1);
        assert forall|k: int|
            0 <= k < ws.len() && wv_focused(#[trigger] dispatch_upto(ws, e, n).widgets[k]) implies
            wv_focused(ws[k]) by {
            if k == n - 1 {
                assert(dispatch_upto(ws, e, n).widgets[k] == widget_step(ws[n - 1], e).0);
            } else {
                assert(dispatch_upto(ws, e, n).widgets[k] == dispatch_upto(ws, e, n - 1).widgets[k]);
            }
        }
    }
}

} // verus!
