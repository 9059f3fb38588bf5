use vstd::prelude::*;
use crate::mouse::Rect;
use crate::period::Period;

verus! {

/// The longest wait for input when nothing is drawn and no chord waits.
pub open spec fn idle_wait_spec() -> Period {
    Period { nanos: 10_000_000_000 }
}

/// How long the event loop waits for input. After a drawn frame it waits for
/// the rest of the frame budget, or less where a chord times out sooner;
/// otherwise it waits for the chord's timeout, or ten seconds.
pub open spec fn wait_spec(drew: bool, frame_budget: Period, elapsed: Period, chord_left: Option<Period>) -> Period {
    if drew {
        let rest = if frame_budget.nanos >= elapsed.nanos { (frame_budget.nanos - elapsed.nanos) as u128 } else { 0u128 };
        match chord_left {
            Some(c) => Period { nanos: if c.nanos <= rest { c.nanos } else { rest } },
            None => Period { nanos: rest },
        }
    } else {
        match chord_left {
            Some(c) => c,
            None => idle_wait_spec(),
        }
    }
}

/// How long the event loop waits for input (see [`wait_spec`]).
/// `elapsed` is the time since the frame began; `chord_left` the time left
/// before the chord under way times out, if one is.
pub fn wait_timeout(drew: bool, frame_budget: Period, elapsed: Period, chord_left: Option<Period>) -> (r: Period)
    ensures
        r == wait_spec(drew, frame_budget, elapsed, chord_left),
{
    if drew {
        let rest = frame_budget.saturating_sub(elapsed);
        match chord_left {
            Some(c) => c.min(rest),
            None => rest,
        }
    } else {
        match chord_left {
            Some(c) => c,
            None => Period::from_secs(10),
        }
    }
}

/// The areas of `prev` that `cur` no longer holds, in order: overlays that
/// went away, whose cells must be cleared.
pub open spec fn vanished_spec(prev: Seq<Rect>, cur: Seq<Rect>) -> Seq<Rect> {
    prev.filter(|r: Rect| !cur.contains(r))
}

fn holds_rect(v: &[Rect], r: Rect) -> (b: bool)
    ensures
        b == v@.contains(r),
{
    let mut i: usize = 0;
    while i < v.len()
        invariant
            i <= v@.len(),
            forall|j: int| 0 <= j < i ==> v@[j] != r,
        decreases v.len() - i,
    {
        if v[i] == r {
            return true;
        }
        i = i + 1;
    }
    false
}

/// The overlays of the last frame that this frame no longer draws.
pub fn vanished_overlays(prev: &[Rect], cur: &[Rect]) -> (r: Vec<Rect>)
    ensures
        r@ == vanished_spec(prev@, cur@),
{
    let mut out: Vec<Rect> = Vec::new();
    let mut i: usize = 0;
    while i < prev.len()
        invariant
            i <= prev@.len(),
            out@ == vanished_spec(prev@.subrange(0, i as int), cur@),
        decreases prev.len() - i,
    {
        let r = prev[i];
        proof {
            let s = prev@.subrange(0, i + 1);
            assert(s.drop_last() =~= prev@.subrange(0, i as int));
            reveal(Seq::filter);
        }
        if !holds_rect(cur, r) {
            out.push(r);
        }
        i = i + 1;
    }
    assert(prev@.subrange(0, i as int) =~= prev@);
    out
}

/// Whether the event loop draws a frame, and when it must draw the next one
/// whatever changed.
pub struct LoopState {
    pub force_render: bool,
}

impl LoopState {
    /// The first frame is always drawn.
    pub fn new() -> (r: LoopState)
        ensures
            r.force_render,
    {
        LoopState { force_render: true }
    }

    /// Whether this frame is drawn: where it is forced, a redraw was asked
    /// for, the mouse state changed, or a slot that rendering read changed.
    /// The force is spent.
    pub fn begin_frame(&mut self, redraw: bool, mouse_changed: bool, render_dirty: bool) -> (draw: bool)
        ensures
            draw == (old(self).force_render || redraw || mouse_changed || render_dirty),
            !final(self).force_render,
    {
        let draw = self.force_render || redraw || mouse_changed || render_dirty;
        self.force_render = false;
        draw
    }

    /// After the wait: a chord that ended while waiting forces a frame.
    pub fn after_wait(&mut self, chord_was_pending: bool, chord_pending: bool)
        ensures
            final(self).force_render == (old(self).force_render || (chord_was_pending && !chord_pending)),
    {
        if chord_was_pending && !chord_pending {
            self.force_render = true;
        }
    }

    /// After an input event: any event but a mouse event forces a frame.
    pub fn after_event(&mut self, is_mouse: bool)
        ensures
            final(self).force_render == (old(self).force_render || !is_mouse),
    {
        if !is_mouse {
            self.force_render = true;
        }
    }
}


/// What a cached component does this frame.
#[derive(Debug, Clone, Copy, PartialEq, Eq, Structural)]
pub enum RenderPlan {
    /// Nothing changed and nothing was declared: only mark its focus present.
    Present,
    /// Nothing changed: mark its focus present and replay the mouse regions,
    /// overlays and children that its last render declared.
    Replay,
    /// Render it again, clearing its area first where asked.
    Redraw { clear: bool },
}

/// What a cached component does: it is drawn again where a slot it or a
/// child read changed, its mouse regions changed, its area was wiped or
/// moved; its area is cleared first where a slot it read changed or the
/// area was wiped. Otherwise its last render stands.
pub open spec fn render_plan_spec(
    own_dirty: bool,
    child_dirty: bool,
    mouse_dirty: bool,
    wiped: bool,
    same_area: bool,
    declared: bool,
) -> RenderPlan {
    if !own_dirty && !child_dirty && !mouse_dirty && !wiped && same_area {
        if declared { RenderPlan::Replay } else { RenderPlan::Present }
    } else {
        RenderPlan::Redraw { clear: own_dirty || wiped }
    }
}

/// What a cached component does this frame (see [`render_plan_spec`]);
/// `declared` tells that its last render declared mouse regions, overlays
/// or children.
pub fn render_plan(own_dirty: bool, child_dirty: bool, mouse_dirty: bool, wiped: bool, same_area: bool, declared: bool) -> (r: RenderPlan)
    ensures
        r == render_plan_spec(own_dirty, child_dirty, mouse_dirty, wiped, same_area, declared),
{
    if !own_dirty && !child_dirty && !mouse_dirty && !wiped && same_area {
        if declared {
            RenderPlan::Replay
        } else {
            RenderPlan::Present
        }
    } else {
        RenderPlan::Redraw { clear: own_dirty || wiped }
    }
}


/// After a drawn frame the loop waits no longer than the rest of the frame
/// budget (nothing where the budget is spent) nor than the chord under way
/// has left, and as long as the sooner of the two allows; with no frame
/// drawn it waits for the chord's timeout, or ten seconds with no chord.
pub proof fn law_wait_is_sooner_deadline(drew: bool, frame_budget: Period, elapsed: Period, chord_left: Option<Period>)
    ensures
        drew && frame_budget.nanos >= elapsed.nanos ==> wait_spec(drew, frame_budget, elapsed, chord_left).nanos + elapsed.nanos <= frame_budget.nanos,
        drew && frame_budget.nanos < elapsed.nanos ==> wait_spec(drew, frame_budget, elapsed, chord_left).nanos == 0,
        drew ==> (chord_left matches Some(c) ==> wait_spec(drew, frame_budget, elapsed, chord_left).nanos <= c.nanos),
        drew ==> {
            ||| wait_spec(drew, frame_budget, elapsed, chord_left).nanos + elapsed.nanos == frame_budget.nanos
            ||| frame_budget.nanos < elapsed.nanos
            ||| chord_left matches Some(c) && wait_spec(drew, frame_budget, elapsed, chord_left) == c
        },
        !drew ==> (chord_left matches Some(c) ==> wait_spec(drew, frame_budget, elapsed, chord_left) == c),
        !drew && chord_left is None ==> wait_spec(drew, frame_budget, elapsed, chord_left).nanos == 10_000_000_000,
{
}

/// The overlays to clear are exactly those of the last frame that this
/// frame does not draw, and there are no more of them than there were.
pub proof fn law_vanished_are_gone(prev: Seq<Rect>, cur: Seq<Rect>, r: Rect)
    ensures
        vanished_spec(prev, cur).contains(r) <==> (prev.contains(r) && !cur.contains(r)),
        vanished_spec(prev, cur).len() <= prev.len(),
{
    let pred = |x: Rect| !cur.contains(x);
    let v = vanished_spec(prev, cur);
    assert(v == prev.filter(pred));
    prev.lemma_filter_len(pred);
    if v.contains(r) {
        prev.lemma_filter_contains_rev(pred, r);
        let i = choose|i: int| 0 <= i < v.len() && v[i] == r;
        prev.lemma_filter_pred(pred, i);
    }
    if prev.contains(r) && !cur.contains(r) {
        let i = choose|i: int| 0 <= i < prev.len() && prev[i] == r;
        prev.lemma_filter_contains(pred, i);
    }
}

/// A cached component is drawn again exactly when a slot it or a child read
/// changed, its mouse regions changed, or its area was wiped or moved; its
/// area is then cleared exactly when a slot it read changed or the area was
/// wiped. Otherwise its last render is replayed where it declared anything.
pub proof fn law_render_plan_redraws_on_change(
    own_dirty: bool,
    child_dirty: bool,
    mouse_dirty: bool,
    wiped: bool,
    same_area: bool,
    declared: bool,
)
    ensures
        render_plan_spec(own_dirty, child_dirty, mouse_dirty, wiped, same_area, declared) is Redraw
            <==> (own_dirty || child_dirty || mouse_dirty || wiped || !same_area),
        render_plan_spec(own_dirty, child_dirty, mouse_dirty, wiped, same_area, declared) matches RenderPlan::Redraw { clear }
            ==> clear == (own_dirty || wiped),
        render_plan_spec(own_dirty, child_dirty, mouse_dirty, wiped, same_area, declared) == RenderPlan::Replay
            <==> (!own_dirty && !child_dirty && !mouse_dirty && !wiped && same_area && declared),
        render_plan_spec(own_dirty, child_dirty, mouse_dirty, wiped, same_area, declared) == RenderPlan::Present
            <==> (!own_dirty && !child_dirty && !mouse_dirty && !wiped && same_area && !declared),
{
}

} // verus!
