use vstd::prelude::*;
use crate::mods::EventModifiers;

verus! {

/// The identity of a focusable element or mouse region.
pub type FocusId = u64;

/// The identity of a component.
pub type OwnerId = u64;

/// The identity of a focus trap that captures the mouse.
pub type CaptureId = u64;

/// A rectangle of terminal cells.
#[derive(Debug, Clone, Copy, PartialEq, Eq, Hash, Default, Structural)]
pub struct Rect {
    pub x: u16,
    pub y: u16,
    pub width: u16,
    pub height: u16,
}

/// A mouse button.
#[derive(Debug, Clone, Copy, PartialEq, Eq, Hash, Structural)]
pub enum MouseButton {
    Left,
    Right,
    Middle,
}

/// What the mouse did.
#[derive(Debug, Clone, Copy, PartialEq, Eq, Hash, Structural)]
pub enum MouseEventKind {
    Down(MouseButton),
    Up(MouseButton),
    Drag(MouseButton),
    Moved,
    ScrollDown,
    ScrollUp,
    ScrollLeft,
    ScrollRight,
}

/// A mouse event as the terminal reports it.
#[derive(Debug, Clone, Copy, PartialEq, Eq, Hash, Structural)]
pub struct MouseEvent {
    pub kind: MouseEventKind,
    pub column: u16,
    pub row: u16,
    pub modifiers: EventModifiers,
}

/// Where the mouse is, with the modifiers held.
#[derive(Debug, Clone, Copy, PartialEq, Eq, Hash, Structural)]
pub struct Pos {
    pub column: u16,
    pub row: u16,
    pub modifiers: EventModifiers,
}

/// A scroll step: one cell along one axis.
#[derive(Debug, Clone, Copy, PartialEq, Eq, Hash, Structural)]
pub struct Scroll {
    pub delta_x: i16,
    pub delta_y: i16,
}

/// `a + b`, held at `u16::MAX`.
pub open spec fn sat_add(a: u16, b: u16) -> int {
    if a + b > u16::MAX { u16::MAX as int } else { a + b }
}

impl Pos {
    pub fn from_event(event: &MouseEvent) -> (r: Pos)
        ensures
            r == (Pos { column: event.column, row: event.row, modifiers: event.modifiers }),
    {
        Pos { column: event.column, row: event.row, modifiers: event.modifiers }
    }
}

/// What a region's handlers are bound to: actions of type `A`.
pub struct Region<A> {
    pub id: FocusId,
    pub area: Rect,
    pub owner_id: Option<OwnerId>,
    pub capture_id: Option<CaptureId>,
    pub focus_on_click: bool,
    pub wants_hover: bool,
    pub clicks: Vec<(MouseButton, A)>,
    pub presses: Vec<(MouseButton, A)>,
    pub releases: Vec<(MouseButton, A)>,
    pub scroll: Option<A>,
}

/// `pos` lies inside `area`.
pub open spec fn contains_spec(area: Rect, pos: Pos) -> bool {
    &&& pos.column >= area.x
    &&& pos.column < sat_add(area.x, area.width)
    &&& pos.row >= area.y
    &&& pos.row < sat_add(area.y, area.height)
}

/// The action of the first handler of `button`.
pub open spec fn button_action_spec<A>(actions: Seq<(MouseButton, A)>, button: MouseButton) -> Option<A>
    decreases actions.len(),
{
    if actions.len() == 0 {
        None
    } else if actions[0].0 == button {
        Some(actions[0].1)
    } else {
        button_action_spec(actions.drop_first(), button)
    }
}

/// A region may be hit: either no trap captures the mouse, or the region
/// belongs to the trap that does.
pub open spec fn capture_allows_spec(region_capture: Option<CaptureId>, active_capture: Option<CaptureId>) -> bool {
    match active_capture {
        Some(active) => region_capture == Some(active),
        None => true,
    }
}

impl<A: Copy> Region<A> {
    /// A region of `area` with no handlers.
    pub fn new(id: FocusId, area: Rect) -> (r: Region<A>)
        ensures
            r.id == id,
            r.area == area,
            r.owner_id is None,
            r.capture_id is None,
            !r.focus_on_click,
            !r.wants_hover,
            r.clicks@ == Seq::<(MouseButton, A)>::empty(),
            r.presses@ == Seq::<(MouseButton, A)>::empty(),
            r.releases@ == Seq::<(MouseButton, A)>::empty(),
            r.scroll is None,
    {
        Region {
            id,
            area,
            owner_id: None,
            capture_id: None,
            focus_on_click: false,
            wants_hover: false,
            clicks: Vec::new(),
            presses: Vec::new(),
            releases: Vec::new(),
            scroll: None,
        }
    }

    pub fn id(&self) -> (r: FocusId)
        ensures
            r == self.id,
    {
        self.id
    }

    /// Clicking the region focuses it.
    pub fn focus_on_click(&mut self)
        ensures
            *final(self) == (Region { focus_on_click: true, ..*old(self) }),
    {
        self.focus_on_click = true;
    }

    /// The region takes part in hover tracking.
    pub fn wants_hover(&mut self)
        ensures
            *final(self) == (Region { wants_hover: true, ..*old(self) }),
    {
        self.wants_hover = true;
    }

    /// Adds a click handler of `button`; the first handler of a button wins.
    pub fn on_click(&mut self, button: MouseButton, handler: A)
        ensures
            final(self).clicks@ == old(self).clicks@.push((button, handler)),
            final(self).presses == old(self).presses,
            final(self).releases == old(self).releases,
            final(self).scroll == old(self).scroll,
            final(self).id == old(self).id,
            final(self).area == old(self).area,
            final(self).owner_id == old(self).owner_id,
            final(self).capture_id == old(self).capture_id,
            final(self).focus_on_click == old(self).focus_on_click,
            final(self).wants_hover == old(self).wants_hover,
    {
        self.clicks.push((button, handler));
    }

    /// Adds a press handler of `button`; the first handler of a button wins.
    pub fn on_press(&mut self, button: MouseButton, handler: A)
        ensures
            final(self).presses@ == old(self).presses@.push((button, handler)),
            final(self).clicks == old(self).clicks,
            final(self).releases == old(self).releases,
            final(self).scroll == old(self).scroll,
            final(self).id == old(self).id,
            final(self).area == old(self).area,
            final(self).owner_id == old(self).owner_id,
            final(self).capture_id == old(self).capture_id,
            final(self).focus_on_click == old(self).focus_on_click,
            final(self).wants_hover == old(self).wants_hover,
    {
        self.presses.push((button, handler));
    }

    /// Adds a release handler of `button`; the first handler of a button wins.
    pub fn on_release(&mut self, button: MouseButton, handler: A)
        ensures
            final(self).releases@ == old(self).releases@.push((button, handler)),
            final(self).clicks == old(self).clicks,
            final(self).presses == old(self).presses,
            final(self).scroll == old(self).scroll,
            final(self).id == old(self).id,
            final(self).area == old(self).area,
            final(self).owner_id == old(self).owner_id,
            final(self).capture_id == old(self).capture_id,
            final(self).focus_on_click == old(self).focus_on_click,
            final(self).wants_hover == old(self).wants_hover,
    {
        self.releases.push((button, handler));
    }

    /// Sets the scroll handler, replacing an earlier one.
    pub fn on_scroll(&mut self, handler: A)
        ensures
            final(self).scroll == Some(handler),
            final(self).clicks == old(self).clicks,
            final(self).presses == old(self).presses,
            final(self).releases == old(self).releases,
            final(self).id == old(self).id,
            final(self).area == old(self).area,
            final(self).owner_id == old(self).owner_id,
            final(self).capture_id == old(self).capture_id,
            final(self).focus_on_click == old(self).focus_on_click,
            final(self).wants_hover == old(self).wants_hover,
    {
        self.scroll = Some(handler);
    }

    /// Records the component that owns the region and the trap it belongs to.
    pub fn attach_runtime(&mut self, owner_id: Option<OwnerId>, capture_id: Option<CaptureId>)
        ensures
            *final(self) == (Region { owner_id, capture_id, ..*old(self) }),
    {
        self.owner_id = owner_id;
        self.capture_id = capture_id;
    }

    /// Whether `pos` lies inside the region.
    pub fn contains(&self, pos: Pos) -> (r: bool)
        ensures
            r == contains_spec(self.area, pos),
    {
        pos.column >= self.area.x && pos.column < self.area.x.saturating_add(self.area.width)
            && pos.row >= self.area.y && pos.row < self.area.y.saturating_add(self.area.height)
    }

    fn button_action(actions: &Vec<(MouseButton, A)>, button: MouseButton) -> (r: Option<A>)
        ensures
            r == button_action_spec(actions@, button),
    {
        let mut i: usize = 0;
        assert(actions@.subrange(0, actions@.len() as int) =~= actions@);
        while i < actions.len()
            invariant
                i <= actions@.len(),
                button_action_spec(actions@, button) == button_action_spec(actions@.subrange(i as int, actions@.len() as int), button),
            decreases actions.len() - i,
        {
            let ghost rest = actions@.subrange(i as int, actions@.len() as int);
            if actions[i].0 == button {
                return Some(actions[i].1);
            }
            assert(rest.drop_first() =~= actions@.subrange(i + 1, actions@.len() as int));
            i = i + 1;
        }
        None
    }

    /// The action of the first press handler of `button`.
    pub fn press_action(&self, button: MouseButton) -> (r: Option<A>)
        ensures
            r == button_action_spec(self.presses@, button),
    {
        Self::button_action(&self.presses, button)
    }

    /// The action of the first release handler of `button`.
    pub fn release_action(&self, button: MouseButton) -> (r: Option<A>)
        ensures
            r == button_action_spec(self.releases@, button),
    {
        Self::button_action(&self.releases, button)
    }

    /// The action of the first click handler of `button`.
    pub fn click_action(&self, button: MouseButton) -> (r: Option<A>)
        ensures
            r == button_action_spec(self.clicks@, button),
    {
        Self::button_action(&self.clicks, button)
    }

    /// Whether a click of `button` matters to the region.
    pub fn has_click_interest(&self, button: MouseButton) -> (r: bool)
        ensures
            r == (self.focus_on_click || button_action_spec(self.clicks@, button) is Some),
    {
        self.focus_on_click || Self::button_action(&self.clicks, button).is_some()
    }
}


/// What a mouse event asks to run.
#[derive(Debug)]
pub enum DispatchResult<A> {
    /// Nothing to run.
    Nothing,
    Single(A),
    Multiple(Vec<A>),
    /// Run the scroll handler with this step.
    ScrollBy(A, Scroll),
}

/// The spec view of a [`DispatchResult`].
pub enum DispatchView<A> {
    Nothing,
    Single(A),
    Multiple(Seq<A>),
    ScrollBy(A, Scroll),
}

impl<A> DispatchResult<A> {
    pub open spec fn view(&self) -> DispatchView<A> {
        match self {
            DispatchResult::Nothing => DispatchView::Nothing,
            DispatchResult::Single(a) => DispatchView::Single(*a),
            DispatchResult::Multiple(v) => DispatchView::Multiple(v@),
            DispatchResult::ScrollBy(a, s) => DispatchView::ScrollBy(*a, *s),
        }
    }
}

/// The region that a button went down on, and the button.
#[derive(Debug, Clone, Copy, PartialEq, Eq, Structural)]
pub struct PressedRegion {
    pub id: FocusId,
    pub button: MouseButton,
}

/// The spec view of [`Regions`].
pub struct RegionsView<A> {
    pub regions: Seq<Region<A>>,
    pub latest: Option<Pos>,
    pub hovered: Option<FocusId>,
    pub pressed: Option<PressedRegion>,
    pub last_owner: Option<OwnerId>,
}

/// The region may take `pos` under `active`.
pub open spec fn hits<A>(r: Region<A>, pos: Pos, active: Option<CaptureId>) -> bool {
    capture_allows_spec(r.capture_id, active) && contains_spec(r.area, pos)
}

/// The topmost (last registered) region that `pos` hits.
pub open spec fn hit_spec<A>(s: Seq<Region<A>>, pos: Pos, active: Option<CaptureId>) -> Option<int>
    decreases s.len(),
{
    if s.len() == 0 {
        None
    } else if hits(s.last(), pos, active) {
        Some(s.len() - 1)
    } else {
        hit_spec(s.drop_last(), pos, active)
    }
}

/// The topmost region that tracks hover and that `pos` hits.
pub open spec fn hover_spec<A>(s: Seq<Region<A>>, pos: Pos, active: Option<CaptureId>) -> Option<int>
    decreases s.len(),
{
    if s.len() == 0 {
        None
    } else if s.last().wants_hover && hits(s.last(), pos, active) {
        Some(s.len() - 1)
    } else {
        hover_spec(s.drop_last(), pos, active)
    }
}

/// The first region with the identity `id`.
pub open spec fn first_with_id<A>(s: Seq<Region<A>>, id: FocusId) -> Option<int>
    decreases s.len(),
{
    if s.len() == 0 {
        None
    } else if s[0].id == id {
        Some(0)
    } else {
        match first_with_id(s.drop_first(), id) {
            Some(j) => Some(j + 1),
            None => None,
        }
    }
}

proof fn lemma_hit_bound<A>(s: Seq<Region<A>>, pos: Pos, active: Option<CaptureId>)
    ensures
        hit_spec(s, pos, active) matches Some(i) ==> 0 <= i < s.len(),
        hover_spec(s, pos, active) matches Some(i) ==> 0 <= i < s.len(),
    decreases s.len(),
{
    if s.len() > 0 {
        lemma_hit_bound(s.drop_last(), pos, active);
    }
}

proof fn lemma_first_bound<A>(s: Seq<Region<A>>, id: FocusId)
    ensures
        first_with_id(s, id) matches Some(i) ==> 0 <= i < s.len() && s[i].id == id,
    decreases s.len(),
{
    if s.len() > 0 {
        lemma_first_bound(s.drop_first(), id);
    }
}

/// The region hovered at the latest position.
pub open spec fn hovered_spec<A>(v: RegionsView<A>, active: Option<CaptureId>) -> Option<FocusId> {
    match v.latest {
        Some(pos) => match hover_spec(v.regions, pos, active) {
            Some(i) => Some(v.regions[i].id),
            None => None,
        },
        None => None,
    }
}

/// The owner of the first region with the identity `id`.
pub open spec fn owner_of_spec<A>(s: Seq<Region<A>>, id: Option<FocusId>) -> Option<OwnerId> {
    match id {
        Some(id) => match first_with_id(s, id) {
            Some(j) => s[j].owner_id,
            None => None,
        },
        None => None,
    }
}

/// Hover recomputed: whether it changed, and the new state. The hovered
/// owner is recorded only when the hovered region changes.
pub open spec fn recompute_spec<A>(v: RegionsView<A>, active: Option<CaptureId>) -> (bool, RegionsView<A>) {
    let h = hovered_spec(v, active);
    if v.hovered == h {
        (false, v)
    } else {
        (true, RegionsView { hovered: h, last_owner: owner_of_spec(v.regions, h), ..v })
    }
}

/// The actions of an optional action.
pub open spec fn opt_seq<A>(a: Option<A>) -> Seq<A> {
    match a {
        Some(a) => seq![a],
        None => Seq::empty(),
    }
}

/// A scroll step dispatched to the scroll handler of the region hit.
pub open spec fn scroll_spec<A>(v: RegionsView<A>, pos: Pos, active: Option<CaptureId>, step: Scroll) -> DispatchView<A> {
    match hit_spec(v.regions, pos, active) {
        Some(i) => match v.regions[i].scroll {
            Some(h) => DispatchView::ScrollBy(h, step),
            None => DispatchView::Nothing,
        },
        None => DispatchView::Nothing,
    }
}

/// What a mouse event does: what it asks to run, whether hover changed, the
/// region to focus, and the new state.
///
/// A button going up on the region it went down on, with the same button, is
/// a click: the release action and then the click action run, and a region
/// that focuses on click is focused.
pub open spec fn dispatch_spec<A>(v: RegionsView<A>, event: MouseEvent, active: Option<CaptureId>) -> (DispatchView<A>, bool, Option<FocusId>, RegionsView<A>) {
    let pos = Pos { column: event.column, row: event.row, modifiers: event.modifiers };
    let v1 = RegionsView { latest: Some(pos), ..v };
    match event.kind {
        MouseEventKind::Moved | MouseEventKind::Drag(_) => {
            let (changed, v2) = recompute_spec(v1, active);
            (DispatchView::Nothing, changed, None, v2)
        },
        MouseEventKind::Down(b) => match hit_spec(v1.regions, pos, active) {
            Some(i) => {
                let r = v1.regions[i];
                let v2 = RegionsView { pressed: Some(PressedRegion { id: r.id, button: b }), ..v1 };
                match button_action_spec(r.presses@, b) {
                    Some(a) => (DispatchView::Single(a), false, None, v2),
                    None => (DispatchView::Nothing, false, None, v2),
                }
            },
            None => (DispatchView::Nothing, false, None, v1),
        },
        MouseEventKind::Up(b) => {
            let v2 = RegionsView { pressed: None, ..v1 };
            match hit_spec(v1.regions, pos, active) {
                Some(i) => {
                    let r = v1.regions[i];
                    let rel = button_action_spec(r.releases@, b);
                    if v.pressed == Some(PressedRegion { id: r.id, button: b }) {
                        let focus = if r.focus_on_click { Some(r.id) } else { None };
                        let actions = opt_seq(rel) + opt_seq(button_action_spec(r.clicks@, b));
                        if actions.len() == 0 && r.focus_on_click {
                            (DispatchView::Nothing, false, focus, v2)
                        } else {
                            (DispatchView::Multiple(actions), false, focus, v2)
                        }
                    } else {
                        match rel {
                            Some(a) => (DispatchView::Single(a), false, None, v2),
                            None => (DispatchView::Nothing, false, None, v2),
                        }
                    }
                },
                None => (DispatchView::Nothing, false, None, v2),
            }
        },
        MouseEventKind::ScrollUp => (scroll_spec(v1, pos, active, Scroll { delta_x: 0, delta_y: 1 }), false, None, v1),
        MouseEventKind::ScrollDown => (scroll_spec(v1, pos, active, Scroll { delta_x: 0, delta_y: -1i16 }), false, None, v1),
        MouseEventKind::ScrollLeft => (scroll_spec(v1, pos, active, Scroll { delta_x: -1i16, delta_y: 0 }), false, None, v1),
        MouseEventKind::ScrollRight => (scroll_spec(v1, pos, active, Scroll { delta_x: 1, delta_y: 0 }), false, None, v1),
    }
}

/// The mouse regions of a frame, with hover and press state.
pub struct Regions<A> {
    regions: Vec<Region<A>>,
    latest_position: Option<Pos>,
    hovered: Option<FocusId>,
    pressed: Option<PressedRegion>,
    last_hovered_owner: Option<OwnerId>,
}

impl<A: Copy> Regions<A> {
    pub closed spec fn view(&self) -> RegionsView<A> {
        RegionsView {
            regions: self.regions@,
            latest: self.latest_position,
            hovered: self.hovered,
            pressed: self.pressed,
            last_owner: self.last_hovered_owner,
        }
    }

    /// No regions, nothing hovered or pressed.
    pub fn new() -> (r: Regions<A>)
        ensures
            r.view() == (RegionsView::<A> { regions: Seq::empty(), latest: None, hovered: None, pressed: None, last_owner: None }),
    {
        let r = Regions {
            regions: Vec::new(),
            latest_position: None,
            hovered: None,
            pressed: None,
            last_hovered_owner: None,
        };
        assert(r.view().regions =~= Seq::<Region<A>>::empty());
        r
    }

    /// Drops the regions of the last frame; hover and press state stay.
    pub fn begin_frame(&mut self)
        ensures
            final(self).view() == (RegionsView { regions: Seq::<Region<A>>::empty(), ..old(self).view() }),
    {
        self.regions.clear();
        assert(self.view().regions =~= Seq::<Region<A>>::empty());
    }

    /// Adds a region on top of those registered before.
    pub fn register_region(&mut self, region: Region<A>)
        ensures
            final(self).view() == (RegionsView { regions: old(self).view().regions.push(region), ..old(self).view() }),
    {
        self.regions.push(region);
    }

    pub fn is_hovered(&self, id: FocusId) -> (r: bool)
        ensures
            r == (self.view().hovered == Some(id)),
    {
        match self.hovered {
            Some(h) => h == id,
            None => false,
        }
    }

    pub fn region_count(&self) -> (r: usize)
        ensures
            r == self.view().regions.len(),
    {
        self.regions.len()
    }

    /// The owner of the hovered region, as a set of at most one.
    pub fn hovered_owner_ids(&self) -> (r: Vec<OwnerId>)
        ensures
            r@ == opt_seq(self.view().last_owner),
    {
        let mut r: Vec<OwnerId> = Vec::new();
        if let Some(o) = self.last_hovered_owner {
            r.push(o);
        }
        assert(r@ =~= opt_seq(self.view().last_owner));
        r
    }

    fn hit_region(&self, pos: Pos, active_capture: Option<CaptureId>) -> (r: Option<usize>)
        ensures
            match r {
                Some(i) => hit_spec(self.view().regions, pos, active_capture) == Some(i as int),
                None => hit_spec(self.view().regions, pos, active_capture) is None,
            },
    {
        let mut i: usize = self.regions.len();
        assert(self.regions@.subrange(0, i as int) =~= self.regions@);
        while i > 0
            invariant
                i <= self.regions@.len(),
                hit_spec(self.regions@, pos, active_capture) == hit_spec(self.regions@.subrange(0, i as int), pos, active_capture),
            decreases i,
        {
            let ghost pre = self.regions@.subrange(0, i as int);
            i = i - 1;
            let region = &self.regions[i];
            assert(pre.last() == self.regions@[i as int]);
            if Self::capture_allows(region.capture_id, active_capture) && region.contains(pos) {
                return Some(i);
            }
            assert(pre.drop_last() =~= self.regions@.subrange(0, i as int));
        }
        None
    }

    fn hover_region(&self, pos: Pos, active_capture: Option<CaptureId>) -> (r: Option<usize>)
        ensures
            match r {
                Some(i) => hover_spec(self.view().regions, pos, active_capture) == Some(i as int),
                None => hover_spec(self.view().regions, pos, active_capture) is None,
            },
    {
        let mut i: usize = self.regions.len();
        assert(self.regions@.subrange(0, i as int) =~= self.regions@);
        while i > 0
            invariant
                i <= self.regions@.len(),
                hover_spec(self.regions@, pos, active_capture) == hover_spec(self.regions@.subrange(0, i as int), pos, active_capture),
            decreases i,
        {
            let ghost pre = self.regions@.subrange(0, i as int);
            i = i - 1;
            let region = &self.regions[i];
            assert(pre.last() == self.regions@[i as int]);
            if region.wants_hover && Self::capture_allows(region.capture_id, active_capture) && region.contains(pos) {
                return Some(i);
            }
            assert(pre.drop_last() =~= self.regions@.subrange(0, i as int));
        }
        None
    }

    fn owner_of(&self, id: FocusId) -> (r: Option<OwnerId>)
        ensures
            r == owner_of_spec(self.view().regions, Some(id)),
    {
        let mut i: usize = 0;
        assert(self.regions@.subrange(0, self.regions@.len() as int) =~= self.regions@);
        while i < self.regions.len()
            invariant
                i <= self.regions@.len(),
                first_with_id(self.regions@, id) == match first_with_id(self.regions@.subrange(i as int, self.regions@.len() as int), id) {
                    Some(j) => Some(j + i),
                    None => None,
                },
            decreases self.regions.len() - i,
        {
            let ghost rest = self.regions@.subrange(i as int, self.regions@.len() as int);
            if self.regions[i].id == id {
                assert(rest[0] == self.regions@[i as int]);
                return self.regions[i].owner_id;
            }
            assert(rest.drop_first() =~= self.regions@.subrange(i + 1, self.regions@.len() as int));
            i = i + 1;
        }
        assert(self.regions@.subrange(i as int, self.regions@.len() as int) =~= Seq::<Region<A>>::empty());
        None
    }

    pub fn capture_allows(region_capture: Option<CaptureId>, active_capture: Option<CaptureId>) -> (r: bool)
        ensures
            r == capture_allows_spec(region_capture, active_capture),
    {
        match active_capture {
            Some(active) => match region_capture {
                Some(c) => c == active,
                None => false,
            },
            None => true,
        }
    }

    /// Recomputes which region is hovered; true where that changed.
    fn recompute_hover(&mut self, active_capture: Option<CaptureId>) -> (r: bool)
        ensures
            (r, final(self).view()) == recompute_spec(old(self).view(), active_capture),
    {
        proof {
            if let Some(pos) = self.latest_position {
                lemma_hit_bound(self.regions@, pos, active_capture);
            }
        }
        let hovered = match self.latest_position {
            Some(pos) => match self.hover_region(pos, active_capture) {
                Some(i) => Some(self.regions[i].id),
                None => None,
            },
            None => None,
        };
        let owner = match hovered {
            Some(id) => self.owner_of(id),
            None => None,
        };
        if self.hovered == hovered {
            return false;
        }
        self.hovered = hovered;
        self.last_hovered_owner = owner;
        true
    }

    /// Recomputes hover at the end of a frame: whether it changed, and the
    /// owners whose hover state changed (the old and the new hovered owner).
    pub fn finish_frame(&mut self, active_capture: Option<CaptureId>) -> (r: (bool, Vec<OwnerId>))
        ensures
            (r.0, final(self).view()) == recompute_spec(old(self).view(), active_capture),
            r.1@ == if old(self).view().last_owner != final(self).view().last_owner {
                opt_seq(old(self).view().last_owner) + opt_seq(final(self).view().last_owner)
            } else {
                Seq::empty()
            },
    {
        let prev_owner = self.last_hovered_owner;
        let hover_changed = self.recompute_hover(active_capture);
        let mut owners: Vec<OwnerId> = Vec::new();
        if prev_owner != self.last_hovered_owner {
            if let Some(o) = prev_owner {
                owners.push(o);
            }
            if let Some(o) = self.last_hovered_owner {
                owners.push(o);
            }
        }
        assert(owners@ =~= if prev_owner != self.last_hovered_owner {
            opt_seq(prev_owner) + opt_seq(self.last_hovered_owner)
        } else {
            Seq::empty()
        });
        (hover_changed, owners)
    }

    fn dispatch_scroll(&self, pos: Pos, active_capture: Option<CaptureId>, scroll: Scroll) -> (r: DispatchResult<A>)
        ensures
            r.view() == scroll_spec(self.view(), pos, active_capture, scroll),
    {
        proof {
            lemma_hit_bound(self.regions@, pos, active_capture);
        }
        match self.hit_region(pos, active_capture) {
            Some(i) => match self.regions[i].scroll {
                Some(h) => DispatchResult::ScrollBy(h, scroll),
                None => DispatchResult::Nothing,
            },
            None => DispatchResult::Nothing,
        }
    }

    /// Dispatches a mouse event: what it asks to run, whether hover changed,
    /// and the region to focus.
    pub fn dispatch_event(&mut self, event: &MouseEvent, active_capture: Option<CaptureId>) -> (r: (DispatchResult<A>, bool, Option<FocusId>))
        ensures
            ({
                let (d, changed, focus, v) = dispatch_spec(old(self).view(), *event, active_capture);
                &&& r.0.view() == d
                &&& r.1 == changed
                &&& r.2 == focus
                &&& final(self).view() == v
            }),
    {
        let pos = Pos::from_event(event);
        let ghost v0 = self.view();
        self.latest_position = Some(pos);
        proof {
            lemma_hit_bound(self.regions@, pos, active_capture);
        }
        match event.kind {
            MouseEventKind::Moved | MouseEventKind::Drag(_) => {
                let hover_changed = self.recompute_hover(active_capture);
                (DispatchResult::Nothing, hover_changed, None)
            },
            MouseEventKind::Down(button) => {
                match self.hit_region(pos, active_capture) {
                    Some(i) => {
                        let id = self.regions[i].id;
                        let action = self.regions[i].press_action(button);
                        self.pressed = Some(PressedRegion { id, button });
                        match action {
                            Some(a) => (DispatchResult::Single(a), false, None),
                            None => (DispatchResult::Nothing, false, None),
                        }
                    },
                    None => (DispatchResult::Nothing, false, None),
                }
            },
            MouseEventKind::Up(button) => {
                let hit = self.hit_region(pos, active_capture);
                let pressed = self.pressed.take();
                match hit {
                    None => (DispatchResult::Nothing, false, None),
                    Some(i) => {
                        let region = &self.regions[i];
                        let release_action = region.release_action(button);
                        let is_click = pressed == Some(PressedRegion { id: region.id, button });
                        if is_click {
                            let focus = if region.focus_on_click { Some(region.id) } else { None };
                            let click_action = region.click_action(button);
                            let mut actions: Vec<A> = Vec::new();
                            if let Some(a) = release_action {
                                actions.push(a);
                            }
                            if let Some(a) = click_action {
                                actions.push(a);
                            }
                            assert(actions@ =~= opt_seq(release_action) + opt_seq(click_action));
                            if actions.len() == 0 && region.focus_on_click {
                                return (DispatchResult::Nothing, false, focus);
                            }
                            return (DispatchResult::Multiple(actions), false, focus);
                        }
                        match release_action {
                            Some(a) => (DispatchResult::Single(a), false, None),
                            None => (DispatchResult::Nothing, false, None),
                        }
                    },
                }
            },
            MouseEventKind::ScrollUp => (self.dispatch_scroll(pos, active_capture, Scroll { delta_x: 0, delta_y: 1 }), false, None),
            MouseEventKind::ScrollDown => (self.dispatch_scroll(pos, active_capture, Scroll { delta_x: 0, delta_y: -1 }), false, None),
            MouseEventKind::ScrollLeft => (self.dispatch_scroll(pos, active_capture, Scroll { delta_x: -1, delta_y: 0 }), false, None),
            MouseEventKind::ScrollRight => (self.dispatch_scroll(pos, active_capture, Scroll { delta_x: 1, delta_y: 0 }), false, None),
        }
    }
}


/// The region that a position hits is the topmost one that takes it: the
/// last registered region whose area holds the position and that the active
/// capture allows. Where there is none, no region takes the position.
pub proof fn law_hit_is_topmost<A>(s: Seq<Region<A>>, pos: Pos, active: Option<CaptureId>)
    ensures
        match hit_spec(s, pos, active) {
            Some(i) => {
                &&& 0 <= i < s.len()
                &&& hits(s[i], pos, active)
                &&& forall|j: int| i < j < s.len() ==> !hits(#[trigger] s[j], pos, active)
            },
            None => forall|j: int| 0 <= j < s.len() ==> !hits(#[trigger] s[j], pos, active),
        },
    decreases s.len(),
{
    if s.len() > 0 {
        let t = s.drop_last();
        law_hit_is_topmost(t, pos, active);
        assert forall|j: int| 0 <= j < t.len() implies t[j] == s[j] by {}
    }
}

/// While a trap captures the mouse, a position hits only regions of that trap.
pub proof fn law_capture_confines_hits<A>(s: Seq<Region<A>>, pos: Pos, capture: CaptureId)
    ensures
        hit_spec(s, pos, Some(capture)) matches Some(i) ==> s[i].capture_id == Some(capture),
        hover_spec(s, pos, Some(capture)) matches Some(i) ==> s[i].capture_id == Some(capture),
{
    law_hit_is_topmost(s, pos, Some(capture));
    law_hover_is_topmost(s, pos, Some(capture));
}

/// The hovered region is the topmost region that tracks hover and takes the
/// position.
pub proof fn law_hover_is_topmost<A>(s: Seq<Region<A>>, pos: Pos, active: Option<CaptureId>)
    ensures
        match hover_spec(s, pos, active) {
            Some(i) => {
                &&& 0 <= i < s.len()
                &&& s[i].wants_hover
                &&& hits(s[i], pos, active)
                &&& forall|j: int| i < j < s.len() ==> !(#[trigger] s[j].wants_hover && hits(s[j], pos, active))
            },
            None => forall|j: int| 0 <= j < s.len() ==> !(#[trigger] s[j].wants_hover && hits(s[j], pos, active)),
        },
    decreases s.len(),
{
    if s.len() > 0 {
        let t = s.drop_last();
        law_hover_is_topmost(t, pos, active);
        assert forall|j: int| 0 <= j < t.len() implies t[j] == s[j] by {}
    }
}

/// A button that goes down on a region and comes up again at the same place,
/// with the same regions, is a click on that region: its release action and
/// then its click action are what runs, the region takes the focus where it
/// focuses on click, and no press is left behind.
pub proof fn law_press_release_is_click<A>(
    v: RegionsView<A>,
    button: MouseButton,
    column: u16,
    row: u16,
    modifiers: EventModifiers,
    active: Option<CaptureId>,
)
    requires
        hit_spec(v.regions, Pos { column, row, modifiers }, active) is Some,
    ensures
        ({
            let pos = Pos { column, row, modifiers };
            let down = MouseEvent { kind: MouseEventKind::Down(button), column, row, modifiers };
            let up = MouseEvent { kind: MouseEventKind::Up(button), column, row, modifiers };
            let v1 = dispatch_spec(v, down, active).3;
            let (d, changed, focus, v2) = dispatch_spec(v1, up, active);
            let r = v.regions[hit_spec(v.regions, pos, active).unwrap()];
            let actions = opt_seq(button_action_spec(r.releases@, button)) + opt_seq(button_action_spec(r.clicks@, button));
            &&& v2.pressed is None
            &&& v2.regions == v.regions
            &&& !changed
            &&& focus == if r.focus_on_click { Some(r.id) } else { None }
            &&& d == if actions.len() == 0 && r.focus_on_click { DispatchView::<A>::Nothing } else { DispatchView::Multiple(actions) }
        }),
{
}

/// Every button that comes up clears the press. One that comes up with no
/// press recorded is no click: at most its release action runs, and no
/// region takes the focus.
pub proof fn law_release_clears_press<A>(v: RegionsView<A>, event: MouseEvent, active: Option<CaptureId>)
    requires
        event.kind is Up,
    ensures
        ({
            let (d, changed, focus, v2) = dispatch_spec(v, event, active);
            &&& v2.pressed is None
            &&& !changed
            &&& v.pressed is None ==> focus is None && (d is Nothing || d is Single)
        }),
{
}


/// A scroll goes to the scroll handler of the region hit, one cell up
/// (positive rows), down, left (negative columns) or right; it moves no
/// hover, focus or press.
pub proof fn law_scroll_direction<A>(v: RegionsView<A>, event: MouseEvent, active: Option<CaptureId>)
    requires
        event.kind is ScrollUp || event.kind is ScrollDown || event.kind is ScrollLeft || event.kind is ScrollRight,
    ensures
        ({
            let pos = Pos { column: event.column, row: event.row, modifiers: event.modifiers };
            let (d, changed, focus, v1) = dispatch_spec(v, event, active);
            let step = if event.kind is ScrollUp {
                Scroll { delta_x: 0, delta_y: 1 }
            } else if event.kind is ScrollDown {
                Scroll { delta_x: 0, delta_y: -1i16 }
            } else if event.kind is ScrollLeft {
                Scroll { delta_x: -1i16, delta_y: 0 }
            } else {
                Scroll { delta_x: 1, delta_y: 0 }
            };
            &&& !changed
            &&& focus is None
            &&& v1.hovered == v.hovered && v1.pressed == v.pressed && v1.regions == v.regions
            &&& v1.latest == Some(pos)
            &&& match hit_spec(v.regions, pos, active) {
                Some(i) => match v.regions[i].scroll {
                    Some(h) => d == DispatchView::ScrollBy(h, step),
                    None => d is Nothing,
                },
                None => d is Nothing,
            }
        }),
{
}

/// A button going down on a region records the press of that region and
/// button, and runs the region's first press handler of that button; off
/// every region it runs nothing and records no press.
pub proof fn law_press_records_region<A>(v: RegionsView<A>, event: MouseEvent, b: MouseButton, active: Option<CaptureId>)
    requires
        event.kind == MouseEventKind::Down(b),
    ensures
        ({
            let pos = Pos { column: event.column, row: event.row, modifiers: event.modifiers };
            let (d, changed, focus, v1) = dispatch_spec(v, event, active);
            &&& !changed
            &&& focus is None
            &&& match hit_spec(v.regions, pos, active) {
                Some(i) => {
                    &&& v1.pressed == Some(PressedRegion { id: v.regions[i].id, button: b })
                    &&& match button_action_spec(v.regions[i].presses@, b) {
                        Some(a) => d == DispatchView::Single(a),
                        None => d is Nothing,
                    }
                },
                None => v1.pressed == v.pressed && d is Nothing,
            }
        }),
{
}
} // verus!
