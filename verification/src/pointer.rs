//! Dragging the camera with the mouse or one finger: where a drag started,
//! which touch drives it, and how far it has moved.
use vstd::prelude::*;

verus! {

/// A touch point: its identifier and its position on the canvas.
#[derive(Copy, Clone, PartialEq, Eq, Structural, Debug)]
pub struct Touch {
    pub id: i32,
    pub x: i32,
    pub y: i32,
}

/// The value fits in an `i32`.
pub open spec fn fits_i32(v: int) -> bool {
    i32::MIN <= v <= i32::MAX
}

/// The position of a point on the canvas, from its position in the window and
/// the canvas' top left corner.
pub fn relative_position(client_x: i32, client_y: i32, left: i32, top: i32) -> (p: (i32, i32))
    requires
        fits_i32(client_x - left),
        fits_i32(client_y - top),
    ensures
        p.0 == client_x - left,
        p.1 == client_y - top,
{
    (client_x - left, client_y - top)
}

/// The pixel under canvas position (`x`, `y`), counted from the bottom row of a
/// canvas `height` pixels high, as the framebuffer counts rows.
pub fn pixel_under(x: i32, y: i32, height: i32) -> (p: (i32, i32))
    requires
        fits_i32(height - y),
    ensures
        p.0 == x,
        p.1 == height - y,
{
    (x, height - y)
}

/// How far a drag that started at `origin` has moved when the pointer is at
/// (`x`, `y`): rightwards, and upwards on the screen.
pub open spec fn drag(origin: (i32, i32), x: i32, y: i32) -> (int, int) {
    (x - origin.0, origin.1 - y)
}

/// A drag that has not moved is none: the drag from a point to itself is (0, 0).
pub proof fn law_drag_still(x: i32, y: i32)
    ensures
        drag((x, y), x, y) == (0int, 0int),
{
}

/// Moving the pointer `d` to the right and `e` down drags by `d` rightwards
/// and `-e` upwards, wherever the drag started and however far it goes.
pub proof fn law_drag_displacement(origin: (i32, i32), d: int, e: int)
    requires
        fits_i32(origin.0 + d),
        fits_i32(origin.1 + e),
    ensures
        drag(origin, (origin.0 + d) as i32, (origin.1 + e) as i32) == (d, -e),
{
}

/// Drags add up: dragging from `origin` to `p` and then from `p` to (`x`,
/// `y`) is the drag from `origin` to (`x`, `y`).
pub proof fn law_drag_additive(origin: (i32, i32), p: (i32, i32), x: i32, y: i32)
    ensures
        drag(origin, p.0, p.1).0 + drag(p, x, y).0 == drag(origin, x, y).0,
        drag(origin, p.0, p.1).1 + drag(p, x, y).1 == drag(origin, x, y).1,
{
}

/// The drag from `origin` to (`x`, `y`) fits in `i32`.
pub open spec fn fits_drag(origin: (i32, i32), x: i32, y: i32) -> bool {
    fits_i32(drag(origin, x, y).0) && fits_i32(drag(origin, x, y).1)
}

/// The touch points at the front of `touches` that belong to the drag's touch
/// `id`: the length of the longest such prefix.
pub open spec fn leading_matches(touches: Seq<Touch>, id: Option<i32>) -> int
    decreases touches.len(),
{
    if touches.len() > 0 && Some(touches[0].id) == id {
        1 + leading_matches(touches.drop_first(), id)
    } else {
        0
    }
}

/// A drag in progress, if any: where it started and, for a drag by touch, the
/// touch that drives it.
pub struct DragState {
    mouse_down: Option<(i32, i32)>,
    touch_id: Option<i32>,
}

impl DragState {
    /// Where the drag started, if a drag is in progress.
    pub closed spec fn origin(&self) -> Option<(i32, i32)> {
        self.mouse_down
    }

    /// The touch that drives the drag, if it is driven by touch.
    pub closed spec fn touch(&self) -> Option<i32> {
        self.touch_id
    }

    /// No drag in progress.
    pub fn new() -> (s: Self)
        ensures
            s.origin() is None,
            s.touch() is None,
    {
        DragState { mouse_down: None, touch_id: None }
    }

    /// Where the drag started, if a drag is in progress.
    pub fn drag_origin(&self) -> (r: Option<(i32, i32)>)
        ensures
            r == self.origin(),
    {
        self.mouse_down
    }

    /// The touch that drives the drag, if any.
    pub fn drag_touch(&self) -> (r: Option<i32>)
        ensures
            r == self.touch(),
    {
        self.touch_id
    }

    /// The mouse button went down at (`x`, `y`): a drag starts there.
    pub fn on_mousedown(&mut self, x: i32, y: i32)
        ensures
            final(self).origin() == Some((x, y)),
            final(self).touch() == old(self).touch(),
    {
        self.mouse_down = Some((x, y));
    }

    /// The mouse button went up: the drag ends.
    pub fn on_mouseup(&mut self)
        ensures
            final(self).origin() is None,
            final(self).touch() == old(self).touch(),
    {
        self.mouse_down = None;
    }

    /// The mouse moved to (`x`, `y`): how far the drag has moved, if one is in
    /// progress.
    pub fn on_mousemove(&self, x: i32, y: i32) -> (r: Option<(i32, i32)>)
        requires
            self.origin() is Some ==> fits_drag(self.origin()->Some_0, x, y),
        ensures
            self.origin() is None ==> r is None,
            self.origin() is Some ==> r is Some && (r->Some_0.0 as int, r->Some_0.1 as int)
                == drag(self.origin()->Some_0, x, y),
            self.origin() is Some ==> r->Some_0.0 == x - self.origin()->Some_0.0 && r->Some_0.1
                == self.origin()->Some_0.1 - y,
    {
        match self.mouse_down {
            Some((ox, oy)) => Some((x - ox, oy - y)),
            None => None,
        }
    }

    /// Touches started; `touches` are the ones on the canvas. With exactly one,
    /// a drag by that touch starts at its position, and the result is `true`;
    /// otherwise nothing changes.
    pub fn on_touchstart(&mut self, touches: &Vec<Touch>) -> (started: bool)
        ensures
            started == (touches.len() == 1),
            started ==> final(self).origin() == Some((touches[0].x, touches[0].y)) && final(self).touch() == Some(
                touches[0].id,
            ),
            !started ==> *final(self) == *old(self),
    {
        if touches.len() != 1 {
            return false;
        }
        let t = touches[0];
        self.mouse_down = Some((t.x, t.y));
        self.touch_id = Some(t.id);
        true
    }

    /// Touches moved; `changed` are the ones that moved. The moves of the drag's
    /// touch at the front of `changed` are handed back as the drags they make,
    /// in order; the first other touch ends the handling.
    pub fn on_touchmove(&self, changed: &Vec<Touch>) -> (r: Vec<(i32, i32)>)
        requires
            leading_matches(changed@, self.touch()) > 0 ==> self.origin() is Some,
            forall|i: int|
                0 <= i < leading_matches(changed@, self.touch()) ==> fits_drag(
                    self.origin()->Some_0,
                    #[trigger] changed[i].x,
                    changed[i].y,
                ),
        ensures
            r.len() == leading_matches(changed@, self.touch()),
            forall|i: int|
                0 <= i < r.len() ==> ((#[trigger] r[i]).0 as int, r[i].1 as int) == drag(
                    self.origin()->Some_0,
                    changed[i].x,
                    changed[i].y,
                ),
            forall|i: int|
                0 <= i < r.len() ==> (#[trigger] r[i]).0 == changed[i].x - self.origin()->Some_0.0 && r[i].1
                    == self.origin()->Some_0.1 - changed[i].y,
    {
        let mut out: Vec<(i32, i32)> = Vec::new();
        let mut i: usize = 0;
        proof {
            lemma_leading_matches_bounds(changed@, self.touch());
        }
        while i < changed.len()
            invariant
                i <= changed.len(),
                out.len() == i,
                i <= leading_matches(changed@, self.touch()),
                leading_matches(changed@, self.touch()) > 0 ==> self.origin() is Some,
                forall|j: int|
                    0 <= j < leading_matches(changed@, self.touch()) ==> fits_drag(
                        self.origin()->Some_0,
                        #[trigger] changed[j].x,
                        changed[j].y,
                    ),
                forall|j: int|
                    0 <= j < i ==> ((#[trigger] out[j]).0 as int, out[j].1 as int) == drag(
                        self.origin()->Some_0,
                        changed[j].x,
                        changed[j].y,
                    ),
            decreases changed.len() - i,
        {
            let t = changed[i];
            proof {
                lemma_leading_matches_at(changed@, self.touch(), i as int);
            }
            if Some(t.id) != self.touch_id {
                return out;
            }
            let (ox, oy) = self.mouse_down.unwrap();
            out.push((t.x - ox, oy - t.y));
            i = i + 1;
        }
        out
    }

    /// Touches ended; `changed` are the ones that ended. If the first is the
    /// drag's touch, the drag ends and how far it moved is handed back;
    /// otherwise nothing changes.
    pub fn on_touchend(&mut self, changed: &Vec<Touch>) -> (r: Option<(i32, i32)>)
        requires
            changed.len() > 0 && Some(changed[0].id) == old(self).touch() ==> old(self).origin() is Some
                && fits_drag(old(self).origin()->Some_0, changed[0].x, changed[0].y),
        ensures
            !(changed.len() > 0 && Some(changed[0].id) == old(self).touch()) ==> r is None && *final(self) == *old(self),
            changed.len() > 0 && Some(changed[0].id) == old(self).touch() ==> {
                &&& r is Some
                &&& (r->Some_0.0 as int, r->Some_0.1 as int) == drag(old(self).origin()->Some_0, changed[0].x, changed[0].y)
                &&& r->Some_0.0 == changed[0].x - old(self).origin()->Some_0.0
                &&& r->Some_0.1 == old(self).origin()->Some_0.1 - changed[0].y
                &&& final(self).origin() is None
                &&& final(self).touch() is None
            },
    {
        if changed.len() == 0 {
            return None;
        }
        let t = changed[0];
        if Some(t.id) != self.touch_id {
            return None;
        }
        let (ox, oy) = self.mouse_down.unwrap();
        self.mouse_down = None;
        self.touch_id = None;
        Some((t.x - ox, oy - t.y))
    }

    /// Touches were cancelled: handled as if they ended.
    pub fn on_touchcancel(&mut self, changed: &Vec<Touch>) -> (r: Option<(i32, i32)>)
        requires
            changed.len() > 0 && Some(changed[0].id) == old(self).touch() ==> old(self).origin() is Some
                && fits_drag(old(self).origin()->Some_0, changed[0].x, changed[0].y),
        ensures
            !(changed.len() > 0 && Some(changed[0].id) == old(self).touch()) ==> r is None && *final(self) == *old(self),
            changed.len() > 0 && Some(changed[0].id) == old(self).touch() ==> {
                &&& r is Some
                &&& (r->Some_0.0 as int, r->Some_0.1 as int) == drag(old(self).origin()->Some_0, changed[0].x, changed[0].y)
                &&& r->Some_0.0 == changed[0].x - old(self).origin()->Some_0.0
                &&& r->Some_0.1 == old(self).origin()->Some_0.1 - changed[0].y
                &&& final(self).origin() is None
                &&& final(self).touch() is None
            },
    {
        self.on_touchend(changed)
    }
}

/// The matching prefix is no longer than the sequence.
proof fn lemma_leading_matches_bounds(touches: Seq<Touch>, id: Option<i32>)
    ensures
        0 <= leading_matches(touches, id) <= touches.len(),
    decreases touches.len(),
{
    if touches.len() > 0 && Some(touches[0].id) == id {
        lemma_leading_matches_bounds(touches.drop_first(), id);
    }
}

/// Position `i` lies in the matching prefix exactly when the prefix reaches
/// past it, given that it reaches `i`.
proof fn lemma_leading_matches_at(touches: Seq<Touch>, id: Option<i32>, i: int)
    requires
        0 <= i < touches.len(),
        i <= leading_matches(touches, id),
    ensures
        (Some(touches[i].id) == id) <==> i < leading_matches(touches, id),
    decreases i,
{
    if i > 0 {
        assert(Some(touches[0].id) == id);
        lemma_leading_matches_at(touches.drop_first(), id, i - 1);
    } else {
        lemma_leading_matches_bounds(touches.drop_first(), id);
    }
}

} // verus!
