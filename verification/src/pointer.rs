//! The pointer over the rendered page: which box lies under a point, how far
//! the page scrolls, and what releasing the pointer does there.
use crate::navigation::{activation_plan, activation_spec, ActivationPlan, HitTarget};
use crate::number::{saturate, saturated, saturating_mul_div, scaled, CssNumber, MICROS_PER_UNIT};
use vstd::prelude::*;

verus! {

/// A box on the page with its left edge, top edge, width and height.
pub trait BoxGeometry {
    /// The edges and size of the box, in millionths of a pixel.
    spec fn bounds(&self) -> (int, int, int, int);

    fn x(&self) -> (r: CssNumber)
        ensures
            r.val() == self.bounds().0,
    ;

    fn y(&self) -> (r: CssNumber)
        ensures
            r.val() == self.bounds().1,
    ;

    fn width(&self) -> (r: CssNumber)
        ensures
            r.val() == self.bounds().2,
    ;

    fn height(&self) -> (r: CssNumber)
        ensures
            r.val() == self.bounds().3,
    ;
}

/// The box of a rendered element.
#[derive(Clone, Copy, Debug, PartialEq, Eq, Structural)]
pub struct ElementBox {
    pub node_id: u64,
    pub x: CssNumber,
    pub y: CssNumber,
    pub width: CssNumber,
    pub height: CssNumber,
}

impl BoxGeometry for HitTarget {
    open spec fn bounds(&self) -> (int, int, int, int) {
        (self.x.val(), self.y.val(), self.width.val(), self.height.val())
    }

    fn x(&self) -> (r: CssNumber) {
        self.x
    }

    fn y(&self) -> (r: CssNumber) {
        self.y
    }

    fn width(&self) -> (r: CssNumber) {
        self.width
    }

    fn height(&self) -> (r: CssNumber) {
        self.height
    }
}

impl BoxGeometry for ElementBox {
    open spec fn bounds(&self) -> (int, int, int, int) {
        (self.x.val(), self.y.val(), self.width.val(), self.height.val())
    }

    fn x(&self) -> (r: CssNumber) {
        self.x
    }

    fn y(&self) -> (r: CssNumber) {
        self.y
    }

    fn width(&self) -> (r: CssNumber) {
        self.width
    }

    fn height(&self) -> (r: CssNumber) {
        self.height
    }
}

/// Whether the point `(x, y)` lies in the box with bounds `b`, edges
/// included.
pub open spec fn box_contains(b: (int, int, int, int), x: int, y: int) -> bool {
    b.0 <= x <= b.0 + b.2 && b.1 <= y <= b.1 + b.3
}

/// Whether the point `(x, y)` lies in the box, edges included.
pub fn contains<T: BoxGeometry>(target: &T, x: CssNumber, y: CssNumber) -> (r: bool)
    ensures
        r == box_contains(target.bounds(), x.val(), y.val()),
{
    let left = target.x().micros as i128;
    let top = target.y().micros as i128;
    let px = x.micros as i128;
    let py = y.micros as i128;
    px >= left && px <= left + target.width().micros as i128 && py >= top && py <= top + target.height().micros as i128
}

/// A coordinate of the device in page pixels: divided by the device scale
/// factor.
pub open spec fn logical_spec(p: int, scale: int) -> int {
    if scale >= 0 {
        saturated(scaled(p, MICROS_PER_UNIT as int, scale))
    } else {
        -saturated(scaled(p, MICROS_PER_UNIT as int, -scale))
    }
}

/// The page coordinate of a device point's vertical position, below the
/// scrolled-off part of the page.
pub open spec fn document_y_spec(y: int, scale: int, scroll_y: int) -> int {
    saturated(logical_spec(y, scale) + scroll_y)
}

/// The last of the boxes that contains the point: the one painted on top.
pub open spec fn topmost<T: BoxGeometry>(boxes: Seq<T>, x: int, y: int) -> Option<T>
    decreases boxes.len(),
{
    if boxes.len() == 0 {
        None
    } else if box_contains(boxes.last().bounds(), x, y) {
        Some(boxes.last())
    } else {
        topmost(boxes.drop_last(), x, y)
    }
}

fn topmost_box<T: BoxGeometry + Copy>(boxes: &[T], x: CssNumber, y: CssNumber) -> (r: Option<T>)
    ensures
        r == topmost(boxes@, x.val(), y.val()),
{
    let mut i = boxes.len();
    proof {
        assert(boxes@.take(i as int) =~= boxes@);
    }
    while i > 0
        invariant
            i <= boxes@.len(),
            topmost(boxes@, x.val(), y.val()) == topmost(boxes@.take(i as int), x.val(), y.val()),
        decreases i,
    {
        let candidate = boxes[i - 1];
        proof {
            assert(boxes@.take(i as int).last() == candidate);
            assert(boxes@.take(i as int).drop_last() =~= boxes@.take(i - 1));
        }
        if contains(&candidate, x, y) {
            return Some(candidate);
        }
        i = i - 1;
    }
    None
}

/// A device coordinate in page pixels, at a nonzero device scale factor.
fn logical(p: CssNumber, scale: CssNumber) -> (r: CssNumber)
    requires
        scale.val() != 0,
    ensures
        r.val() == logical_spec(p.val(), scale.val()),
{
    let one = CssNumber { micros: MICROS_PER_UNIT };
    if scale.micros > 0 {
        saturating_mul_div(p, one, scale.micros as u64)
    } else {
        let magnitude: u64 = (-(scale.micros as i128)) as u64;
        let q = saturating_mul_div(p, one, magnitude);
        CssNumber { micros: -q.micros }
    }
}

/// The page point under a device point.
fn document_point(x: CssNumber, y: CssNumber, scale: CssNumber, scroll_y: CssNumber) -> (r: (CssNumber, CssNumber))
    requires
        scale.val() != 0,
    ensures
        r.0.val() == logical_spec(x.val(), scale.val()),
        r.1.val() == document_y_spec(y.val(), scale.val(), scroll_y.val()),
{
    let px = logical(x, scale);
    let py = logical(y, scale);
    (px, saturate(py.micros as i128 + scroll_y.micros as i128))
}

/// The hit target on top at a device point, for a page scrolled by
/// `scroll_y` at the device scale factor `scale`; none at a zero scale
/// factor, which puts every point at infinity.
pub fn hit_target_at(targets: &[HitTarget], x: CssNumber, y: CssNumber, scale: CssNumber, scroll_y: CssNumber) -> (r:
    Option<HitTarget>)
    ensures
        r == if scale.val() == 0 {
            None
        } else {
            topmost(
                targets@,
                logical_spec(x.val(), scale.val()),
                document_y_spec(y.val(), scale.val(), scroll_y.val()),
            )
        },
{
    if scale.micros == 0 {
        return None;
    }
    let (px, py) = document_point(x, y, scale, scroll_y);
    topmost_box(targets, px, py)
}

/// The element box on top at a device point (see `hit_target_at`).
pub fn element_at(elements: &[ElementBox], x: CssNumber, y: CssNumber, scale: CssNumber, scroll_y: CssNumber) -> (r:
    Option<ElementBox>)
    ensures
        r == if scale.val() == 0 {
            None
        } else {
            topmost(
                elements@,
                logical_spec(x.val(), scale.val()),
                document_y_spec(y.val(), scale.val(), scroll_y.val()),
            )
        },
{
    if scale.micros == 0 {
        return None;
    }
    let (px, py) = document_point(x, y, scale, scroll_y);
    topmost_box(elements, px, py)
}

/// What releasing the pointer at a device point does, after a press that
/// went down on `pressed` (see `activation_spec`).
pub fn activation_at(
    targets: &[HitTarget],
    x: CssNumber,
    y: CssNumber,
    scale: CssNumber,
    scroll_y: CssNumber,
    pressed: Option<u64>,
) -> (r: ActivationPlan)
    ensures
        r == activation_spec(
            if scale.val() == 0 {
                None
            } else {
                topmost(
                    targets@,
                    logical_spec(x.val(), scale.val()),
                    document_y_spec(y.val(), scale.val(), scroll_y.val()),
                )
            },
            pressed,
        ),
{
    activation_plan(hit_target_at(targets, x, y, scale, scroll_y), pressed)
}

/// How far a page of `content_height` pixels scrolls in a viewport
/// `viewport_height` pixels tall: never less than nothing.
pub open spec fn max_scroll_spec(content_height: int, viewport_height: int) -> int {
    let rest = saturated(content_height - viewport_height);
    if rest >= 0 {
        rest
    } else {
        0
    }
}

/// How far a page scrolls (see `max_scroll_spec`).
pub fn max_scroll_for(content_height: CssNumber, viewport_height: CssNumber) -> (r: CssNumber)
    ensures
        r.val() == max_scroll_spec(content_height.val(), viewport_height.val()),
{
    let rest = saturate(content_height.micros as i128 - viewport_height.micros as i128);
    if rest.micros >= 0 {
        rest
    } else {
        CssNumber { micros: 0 }
    }
}

/// The scroll position after the wheel moves `delta_y` device pixels: the
/// page pixels it amounts to, added and held between the top and the
/// furthest scroll. At a zero scale factor a movement is infinitely far and
/// goes to the end it moves toward.
pub open spec fn scrolled_spec(scroll_y: int, delta_y: int, scale: int, max_scroll: int) -> int {
    let next = if scale == 0 {
        if delta_y > 0 { max_scroll } else { 0 }
    } else {
        saturated(scroll_y + logical_spec(delta_y, scale))
    };
    if next < 0 {
        0
    } else if next > max_scroll {
        max_scroll
    } else {
        next
    }
}

/// The scroll position after a wheel movement (see `scrolled_spec`).
pub fn scroll_position(scroll_y: CssNumber, delta_y: CssNumber, scale: CssNumber, max_scroll: CssNumber) -> (r: CssNumber)
    requires
        scale.val() != 0 || delta_y.val() != 0,
        max_scroll.val() >= 0,
    ensures
        r.val() == scrolled_spec(scroll_y.val(), delta_y.val(), scale.val(), max_scroll.val()),
        0 <= r.val() <= max_scroll.val(),
{
    if scale.micros == 0 {
        return if delta_y.micros > 0 { max_scroll } else { CssNumber { micros: 0 } };
    }
    let delta = logical(delta_y, scale);
    let next = saturate(scroll_y.micros as i128 + delta.micros as i128);
    if next.micros < 0 {
        CssNumber { micros: 0 }
    } else if next.micros > max_scroll.micros {
        max_scroll
    } else {
        next
    }
}

} // verus!
