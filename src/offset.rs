//! The offset engine: one region, one content node, one proposed delta.

use vstd::prelude::*;

verus! {

/// Width and height of a laid-out node, in layout pixels.
#[derive(Clone, Copy, Debug, PartialEq, Eq)]
pub struct Size {
    pub width: u32,
    pub height: u32,
}

/// Configuration of one scroll region.
#[derive(Clone, Copy, Debug, PartialEq, Eq)]
pub struct ScrollView {
    /// Multiplier for wheel input, in pixels per second. A negative value
    /// inverts the direction.
    pub scroll_speed: i32,
    /// When set, an event this region handles is still offered to the
    /// enclosing regions.
    pub propagate: bool,
    /// Scroll along the x axis instead of the y axis.
    pub horizontal: bool,
}

/// Offset of a content node relative to its region, in layout pixels.
///
/// Both fields are at most zero once the engine has run; external code may
/// assign them directly (for instance to reset to the top).
#[derive(Clone, Copy, Debug, PartialEq, Eq)]
pub struct ScrollableContent {
    pub pos_y: i64,
    pub pos_x: i64,
}

/// What one delta did to one content offset.
#[derive(Clone, Copy, Debug, PartialEq, Eq, Structural)]
pub enum Outcome {
    /// The delta was absorbed without reaching an edge.
    Applied,
    /// The delta was clipped by an edge.
    AtBoundary,
    /// The content does not overflow its viewport on this axis.
    Inapplicable,
}

/// The default scroll speed of a region, in pixels per second.
pub const DEFAULT_SCROLL_SPEED: i32 = 200;

impl Default for ScrollView {
    fn default() -> (r: Self)
        ensures
            r.scroll_speed == DEFAULT_SCROLL_SPEED,
            !r.propagate,
            !r.horizontal,
    {
        ScrollView { scroll_speed: DEFAULT_SCROLL_SPEED, propagate: false, horizontal: false }
    }
}

impl Default for ScrollableContent {
    fn default() -> (r: Self)
        ensures
            r.pos_y == 0,
            r.pos_x == 0,
    {
        ScrollableContent { pos_y: 0, pos_x: 0 }
    }
}

/// How far content of length `content` may be shifted inside a viewport of
/// length `viewport`.
pub open spec fn max_scroll(content: int, viewport: int) -> int {
    if content > viewport {
        content - viewport
    } else {
        0
    }
}

pub open spec fn clamp(x: int, lo: int, hi: int) -> int {
    if x > hi {
        hi
    } else if x < lo {
        lo
    } else {
        x
    }
}

/// The position on one axis after moving `pos` by `delta` within `[-max, 0]`.
pub open spec fn axis_position(pos: int, delta: int, max: int) -> int {
    clamp(pos + delta, -max, 0)
}

/// The outcome on one axis, classified before clamping.
pub open spec fn axis_outcome(pos: int, delta: int, max: int) -> Outcome {
    if max == 0 {
        Outcome::Inapplicable
    } else if -max <= pos + delta <= 0 {
        Outcome::Applied
    } else {
        Outcome::AtBoundary
    }
}

impl Size {
    /// The length of this size along the chosen axis.
    pub open spec fn along(self, horizontal: bool) -> int {
        if horizontal {
            self.width as int
        } else {
            self.height as int
        }
    }
}

impl ScrollableContent {
    /// The offset along the chosen axis.
    pub open spec fn along(self, horizontal: bool) -> int {
        if horizontal {
            self.pos_x as int
        } else {
            self.pos_y as int
        }
    }

    /// The offset along `horizontal`'s axis is within the scroll range.
    pub open spec fn within(self, horizontal: bool, container: Size, content: Size) -> bool {
        let max = max_scroll(content.along(horizontal), container.along(horizontal));
        -max <= self.along(horizontal) <= 0
    }

    /// The content offset after the engine applies `(dx, dy)`: only the
    /// region's axis moves.
    pub open spec fn scrolled(
        self,
        horizontal: bool,
        container: Size,
        content: Size,
        dx: int,
        dy: int,
    ) -> ScrollableContent {
        if horizontal {
            ScrollableContent {
                pos_x: axis_position(
                    self.pos_x as int,
                    dx,
                    max_scroll(content.width as int, container.width as int),
                ) as i64,
                ..self
            }
        } else {
            ScrollableContent {
                pos_y: axis_position(
                    self.pos_y as int,
                    dy,
                    max_scroll(content.height as int, container.height as int),
                ) as i64,
                ..self
            }
        }
    }

    /// The outcome that the engine reports for `(dx, dy)`.
    pub open spec fn scroll_outcome(
        self,
        horizontal: bool,
        container: Size,
        content: Size,
        dx: int,
        dy: int,
    ) -> Outcome {
        let max = max_scroll(content.along(horizontal), container.along(horizontal));
        let delta = if horizontal {
            dx
        } else {
            dy
        };
        axis_outcome(self.along(horizontal), delta, max)
    }

    /// Applies `(delta_x, delta_y)` along the axis of `view`, clamping the
    /// offset to the range that `content` inside `container` allows.
    pub fn scroll_by(
        &mut self,
        view: &ScrollView,
        container: Size,
        content: Size,
        delta_x: i64,
        delta_y: i64,
    ) -> (r: Outcome)
        ensures
            *final(self) == old(self).scrolled(
                view.horizontal,
                container,
                content,
                delta_x as int,
                delta_y as int,
            ),
            r == old(self).scroll_outcome(
                view.horizontal,
                container,
                content,
                delta_x as int,
                delta_y as int,
            ),
    {
        if view.horizontal {
            let (pos, outcome) = scroll_axis(self.pos_x, content.width, container.width, delta_x);
            self.pos_x = pos;
            outcome
        } else {
            let (pos, outcome) = scroll_axis(self.pos_y, content.height, container.height, delta_y);
            self.pos_y = pos;
            outcome
        }
    }
}

/// Moves `pos` by `delta` on one axis where content of length `content` sits
/// in a viewport of length `viewport`.
pub fn scroll_axis(pos: i64, content: u32, viewport: u32, delta: i64) -> (r: (i64, Outcome))
    ensures
        r.0 == axis_position(pos as int, delta as int, max_scroll(content as int, viewport as int)),
        r.1 == axis_outcome(pos as int, delta as int, max_scroll(content as int, viewport as int)),
{
    let max: i64 = if content > viewport {
        (content - viewport) as i64
    } else {
        0
    };
    let proposed: i128 = pos as i128 + delta as i128;
    let hit_start = proposed > 0;
    let hit_end = proposed < -(max as i128);
    let new_pos: i64 = if hit_start {
        0
    } else if hit_end {
        -max
    } else {
        proposed as i64
    };
    let outcome = if max == 0 {
        Outcome::Inapplicable
    } else if !hit_start && !hit_end {
        Outcome::Applied
    } else {
        Outcome::AtBoundary
    };
    (new_pos, outcome)
}

} // verus!
