//! Regions, their content nodes, and the innermost-first resolution of input
//! events across nested regions.

use vstd::prelude::*;

use crate::offset::{Outcome, ScrollView, ScrollableContent, Size};
use crate::wheel::{saturate_i64, wheel_amount, wheel_scroll_amount, ScrollUnit};

verus! {

/// Pointer state of a region, as the input backend reports it.
#[derive(Clone, Copy, Debug, PartialEq, Eq, Structural)]
pub enum Interaction {
    /// No pointer over the region.
    Idle,
    /// A pointer over the region, not pressed.
    Hovered,
    /// A pointer or touch pressed on the region.
    Pressed,
}

/// One input event of a cycle.
#[derive(Clone, Copy, Debug, PartialEq, Eq)]
pub enum ScrollInput {
    /// A wheel reading along the wheel's single axis.
    Wheel { y: i64, unit: ScrollUnit },
    /// Pointer or touch motion while pressed, in layout pixels.
    Drag { x: i64, y: i64 },
}

/// A scroll region: its configuration, its viewport size, its pointer state
/// and the indices of its children among the tree's content nodes.
#[derive(Debug)]
pub struct Region {
    pub view: ScrollView,
    pub size: Size,
    pub interaction: Interaction,
    pub children: Vec<usize>,
}

/// A content node: its offset and its laid-out size.
#[derive(Clone, Copy, Debug, PartialEq, Eq)]
pub struct Content {
    pub scroll: ScrollableContent,
    pub size: Size,
}

/// All regions and content nodes of a UI tree. Regions are listed in the
/// tree's enumeration order, where a nested region comes after the regions
/// that enclose it.
#[derive(Debug)]
pub struct ScrollTree {
    pub regions: Vec<Region>,
    pub contents: Vec<Content>,
}

/// The pointer state that makes a region a candidate for `input`.
pub open spec fn candidate_state(input: ScrollInput) -> Interaction {
    match input {
        ScrollInput::Wheel { .. } => Interaction::Hovered,
        ScrollInput::Drag { .. } => Interaction::Pressed,
    }
}

/// The `(dx, dy)` that `input` proposes to a region configured by `view`.
pub open spec fn input_delta(input: ScrollInput, view: ScrollView, frame_micros: int) -> (int, int) {
    match input {
        ScrollInput::Wheel { y, unit } => {
            let amount = saturate_i64(
                wheel_amount(y as int, unit, view.scroll_speed as int, frame_micros),
            );
            if view.horizontal {
                (amount, 0)
            } else {
                (0, amount)
            }
        },
        ScrollInput::Drag { x, y } => (x as int, y as int),
    }
}

/// Content nodes after a region with `view` and viewport `container` applies
/// `(dx, dy)` to each of `children` in turn, with whether any of them
/// reported `Applied` and whether any reported `AtBoundary`. A child index
/// that names no content node is skipped.
pub open spec fn scroll_children(
    view: ScrollView,
    container: Size,
    children: Seq<usize>,
    contents: Seq<Content>,
    dx: int,
    dy: int,
) -> (Seq<Content>, bool, bool)
    decreases children.len(),
{
    if children.len() == 0 {
        (contents, false, false)
    } else {
        let prev = scroll_children(view, container, children.drop_last(), contents, dx, dy);
        let cs = prev.0;
        let i = children.last() as int;
        if i < cs.len() {
            let c = cs[i];
            let o = c.scroll.scroll_outcome(view.horizontal, container, c.size, dx, dy);
            let moved = Content {
                scroll: c.scroll.scrolled(view.horizontal, container, c.size, dx, dy),
                size: c.size,
            };
            (cs.update(i, moved), prev.1 || o == Outcome::Applied, prev.2 || o == Outcome::AtBoundary)
        } else {
            prev
        }
    }
}

/// Whether a region that reported `applied` and `at_boundary` keeps the
/// event from the regions that enclose it.
pub open spec fn consumes(view: ScrollView, applied: bool, at_boundary: bool) -> bool {
    !view.propagate && (applied || at_boundary)
}

/// Content nodes after `input` is offered to `regions` from the last one
/// back, with whether a region consumed it. Once consumed, the remaining
/// regions are not evaluated.
pub open spec fn resolve(
    regions: Seq<Region>,
    contents: Seq<Content>,
    input: ScrollInput,
    frame_micros: int,
) -> (Seq<Content>, bool)
    decreases regions.len(),
{
    if regions.len() == 0 {
        (contents, false)
    } else {
        let r = regions.last();
        if r.interaction == candidate_state(input) {
            let d = input_delta(input, r.view, frame_micros);
            let s = scroll_children(r.view, r.size, r.children@, contents, d.0, d.1);
            if consumes(r.view, s.1, s.2) {
                (s.0, true)
            } else {
                resolve(regions.drop_last(), s.0, input, frame_micros)
            }
        } else {
            resolve(regions.drop_last(), contents, input, frame_micros)
        }
    }
}

/// Content nodes after each of `inputs` is resolved in order.
pub open spec fn resolve_all(
    regions: Seq<Region>,
    contents: Seq<Content>,
    inputs: Seq<ScrollInput>,
    frame_micros: int,
) -> Seq<Content>
    decreases inputs.len(),
{
    if inputs.len() == 0 {
        contents
    } else {
        let before = resolve_all(regions, contents, inputs.drop_last(), frame_micros);
        resolve(regions, before, inputs.last(), frame_micros).0
    }
}

impl ScrollInput {
    /// The pointer state that makes a region a candidate for this input.
    pub fn candidate_state(&self) -> (r: Interaction)
        ensures
            r == candidate_state(*self),
    {
        match self {
            ScrollInput::Wheel { .. } => Interaction::Hovered,
            ScrollInput::Drag { .. } => Interaction::Pressed,
        }
    }

    /// The `(dx, dy)` this input proposes to a region configured by `view`:
    /// a wheel reading scaled by the region's speed and the frame time, on
    /// the region's axis; a drag unscaled on both axes.
    pub fn delta_for(&self, view: &ScrollView, frame_micros: u32) -> (r: (i64, i64))
        ensures
            r.0 == input_delta(*self, *view, frame_micros as int).0,
            r.1 == input_delta(*self, *view, frame_micros as int).1,
    {
        match self {
            ScrollInput::Wheel { y, unit } => {
                let amount = wheel_scroll_amount(*y, *unit, view.scroll_speed, frame_micros);
                if view.horizontal {
                    (amount, 0)
                } else {
                    (0, amount)
                }
            },
            ScrollInput::Drag { x, y } => (*x, *y),
        }
    }
}

/// Applies `(delta_x, delta_y)` to every content node among `children` for
/// a region with `view` and viewport `container`. Returns whether the region
/// consumes the event, and whether any child was clipped by an edge.
pub fn handle_scroll_for_view(
    view: &ScrollView,
    container: Size,
    children: &Vec<usize>,
    contents: &mut Vec<Content>,
    delta_x: i64,
    delta_y: i64,
) -> (r: (bool, bool))
    ensures
        final(contents)@ == scroll_children(
            *view,
            container,
            children@,
            old(contents)@,
            delta_x as int,
            delta_y as int,
        ).0,
        r.0 == consumes(
            *view,
            scroll_children(*view, container, children@, old(contents)@, delta_x as int, delta_y as int).1,
            scroll_children(*view, container, children@, old(contents)@, delta_x as int, delta_y as int).2,
        ),
        r.1 == scroll_children(
            *view,
            container,
            children@,
            old(contents)@,
            delta_x as int,
            delta_y as int,
        ).2,
{
    let mut applied = false;
    let mut at_boundary = false;
    let mut k: usize = 0;
    while k < children.len()
        invariant
            k <= children.len(),
            (contents@, applied, at_boundary) == scroll_children(
                *view,
                container,
                children@.subrange(0, k as int),
                old(contents)@,
                delta_x as int,
                delta_y as int,
            ),
        decreases children.len() - k,
    {
        proof {
            assert(children@.subrange(0, k + 1).drop_last() == children@.subrange(0, k as int));
        }
        let i = children[k];
        if i < contents.len() {
            let mut c = contents[i];
            let outcome = c.scroll.scroll_by(view, container, c.size, delta_x, delta_y);
            contents.set(i, c);
            match outcome {
                Outcome::Applied => {
                    applied = true;
                },
                Outcome::AtBoundary => {
                    at_boundary = true;
                },
                Outcome::Inapplicable => {},
            }
        }
        k += 1;
    }
    proof {
        assert(children@.subrange(0, children.len() as int) == children@);
    }
    let should_consume = !view.propagate && (applied || at_boundary);
    (should_consume, at_boundary)
}

/// Declares a new region with `view` and viewport `size` in `tree`. It
/// starts with no pointer over it and no content; its index is returned.
pub fn create_scroll_view(tree: &mut ScrollTree, view: ScrollView, size: Size) -> (id: usize)
    ensures
        id == old(tree).regions.len(),
        final(tree).regions@.len() == old(tree).regions@.len() + 1,
        forall|j: int| 0 <= j < id ==> #[trigger] final(tree).regions@[j] == old(tree).regions@[j],
        final(tree).regions@[id as int].view == view,
        final(tree).regions@[id as int].size == size,
        final(tree).regions@[id as int].interaction == Interaction::Idle,
        final(tree).regions@[id as int].children@ == Seq::<usize>::empty(),
        final(tree).contents@ == old(tree).contents@,
{
    let id = tree.regions.len();
    tree.regions.push(Region { view, size, interaction: Interaction::Idle, children: Vec::new() });
    id
}

impl ScrollTree {
    /// A tree with no regions and no content.
    pub fn new() -> (r: Self)
        ensures
            r.regions@.len() == 0,
            r.contents@.len() == 0,
    {
        ScrollTree { regions: Vec::new(), contents: Vec::new() }
    }

    /// Declares a content node of `size`, at offset zero, as a child of the
    /// region at `region`, and returns its index; `None`, with nothing
    /// changed, where there is no such region.
    pub fn add_content(&mut self, region: usize, size: Size) -> (r: Option<usize>)
        ensures
            region >= old(self).regions.len() ==> {
                &&& r is None
                &&& final(self).regions@ == old(self).regions@
                &&& final(self).contents@ == old(self).contents@
            },
            region < old(self).regions.len() ==> {
                &&& r == Some(old(self).contents.len())
                &&& final(self).contents@ == old(self).contents@.push(
                    Content { scroll: ScrollableContent { pos_y: 0, pos_x: 0 }, size },
                )
                &&& final(self).regions@.len() == old(self).regions@.len()
                &&& forall|j: int|
                    0 <= j < old(self).regions.len() && j != region ==> #[trigger] final(self).regions@[j] == old(self).regions@[j]
                &&& final(self).regions@[region as int].view == old(self).regions@[region as int].view
                &&& final(self).regions@[region as int].size == old(self).regions@[region as int].size
                &&& final(self).regions@[region as int].interaction == old(self).regions@[region as int].interaction
                &&& final(self).regions@[region as int].children@ == old(self).regions@[region as int].children@.push(old(self).contents.len())
            },
    {
        if region >= self.regions.len() {
            return None;
        }
        let id = self.contents.len();
        self.contents.push(Content { scroll: ScrollableContent { pos_y: 0, pos_x: 0 }, size });
        self.regions[region].children.push(id);
        Some(id)
    }

    /// Offers `input` to the candidate regions innermost-first. Each
    /// candidate evaluated scrolls its children; the first one that
    /// consumes the event ends the resolution. Returns whether the event
    /// was consumed.
    pub fn resolve_input(&mut self, input: ScrollInput, frame_micros: u32) -> (consumed: bool)
        ensures
            final(self).regions@ == old(self).regions@,
            (final(self).contents@, consumed) == resolve(
                old(self).regions@,
                old(self).contents@,
                input,
                frame_micros as int,
            ),
    {
        let wanted = input.candidate_state();
        let mut consumed = false;
        let mut i: usize = self.regions.len();
        proof {
            assert(self.regions@.subrange(0, i as int) == self.regions@);
        }
        while i > 0 && !consumed
            invariant
                i <= self.regions.len(),
                self.regions@ == old(self).regions@,
                wanted == candidate_state(input),
                resolve(old(self).regions@, old(self).contents@, input, frame_micros as int) == (if consumed {
                    (self.contents@, true)
                } else {
                    resolve(self.regions@.subrange(0, i as int), self.contents@, input, frame_micros as int)
                }),
            decreases i,
        {
            proof {
                assert(self.regions@.subrange(0, i as int).drop_last() == self.regions@.subrange(
                    0,
                    i - 1,
                ));
            }
            let region = &self.regions[i - 1];
            if region.interaction == wanted {
                let (delta_x, delta_y) = input.delta_for(&region.view, frame_micros);
                let (consume, _) = handle_scroll_for_view(
                    &region.view,
                    region.size,
                    &region.children,
                    &mut self.contents,
                    delta_x,
                    delta_y,
                );
                consumed = consume;
            }
            i -= 1;
        }
        consumed
    }

    /// Resolves each of `inputs` in order.
    pub fn process_inputs(&mut self, inputs: &Vec<ScrollInput>, frame_micros: u32)
        ensures
            final(self).regions@ == old(self).regions@,
            final(self).contents@ == resolve_all(
                old(self).regions@,
                old(self).contents@,
                inputs@,
                frame_micros as int,
            ),
    {
        let mut k: usize = 0;
        while k < inputs.len()
            invariant
                k <= inputs.len(),
                self.regions@ == old(self).regions@,
                self.contents@ == resolve_all(
                    old(self).regions@,
                    old(self).contents@,
                    inputs@.subrange(0, k as int),
                    frame_micros as int,
                ),
            decreases inputs.len() - k,
        {
            proof {
                assert(inputs@.subrange(0, k + 1).drop_last() == inputs@.subrange(0, k as int));
            }
            self.resolve_input(inputs[k], frame_micros);
            k += 1;
        }
        proof {
            assert(inputs@.subrange(0, inputs.len() as int) == inputs@);
        }
    }
}

} // verus!
