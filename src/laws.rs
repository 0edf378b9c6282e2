//! Properties of the offset engine and of the resolver, proved over their
//! spec functions.

use vstd::prelude::*;

use crate::offset::{max_scroll, Outcome, ScrollView, ScrollableContent, Size};
use crate::resolver::{
    candidate_state, consumes, input_delta, resolve, scroll_children, Content, Region, ScrollInput,
};

verus! {

/// Whether the content node at `i`, if there is one, overflows a viewport
/// `container` on the given axis.
pub open spec fn overflows(contents: Seq<Content>, i: int, horizontal: bool, container: Size) -> bool {
    0 <= i < contents.len() && max_scroll(
        contents[i].size.along(horizontal),
        container.along(horizontal),
    ) > 0
}

/// Scrolling a region's children keeps the number of content nodes and
/// their sizes, and leaves every node that is not a child untouched.
pub proof fn lemma_scroll_children_frame(
    view: ScrollView,
    container: Size,
    children: Seq<usize>,
    contents: Seq<Content>,
    dx: int,
    dy: int,
)
    ensures
        ({
            let out = scroll_children(view, container, children, contents, dx, dy).0;
            &&& out.len() == contents.len()
            &&& forall|j: int| 0 <= j < contents.len() ==> #[trigger] out[j].size == contents[j].size
            &&& forall|j: int|
                0 <= j < contents.len() && !children.contains(j as usize) ==> #[trigger] out[j]
                    == contents[j]
        }),
    decreases children.len(),
{
    if children.len() > 0 {
        lemma_scroll_children_frame(view, container, children.drop_last(), contents, dx, dy);
        let out = scroll_children(view, container, children, contents, dx, dy).0;
        assert forall|j: int|
            0 <= j < contents.len() && !children.contains(j as usize) implies #[trigger] out[j]
            == contents[j] by {
            if children.drop_last().contains(j as usize) {
                let k = choose|k: int|
                    0 <= k < children.drop_last().len() && children.drop_last()[k] == j as usize;
                assert(children[k] == j as usize);
            }
        }
    }
}

/// A region whose children include one that overflows its viewport reports
/// `Applied` or `AtBoundary`, whatever the delta.
pub proof fn lemma_overflowing_child_reports(
    view: ScrollView,
    container: Size,
    children: Seq<usize>,
    contents: Seq<Content>,
    dx: int,
    dy: int,
    k: int,
)
    requires
        0 <= k < children.len(),
        overflows(contents, children[k] as int, view.horizontal, container),
    ensures
        ({
            let s = scroll_children(view, container, children, contents, dx, dy);
            s.1 || s.2
        }),
    decreases children.len(),
{
    let s = scroll_children(view, container, children, contents, dx, dy);
    let prev = scroll_children(view, container, children.drop_last(), contents, dx, dy);
    lemma_scroll_children_frame(view, container, children.drop_last(), contents, dx, dy);
    if k < children.len() - 1 {
        assert(children.drop_last()[k] == children[k]);
        lemma_overflowing_child_reports(view, container, children.drop_last(), contents, dx, dy, k);
    } else {
        let i = children.last() as int;
        assert(prev.0[i].size == contents[i].size);
    }
}

/// A region none of whose children overflows its viewport reports neither
/// `Applied` nor `AtBoundary`.
pub proof fn lemma_fitting_children_report_nothing(
    view: ScrollView,
    container: Size,
    children: Seq<usize>,
    contents: Seq<Content>,
    dx: int,
    dy: int,
)
    requires
        forall|k: int|
            0 <= k < children.len() ==> !overflows(
                contents,
                #[trigger] children[k] as int,
                view.horizontal,
                container,
            ),
    ensures
        ({
            let s = scroll_children(view, container, children, contents, dx, dy);
            !s.1 && !s.2
        }),
    decreases children.len(),
{
    if children.len() > 0 {
        let prev = scroll_children(view, container, children.drop_last(), contents, dx, dy);
        assert forall|k: int| 0 <= k < children.drop_last().len() implies !overflows(
            contents,
            #[trigger] children.drop_last()[k] as int,
            view.horizontal,
            container,
        ) by {
            assert(children.drop_last()[k] == children[k]);
        }
        lemma_fitting_children_report_nothing(view, container, children.drop_last(), contents, dx, dy);
        lemma_scroll_children_frame(view, container, children.drop_last(), contents, dx, dy);
        let i = children.last() as int;
        assert(!overflows(contents, children[children.len() - 1] as int, view.horizontal, container));
        if 0 <= i < prev.0.len() {
            assert(prev.0[i].size == contents[i].size);
        }
    }
}

/// Whatever the sizes and the delta, the engine leaves the offset on the
/// region's axis within `[-max_scroll, 0]`.
pub proof fn lemma_scroll_stays_in_range(
    content: ScrollableContent,
    horizontal: bool,
    container: Size,
    size: Size,
    dx: int,
    dy: int,
)
    ensures
        content.scrolled(horizontal, container, size, dx, dy).within(horizontal, container, size),
{
}

/// A zero delta leaves an offset that lies within range where it is, and
/// reports no edge; it reports `Inapplicable` exactly when there is no
/// overflow.
pub proof fn lemma_zero_delta_at_rest(
    content: ScrollableContent,
    horizontal: bool,
    container: Size,
    size: Size,
)
    requires
        content.within(horizontal, container, size),
    ensures
        content.scrolled(horizontal, container, size, 0, 0) == content,
        content.scroll_outcome(horizontal, container, size, 0, 0) != Outcome::AtBoundary,
        (content.scroll_outcome(horizontal, container, size, 0, 0) == Outcome::Inapplicable) == (
        max_scroll(size.along(horizontal), container.along(horizontal)) == 0),
{
}

/// An offset reset to zero is within range for any sizes, and stays at zero
/// when nothing moves it: it is the state a content node starts in.
pub proof fn lemma_reset_is_at_rest(horizontal: bool, container: Size, size: Size)
    ensures
        (ScrollableContent { pos_y: 0, pos_x: 0 }).within(horizontal, container, size),
        (ScrollableContent { pos_y: 0, pos_x: 0 }).scrolled(horizontal, container, size, 0, 0) == (
        ScrollableContent { pos_y: 0, pos_x: 0 }),
{
    lemma_zero_delta_at_rest(ScrollableContent { pos_y: 0, pos_x: 0 }, horizontal, container, size);
}

/// When the innermost region (the last one) is a candidate, does not
/// propagate, and has a child that overflows, it consumes the event: no
/// other region is evaluated, and every content node that is not its child
/// keeps its offset.
pub proof fn lemma_innermost_consumes(
    regions: Seq<Region>,
    contents: Seq<Content>,
    input: ScrollInput,
    frame_micros: int,
    k: int,
)
    requires
        regions.len() > 0,
        regions.last().interaction == candidate_state(input),
        !regions.last().view.propagate,
        0 <= k < regions.last().children@.len(),
        overflows(
            contents,
            regions.last().children@[k] as int,
            regions.last().view.horizontal,
            regions.last().size,
        ),
    ensures
        ({
            let inner = regions.last();
            let d = input_delta(input, inner.view, frame_micros);
            let out = resolve(regions, contents, input, frame_micros);
            &&& out == (scroll_children(inner.view, inner.size, inner.children@, contents, d.0, d.1).0, true)
            &&& forall|j: int|
                0 <= j < contents.len() && !inner.children@.contains(j as usize) ==> #[trigger] out.0[j]
                    == contents[j]
        }),
{
    let inner = regions.last();
    let d = input_delta(input, inner.view, frame_micros);
    lemma_overflowing_child_reports(inner.view, inner.size, inner.children@, contents, d.0, d.1, k);
    lemma_scroll_children_frame(inner.view, inner.size, inner.children@, contents, d.0, d.1);
}

/// When the innermost candidate propagates, the event still reaches the
/// regions that enclose it: they are resolved on the contents as the inner
/// region left them.
pub proof fn lemma_propagating_region_passes_on(
    regions: Seq<Region>,
    contents: Seq<Content>,
    input: ScrollInput,
    frame_micros: int,
)
    requires
        regions.len() > 0,
        regions.last().interaction == candidate_state(input),
        regions.last().view.propagate,
    ensures
        ({
            let inner = regions.last();
            let d = input_delta(input, inner.view, frame_micros);
            resolve(regions, contents, input, frame_micros) == resolve(
                regions.drop_last(),
                scroll_children(inner.view, inner.size, inner.children@, contents, d.0, d.1).0,
                input,
                frame_micros,
            )
        }),
{
}

/// With an inner region that propagates nested in an outer one, both
/// candidates, the event scrolls the inner region's children and then the
/// outer region's.
pub proof fn lemma_nested_propagation(
    outer: Region,
    inner: Region,
    contents: Seq<Content>,
    input: ScrollInput,
    frame_micros: int,
)
    requires
        outer.interaction == candidate_state(input),
        inner.interaction == candidate_state(input),
        inner.view.propagate,
    ensures
        ({
            let di = input_delta(input, inner.view, frame_micros);
            let dout = input_delta(input, outer.view, frame_micros);
            let after_inner = scroll_children(inner.view, inner.size, inner.children@, contents, di.0, di.1);
            let after_outer = scroll_children(
                outer.view,
                outer.size,
                outer.children@,
                after_inner.0,
                dout.0,
                dout.1,
            );
            resolve(seq![outer, inner], contents, input, frame_micros) == (
                after_outer.0,
                consumes(outer.view, after_outer.1, after_outer.2),
            )
        }),
{
    let regions = seq![outer, inner];
    let di = input_delta(input, inner.view, frame_micros);
    let dout = input_delta(input, outer.view, frame_micros);
    let after_inner = scroll_children(inner.view, inner.size, inner.children@, contents, di.0, di.1);
    assert(regions.last() == inner);
    assert(regions.drop_last() == seq![outer]);
    assert(resolve(regions, contents, input, frame_micros) == resolve(
        seq![outer],
        after_inner.0,
        input,
        frame_micros,
    ));
    assert(seq![outer].last() == outer);
    assert(seq![outer].drop_last() == Seq::<Region>::empty());
    let after_outer = scroll_children(outer.view, outer.size, outer.children@, after_inner.0, dout.0, dout.1);
    assert(resolve(Seq::<Region>::empty(), after_outer.0, input, frame_micros) == (after_outer.0, false));
}

/// A candidate none of whose children overflows its viewport never consumes
/// the event, whatever its `propagate` setting: the event goes on to the
/// next region.
pub proof fn lemma_fitting_region_is_transparent(
    regions: Seq<Region>,
    contents: Seq<Content>,
    input: ScrollInput,
    frame_micros: int,
)
    requires
        regions.len() > 0,
        regions.last().interaction == candidate_state(input),
        forall|k: int|
            0 <= k < regions.last().children@.len() ==> !overflows(
                contents,
                #[trigger] regions.last().children@[k] as int,
                regions.last().view.horizontal,
                regions.last().size,
            ),
    ensures
        ({
            let r = regions.last();
            let d = input_delta(input, r.view, frame_micros);
            resolve(regions, contents, input, frame_micros) == resolve(
                regions.drop_last(),
                scroll_children(r.view, r.size, r.children@, contents, d.0, d.1).0,
                input,
                frame_micros,
            )
        }),
{
    let r = regions.last();
    let d = input_delta(input, r.view, frame_micros);
    lemma_fitting_children_report_nothing(r.view, r.size, r.children@, contents, d.0, d.1);
}

} // verus!
