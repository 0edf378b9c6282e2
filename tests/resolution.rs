use bevy_simple_scroll_view::{
    create_scroll_view, handle_scroll_for_view, Content, Interaction, ScrollInput, ScrollTree,
    ScrollUnit, ScrollView, ScrollableContent, Size,
};

const FRAME: u32 = 16_000;

fn view(propagate: bool, horizontal: bool) -> ScrollView {
    ScrollView { scroll_speed: 200, propagate, horizontal }
}

fn square(side: u32) -> Size {
    Size { width: side, height: side }
}

/// An outer region with one content node, and an inner region nested in it
/// with one content node. Both overflow vertically unless told otherwise.
fn nested(inner_propagate: bool, inner_content_height: u32) -> ScrollTree {
    let mut t = ScrollTree::new();
    let outer = create_scroll_view(&mut t, view(false, false), square(100));
    let inner = create_scroll_view(&mut t, view(inner_propagate, false), square(50));
    assert_eq!(t.add_content(outer, Size { width: 100, height: 400 }), Some(0));
    assert_eq!(t.add_content(inner, Size { width: 50, height: inner_content_height }), Some(1));
    t.regions[outer].interaction = Interaction::Hovered;
    t.regions[inner].interaction = Interaction::Hovered;
    t
}

fn pos_y(t: &ScrollTree, i: usize) -> i64 {
    t.contents[i].scroll.pos_y
}

#[test]
fn new_region_starts_idle_and_empty() {
    let mut t = ScrollTree::new();
    let id = create_scroll_view(&mut t, ScrollView::default(), square(80));
    assert_eq!(id, 0);
    assert_eq!(t.regions[0].interaction, Interaction::Idle);
    assert!(t.regions[0].children.is_empty());
    assert_eq!(create_scroll_view(&mut t, ScrollView::default(), square(80)), 1);
}

#[test]
fn add_content_to_missing_region_is_refused() {
    let mut t = ScrollTree::new();
    assert_eq!(t.add_content(0, square(10)), None);
    assert!(t.contents.is_empty());
}

#[test]
fn innermost_region_consumes_wheel() {
    let mut t = nested(false, 200);
    let consumed = t.resolve_input(ScrollInput::Wheel { y: -1, unit: ScrollUnit::Line }, FRAME);
    assert!(consumed);
    assert_eq!(pos_y(&t, 1), -10);
    assert_eq!(pos_y(&t, 0), 0);
}

#[test]
fn innermost_at_edge_still_consumes() {
    let mut t = nested(false, 200);
    let consumed = t.resolve_input(ScrollInput::Wheel { y: 1, unit: ScrollUnit::Line }, FRAME);
    assert!(consumed);
    assert_eq!(pos_y(&t, 1), 0);
    assert_eq!(pos_y(&t, 0), 0);
}

#[test]
fn propagating_inner_passes_event_to_outer() {
    let mut t = nested(true, 200);
    let consumed = t.resolve_input(ScrollInput::Wheel { y: -1, unit: ScrollUnit::Line }, FRAME);
    assert!(consumed);
    assert_eq!(pos_y(&t, 1), -10);
    assert_eq!(pos_y(&t, 0), -10);
}

#[test]
fn inner_without_overflow_is_transparent() {
    for propagate in [false, true] {
        let mut t = nested(propagate, 40);
        t.resolve_input(ScrollInput::Wheel { y: -2, unit: ScrollUnit::Line }, FRAME);
        assert_eq!(pos_y(&t, 1), 0);
        assert_eq!(pos_y(&t, 0), -20);
    }
}

#[test]
fn nothing_overflowing_consumes_nothing() {
    let mut t = nested(false, 40);
    t.contents[0].size = Size { width: 100, height: 90 };
    let consumed = t.resolve_input(ScrollInput::Wheel { y: -2, unit: ScrollUnit::Line }, FRAME);
    assert!(!consumed);
    assert_eq!(pos_y(&t, 0), 0);
    assert_eq!(pos_y(&t, 1), 0);
}

#[test]
fn only_matching_interaction_is_a_candidate() {
    let mut t = nested(false, 200);
    t.regions[1].interaction = Interaction::Idle;
    t.resolve_input(ScrollInput::Wheel { y: -1, unit: ScrollUnit::Line }, FRAME);
    assert_eq!(pos_y(&t, 1), 0);
    assert_eq!(pos_y(&t, 0), -10);

    // hovered regions ignore drags
    let mut t = nested(false, 200);
    let consumed = t.resolve_input(ScrollInput::Drag { x: 0, y: -30 }, FRAME);
    assert!(!consumed);
    assert_eq!(pos_y(&t, 0), 0);
    assert_eq!(pos_y(&t, 1), 0);
}

#[test]
fn drag_follows_pointer_unscaled() {
    let mut t = nested(false, 200);
    t.regions[0].interaction = Interaction::Pressed;
    t.regions[1].interaction = Interaction::Pressed;
    let consumed = t.resolve_input(ScrollInput::Drag { x: -5, y: -37 }, 1);
    assert!(consumed);
    assert_eq!(pos_y(&t, 1), -37);
    assert_eq!(t.contents[1].scroll.pos_x, 0);
    assert_eq!(pos_y(&t, 0), 0);
}

#[test]
fn horizontal_region_takes_wheel_on_x() {
    let mut t = ScrollTree::new();
    let r = create_scroll_view(&mut t, view(false, true), square(100));
    t.add_content(r, Size { width: 300, height: 500 });
    t.regions[r].interaction = Interaction::Hovered;
    t.resolve_input(ScrollInput::Wheel { y: -2, unit: ScrollUnit::Line }, FRAME);
    assert_eq!(t.contents[0].scroll, ScrollableContent { pos_y: 0, pos_x: -20 });
}

#[test]
fn negative_speed_inverts_pixel_wheel() {
    let mut t = ScrollTree::new();
    let r = create_scroll_view(&mut t, ScrollView { scroll_speed: -200, propagate: false, horizontal: false }, square(100));
    t.add_content(r, Size { width: 100, height: 500 });
    t.regions[r].interaction = Interaction::Hovered;
    t.resolve_input(ScrollInput::Wheel { y: 10, unit: ScrollUnit::Pixel }, FRAME);
    assert_eq!(pos_y(&t, 0), -32);
}

#[test]
fn missing_child_is_skipped() {
    let mut contents = vec![Content { scroll: ScrollableContent::default(), size: Size { width: 10, height: 300 } }];
    let children = vec![7, 0];
    let (consume, at_edge) =
        handle_scroll_for_view(&view(false, false), square(100), &children, &mut contents, 0, -20);
    assert!(consume);
    assert!(!at_edge);
    assert_eq!(contents[0].scroll.pos_y, -20);
}

#[test]
fn every_child_is_scrolled_and_outcomes_combine() {
    let mut contents = vec![
        Content { scroll: ScrollableContent::default(), size: Size { width: 10, height: 300 } },
        Content { scroll: ScrollableContent::default(), size: Size { width: 10, height: 110 } },
        Content { scroll: ScrollableContent { pos_y: -5, pos_x: 0 }, size: Size { width: 10, height: 50 } },
    ];
    let children = vec![0, 1, 2];
    let (consume, at_edge) =
        handle_scroll_for_view(&view(false, false), square(100), &children, &mut contents, 0, -20);
    assert!(consume);
    assert!(at_edge);
    assert_eq!(contents[0].scroll.pos_y, -20);
    assert_eq!(contents[1].scroll.pos_y, -10);
    assert_eq!(contents[2].scroll.pos_y, 0);

    let (consume, at_edge) =
        handle_scroll_for_view(&view(true, false), square(100), &children, &mut contents, 0, -20);
    assert!(!consume);
    assert!(at_edge);
}

#[test]
fn inputs_are_resolved_in_order() {
    let mut t = nested(false, 200);
    t.regions[1].interaction = Interaction::Pressed;
    let inputs = vec![
        ScrollInput::Drag { x: 0, y: -120 },
        ScrollInput::Wheel { y: -1, unit: ScrollUnit::Line },
        ScrollInput::Drag { x: 0, y: 30 },
    ];
    t.process_inputs(&inputs, FRAME);
    // the drag reaches only the pressed inner region, the wheel only the hovered outer one
    assert_eq!(pos_y(&t, 1), -90);
    assert_eq!(pos_y(&t, 0), -10);
    t.process_inputs(&vec![ScrollInput::Drag { x: 0, y: 30 }], FRAME);
    assert_eq!(pos_y(&t, 1), -60);
}

#[test]
fn reset_is_like_a_fresh_start() {
    let mut t = nested(false, 200);
    t.resolve_input(ScrollInput::Wheel { y: -3, unit: ScrollUnit::Line }, FRAME);
    assert_eq!(pos_y(&t, 1), -30);
    t.contents[1].scroll.pos_y = 0;
    t.process_inputs(&vec![], FRAME);
    assert_eq!(pos_y(&t, 1), 0);
    t.resolve_input(ScrollInput::Drag { x: 0, y: 0 }, FRAME);
    assert_eq!(pos_y(&t, 1), 0);
    let mut fresh = nested(false, 200);
    t.resolve_input(ScrollInput::Wheel { y: -1, unit: ScrollUnit::Line }, FRAME);
    fresh.resolve_input(ScrollInput::Wheel { y: -1, unit: ScrollUnit::Line }, FRAME);
    assert_eq!(t.contents, fresh.contents);
}
