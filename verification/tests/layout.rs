use tuicore::flex::{layout, layout_extents, Flex};
use tuicore::rect::Rect;

#[test]
fn mixed_block_and_grow_scenario() {
    // extent 10, [Block(2), Grow(1), Grow(3)]: remaining = 8, total
    // grow weight = 4, so shares are [2, 2, 6], summing to 10.
    let specs = vec![Flex::Block(2), Flex::Grow(1), Flex::Grow(3)];
    let extents = layout_extents(10, &specs);
    assert_eq!(extents, vec![2, 2, 6]);
    let total: u16 = extents.iter().sum();
    assert_eq!(total, 10);
}

#[test]
fn all_blocks_exact_partition() {
    let specs = vec![Flex::Block(3), Flex::Block(7)];
    assert_eq!(layout_extents(10, &specs), vec![3, 7]);
}

#[test]
fn equal_grow_even_split() {
    let specs = vec![Flex::Grow(1), Flex::Grow(1), Flex::Grow(1)];
    assert_eq!(layout_extents(9, &specs), vec![3, 3, 3]);
}

#[test]
fn rounding_slack_stays_below_grow_weight() {
    let specs = vec![Flex::Grow(1), Flex::Grow(3)];
    let extents = layout_extents(10, &specs);
    assert_eq!(extents, vec![2, 7]);
    let total: u16 = extents.iter().sum();
    assert!(10 - total < 4);
}

#[test]
fn oversized_blocks_leave_no_remaining_space() {
    let specs = vec![Flex::Block(7), Flex::Grow(1)];
    assert_eq!(layout_extents(5, &specs), vec![7, 0]);
}

#[test]
fn zero_weight_grow_gets_nothing() {
    let specs = vec![Flex::Grow(0)];
    assert_eq!(layout_extents(10, &specs), vec![0]);
}

#[test]
fn empty_spec_row_gives_no_extents() {
    let specs: Vec<Flex> = Vec::new();
    assert_eq!(layout_extents(10, &specs), Vec::<u16>::new());
}

#[test]
fn rects_stack_top_to_bottom_at_full_width() {
    let specs = vec![Flex::Block(2), Flex::Grow(1), Flex::Grow(3)];
    let rects = layout(Rect { x: 1, y: 2, width: 10, height: 10 }, &specs);
    assert_eq!(rects.len(), 3);
    assert_eq!(rects[0], Rect { x: 1, y: 2, width: 10, height: 2 });
    assert_eq!(rects[1], Rect { x: 1, y: 4, width: 10, height: 2 });
    assert_eq!(rects[2], Rect { x: 1, y: 6, width: 10, height: 6 });
}
