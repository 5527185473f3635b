use tuicore::rect::Rect;

#[test]
fn inner_insets_one_cell_each_side() {
    let outer = Rect { x: 0, y: 0, width: 10, height: 5 };
    assert_eq!(outer.inner(), Rect { x: 1, y: 1, width: 8, height: 3 });
}

#[test]
fn inner_at_offset_origin() {
    let outer = Rect { x: 4, y: 7, width: 2, height: 2 };
    assert_eq!(outer.inner(), Rect { x: 5, y: 8, width: 0, height: 0 });
}

#[test]
fn inner_of_thin_rect_collapses() {
    let outer = Rect { x: 0, y: 0, width: 1, height: 1 };
    assert_eq!(outer.inner(), Rect { x: 1, y: 1, width: 0, height: 0 });
}

#[test]
fn inner_of_empty_rect_stays_in_place() {
    let outer = Rect { x: 3, y: 3, width: 0, height: 0 };
    assert_eq!(outer.inner(), Rect { x: 3, y: 3, width: 0, height: 0 });
}
