use tuicore::children::Children;
use tuicore::component::{AnyComponent, Component};
use tuicore::element::draw_to_buffer;
use tuicore::event::KeyHandler;
use tuicore::flex::Flex;
use tuicore::section::Section;
use tuicore::spans::Spans;
use tuicore::stack::Stack;
use tuicore::style::{Color, Style};

fn titled_section(title: &str) -> Section {
    Section {
        title: Spans::plain(title.to_string()),
        border: Style::colored(Color::white()),
        children: Children::of(vec![AnyComponent::Null]).unwrap(),
        on_key: KeyHandler::Propagate,
    }
}

#[test]
fn rendering_twice_draws_identical_pixels() {
    let component = titled_section("ab");
    let first = component.render();
    let second = component.render();
    let buf1 = draw_to_buffer(&first, 10, 5);
    let buf2 = draw_to_buffer(&second, 10, 5);
    assert_eq!(buf1, buf2);
}

#[test]
fn section_draws_border_and_title() {
    let element = titled_section("ab").render();
    let buf = draw_to_buffer(&element, 5, 3);
    assert_eq!(buf.get(0, 0).symbol, "┌");
    assert_eq!(buf.get(4, 0).symbol, "┐");
    assert_eq!(buf.get(0, 2).symbol, "└");
    assert_eq!(buf.get(4, 2).symbol, "┘");
    assert_eq!(buf.get(1, 0).symbol, "a");
    assert_eq!(buf.get(2, 0).symbol, "b");
    assert_eq!(buf.get(2, 1).symbol, " ");
}

#[test]
fn drawing_nothing_leaves_the_buffer_blank() {
    let buf = draw_to_buffer(&tuicore::element::AnyElement::Null, 4, 2);
    let blank = tui::buffer::Buffer::empty(tui::layout::Rect {
        x: 0,
        y: 0,
        width: 4,
        height: 2,
    });
    assert_eq!(buf, blank);
}

#[test]
fn drawing_into_a_sub_rectangle_leaves_the_rest_untouched() {
    let element = titled_section("t").render();
    let mut buf = tui::buffer::Buffer::empty(tui::layout::Rect {
        x: 0,
        y: 0,
        width: 10,
        height: 6,
    });
    element.draw(tuicore::rect::Rect { x: 2, y: 1, width: 5, height: 3 }, &mut buf);
    assert_eq!(buf.get(2, 1).symbol, "┌");
    assert_eq!(buf.get(6, 3).symbol, "┘");
    assert_eq!(buf.get(0, 0).symbol, " ");
    assert_eq!(buf.get(1, 1).symbol, " ");
    assert_eq!(buf.get(7, 1).symbol, " ");
    assert_eq!(buf.get(9, 5).symbol, " ");
}

#[test]
fn stack_draws_children_into_their_sub_rectangles() {
    let stack = Stack::<2> {
        flex: [Flex::Block(2), Flex::Grow(1)],
        children: Children::of(vec![
            AnyComponent::Section(Box::new(titled_section(""))),
            AnyComponent::Section(Box::new(titled_section(""))),
        ])
        .unwrap(),
    };
    let element = stack.render();
    let buf = draw_to_buffer(&element, 4, 6);
    // first child occupies rows 0..2, the second rows 2..6
    assert_eq!(buf.get(0, 0).symbol, "┌");
    assert_eq!(buf.get(0, 1).symbol, "└");
    assert_eq!(buf.get(0, 2).symbol, "┌");
    assert_eq!(buf.get(0, 5).symbol, "└");
}
