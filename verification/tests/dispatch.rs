use tuicore::element::{AnyElement, SectionElement, StackElement};
use tuicore::event::{KeyEvent, KeyHandler};
use tuicore::spans::Spans;
use tuicore::style::Style;

fn section(on_key: KeyHandler, content: AnyElement) -> AnyElement {
    AnyElement::Section(Box::new(SectionElement {
        title: Spans::default(),
        border: Style::default(),
        content,
        on_key,
    }))
}

#[test]
fn unbound_section_forwards_exactly_once() {
    let child = section(KeyHandler::Consume(7), AnyElement::Null);
    let root = section(KeyHandler::Propagate, child);
    let ev = KeyEvent { code: 13, modifiers: 0 };
    assert_eq!(root.on_key(ev), vec![(7, ev)]);
}

#[test]
fn consuming_handler_keeps_event_from_child() {
    let child = section(KeyHandler::Consume(7), AnyElement::Null);
    let root = section(KeyHandler::Consume(3), child);
    let ev = KeyEvent { code: 13, modifiers: 0 };
    assert_eq!(root.on_key(ev), vec![(3, ev)]);
}

#[test]
fn forwarding_handler_sees_event_then_child() {
    let child = section(KeyHandler::Consume(7), AnyElement::Null);
    let root = section(KeyHandler::Forward(5), child);
    let ev = KeyEvent { code: 9, modifiers: 1 };
    assert_eq!(root.on_key(ev), vec![(5, ev), (7, ev)]);
}

#[test]
fn next_handler_walks_past_unbound_sections() {
    let inner = section(KeyHandler::Consume(7), AnyElement::Null);
    let root = section(KeyHandler::Propagate, inner);
    let (id, child) = root.next_handler().unwrap();
    assert_eq!(id, 7);
    assert!(child.next_handler().is_none());
}

#[test]
fn next_handler_lets_the_application_continue_per_event() {
    let inner = section(KeyHandler::Consume(7), AnyElement::Null);
    let root = section(KeyHandler::Forward(5), inner);
    let (first, child) = root.next_handler().unwrap();
    assert_eq!(first, 5);
    let (second, grandchild) = child.next_handler().unwrap();
    assert_eq!(second, 7);
    assert!(grandchild.next_handler().is_none());
}

#[test]
fn stacks_and_empty_elements_ignore_events() {
    let stack = AnyElement::Stack(Box::new(StackElement {
        flex: vec![],
        children: vec![],
    }));
    let ev = KeyEvent { code: 1, modifiers: 0 };
    assert_eq!(stack.on_key(ev), vec![]);
    assert_eq!(AnyElement::Null.on_key(ev), vec![]);
}
