use tuicore::children::Children;
use tuicore::component::AnyComponent;
use tuicore::event::KeyHandler;
use tuicore::section::Section;
use tuicore::spans::{Span, Spans};
use tuicore::style::{Color, Style};

#[test]
fn span_keeps_text_and_style() {
    let style = Style::colored(Color { red: 1, green: 2, blue: 3 });
    let span = Span::new("hi".to_string(), style);
    assert_eq!(span.text, "hi");
    assert_eq!(span.style, style);
}

#[test]
fn spans_of_single_span() {
    let spans = Spans::of(Span::new("x".to_string(), Style::default()));
    assert_eq!(spans.count(), 1);
    assert_eq!(spans.0[0].text, "x");
}

#[test]
fn plain_text_becomes_an_unstyled_span() {
    let span = Span::from("plain".to_string());
    assert_eq!(span.text, "plain");
    assert_eq!(span.style, Style { fg: None });
}

#[test]
fn default_spans_are_empty() {
    assert_eq!(Spans::default().count(), 0);
}

#[test]
fn default_section_has_white_border_one_empty_child_no_handler() {
    let section = Section::default();
    assert_eq!(section.title.count(), 0);
    assert_eq!(section.border, Style { fg: Some(Color::white()) });
    assert_eq!(section.children.count(), 1);
    assert_eq!(section.on_key, KeyHandler::Propagate);
}

#[test]
fn children_refuse_the_wrong_arity() {
    let row: Option<Children<2>> = Children::of(vec![AnyComponent::Null]);
    assert!(row.is_none());
    let row: Option<Children<1>> = Children::of(vec![AnyComponent::Null]);
    assert!(row.is_some());
}

#[test]
fn white_is_full_intensity() {
    assert_eq!(Color::white(), Color { red: 255, green: 255, blue: 255 });
}
