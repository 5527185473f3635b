//! The trusted boundary to the rendering backend: `tui`'s character
//! buffer, and its bordered-block widget that paints decoration.

use vstd::prelude::*;
use crate::rect::Rect;
use crate::spans::{SpanModel, Spans};
use crate::style::{Color, Style};
use tui::layout::Rect as TuiRect;
use tui::style::{Color as TuiColor, Style as TuiStyle};
use tui::text::{Span as TuiSpan, Spans as TuiSpans};
use tui::widgets::{Block, Borders, Widget};

verus! {

/// `tui`'s character buffer, the surface drawing paints into. Opaque to
/// verification; what the contracts need of it is named below.
#[verifier::external_type_specification]
#[verifier::external_body]
pub struct ExBuffer(tui::buffer::Buffer);

/// The cells a buffer holds: grid position to the cell's symbol and a
/// code standing for its style, as `tui` stores them.
pub uninterp spec fn buffer_cells(b: tui::buffer::Buffer) -> Map<(int, int), (Seq<char>, int)>;

/// The rectangle of positions a buffer covers, fixed at creation.
pub uninterp spec fn buffer_area(b: tui::buffer::Buffer) -> Rect;

/// The cells of a buffer drawn by `tui`'s bordered block widget: the
/// prior cells overwritten, inside `rect` only, with a border on all
/// four sides in the border style and the title along the top line. A
/// pure function of its arguments, not spelled out cell by cell.
pub uninterp spec fn block_rendered(
    cells: Map<(int, int), (Seq<char>, int)>,
    title: Seq<SpanModel>,
    border: Style,
    rect: Rect,
) -> Map<(int, int), (Seq<char>, int)>;

/// The cells of a freshly created buffer: every position blank.
pub uninterp spec fn blank_cells(width: int, height: int) -> Map<(int, int), (Seq<char>, int)>;

/// Whether a buffer satisfies `tui`'s own representation invariant: its
/// content holds one cell per position of its area, and the area's
/// extent is small enough that `tui`'s 16-bit size arithmetic is exact.
/// `tui`'s constructors establish it; a buffer assembled by hand from
/// the type's public fields need not have it, and `tui` may panic on
/// such a value.
pub uninterp spec fn buffer_wf(b: tui::buffer::Buffer) -> bool;

/// The part of a cell map lying outside a rectangle: what a drawing
/// confined to `r` must leave untouched.
pub open spec fn masked_cells(
    cells: Map<(int, int), (Seq<char>, int)>,
    r: Rect,
) -> Map<(int, int), (Seq<char>, int)> {
    Map::new(
        |p: (int, int)| cells.contains_key(p) && !r.contains_cell(p.0, p.1),
        |p: (int, int)| cells[p],
    )
}

/// Two cell maps that agree outside a rectangle also agree outside any
/// rectangle covering it.
pub proof fn lemma_masked_mono(
    a: Map<(int, int), (Seq<char>, int)>,
    b: Map<(int, int), (Seq<char>, int)>,
    small: Rect,
    big: Rect,
)
    requires
        masked_cells(a, small) == masked_cells(b, small),
        big.covers(small),
    ensures
        masked_cells(a, big) == masked_cells(b, big),
{
    assert forall|p: (int, int)| #[trigger] masked_cells(a, big).contains_key(p) implies
        masked_cells(b, big).contains_key(p) && masked_cells(a, big)[p] == masked_cells(b, big)[p]
    by {
        if small.contains_cell(p.0, p.1) {
            crate::rect::lemma_covers_cells(big, small, p.0, p.1);
        }
        assert(masked_cells(a, small).contains_key(p));
        assert(masked_cells(b, small).contains_key(p));
        assert(masked_cells(a, small)[p] == masked_cells(b, small)[p]);
    }
    assert forall|p: (int, int)| #[trigger] masked_cells(b, big).contains_key(p) implies
        masked_cells(a, big).contains_key(p)
    by {
        if small.contains_cell(p.0, p.1) {
            crate::rect::lemma_covers_cells(big, small, p.0, p.1);
        }
        assert(masked_cells(b, small).contains_key(p));
        assert(masked_cells(a, small).contains_key(p));
    }
    assert(masked_cells(a, big) =~= masked_cells(b, big));
}

/// Relies on `tui::widgets::Block` with `Widget::render`: draws a border
/// on all four sides of `rect` in `border`, with `title` embedded in the
/// top line, over the buffer's current content, touching no cell outside
/// `rect`. `tui` indexes the buffer directly, so `rect` must lie inside
/// the area of a well-formed buffer.
#[verifier::external_body]
pub(crate) fn render_block(title: &Spans, border: &Style, rect: Rect, buf: &mut tui::buffer::Buffer)
    requires
        buffer_wf(*old(buf)),
        buffer_area(*old(buf)).covers(rect),
        rect.wf(),
    ensures
        buffer_cells(*final(buf)) == block_rendered(
            buffer_cells(*old(buf)),
            title@,
            *border,
            rect,
        ),
        masked_cells(buffer_cells(*final(buf)), rect) == masked_cells(
            buffer_cells(*old(buf)),
            rect,
        ),
        buffer_area(*final(buf)) == buffer_area(*old(buf)),
        buffer_wf(*final(buf)),
{
    let conv = |fg: Option<Color>| match fg {
        Some(c) => TuiStyle::default().fg(TuiColor::Rgb(c.red, c.green, c.blue)),
        None => TuiStyle::default(),
    };
    let mut parts: Vec<TuiSpan> = Vec::new();
    for sp in title.0.iter() {
        parts.push(TuiSpan::styled(sp.text.clone(), conv(sp.style.fg)));
    }
    let block = Block::default().title(TuiSpans(parts)).borders(Borders::ALL).border_style(conv(border.fg));
    Widget::render(block, TuiRect { x: rect.x, y: rect.y, width: rect.width, height: rect.height }, buf);
}

/// Relies on `tui::buffer::Buffer::empty`: a fresh buffer covering the
/// rectangle at the origin, every cell blank. `tui` sizes the content by
/// an unchecked 16-bit multiply of width and height, so the cell count
/// must itself fit in 16 bits.
#[verifier::external_body]
pub(crate) fn new_buffer(width: u16, height: u16) -> (b: tui::buffer::Buffer)
    requires
        width as int * height as int <= 0xFFFF,
    ensures
        buffer_area(b) == (Rect { x: 0, y: 0, width, height }),
        buffer_cells(b) == blank_cells(width as int, height as int),
        buffer_wf(b),
{
    tui::buffer::Buffer::empty(TuiRect { x: 0, y: 0, width, height })
}

} // verus!
