//! What this library takes from ratatui, the drawing toolkit, on trust.
//!
//! Nothing in this file is proved. Each item says what it believes of the
//! toolkit; the rest of the library is verified against these statements.

use crate::layout::{Area, Axis};
use ratatui::buffer::Buffer;
use ratatui::layout::{Constraint, Direction, Flex, Layout, Rect};
use ratatui::widgets::Widget;
use vstd::prelude::*;

verus! {

/// ratatui's `Buffer`, the grid of cells that widgets draw into. Verus sees
/// nothing inside it; `buffer_area` and `buffer_cells` stand for what it holds.
#[verifier::external_type_specification]
#[verifier::external_body]
pub struct ExBuffer(ratatui::buffer::Buffer);

/// The rectangle that a buffer covers (its field `area`).
pub uninterp spec fn buffer_area(buf: Buffer) -> Area;

/// The symbols in a buffer's cells, in the order of its field `content`: row
/// by row, each row from left to right.
pub uninterp spec fn buffer_cells(buf: Buffer) -> Seq<Seq<char>>;

/// The columns that `ratatui::text::Text::width` counts for `content`: the
/// display width of its widest line.
pub uninterp spec fn text_width(content: Seq<char>) -> usize;

/// The columns that `ratatui::text::Line::width` counts for `content`: the
/// display widths of its lines, added up.
pub uninterp spec fn line_width(content: Seq<char>) -> usize;

/// The most characters of a content that the drawing wrappers take. No
/// character is wider than three columns, so a content within the limit has
/// no grapheme of `u16::MAX` columns or more, and ratatui's casts of a
/// grapheme's width to `u16` keep its value.
pub const TEXT_LIMIT: usize = 21845;

/// The widest area that `Paragraph` is handed: with no more columns than
/// this, the `u16` sum of a line's width and one grapheme's stays in range.
pub const PARAGRAPH_LIMIT: u16 = 32767;

/// The symbols that `cells`, the cells of a buffer over `bounds`, hold after
/// ratatui's `Text` widget has drawn `content` into `area`.
pub uninterp spec fn text_painted(
    cells: Seq<Seq<char>>,
    bounds: Area,
    area: Area,
    content: Seq<char>,
) -> Seq<Seq<char>>;

/// The symbols that `cells` hold after ratatui's `Block`, with all four
/// borders and the title `title`, has been drawn into `area`.
pub uninterp spec fn titled_frame_painted(
    cells: Seq<Seq<char>>,
    bounds: Area,
    area: Area,
    title: Seq<char>,
) -> Seq<Seq<char>>;

/// The symbols that `cells` hold after ratatui's `Paragraph` widget has drawn
/// `content` into `area`.
pub uninterp spec fn paragraph_painted(
    cells: Seq<Seq<char>>,
    bounds: Area,
    area: Area,
    content: Seq<char>,
) -> Seq<Seq<char>>;

/// Whether a buffer is as ratatui's own constructors make it, and ends before
/// the last column: over a drawable rectangle, with one cell for each
/// position in it.
pub open spec fn intact(buf: Buffer) -> bool {
    &&& buffer_area(buf).drawable()
    &&& buffer_cells(buf).len() == buffer_area(buf).width * buffer_area(buf).height
}

/// The column of cell `i` of a buffer over `bounds`.
pub open spec fn cell_x(bounds: Area, i: int) -> int {
    bounds.x + i % (bounds.width as int)
}

/// The row of cell `i` of a buffer over `bounds`.
pub open spec fn cell_y(bounds: Area, i: int) -> int {
    bounds.y + i / (bounds.width as int)
}

/// Whether `after` holds, in every cell outside `area`, the symbol that
/// `before` holds there.
pub open spec fn kept_outside(
    bounds: Area,
    area: Area,
    before: Seq<Seq<char>>,
    after: Seq<Seq<char>>,
) -> bool {
    &&& after.len() == before.len()
    &&& forall|i: int|
        0 <= i < before.len() && !area.holds(cell_x(bounds, i), cell_y(bounds, i)) ==> (
        #[trigger] after[i]) == before[i]
}

/// The glyph that a plain frame round `part` puts at column `x` of row `y`,
/// if any. `Block` paints the four sides and then the four corners, the top
/// left one last, so that is the one a cell keeps where corners fall together.
pub open spec fn frame_glyph(part: Area, x: int, y: int) -> Option<char> {
    let left = part.x as int;
    let top = part.y as int;
    let right = part.x + part.width - 1;
    let bottom = part.y + part.height - 1;
    if !part.holds(x, y) {
        None
    } else if x == left && y == top {
        Some('\u{250c}')
    } else if x == left && y == bottom {
        Some('\u{2514}')
    } else if x == right && y == top {
        Some('\u{2510}')
    } else if x == right && y == bottom {
        Some('\u{2518}')
    } else if y == top || y == bottom {
        Some('\u{2500}')
    } else if x == left || x == right {
        Some('\u{2502}')
    } else {
        None
    }
}

/// The symbols that `cells`, the cells of a buffer over `bounds`, hold after
/// a plain frame has been drawn into `area`: the frame's glyphs round the
/// part of `area` that the buffer covers, and the symbols of before in every
/// other cell.
pub open spec fn framed(cells: Seq<Seq<char>>, bounds: Area, area: Area) -> Seq<Seq<char>> {
    match area.overlap(bounds) {
        Some(part) => Seq::new(
            cells.len(),
            |i: int|
                match frame_glyph(part, cell_x(bounds, i), cell_y(bounds, i)) {
                    Some(glyph) => seq![glyph],
                    None => cells[i],
                },
        ),
        None => cells,
    }
}

/// Whether cell `i` lies where a frame round `area` carries its title: in
/// the first row of the part of `area` that the buffer covers, between its
/// first and its last column.
pub open spec fn in_title_span(bounds: Area, area: Area, i: int) -> bool {
    area.overlap(bounds) matches Some(part) && cell_y(bounds, i) == part.y && part.x < cell_x(
        bounds,
        i,
    ) < part.x + part.width - 1
}

/// The symbols of a buffer over `area` that nothing has been drawn into: one
/// blank for each position.
pub open spec fn blank_cells(area: Area) -> Seq<Seq<char>> {
    Seq::new((area.width * area.height) as nat, |i: int| seq![' '])
}

/// Calls `Buffer::empty`, which makes a buffer over `area` and fills it with
/// cells that hold one blank each.
#[verifier::external_body]
pub(crate) fn blank_buffer(area: Area) -> (buf: Buffer)
    ensures
        buffer_area(buf) == area,
        buffer_cells(buf) == blank_cells(area),
{
    Buffer::empty(Rect { x: area.x, y: area.y, width: area.width, height: area.height })
}

/// Reads the field `area` of a `Buffer`.
#[verifier::external_body]
pub(crate) fn buffer_bounds(buf: &Buffer) -> (bounds: Area)
    ensures
        bounds == buffer_area(*buf),
{
    Area { x: buf.area.x, y: buf.area.y, width: buf.area.width, height: buf.area.height }
}

/// Calls `ratatui::text::Text::width` on the text made of `content`. The
/// call reads `content` alone, so its result is `text_width` of it.
#[verifier::external_body]
pub(crate) fn measure_text(content: &str) -> (width: usize)
    ensures
        width == text_width(content@),
{
    ratatui::text::Text::from(content).width()
}

/// Calls `ratatui::text::Line::width` on the line made of `content`, which is
/// how `Block` measures a title. The call reads `content` alone.
#[verifier::external_body]
pub(crate) fn measure_line(content: &str) -> (width: usize)
    ensures
        width == line_width(content@),
{
    ratatui::text::Line::from(content).width()
}

/// Asks ratatui's `Layout` for the one segment of length `extent` that
/// `Flex::Center` places in `area` along `axis`. The layout solver walks hash
/// maps, so nothing is claimed of its answer.
#[verifier::external_body]
pub(crate) fn solve_center(area: Area, axis: Axis, extent: u16) -> (segment: Area) {
    let direction = match axis {
        Axis::Horizontal => Direction::Horizontal,
        Axis::Vertical => Direction::Vertical,
    };
    let rect = Rect { x: area.x, y: area.y, width: area.width, height: area.height };
    let [inner] = Layout::new(direction, [Constraint::Length(extent)]).flex(Flex::Center).areas(rect);
    Area { x: inner.x, y: inner.y, width: inner.width, height: inner.height }
}

/// Asks ratatui's `Layout` to split `area` along `axis` under `count`
/// constraints `Ratio(numerator, denominator)`. The solver returns one
/// segment for each constraint; no more is claimed of its answer.
#[verifier::external_body]
pub(crate) fn solve_split(
    area: Area,
    axis: Axis,
    numerator: u32,
    denominator: u32,
    count: usize,
) -> (segments: Vec<Area>)
    ensures
        segments@.len() == count,
{
    let direction = match axis {
        Axis::Horizontal => Direction::Horizontal,
        Axis::Vertical => Direction::Vertical,
    };
    let rect = Rect { x: area.x, y: area.y, width: area.width, height: area.height };
    let shares = vec![Constraint::Ratio(numerator, denominator); count];
    let rects = Layout::default().direction(direction).constraints(shares).split(rect);
    rects.iter().map(|r| Area { x: r.x, y: r.y, width: r.width, height: r.height }).collect()
}

/// Draws `content` into `area` with ratatui's `Text` widget. The widget cuts
/// `area` down to the buffer first and writes within what is left; the
/// symbols it writes depend on the symbols there before, the two rectangles
/// and `content`. Where it tests whether a grapheme still fits it adds the
/// grapheme's width, cast to `u16`, to the column with a saturating sum: the
/// buffer must end before the last column and the content keep to
/// `TEXT_LIMIT`, or a cell behind the buffer's last column is indexed.
#[verifier::external_body]
pub(crate) fn paint_text(buf: &mut Buffer, area: Area, content: &str)
    requires
        intact(*old(buf)),
        area.valid(),
        content@.len() <= TEXT_LIMIT,
    ensures
        buffer_area(*final(buf)) == buffer_area(*old(buf)),
        buffer_cells(*final(buf)) == text_painted(
            buffer_cells(*old(buf)),
            buffer_area(*old(buf)),
            area,
            content@,
        ),
        kept_outside(
            buffer_area(*old(buf)),
            area,
            buffer_cells(*old(buf)),
            buffer_cells(*final(buf)),
        ),
{
    let rect = Rect { x: area.x, y: area.y, width: area.width, height: area.height };
    ratatui::text::Text::from(content).render(rect, buf);
}

/// Draws ratatui's `Block::bordered()` into `area`. The block cuts `area`
/// down to the buffer, paints nothing if nothing is left, and else paints the
/// left, top, right and bottom side and then the bottom right, top right,
/// bottom left and top left corner, in the plain border set.
#[verifier::external_body]
pub(crate) fn paint_frame(buf: &mut Buffer, area: Area)
    requires
        intact(*old(buf)),
        area.valid(),
    ensures
        buffer_area(*final(buf)) == buffer_area(*old(buf)),
        buffer_cells(*final(buf)) == framed(
            buffer_cells(*old(buf)),
            buffer_area(*old(buf)),
            area,
        ),
{
    let rect = Rect { x: area.x, y: area.y, width: area.width, height: area.height };
    ratatui::widgets::Block::bordered().render(rect, buf);
}

/// Draws ratatui's `Block::bordered().title(title)` into `area`. The block
/// paints its borders as without a title and then the title into the first
/// row, from one column behind the left border to one before the right
/// border, so every other cell is as a plain frame leaves it. Where the block
/// places a title it adds one to the title's width as a `u16`, so a title of
/// `u16::MAX` columns or more is left out; and the title keeps to
/// `TEXT_LIMIT`, so that no grapheme of it is drawn behind the room it has.
#[verifier::external_body]
pub(crate) fn paint_titled_frame(buf: &mut Buffer, area: Area, title: &str)
    requires
        intact(*old(buf)),
        area.valid(),
        title@.len() <= TEXT_LIMIT,
        line_width(title@) < u16::MAX,
    ensures
        buffer_area(*final(buf)) == buffer_area(*old(buf)),
        buffer_cells(*final(buf)) == titled_frame_painted(
            buffer_cells(*old(buf)),
            buffer_area(*old(buf)),
            area,
            title@,
        ),
        kept_outside(
            buffer_area(*old(buf)),
            area,
            buffer_cells(*old(buf)),
            buffer_cells(*final(buf)),
        ),
        forall|i: int|
            0 <= i < buffer_cells(*old(buf)).len() && !in_title_span(buffer_area(*old(buf)), area, i)
                ==> (#[trigger] buffer_cells(*final(buf))[i]) == framed(
                buffer_cells(*old(buf)),
                buffer_area(*old(buf)),
                area,
            )[i],
{
    let rect = Rect { x: area.x, y: area.y, width: area.width, height: area.height };
    ratatui::widgets::Block::bordered().title(title).render(rect, buf);
}

/// Draws `content` into `area` with ratatui's `Paragraph` widget, which
/// writes within `area`. The widget indexes the buffer at every position of
/// `area` that it writes, so `area` has to lie within the buffer. It adds the
/// width of a grapheme to the width of the line as a `u16` before it compares
/// the sum with the width of `area`, so `area` keeps to `PARAGRAPH_LIMIT`
/// columns and `content` to `TEXT_LIMIT`.
#[verifier::external_body]
pub(crate) fn paint_paragraph(buf: &mut Buffer, area: Area, content: &str)
    requires
        intact(*old(buf)),
        area.valid(),
        area.width <= PARAGRAPH_LIMIT,
        content@.len() <= TEXT_LIMIT,
        buffer_area(*old(buf)).x <= area.x,
        buffer_area(*old(buf)).y <= area.y,
        area.x + area.width <= buffer_area(*old(buf)).x + buffer_area(*old(buf)).width,
        area.y + area.height <= buffer_area(*old(buf)).y + buffer_area(*old(buf)).height,
    ensures
        buffer_area(*final(buf)) == buffer_area(*old(buf)),
        buffer_cells(*final(buf)) == paragraph_painted(
            buffer_cells(*old(buf)),
            buffer_area(*old(buf)),
            area,
            content@,
        ),
        kept_outside(
            buffer_area(*old(buf)),
            area,
            buffer_cells(*old(buf)),
            buffer_cells(*final(buf)),
        ),
{
    let rect = Rect { x: area.x, y: area.y, width: area.width, height: area.height };
    ratatui::widgets::Paragraph::new(content).render(rect, buf);
}

} // verus!
