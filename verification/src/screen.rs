//! The screen: areas, styled text, and the widgets that paint a buffer of cells.

use ratatui::buffer::Buffer;
use ratatui::layout;
use ratatui::style::{Color, Modifier, Style};
use ratatui::text::Line;
use ratatui::widgets;
use ratatui::widgets::{Block, Borders, Gauge, Paragraph, Row, Widget};
use vstd::prelude::*;

use crate::cells::Screen;

verus! {

/// Colours, as red, green and blue bytes.
pub const GREEN: u32 = 0x33FF33;

pub const DIM_GREEN: u32 = 0x118811;

pub const DARK_GREEN: u32 = 0x0A330A;

pub const ORANGE: u32 = 0xFF6600;

/// Colours that are the terminal's own.
#[derive(Clone, Copy, PartialEq, Eq, Structural, Debug)]
pub enum Backdrop {
    Black,
}

/// Modifiers of text, one bit each.
pub const PLAIN: u16 = 0;

pub const BOLD: u16 = 1;

/// The sides of an area that a border runs along.
#[derive(Clone, Copy, PartialEq, Eq, Structural, Debug)]
pub enum Sides {
    All,
    Right,
    NoSide,
}

/// An area of the screen, in cells.
#[derive(Clone, Copy, PartialEq, Eq, Structural, Debug)]
pub struct Rect {
    pub x: u16,
    pub y: u16,
    pub width: u16,
    pub height: u16,
}

impl Rect {
    /// Whether the area lies in another one.
    pub open spec fn within(self, outer: Rect) -> bool {
        &&& outer.x <= self.x && self.x + self.width <= outer.x + outer.width
        &&& outer.y <= self.y && self.y + self.height <= outer.y + outer.height
    }

    /// Whether the positions behind the last column and the last row can be told in 16 bits.
    pub open spec fn bounded(self) -> bool {
        self.x + self.width <= u16::MAX && self.y + self.height <= u16::MAX
    }

    /// Whether the area has no columns, or the position after the one behind its last column can
    /// be told in 16 bits too.
    pub open spec fn clear(self) -> bool {
        self.width == 0 || self.x + self.width < u16::MAX
    }

    /// What a border with a title leaves of the area. Each side takes a column or a row; the title
    /// takes the first row where no side does.
    pub open spec fn inner(self, sides: Sides) -> Rect {
        let columns: int = match sides {
            Sides::All => 2,
            Sides::Right => 1,
            Sides::NoSide => 0,
        };
        let rows: int = if sides == Sides::All {
            2
        } else {
            1
        };
        Rect {
            x: if sides == Sides::All && self.width > 0 {
                (self.x + 1) as u16
            } else {
                self.x
            },
            y: if self.height > 0 {
                (self.y + 1) as u16
            } else {
                self.y
            },
            width: if self.width > columns {
                (self.width - columns) as u16
            } else {
                0
            },
            height: if self.height > rows {
                (self.height - rows) as u16
            } else {
                0
            },
        }
    }
}

/// What is asked of the size of a part when an area is split.
#[derive(Clone, Copy, PartialEq, Eq, Structural, Debug)]
pub enum Constraint {
    Length(u16),
    Min(u16),
}

/// A piece of text with a colour and modifiers.
pub struct Span {
    pub text: String,
    pub color: u32,
    pub modifiers: u16,
}

/// `Span` with its text as a sequence of characters.
pub struct SpanView {
    pub text: Seq<char>,
    pub color: u32,
    pub modifiers: u16,
}

impl View for Span {
    type V = SpanView;

    open spec fn view(&self) -> SpanView {
        SpanView { text: self.text@, color: self.color, modifiers: self.modifiers }
    }
}

/// A piece of text.
pub open spec fn span(text: Seq<char>, color: u32, modifiers: u16) -> SpanView {
    SpanView { text, color, modifiers }
}

/// The views of the pieces of a line.
pub open spec fn line_view(line: Seq<Span>) -> Seq<SpanView> {
    line.map_values(|s: Span| s@)
}

/// The views of lines.
pub open spec fn lines_view(lines: Seq<Vec<Span>>) -> Seq<Seq<SpanView>> {
    lines.map_values(|line: Vec<Span>| line_view(line@))
}

/// A border with a title.
pub struct Border {
    pub title: String,
    pub title_color: u32,
    pub title_modifiers: u16,
    pub sides: Sides,
    pub color: u32,
}

/// `Border` with its title as a sequence of characters.
pub struct BorderView {
    pub title: Seq<char>,
    pub title_color: u32,
    pub title_modifiers: u16,
    pub sides: Sides,
    pub color: u32,
}

impl View for Border {
    type V = BorderView;

    open spec fn view(&self) -> BorderView {
        BorderView {
            title: self.title@,
            title_color: self.title_color,
            title_modifiers: self.title_modifiers,
            sides: self.sides,
            color: self.color,
        }
    }
}

/// A table with a header.
pub struct Table {
    pub header: Vec<String>,
    pub header_color: u32,
    pub header_modifiers: u16,
    pub rows: Vec<Vec<String>>,
    pub row_color: u32,
    pub widths: Vec<Constraint>,
}

/// `Table` with its texts as sequences of characters.
pub struct TableView {
    pub header: Seq<Seq<char>>,
    pub header_color: u32,
    pub header_modifiers: u16,
    pub rows: Seq<Seq<Seq<char>>>,
    pub row_color: u32,
    pub widths: Seq<Constraint>,
}

/// The contents of a list of strings.
pub open spec fn strings(list: Seq<String>) -> Seq<Seq<char>> {
    list.map_values(|s: String| s@)
}

impl View for Table {
    type V = TableView;

    open spec fn view(&self) -> TableView {
        TableView {
            header: strings(self.header@),
            header_color: self.header_color,
            header_modifiers: self.header_modifiers,
            rows: self.rows@.map_values(|row: Vec<String>| strings(row@)),
            row_color: self.row_color,
            widths: self.widths@,
        }
    }
}

/// Whether a character takes up one cell: printable ASCII, the degree sign and the two blocks that
/// bars are made of.
pub open spec fn narrow(c: char) -> bool {
    ' ' <= c <= '~' || c == '\u{b0}' || c == '\u{2588}' || c == '\u{2591}'
}

/// Whether every character of a text takes up one cell.
pub open spec fn is_narrow(s: Seq<char>) -> bool {
    forall|i: int| 0 <= i < s.len() ==> narrow(#[trigger] s[i])
}

/// Whether every character of every line takes up one cell.
pub open spec fn lines_narrow(lines: Seq<Seq<SpanView>>) -> bool {
    forall|i: int, j: int|
        0 <= i < lines.len() && 0 <= j < lines[i].len() ==> is_narrow((#[trigger] lines[i][j]).text)
}

/// Whether a text is short enough that its width can be told in 16 bits whatever its characters.
pub open spec fn is_short(s: Seq<char>) -> bool {
    s.len() < 0x4000
}

/// Where a column of a table begins, and how wide it is.
pub struct Column {
    pub offset: u16,
    pub width: u16,
}

/// Whether the width of every character that a reader would see in a text can be told in 16 bits:
/// the text is short, or each of its characters takes up one cell.
pub open spec fn is_cell(s: Seq<char>) -> bool {
    is_short(s) || is_narrow(s)
}

impl TableView {
    /// Whether a table can be painted: it has columns, and texts that a cell can show.
    pub open spec fn paintable(self) -> bool {
        &&& self.widths.len() > 0
        &&& forall|i: int| 0 <= i < self.header.len() ==> is_cell(#[trigger] self.header[i])
        &&& forall|i: int, j: int|
            0 <= i < self.rows.len() && 0 <= j < self.rows[i].len() ==> is_cell(
                #[trigger] self.rows[i][j],
            )
    }
}

/// How many characters a line has.
pub open spec fn line_len(line: Seq<SpanView>) -> nat
    decreases line.len(),
{
    if line.len() == 0 {
        0
    } else {
        line_len(line.drop_last()) + line.last().text.len()
    }
}

/// Whether lines can be painted on an area: one more than the width that they fill can be told in
/// 16 bits, or they are no longer than that.
pub open spec fn lines_fit(lines: Seq<Seq<SpanView>>, area: Rect) -> bool {
    area.width < u16::MAX || forall|i: int|
        0 <= i < lines.len() ==> line_len(#[trigger] lines[i]) <= u16::MAX
}

/// A buffer of cells, into which widgets paint.
#[verifier::external_type_specification]
#[verifier::external_body]
pub struct ExBuffer(ratatui::buffer::Buffer);

/// The area that a buffer covers.
pub uninterp spec fn buffer_area(buf: Buffer) -> Rect;

/// The cells of a buffer, row by row, each with all that it holds (its symbol, its colours, its
/// modifiers) written out.
pub uninterp spec fn buffer_cells(buf: Buffer) -> Seq<Seq<char>>;

/// What a buffer holds.
pub open spec fn screen(buf: Buffer) -> Screen {
    Screen { area: buffer_area(buf), cells: buffer_cells(buf) }
}

/// The cells of an area after it was given a backdrop.
pub uninterp spec fn backdrop_cells(color: Backdrop, area: Rect, cells: Seq<Seq<char>>) -> Seq<Seq<char>>;

/// The cells of an area after a border was painted on it.
pub uninterp spec fn border_cells(border: BorderView, area: Rect, cells: Seq<Seq<char>>) -> Seq<Seq<char>>;

/// The cells of an area after lines of text were painted on it.
pub uninterp spec fn paragraph_cells(lines: Seq<Seq<SpanView>>, area: Rect, cells: Seq<Seq<char>>) -> Seq<Seq<char>>;

/// The cells of an area after a gauge was painted on it.
pub uninterp spec fn gauge_cells(percent: u16, color: u32, background: u32, area: Rect, cells: Seq<Seq<char>>) -> Seq<Seq<char>>;

/// The cells of an area after a table was painted on it with columns that begin at the given
/// offsets and have the given widths.
pub uninterp spec fn table_cells(table: TableView, columns: Seq<Column>, area: Rect, cells: Seq<Seq<char>>) -> Seq<Seq<char>>;

/// Whether splitting an area from top to bottom can give `parts`.
pub uninterp spec fn rows_outcome(constraints: Seq<Constraint>, area: Rect, parts: Seq<Rect>) -> bool;

impl Screen {
    /// The screen after an area was given a backdrop.
    pub open spec fn backdrop(self, color: Backdrop, area: Rect) -> Screen {
        self.patched(area, backdrop_cells(color, area, self.window(area)))
    }

    /// The screen after a border was painted.
    pub open spec fn border(self, border: BorderView, area: Rect) -> Screen {
        self.patched(area, border_cells(border, area, self.window(area)))
    }

    /// The screen after lines of text were painted.
    pub open spec fn paragraph(self, lines: Seq<Seq<SpanView>>, area: Rect) -> Screen {
        self.patched(area, paragraph_cells(lines, area, self.window(area)))
    }

    /// The screen after a gauge was painted.
    pub open spec fn gauge(self, percent: u16, color: u32, background: u32, area: Rect) -> Screen {
        self.patched(area, gauge_cells(percent, color, background, area, self.window(area)))
    }

    /// The screen after a table with given columns was painted.
    pub open spec fn table_with(
        self,
        table: TableView,
        columns: Seq<Column>,
        area: Rect,
    ) -> Screen {
        self.patched(area, table_cells(table, columns, area, self.window(area)))
    }

    /// Whether painting a table can turn this screen into another one: with some columns, and with
    /// those that its widths leave no choice but to have, where they do so.
    pub open spec fn table(self, table: TableView, area: Rect, after: Screen) -> bool {
        &&& exists|columns: Seq<Column>| after == #[trigger] self.table_with(table, columns, area)
        &&& columns_settled(table.widths, area.width) ==> after == self.table_with(
            table,
            settled_columns(table.widths, area.width),
            area,
        )
        &&& columns_vanish(table.widths, area.width) ==> after == self.table_with(
            table,
            seq![],
            area,
        )
    }
}

/// How much of a width is left for columns with one cell between each two of them.
pub open spec fn column_room(widths: Seq<Constraint>, width: u16) -> int {
    width - (widths.len() - 1)
}

/// Whether there is no room for columns, not even for all of the cells between them.
pub open spec fn columns_vanish(widths: Seq<Constraint>, width: u16) -> bool {
    column_room(widths, width) < 0 && minimums(widths) <= 1
}

/// Whether the columns of a table have no choice in sharing what the cells between them leave.
pub open spec fn columns_settled(widths: Seq<Constraint>, width: u16) -> bool {
    column_room(widths, width) >= 0 && settled(widths, column_room(widths, width) as nat)
}

/// Offsets and widths of the columns of a table where there is no choice.
pub open spec fn settled_columns(widths: Seq<Constraint>, width: u16) -> Seq<Column> {
    let room = column_room(widths, width) as nat;
    Seq::new(
        widths.len(),
        |i: int|
            Column {
                offset: (settled_start(widths, room, i) + i) as u16,
                width: settled_size(widths, room, i) as u16,
            },
    )
}

/// What a constraint asks for at least.
pub open spec fn least(c: Constraint) -> nat {
    match c {
        Constraint::Length(n) => n as nat,
        Constraint::Min(n) => n as nat,
    }
}

/// What constraints ask for at least, together.
pub open spec fn total_least(constraints: Seq<Constraint>) -> nat
    decreases constraints.len(),
{
    if constraints.len() == 0 {
        0
    } else {
        total_least(constraints.drop_last()) + least(constraints.last())
    }
}

/// How many constraints ask for a minimum.
pub open spec fn minimums(constraints: Seq<Constraint>) -> nat
    decreases constraints.len(),
{
    if constraints.len() == 0 {
        0
    } else {
        minimums(constraints.drop_last()) + if constraints.last() is Min {
            1nat
        } else {
            0
        }
    }
}

/// Whether there is room in `size` for all constraints, which are lengths and at most one minimum.
pub open spec fn roomy(constraints: Seq<Constraint>, size: nat) -> bool {
    minimums(constraints) <= 1 && total_least(constraints) <= size
}

/// Whether a minimum among lengths takes up all of `size`, because it asks for that much or more.
pub open spec fn crowded(constraints: Seq<Constraint>, size: nat) -> bool {
    &&& minimums(constraints) == 1
    &&& forall|i: int|
        0 <= i < constraints.len() && #[trigger] constraints[i] is Min ==> size <= least(
            constraints[i],
        ) <= i16::MAX
}

/// Whether constraints leave no choice in splitting `size`: they all fit, or one leaves nothing for
/// the others.
pub open spec fn settled(constraints: Seq<Constraint>, size: nat) -> bool {
    roomy(constraints, size) || crowded(constraints, size)
}

/// How large a part is where there is no choice. Where all parts fit, a length has what it asks for
/// and a minimum has what the lengths leave; otherwise the minimum has everything.
pub open spec fn settled_size(constraints: Seq<Constraint>, size: nat, i: int) -> int {
    if roomy(constraints, size) {
        if constraints[i] is Min {
            size - total_least(constraints) + least(constraints[i])
        } else {
            least(constraints[i]) as int
        }
    } else if constraints[i] is Min {
        size as int
    } else {
        0
    }
}

/// Where a part begins where there is no choice: behind the one before it.
pub open spec fn settled_start(constraints: Seq<Constraint>, size: nat, i: int) -> int
    decreases i,
{
    if i <= 0 {
        0
    } else {
        settled_start(constraints, size, i - 1) + settled_size(constraints, size, i - 1)
    }
}

/// Whether a part has a place among the rows of an area, counted from its first row.
pub open spec fn spans_rows(part: Rect, area: Rect, start: int, size: int) -> bool {
    part.y == area.y + start && part.height == size
}

/// Whether the parts of an area follow each other from its first row on, without gaps.
pub open spec fn follow_rows(parts: Seq<Rect>, area: Rect) -> bool {
    &&& parts.len() > 0 ==> parts[0].y == area.y
    &&& forall|i: int, j: int|
        0 <= i && j == i + 1 && j < parts.len() ==> (#[trigger] parts[i]).y + parts[i].height == (
        #[trigger] parts[j]).y
}

/// Whether `parts` can come out of splitting an area from top to bottom: one part for each
/// constraint, each inside the area and as wide as it; up to three of them without gaps; and each
/// in its place where there is no choice.
pub open spec fn splits_rows(constraints: Seq<Constraint>, area: Rect, parts: Seq<Rect>) -> bool {
    let size = area.height as nat;
    &&& rows_outcome(constraints, area, parts)
    &&& parts.len() == constraints.len()
    &&& forall|i: int| 0 <= i < parts.len() ==> (#[trigger] parts[i]).within(area)
    &&& forall|i: int|
        0 <= i < parts.len() ==> (#[trigger] parts[i]).x == area.x && parts[i].width == area.width
    &&& constraints.len() <= 3 ==> follow_rows(parts, area)
    &&& settled(constraints, size) ==> forall|i: int|
        0 <= i < parts.len() ==> spans_rows(
            #[trigger] parts[i],
            area,
            settled_start(constraints, size, i),
            settled_size(constraints, size, i),
        )
}

/// Three lengths, or two and a minimum, leave no choice where there is room for them.
pub proof fn rows_settle(a: Constraint, b: Constraint, c: Constraint, size: nat)
    requires
        !(a is Min && b is Min) && !(a is Min && c is Min) && !(b is Min && c is Min),
        least(a) + least(b) + least(c) <= size,
    ensures
        roomy(seq![a, b, c], size),
        total_least(seq![a, b, c]) == least(a) + least(b) + least(c),
        settled_start(seq![a, b, c], size, 0) == 0,
        settled_start(seq![a, b, c], size, 1) == settled_size(seq![a, b, c], size, 0),
        settled_start(seq![a, b, c], size, 2) == settled_size(seq![a, b, c], size, 0)
            + settled_size(seq![a, b, c], size, 1),
{
    let s = seq![a, b, c];
    assert(s.drop_last() =~= seq![a, b]);
    assert(seq![a, b].drop_last() =~= seq![a]);
    assert(seq![a].drop_last() =~= Seq::<Constraint>::empty());
    reveal_with_fuel(total_least, 4);
    reveal_with_fuel(minimums, 4);
    reveal_with_fuel(settled_start, 3);
}

/// A minimum among three constraints leaves nothing for the other two where there is no more room
/// than it asks for.
pub proof fn rows_crowd(a: Constraint, b: Constraint, c: Constraint, size: nat)
    requires
        !(a is Min && b is Min) && !(a is Min && c is Min) && !(b is Min && c is Min),
        a is Min ==> size <= least(a) <= i16::MAX,
        b is Min ==> size <= least(b) <= i16::MAX,
        c is Min ==> size <= least(c) <= i16::MAX,
        a is Min || b is Min || c is Min,
    ensures
        crowded(seq![a, b, c], size),
        settled_start(seq![a, b, c], size, 0) == 0,
        settled_start(seq![a, b, c], size, 1) == settled_size(seq![a, b, c], size, 0),
        settled_start(seq![a, b, c], size, 2) == settled_size(seq![a, b, c], size, 0)
            + settled_size(seq![a, b, c], size, 1),
{
    let s = seq![a, b, c];
    assert(s.drop_last() =~= seq![a, b]);
    assert(seq![a, b].drop_last() =~= seq![a]);
    assert(seq![a].drop_last() =~= Seq::<Constraint>::empty());
    reveal_with_fuel(minimums, 4);
    reveal_with_fuel(settled_start, 3);
    assert forall|i: int| 0 <= i < s.len() && #[trigger] s[i] is Min implies size <= least(s[i])
        <= i16::MAX by {
        assert(i == 0 || i == 1 || i == 2);
    }
}

/// A percentage of a width, rounded to the nearest cell.
pub open spec fn percentage(percent: u16, width: u16) -> int {
    (width * percent + 50) / 100
}

impl Rect {
    /// The left part of the area, `percent` wide.
    pub open spec fn left_part(self, percent: u16) -> Rect {
        Rect { width: percentage(percent, self.width) as u16, ..self }
    }

    /// What `left_part` leaves of the area.
    pub open spec fn right_part(self, percent: u16) -> Rect {
        Rect {
            x: (self.x + percentage(percent, self.width)) as u16,
            width: (self.width - percentage(percent, self.width)) as u16,
            ..self
        }
    }
}

/// The two parts of an area lie in it, side by side.
pub proof fn parts_are_inside(area: Rect, percent: u16)
    requires
        area.bounded(),
        percent <= 100,
    ensures
        0 <= percentage(percent, area.width) <= area.width,
        area.left_part(percent).within(area),
        area.right_part(percent).within(area),
        area.left_part(percent).x + area.left_part(percent).width == area.right_part(percent).x,
        area.left_part(percent).width + area.right_part(percent).width == area.width,
{
    let w = area.width as int;
    let p = percent as int;
    assert(0 <= w * p <= w * 100) by (nonlinear_arith)
        requires
            0 <= w,
            0 <= p <= 100,
    ;
}

/// Calls `ratatui::layout::Layout::split` on a vertical layout. Claimed of it: it gives one part
/// for each constraint, in their order; each part is as wide as the area and lies in it, because
/// the solver holds every edge between the area's. Up to three parts follow each other from the
/// first row on, neither apart nor over each other, because that weighs more than all that a part
/// could gain by it; for more parts it is not stated, since rounding could then differ between two
/// edges. Where the constraints are lengths and at most one minimum and all of them fit, each
/// length is met and the minimum takes what is left: the solver can meet all constraints of greater
/// weight at once, and in no other way. Where there is no more room than the one minimum asks for,
/// it takes all of it, because it weighs more than the lengths; one that does not fit 15 bits is
/// left out, for it is read as negative. What comes out otherwise is not stated: the solver's
/// choice then depends on the order in which it walks hash maps.
#[verifier::external_body]
pub(crate) fn split_rows(constraints: &Vec<Constraint>, area: Rect) -> (r: Vec<Rect>)
    requires
        area.bounded(),
    ensures
        rows_outcome(constraints@, area, r@),
        r@.len() == constraints@.len(),
        forall|i: int| 0 <= i < r@.len() ==> (#[trigger] r@[i]).within(area),
        forall|i: int|
            0 <= i < r@.len() ==> (#[trigger] r@[i]).x == area.x && r@[i].width == area.width,
        constraints@.len() <= 3 ==> follow_rows(r@, area),
        settled(constraints@, area.height as nat) ==> forall|i: int|
            0 <= i < r@.len() ==> spans_rows(
                #[trigger] r@[i],
                area,
                settled_start(constraints@, area.height as nat, i),
                settled_size(constraints@, area.height as nat, i),
            ),
{
    let Rect { x, y, width, height } = area;
    let parts = constraints.iter().map(|c| match *c {
        Constraint::Length(n) => layout::Constraint::Length(n),
        Constraint::Min(n) => layout::Constraint::Min(n),
    });
    let rects = layout::Layout::vertical(parts).split(layout::Rect { x, y, width, height });
    rects.iter().map(|r| Rect { x: r.x, y: r.y, width: r.width, height: r.height }).collect()
}

/// Calls `ratatui::layout::Layout::split` on a horizontal layout of two percentages that make up
/// the whole. Claimed of it: the two parts are as high as the area and fill it side by side, and
/// the first is as wide as its percentage says, rounded to the nearest cell.
#[verifier::external_body]
pub(crate) fn split_columns(left: u16, right: u16, area: Rect) -> (r: Vec<Rect>)
    requires
        area.bounded(),
        left + right == 100,
    ensures
        r@ == seq![area.left_part(left), area.right_part(left)],
{
    let Rect { x, y, width, height } = area;
    let parts = [layout::Constraint::Percentage(left), layout::Constraint::Percentage(right)];
    let rects = layout::Layout::horizontal(parts).split(layout::Rect { x, y, width, height });
    rects.iter().map(|r| Rect { x: r.x, y: r.y, width: r.width, height: r.height }).collect()
}

/// Calls `ratatui::widgets::Block::inner` on a block with a title at its top and borders. Claimed
/// of it: each side takes one row or column, as far as there is any, and so does the title where
/// there is no side at the top.
#[verifier::external_body]
pub(crate) fn inner_area(border: &Border, area: Rect) -> (r: Rect)
    requires
        area.bounded(),
    ensures
        r == area.inner(border.sides),
{
    let Rect { x, y, width, height } = area;
    let sides = match border.sides {
        Sides::All => Borders::ALL,
        Sides::Right => Borders::RIGHT,
        Sides::NoSide => Borders::NONE,
    };
    let block = Block::default().title(border.title.as_str()).borders(sides);
    let r = block.inner(layout::Rect { x, y, width, height });
    Rect { x: r.x, y: r.y, width: r.width, height: r.height }
}

/// Calls `ratatui::buffer::Buffer::area` and `ratatui::buffer::Buffer::content`. Claimed of them:
/// they give the area that the buffer covers and its cells, of which the number is handed on.
#[verifier::external_body]
pub(crate) fn measure(buf: &Buffer) -> (r: (Rect, usize))
    ensures
        r.0 == buffer_area(*buf),
        r.1 == buffer_cells(*buf).len(),
{
    let area = buf.area();
    (
        Rect { x: area.x, y: area.y, width: area.width, height: area.height },
        buf.content().len(),
    )
}

/// Calls `render` of a `ratatui::widgets::Block` that has nothing but a background. Claimed of it:
/// what the cells of the area become is a function of the colour, of the area and of those cells,
/// and no other cell changes.
#[verifier::external_body]
pub(crate) fn paint_backdrop(color: Backdrop, area: Rect, buf: &mut Buffer)
    requires
        screen(*old(buf)).valid(),
        area.within(buffer_area(*old(buf))),
    ensures
        screen(*final(buf)) == screen(*old(buf)).patched(
            area,
            backdrop_cells(color, area, screen(*old(buf)).window(area)),
        ),
{
    let Rect { x, y, width, height } = area;
    let background = match color {
        Backdrop::Black => Color::Black,
    };
    Block::default().style(Style::default().bg(background)).render(
        layout::Rect { x, y, width, height },
        buf,
    );
}

/// Calls `render` of a `ratatui::widgets::Block` with a title and borders. Claimed of it: what the
/// cells of the area become is a function of what is handed in and of those cells, and no other
/// cell changes. A title that reaches the last column that there can be is left out, for the widget
/// writes behind it where it cuts the title off.
#[verifier::external_body]
pub(crate) fn paint_border(border: &Border, area: Rect, buf: &mut Buffer)
    requires
        screen(*old(buf)).valid(),
        area.within(buffer_area(*old(buf))),
        border.sides == Sides::NoSide ==> area.clear(),
        is_narrow(border.title@),
        is_short(border.title@),
    ensures
        screen(*final(buf)) == screen(*old(buf)).patched(
            area,
            border_cells(border@, area, screen(*old(buf)).window(area)),
        ),
{
    let Rect { x, y, width, height } = area;
    let sides = match border.sides {
        Sides::All => Borders::ALL,
        Sides::Right => Borders::RIGHT,
        Sides::NoSide => Borders::NONE,
    };
    let modifiers = Modifier::from_bits_retain(border.title_modifiers);
    Block::default().title(border.title.as_str()).borders(sides).border_style(
        Color::from_u32(border.color),
    ).title_style((Color::from_u32(border.title_color), modifiers)).render(
        layout::Rect { x, y, width, height },
        buf,
    );
}

/// Calls `render` of a `ratatui::widgets::Paragraph`. Claimed of it: what the cells of the area
/// become is a function of what is handed in and of those cells, and no other cell changes. An area
/// outside the buffer, text wider than its characters, and text that goes on where the greatest
/// width that there can be is full are left out, for the widget can panic on them.
#[verifier::external_body]
pub(crate) fn paint_paragraph(lines: &Vec<Vec<Span>>, area: Rect, buf: &mut Buffer)
    requires
        screen(*old(buf)).valid(),
        area.within(buffer_area(*old(buf))),
        lines_narrow(lines_view(lines@)),
        lines_fit(lines_view(lines@), area),
    ensures
        screen(*final(buf)) == screen(*old(buf)).patched(
            area,
            paragraph_cells(lines_view(lines@), area, screen(*old(buf)).window(area)),
        ),
{
    let Rect { x, y, width, height } = area;
    let text: Vec<Line> = lines.iter().map(
        |line| line.iter().map(
            |s| ratatui::text::Span::styled(
                s.text.as_str(),
                (Color::from_u32(s.color), Modifier::from_bits_retain(s.modifiers)),
            ),
        ).collect(),
    ).collect();
    Paragraph::new(text).render(layout::Rect { x, y, width, height }, buf);
}

/// Calls `render` of a `ratatui::widgets::Gauge`. Claimed of it: what the cells of the area become
/// is a function of what is handed in and of those cells, and no other cell changes. More than 100
/// percent and an area outside the buffer are left out, for the widget panics on them.
#[verifier::external_body]
pub(crate) fn paint_gauge(percent: u16, color: u32, background: u32, area: Rect, buf: &mut Buffer)
    requires
        screen(*old(buf)).valid(),
        area.within(buffer_area(*old(buf))),
        percent <= 100,
    ensures
        screen(*final(buf)) == screen(*old(buf)).patched(
            area,
            gauge_cells(percent, color, background, area, screen(*old(buf)).window(area)),
        ),
{
    let Rect { x, y, width, height } = area;
    Gauge::default().gauge_style((Color::from_u32(color), Color::from_u32(background))).percent(
        percent,
    ).render(layout::Rect { x, y, width, height }, buf);
}

/// Calls `render` of a `ratatui::widgets::Table` with a header. Claimed of it: what the cells of
/// the area become is a function of what is handed in, of those cells and of the columns that the
/// solver of `split_rows` chooses, and no other cell changes. Where what one cell between each two
/// columns leaves is settled in the sense of `split_rows`, the solver has no choice. Where the
/// cells between them do not fit, no column has any width, because those cells weigh more, and what
/// is painted is what is painted with no columns. Which columns it chooses otherwise is not stated.
/// A table without widths, a text of so many characters that the width of one that a reader would
/// see can exceed 16 bits, and an area that reaches the last column that there can be are left out,
/// for the widget can panic on them.
#[verifier::external_body]
pub(crate) fn paint_table(table: &Table, area: Rect, buf: &mut Buffer)
    requires
        screen(*old(buf)).valid(),
        area.within(buffer_area(*old(buf))),
        area.clear(),
        table@.paintable(),
    ensures
        exists|columns: Seq<Column>|
            screen(*final(buf)) == screen(*old(buf)).patched(
                area,
                #[trigger] table_cells(table@, columns, area, screen(*old(buf)).window(area)),
            ),
        columns_settled(table@.widths, area.width) ==> screen(*final(buf)) == screen(
            *old(buf),
        ).patched(
            area,
            table_cells(
                table@,
                settled_columns(table@.widths, area.width),
                area,
                screen(*old(buf)).window(area),
            ),
        ),
        columns_vanish(table@.widths, area.width) ==> screen(*final(buf)) == screen(
            *old(buf),
        ).patched(
            area,
            table_cells(table@, seq![], area, screen(*old(buf)).window(area)),
        ),
{
    let modifiers = Modifier::from_bits_retain(table.header_modifiers);
    let style = (Color::from_u32(table.header_color), modifiers);
    let rows = table.rows.iter().map(
        |row| Row::new(row.clone()).style(Color::from_u32(table.row_color))
    );
    let widths = table.widths.iter().map(|c| match *c {
        Constraint::Length(n) => layout::Constraint::Length(n),
        Constraint::Min(n) => layout::Constraint::Min(n),
    });
    widgets::Table::new(rows, widths).header(Row::new(table.header.clone()).style(style)).render(
        layout::Rect::new(area.x, area.y, area.width, area.height),
        buf
    );
}

/// A border on all sides takes a row or a column at each end; one on the right takes the last
/// column; and the first row is always taken, if only by the title.
pub proof fn border_takes_its_sides(area: Rect)
    requires
        area.bounded(),
        area.width >= 2,
        area.height >= 2,
    ensures
        ({
            let all = area.inner(Sides::All);
            &&& all.x == area.x + 1 && all.x + all.width == area.x + area.width - 1
            &&& all.y == area.y + 1 && all.y + all.height == area.y + area.height - 1
        }),
        ({
            let right = area.inner(Sides::Right);
            &&& right.x == area.x && right.x + right.width == area.x + area.width - 1
            &&& right.y == area.y + 1 && right.y + right.height == area.y + area.height
        }),
        ({
            let none = area.inner(Sides::NoSide);
            &&& none.x == area.x && none.width == area.width
            &&& none.y == area.y + 1 && none.y + none.height == area.y + area.height
        }),
{
}

/// A percentage of a width is never more than half a cell off.
pub proof fn percentage_is_rounded(percent: u16, width: u16)
    ensures
        100 * percentage(percent, width) <= width * percent + 50 < 100 * percentage(percent, width)
            + 100,
{
}

/// An area lies in another one exactly where none of its edges lies outside it.
pub proof fn within_is_about_edges(inner: Rect, outer: Rect)
    ensures
        !inner.within(outer) <==> inner.x < outer.x || inner.y < outer.y || outer.x + outer.width
            < inner.x + inner.width || outer.y + outer.height < inner.y + inner.height,
        outer.bounded() <==> outer.x + outer.width < 0x1_0000 && outer.y + outer.height < 0x1_0000,
{
}

/// What can be painted: characters between space and tilde, the degree sign and the blocks of bars
/// take up one cell; a text in a table has less than 16384 characters, or only such characters.
pub proof fn paintable_characters(c: char, s: Seq<char>)
    ensures
        narrow(c) <==> 0x20 <= c as u32 <= 0x7e || c as u32 == 0xb0 || c as u32 == 0x2588 || c as u32
            == 0x2591,
        is_narrow(s) <==> forall|i: int| 0 <= i < s.len() ==> narrow(#[trigger] s[i]),
        is_short(s) <==> s.len() < 16384,
        is_cell(s) <==> s.len() < 16384 || is_narrow(s),
{
}

/// Text, borders and tables are looked at with all that they hold, one for one.
pub proof fn views_hold_everything(
    line: Seq<Span>,
    lines: Seq<Vec<Span>>,
    border: Border,
    table: Table,
    list: Seq<String>,
)
    ensures
        line_view(line).len() == line.len(),
        forall|i: int|
            0 <= i < line.len() ==> {
                let v = #[trigger] line_view(line)[i];
                v.text == line[i].text@ && v.color == line[i].color && v.modifiers
                    == line[i].modifiers
            },
        lines_view(lines).len() == lines.len(),
        forall|i: int|
            0 <= i < lines.len() ==> #[trigger] lines_view(lines)[i] == line_view(lines[i]@),
        border@.title == border.title@ && border@.title_color == border.title_color
            && border@.title_modifiers == border.title_modifiers && border@.sides == border.sides
            && border@.color == border.color,
        strings(list).len() == list.len(),
        forall|i: int| 0 <= i < list.len() ==> #[trigger] strings(list)[i] == list[i]@,
        table@.header == strings(table.header@) && table@.header_color == table.header_color
            && table@.header_modifiers == table.header_modifiers && table@.row_color
            == table.row_color && table@.widths == table.widths@,
        table@.rows.len() == table.rows@.len(),
        forall|i: int|
            0 <= i < table.rows@.len() ==> #[trigger] table@.rows[i] == strings(table.rows@[i]@),
{
}

} // verus!
