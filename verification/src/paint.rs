//! What the panels have in common: pieces of text, bars, labelled gauges and panel borders.

use ratatui::buffer::Buffer;
use vstd::prelude::*;
use vstd::string::*;

use crate::cells::{patch_stays_inside, same_outside_chains, Screen};
use crate::number::{decimal, decimal_is_digits, format_u64, number, number_of_decimal, repeat};
use crate::screen::{
    border_cells, buffer_area, gauge_cells, is_narrow, line_view, lines_view, narrow, paint_gauge,
    paint_paragraph, paragraph_cells, rows_settle, screen, span, spans_rows, splits_rows,
    total_least, Border, BorderView, Constraint, Rect, Sides, Span, SpanView, BOLD, DARK_GREEN,
    GREEN, PLAIN,
};
use crate::text::to_chars;

verus! {

/// Whether a text is a figure: a number, written out by a formatter in printable ASCII.
pub open spec fn is_figure(s: Seq<char>) -> bool {
    s.len() <= 400 && forall|i: int| 0 <= i < s.len() ==> ' ' <= #[trigger] s[i] <= '~'
}

/// Tells whether a text is a figure.
pub fn check_figure(s: &str) -> (r: bool)
    ensures
        r == is_figure(s@),
{
    let chars = to_chars(s);
    if chars.len() > 400 {
        return false;
    }
    let mut i: usize = 0;
    while i < chars.len()
        invariant
            i <= chars@.len(),
            chars@ == s@,
            forall|j: int| 0 <= j < i ==> ' ' <= #[trigger] chars@[j] <= '~',
        decreases chars@.len() - i,
    {
        if chars[i] < ' ' || chars[i] > '~' {
            return false;
        }
        i += 1;
    }
    true
}

/// A figure takes up one cell for each character.
pub broadcast proof fn figure_is_narrow(s: Seq<char>)
    requires
        is_figure(s),
    ensures
        #[trigger] is_narrow(s),
{
}

/// Narrow texts stay narrow when they are put together.
pub broadcast proof fn concat_is_narrow(a: Seq<char>, b: Seq<char>)
    requires
        is_narrow(a),
        is_narrow(b),
    ensures
        is_narrow(#[trigger] (a + b)),
{
    assert forall|i: int| 0 <= i < (a + b).len() implies narrow(#[trigger] (a + b)[i]) by {
        if i < a.len() {
            assert(narrow(a[i]));
        } else {
            assert(narrow(b[i - a.len()]));
        }
    }
}

/// A number takes up one cell for each digit.
pub broadcast proof fn decimal_is_narrow(n: nat)
    ensures
        is_narrow(#[trigger] decimal(n)),
{
    decimal_is_digits(n);
    assert forall|i: int| 0 <= i < decimal(n).len() implies narrow(#[trigger] decimal(n)[i]) by {
        assert('0' <= decimal(n)[i] <= '9');
    }
}

spec fn power_of_ten(k: nat) -> nat
    decreases k,
{
    if k == 0 {
        1
    } else {
        10 * power_of_ten((k - 1) as nat)
    }
}

proof fn decimal_len(n: nat, k: nat)
    requires
        k >= 1,
        n < power_of_ten(k),
    ensures
        decimal(n).len() <= k,
    decreases k,
{
    if n >= 10 {
        if k == 1 {
            reveal_with_fuel(power_of_ten, 2);
        } else {
            decimal_len(n / 10, (k - 1) as nat);
        }
    }
}

/// A number of 64 bits has at most 20 digits.
pub broadcast proof fn decimal_is_short(n: u64)
    ensures
        (#[trigger] decimal(n as nat)).len() <= 20,
{
    reveal_with_fuel(power_of_ten, 21);
    decimal_len(n as nat, 20);
}

/// A text made of one character.
pub open spec fn fill(c: char, n: nat) -> Seq<char> {
    Seq::new(n, |i: int| c)
}

/// A bar of which `len` out of `width` cells are filled: the filled cells and the rest.
pub open spec fn bar(len: nat, width: nat) -> (SpanView, SpanView) {
    (
        span(fill('\u{2588}', len), GREEN, PLAIN),
        span(fill('\u{2591}', (width - len) as nat), DARK_GREEN, PLAIN),
    )
}

/// Makes a piece of text.
pub fn styled(text: String, color: u32, modifiers: u16) -> (r: Span)
    ensures
        r@ == span(text@, color, modifiers),
{
    Span { text, color, modifiers }
}

/// Makes a bar.
pub fn make_bar(len: usize, width: usize) -> (r: (Span, Span))
    requires
        len <= width,
    ensures
        (r.0@, r.1@) == bar(len as nat, width as nat),
{
    proof {
        reveal_strlit("\u{2588}");
        reveal_strlit("\u{2591}");
    }
    let full = repeat("\u{2588}", len);
    let rest = repeat("\u{2591}", width - len);
    proof {
        assert(full@ =~= fill('\u{2588}', len as nat));
        assert(rest@ =~= fill('\u{2591}', (width - len) as nat));
    }
    (styled(full, GREEN, PLAIN), styled(rest, DARK_GREEN, PLAIN))
}

/// A bar fills its width and takes up one cell for each character.
pub proof fn bar_fills_width(len: nat, width: nat)
    requires
        len <= width,
    ensures
        bar(len, width).0.text.len() + bar(len, width).1.text.len() == width,
        is_narrow(bar(len, width).0.text),
        is_narrow(bar(len, width).1.text),
{
}

/// The border of a panel.
pub open spec fn panel_border(title: Seq<char>, title_color: u32) -> BorderView {
    BorderView {
        title,
        title_color,
        title_modifiers: BOLD,
        sides: Sides::All,
        color: GREEN,
    }
}

/// Makes the border of a panel.
pub fn make_border(title: String, title_color: u32) -> (r: Border)
    ensures
        r@ == panel_border(title@, title_color),
        r.sides == Sides::All,
{
    Border { title, title_color, title_modifiers: BOLD, sides: Sides::All, color: GREEN }
}

/// `used/total` in megabytes, behind the name of the memory.
pub open spec fn usage_label(name: Seq<char>, used: u64, total: u64) -> Seq<char> {
    name + decimal(used as nat) + "/"@ + decimal(total as nat) + "MB"@
}

/// Makes a label of the memory in use.
pub fn make_usage_label(name: &str, used: u64, total: u64) -> (r: String)
    ensures
        r@ == usage_label(name@, used, total),
{
    let mut r = name.to_owned();
    r.append(format_u64(used).as_str());
    r.append("/");
    r.append(format_u64(total).as_str());
    r.append("MB");
    r
}

/// A label of the memory in use takes up one cell for each character.
pub proof fn usage_label_is_narrow(name: Seq<char>, used: u64, total: u64)
    requires
        is_narrow(name),
    ensures
        is_narrow(usage_label(name, used, total)),
{
    broadcast use concat_is_narrow, decimal_is_narrow;

    reveal_strlit("/");
    reveal_strlit("MB");
    assert(is_narrow("/"@));
    assert(is_narrow("MB"@));
}

/// Where the gauge of a row stands: on the line below the label, where there is one.
pub open spec fn gauge_area(row: Rect) -> Option<Rect> {
    if row.height >= 2 {
        Some(Rect { x: row.x, y: (row.y + 1) as u16, width: row.width, height: 1 })
    } else {
        None
    }
}

/// A percentage that a gauge can show.
pub open spec fn capped(percent: u16) -> u16 {
    if percent < 100 {
        percent
    } else {
        100
    }
}

/// A single piece of text on a single line.
pub open spec fn one_line(text: Seq<char>, color: u32) -> Seq<Seq<SpanView>> {
    seq![seq![span(text, color, PLAIN)]]
}

/// The screen after a label and, where the row has a second line, a gauge below it were painted.
pub open spec fn labelled_gauge(
    label: Seq<char>,
    percent: u16,
    row: Rect,
    before: Screen,
) -> Screen {
    let labelled = before.paragraph(one_line(label, GREEN), row);
    match gauge_area(row) {
        Some(area) => labelled.gauge(capped(percent), GREEN, DARK_GREEN, area),
        None => labelled,
    }
}

/// Paints a single piece of text on a single line.
pub fn render_text(text: String, color: u32, area: Rect, buf: &mut Buffer)
    requires
        screen(*old(buf)).valid(),
        area.within(buffer_area(*old(buf))),
        area.width < u16::MAX,
        is_narrow(text@),
    ensures
        screen(*final(buf)) == screen(*old(buf)).paragraph(one_line(text@, color), area),
        screen(*final(buf)).valid(),
{
    let ghost content = text@;
    let mut line: Vec<Span> = Vec::new();
    line.push(styled(text, color, PLAIN));
    assert(line_view(line@) =~= seq![span(content, color, PLAIN)]);
    let mut lines: Vec<Vec<Span>> = Vec::new();
    lines.push(line);
    assert(lines_view(lines@) =~= one_line(content, color));
    paint_paragraph(&lines, area, buf);
}

/// Paints a label and a gauge below it. A gauge never shows more than 100 percent.
pub fn render_labelled_gauge(label: String, percent: u16, row: Rect, buf: &mut Buffer)
    requires
        screen(*old(buf)).valid(),
        row.within(buffer_area(*old(buf))),
        row.width < u16::MAX,
        is_narrow(label@),
    ensures
        screen(*final(buf)) == labelled_gauge(label@, percent, row, screen(*old(buf))),
        screen(*final(buf)).valid(),
{
    render_text(label, GREEN, row, buf);
    if row.height >= 2 {
        let area = Rect { x: row.x, y: row.y + 1, width: row.width, height: 1 };
        let shown: u16 = if percent < 100 {
            percent
        } else {
            100
        };
        paint_gauge(shown, GREEN, DARK_GREEN, area, buf);
    }
}

/// Two rows of two lines and one of one line.
pub open spec fn meter_rows() -> Seq<Constraint> {
    seq![Constraint::Length(2), Constraint::Length(2), Constraint::Length(1)]
}

/// The rows of two, two and one lines from the top of an area.
pub open spec fn meters(area: Rect) -> Seq<Rect> {
    seq![
        Rect { height: 2, ..area },
        Rect { y: (area.y + 2) as u16, height: 2, ..area },
        Rect { y: (area.y + 4) as u16, height: 1, ..area },
    ]
}

/// An area of at least five lines has room for all three rows, and they have their places.
pub proof fn meters_have_their_places(area: Rect, rows: Seq<Rect>)
    requires
        area.bounded(),
        area.height >= 5,
        splits_rows(meter_rows(), area, rows),
    ensures
        rows == meters(area),
{
    let size = area.height as nat;
    rows_settle(Constraint::Length(2), Constraint::Length(2), Constraint::Length(1), size);
    assert(spans_rows(rows[0], area, 0, 2));
    assert(spans_rows(rows[1], area, 2, 2));
    assert(spans_rows(rows[2], area, 4, 1));
    assert(rows =~= meters(area));
}

/// Makes two rows of two lines and one of one line.
pub fn make_meter_rows() -> (r: Vec<Constraint>)
    ensures
        r@ == meter_rows(),
{
    let mut r: Vec<Constraint> = Vec::new();
    r.push(Constraint::Length(2));
    r.push(Constraint::Length(2));
    r.push(Constraint::Length(1));
    assert(r@ =~= meter_rows());
    r
}

/// A border changes no cell outside a part of the screen that it lies in.
pub proof fn border_stays_inside(before: Screen, border: BorderView, area: Rect, part: Rect)
    requires
        before.valid(),
        area.within(part),
    ensures
        before.same_outside(before.border(border, area), part),
        before.border(border, area).valid(),
{
    patch_stays_inside(before, area, border_cells(border, area, before.window(area)), part);
}

/// Text changes no cell outside a part of the screen that it lies in.
pub proof fn paragraph_stays_inside(
    before: Screen,
    lines: Seq<Seq<SpanView>>,
    area: Rect,
    part: Rect,
)
    requires
        before.valid(),
        area.within(part),
    ensures
        before.same_outside(before.paragraph(lines, area), part),
        before.paragraph(lines, area).valid(),
{
    patch_stays_inside(before, area, paragraph_cells(lines, area, before.window(area)), part);
}

/// A label and its gauge change no cell outside a part of the screen that their row lies in.
pub proof fn labelled_gauge_stays_inside(
    before: Screen,
    label: Seq<char>,
    percent: u16,
    row: Rect,
    part: Rect,
)
    requires
        before.valid(),
        row.bounded(),
        row.within(part),
    ensures
        before.same_outside(labelled_gauge(label, percent, row, before), part),
        labelled_gauge(label, percent, row, before).valid(),
{
    let lines = one_line(label, GREEN);
    let labelled = before.paragraph(lines, row);
    paragraph_stays_inside(before, lines, row, part);
    match gauge_area(row) {
        Some(area) => {
            let cells = gauge_cells(
                capped(percent),
                GREEN,
                DARK_GREEN,
                area,
                labelled.window(area),
            );
            patch_stays_inside(labelled, area, cells, part);
            same_outside_chains(before, labelled, labelled.patched(area, cells), part);
        },
        None => {},
    }
}

/// A figure has at most 400 characters, all of them between space and tilde, and nothing else is
/// asked of it.
pub proof fn figures_are_printable(s: Seq<char>)
    ensures
        is_figure(s) <==> s.len() <= 400 && forall|i: int|
            0 <= i < s.len() ==> '\u{20}' <= #[trigger] s[i] <= '\u{7e}',
{
}

/// A gauge shows every percentage up to 100 as it is, so that more is always shown as more, and 100
/// for all beyond.
pub proof fn gauge_shows_the_percentage(percent: u16, more: u16)
    ensures
        percent <= 100 ==> capped(percent) == percent,
        percent > 100 ==> capped(percent) == 100,
        percent < more <= 100 ==> capped(percent) < capped(more),
{
}

/// A bar is made of full blocks, as many as it is long, and of shaded ones for the rest of its
/// width; the full ones are green and the others dark.
pub proof fn bar_is_full_for_its_length(len: nat, width: nat)
    requires
        len <= width,
    ensures
        ({
            let (full, rest) = bar(len, width);
            &&& full.text.len() == len && full.text.len() + rest.text.len() == width
            &&& forall|i: int| 0 <= i < len ==> (#[trigger] full.text[i]) as u32 == 0x2588
            &&& forall|i: int| 0 <= i < width - len ==> (#[trigger] rest.text[i]) as u32 == 0x2591
            &&& full.color == 0x33FF33 && rest.color == 0x0A330A
            &&& full.modifiers == 0 && rest.modifiers == 0
        }),
{
}

/// A panel's border runs along all sides in green, and its title is bold and in the colour given.
pub proof fn panel_border_is_green(title: Seq<char>, color: u32)
    ensures
        panel_border(title, color).title == title,
        panel_border(title, color).title_color == color,
        panel_border(title, color).title_modifiers == 1,
        panel_border(title, color).sides == Sides::All,
        panel_border(title, color).color == 0x33FF33,
{
}

/// A label of memory in use begins with its name and ends in `MB`; what stands between is a slash
/// with what is in use before it and what there is behind it, each of which can be read back.
pub proof fn usage_label_can_be_read(name: Seq<char>, used: u64, total: u64) -> (slash: int)
    ensures
        ({
            let label = usage_label(name, used, total);
            &&& name.is_prefix_of(label)
            &&& name.len() < slash < label.len() - 2
            &&& label[slash] == '/'
            &&& label.subrange(name.len() as int, slash) == decimal(used as nat)
            &&& number(label.subrange(name.len() as int, slash), u64::MAX as nat) == Some(
                used as nat,
            )
            &&& label.subrange(slash + 1, label.len() - 2) == decimal(total as nat)
            &&& number(label.subrange(slash + 1, label.len() - 2), u64::MAX as nat) == Some(
                total as nat,
            )
            &&& label[label.len() - 2] == 'M' && label[label.len() - 1] == 'B'
            &&& '0' <= label[name.len() as int] <= '9' && '0' <= label[slash + 1] <= '9'
        }),
{
    let label = usage_label(name, used, total);
    let a = decimal(used as nat);
    let b = decimal(total as nat);
    reveal_strlit("/");
    reveal_strlit("MB");
    number_of_decimal(used as nat, u64::MAX as nat);
    number_of_decimal(total as nat, u64::MAX as nat);
    decimal_is_digits(used as nat);
    decimal_is_digits(total as nat);
    let slash = (name.len() + a.len()) as int;
    assert(label.subrange(0, name.len() as int) =~= name);
    assert(label.subrange(name.len() as int, slash) =~= a);
    assert(label.subrange(slash + 1, label.len() - 2) =~= b);
    assert(label[name.len() as int] == a[0]);
    assert(label[slash + 1] == b[0]);
    slash
}

/// A gauge stands on the second line of its row, as wide as it, and there is one exactly where
/// there is a second line.
pub proof fn gauge_stands_on_the_second_line(row: Rect)
    requires
        row.bounded(),
    ensures
        gauge_area(row) is Some <==> row.height > 1,
        match gauge_area(row) {
            Some(a) => a.x == row.x && a.width == row.width && a.height == 1 && a.y == row.y + 1,
            None => true,
        },
{
}

/// A label is painted in green on its row, whatever the percentage; below it, where there is a
/// second line, stands a gauge of the percentage, up to 100, in green on dark green.
pub proof fn label_stands_above_its_gauge(
    label: Seq<char>,
    percent: u16,
    row: Rect,
    before: Screen,
)
    requires
        row.bounded(),
    ensures
        ({
            let text = seq![
                seq![SpanView { text: label, color: 0x33FF33u32, modifiers: 0u16 }],
            ];
            let labelled = before.paragraph(text, row);
            let after = labelled_gauge(label, percent, row, before);
            &&& row.height < 2 ==> after == labelled
            &&& row.height >= 2 ==> {
                let line = Rect {
                    x: row.x,
                    y: (row.y + 1) as u16,
                    width: row.width,
                    height: 1,
                };
                let shown = if percent > 100 {
                    100
                } else {
                    percent
                };
                after == labelled.gauge(shown, 0x33FF33, 0x0A330A, line)
            }
        }),
{
}

/// The rows of a panel with gauges: two lines, two lines and one.
pub proof fn meters_ask_for_five_lines()
    ensures
        meter_rows() == seq![Constraint::Length(2), Constraint::Length(2), Constraint::Length(1)],
        total_least(meter_rows()) == 5,
{
    let s = meter_rows();
    assert(s.drop_last().drop_last().drop_last() =~= Seq::<Constraint>::empty());
    reveal_with_fuel(total_least, 4);
}

} // verus!
