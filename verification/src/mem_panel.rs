//! The memory panel: gauges of memory and swap, and how well swap is compressed.

use ratatui::buffer::Buffer;
use vstd::prelude::*;
use vstd::string::*;

use crate::cells::{same_outside_chains, Screen};
use crate::mem::MemData;
use crate::number::{decimal, decimal_is_digits, format_u64, number, number_of_decimal};
use crate::paint::{
    border_stays_inside, concat_is_narrow, decimal_is_narrow, figure_is_narrow, is_figure,
    labelled_gauge, labelled_gauge_stays_inside, make_border, make_meter_rows, make_usage_label,
    meter_rows, meters, meters_have_their_places, panel_border, paragraph_stays_inside,
    render_labelled_gauge, styled, usage_label, usage_label_is_narrow,
};
use crate::screen::{
    buffer_area, inner_area, is_narrow, line_view, lines_narrow, lines_view, paint_border,
    paint_paragraph, screen, span, split_rows, splits_rows, BorderView, Rect, Sides, Span, SpanView,
    DIM_GREEN, GREEN, PLAIN,
};

verus! {

/// What the memory panel shows, with its figures written out.
pub struct MemPanel {
    pub data: MemData,
    /// How much of the memory is in use, in percent: written out, and as a whole number.
    pub ram: String,
    pub ram_pct: u16,
    pub swap: String,
    pub swap_pct: u16,
    /// How much smaller compression makes what is swapped out.
    pub zram_ratio: String,
}

impl MemPanel {
    /// Whether the figures are figures.
    pub open spec fn printable(self) -> bool {
        is_figure(self.ram@) && is_figure(self.swap@) && is_figure(self.zram_ratio@)
    }
}

/// A label of the memory in use, with the percentage behind it.
pub open spec fn percent_label(name: Seq<char>, used: u64, total: u64, percent: Seq<char>) -> Seq<
    char,
> {
    usage_label(name, used, total) + " ("@ + percent + "%)"@
}

/// The line on compressed swap.
pub open spec fn zram_line(data: MemData, ratio: Seq<char>) -> Seq<Seq<SpanView>> {
    seq![
        seq![
            span("ZRAM ratio: "@, DIM_GREEN, PLAIN),
            span(ratio + "x"@, GREEN, PLAIN),
            span(
                " ("@ + decimal(data.zram_orig_kb as nat) + "KB -> "@ + decimal(
                    data.zram_compr_kb as nat,
                ) + "KB)"@,
                DIM_GREEN,
                PLAIN,
            ),
        ],
    ]
}

/// The screen after the rows of the memory panel were painted.
pub open spec fn mem_rows(mem: MemPanel, rows: Seq<Rect>, before: Screen) -> Screen {
    let d = mem.data;
    let ram = labelled_gauge(
        percent_label("RAM  "@, d.used_mb, d.total_mb, mem.ram@),
        mem.ram_pct,
        rows[0],
        before,
    );
    let swap = labelled_gauge(
        percent_label("Swap "@, d.swap_used_mb, d.swap_total_mb, mem.swap@),
        mem.swap_pct,
        rows[1],
        ram,
    );
    swap.paragraph(zram_line(d, mem.zram_ratio@), rows[2])
}

/// Whether painting the memory panel can turn one screen into another: its border, and three rows
/// inside it.
pub open spec fn mem_outcome(mem: MemPanel, area: Rect, before: Screen, after: Screen) -> bool {
    let framed = before.border(panel_border(" Memory "@, GREEN), area);
    exists|rows: Seq<Rect>|
        {
            &&& #[trigger] splits_rows(meter_rows(), area.inner(Sides::All), rows)
            &&& after == mem_rows(mem, rows, framed)
        }
}

/// The rows that a memory panel was painted in.
proof fn rows_of_mem(mem: MemPanel, area: Rect, before: Screen, after: Screen) -> (rows: Seq<Rect>)
    requires
        mem_outcome(mem, area, before, after),
    ensures
        splits_rows(meter_rows(), area.inner(Sides::All), rows),
        after == mem_rows(
            mem,
            rows,
            before.border(panel_border(" Memory "@, GREEN), area),
        ),
{
    let framed = before.border(panel_border(" Memory "@, GREEN), area);
    choose|rows: Seq<Rect>|
        {
            &&& #[trigger] splits_rows(meter_rows(), area.inner(Sides::All), rows)
            &&& after == mem_rows(mem, rows, framed)
        }
}

/// A memory panel of at least seven lines shows all that it has, each row in its place.
pub proof fn mem_panel_has_room(mem: MemPanel, area: Rect, before: Screen, after: Screen)
    requires
        area.bounded(),
        area.height >= 7,
        mem_outcome(mem, area, before, after),
    ensures
        after == mem_rows(
            mem,
            meters(area.inner(Sides::All)),
            before.border(panel_border(" Memory "@, GREEN), area),
        ),
{
    let rows = rows_of_mem(mem, area, before, after);
    meters_have_their_places(area.inner(Sides::All), rows);
}

/// Makes a label of the memory in use, with the percentage behind it.
pub fn make_percent_label(name: &str, used: u64, total: u64, percent: &str) -> (r: String)
    requires
        is_narrow(name@),
        is_figure(percent@),
    ensures
        r@ == percent_label(name@, used, total, percent@),
        is_narrow(r@),
{
    let mut r = make_usage_label(name, used, total);
    r.append(" (");
    r.append(percent);
    r.append("%)");
    proof {
        broadcast use concat_is_narrow;

        reveal_strlit(" (");
        reveal_strlit("%)");
        usage_label_is_narrow(name@, used, total);
        assert(is_narrow(" ("@) && is_narrow("%)"@));
        figure_is_narrow(percent@);
    }
    r
}

/// Makes the line on compressed swap.
pub fn make_zram_line(data: MemData, ratio: &str) -> (r: Vec<Vec<Span>>)
    requires
        is_figure(ratio@),
    ensures
        lines_view(r@) == zram_line(data, ratio@),
        lines_narrow(lines_view(r@)),
{
    let mut figure = ratio.to_owned();
    figure.append("x");
    let mut sizes = " (".to_owned();
    sizes.append(format_u64(data.zram_orig_kb).as_str());
    sizes.append("KB -> ");
    sizes.append(format_u64(data.zram_compr_kb).as_str());
    sizes.append("KB)");
    proof {
        broadcast use concat_is_narrow, decimal_is_narrow;

        reveal_strlit("ZRAM ratio: ");
        reveal_strlit("x");
        reveal_strlit(" (");
        reveal_strlit("KB -> ");
        reveal_strlit("KB)");
        assert(is_narrow("ZRAM ratio: "@) && is_narrow("x"@) && is_narrow(" ("@) && is_narrow(
            "KB -> "@,
        ) && is_narrow("KB)"@));
        figure_is_narrow(ratio@);
        assert(is_narrow(figure@) && is_narrow(sizes@));
    }
    let ghost view = zram_line(data, ratio@)[0];
    let mut line: Vec<Span> = Vec::new();
    line.push(styled("ZRAM ratio: ".to_owned(), DIM_GREEN, PLAIN));
    line.push(styled(figure, GREEN, PLAIN));
    line.push(styled(sizes, DIM_GREEN, PLAIN));
    assert(line_view(line@) =~= view);
    let mut r: Vec<Vec<Span>> = Vec::new();
    r.push(line);
    assert(lines_view(r@) =~= zram_line(data, ratio@));
    r
}

/// Paints the rows of the memory panel.
pub fn render_mem_rows(mem: &MemPanel, rows: &Vec<Rect>, buf: &mut Buffer)
    requires
        screen(*old(buf)).valid(),
        rows@.len() == 3,
        forall|i: int| 0 <= i < 3 ==> (#[trigger] rows@[i]).within(buffer_area(*old(buf))),
        forall|i: int| 0 <= i < 3 ==> (#[trigger] rows@[i]).width < u16::MAX,
        mem.printable(),
    ensures
        screen(*final(buf)) == mem_rows(*mem, rows@, screen(*old(buf))),
        screen(*final(buf)).valid(),
{
    let d = mem.data;
    proof {
        reveal_strlit("RAM  ");
        reveal_strlit("Swap ");
        assert(is_narrow("RAM  "@) && is_narrow("Swap "@));
    }
    let ram = make_percent_label("RAM  ", d.used_mb, d.total_mb, mem.ram.as_str());
    render_labelled_gauge(ram, mem.ram_pct, rows[0], buf);
    let swap = make_percent_label("Swap ", d.swap_used_mb, d.swap_total_mb, mem.swap.as_str());
    render_labelled_gauge(swap, mem.swap_pct, rows[1], buf);
    let zram = make_zram_line(d, mem.zram_ratio.as_str());
    paint_paragraph(&zram, rows[2], buf);
}

/// Paints the memory panel.
pub fn render_mem(mem: &MemPanel, area: Rect, buf: &mut Buffer)
    requires
        screen(*old(buf)).valid(),
        area.within(buffer_area(*old(buf))),
        mem.printable(),
    ensures
        mem_outcome(*mem, area, screen(*old(buf)), screen(*final(buf))),
        screen(*final(buf)).area == screen(*old(buf)).area,
        screen(*final(buf)).valid(),
{
    let border = make_border(" Memory ".to_owned(), GREEN);
    proof {
        reveal_strlit(" Memory ");
        assert(is_narrow(" Memory "@));
    }
    let inner = inner_area(&border, area);
    paint_border(&border, area, buf);
    let rows = split_rows(&make_meter_rows(), inner);
    assert(splits_rows(meter_rows(), area.inner(Sides::All), rows@));
    render_mem_rows(mem, &rows, buf);
}

/// The memory panel changes no cell outside its area.
pub proof fn mem_panel_stays_inside(mem: MemPanel, area: Rect, before: Screen, after: Screen)
    requires
        before.valid(),
        area.within(before.area),
        mem_outcome(mem, area, before, after),
    ensures
        before.same_outside(after, area),
        after.valid(),
{
    let d = mem.data;
    let inner = area.inner(Sides::All);
    let border = panel_border(" Memory "@, GREEN);
    let framed = before.border(border, area);
    let rows = rows_of_mem(mem, area, before, after);
    assert(rows[0].within(inner) && rows[1].within(inner) && rows[2].within(inner));
    let first = percent_label("RAM  "@, d.used_mb, d.total_mb, mem.ram@);
    let second = percent_label("Swap "@, d.swap_used_mb, d.swap_total_mb, mem.swap@);
    let last = zram_line(d, mem.zram_ratio@);
    let one = labelled_gauge(first, mem.ram_pct, rows[0], framed);
    let two = labelled_gauge(second, mem.swap_pct, rows[1], one);
    border_stays_inside(before, border, area, area);
    labelled_gauge_stays_inside(framed, first, mem.ram_pct, rows[0], area);
    labelled_gauge_stays_inside(one, second, mem.swap_pct, rows[1], area);
    paragraph_stays_inside(two, last, rows[2], area);
    same_outside_chains(before, framed, one, area);
    same_outside_chains(before, one, two, area);
    same_outside_chains(before, two, after, area);
}

/// A label with a percentage is the label without it, and the percentage in parentheses behind it.
pub proof fn percentage_stands_in_parentheses(
    name: Seq<char>,
    used: u64,
    total: u64,
    percent: Seq<char>,
)
    ensures
        ({
            let label = percent_label(name, used, total, percent);
            let n = usage_label(name, used, total).len() as int;
            let m = percent.len() as int;
            &&& label.len() == n + m + 4
            &&& label.subrange(0, n) == usage_label(name, used, total)
            &&& label[n] == ' ' && label[n + 1] == '('
            &&& label.subrange(n + 2, n + 2 + m) == percent
            &&& label[n + 2 + m] == '%' && label[n + 3 + m] == ')'
        }),
{
    reveal_strlit(" (");
    reveal_strlit("%)");
    let label = percent_label(name, used, total, percent);
    let n = usage_label(name, used, total).len() as int;
    let m = percent.len() as int;
    assert(label.subrange(0, n) =~= usage_label(name, used, total));
    assert(label.subrange(n + 2, n + 2 + m) =~= percent);
}

/// The line on compressed swap shows the ratio, and behind it in parentheses the sizes before and
/// after compression, which can be read back.
pub proof fn zram_line_can_be_read(data: MemData, ratio: Seq<char>) -> (arrow: int)
    ensures
        ({
            let line = zram_line(data, ratio);
            let sizes = line[0][2].text;
            let n = sizes.len() as int;
            &&& line.len() == 1 && line[0].len() == 3
            &&& line[0][0].text == seq![
                'Z',
                'R',
                'A',
                'M',
                ' ',
                'r',
                'a',
                't',
                'i',
                'o',
                ':',
                ' ',
            ]
            &&& line[0][1].text == ratio.push('x')
            &&& 2 < arrow && arrow + 6 < n - 3
            &&& sizes.subrange(0, 2) == seq![' ', '(']
            &&& sizes.subrange(2, arrow) == decimal(data.zram_orig_kb as nat)
            &&& sizes.subrange(arrow + 6, n - 3) == decimal(data.zram_compr_kb as nat)
            &&& number(sizes.subrange(2, arrow), u64::MAX as nat) == Some(data.zram_orig_kb as nat)
            &&& '0' <= sizes[2] <= '9'
            &&& sizes.subrange(arrow, arrow + 6) == seq!['K', 'B', ' ', '-', '>', ' ']
            &&& number(sizes.subrange(arrow + 6, n - 3), u64::MAX as nat) == Some(
                data.zram_compr_kb as nat,
            )
            &&& '0' <= sizes[arrow + 6] <= '9'
            &&& sizes.subrange(n - 3, n) == seq!['K', 'B', ')']
            &&& line[0][0].color == 0x118811 && line[0][1].color == 0x33FF33 && line[0][2].color
                == 0x118811
            &&& line[0][0].modifiers == 0 && line[0][1].modifiers == 0 && line[0][2].modifiers == 0
        }),
{
    reveal_strlit("ZRAM ratio: ");
    reveal_strlit("x");
    reveal_strlit(" (");
    reveal_strlit("KB -> ");
    reveal_strlit("KB)");
    let sizes = zram_line(data, ratio)[0][2].text;
    let n = sizes.len() as int;
    let orig = decimal(data.zram_orig_kb as nat);
    let compr = decimal(data.zram_compr_kb as nat);
    decimal_is_digits(data.zram_orig_kb as nat);
    decimal_is_digits(data.zram_compr_kb as nat);
    number_of_decimal(data.zram_orig_kb as nat, u64::MAX as nat);
    number_of_decimal(data.zram_compr_kb as nat, u64::MAX as nat);
    let arrow = 2 + orig.len() as int;
    assert("ZRAM ratio: "@ =~= seq!['Z', 'R', 'A', 'M', ' ', 'r', 'a', 't', 'i', 'o', ':', ' ']);
    assert(ratio + "x"@ =~= ratio.push('x'));
    assert(sizes.subrange(0, 2) =~= seq![' ', '(']);
    assert(sizes.subrange(2, arrow) =~= orig);
    assert(sizes.subrange(arrow, arrow + 6) =~= seq!['K', 'B', ' ', '-', '>', ' ']);
    assert(sizes.subrange(arrow + 6, n - 3) =~= compr);
    assert(sizes.subrange(n - 3, n) =~= seq!['K', 'B', ')']);
    assert(sizes[2] == orig[0] && sizes[arrow + 6] == compr[0]);
    arrow
}

/// The rows of the panel: memory with its gauge, swap with its gauge, and compressed swap. Each has
/// its own numbers.
pub proof fn rows_show_memory_and_swap(mem: MemPanel, rows: Seq<Rect>, before: Screen)
    ensures
        ({
            let d = mem.data;
            let ram = labelled_gauge(
                percent_label(
                    seq!['R', 'A', 'M', ' ', ' '],
                    d.used_mb,
                    d.total_mb,
                    mem.ram@,
                ),
                mem.ram_pct,
                rows[0],
                before,
            );
            let swap = labelled_gauge(
                percent_label(
                    seq!['S', 'w', 'a', 'p', ' '],
                    d.swap_used_mb,
                    d.swap_total_mb,
                    mem.swap@,
                ),
                mem.swap_pct,
                rows[1],
                ram,
            );
            mem_rows(mem, rows, before) == swap.paragraph(zram_line(d, mem.zram_ratio@), rows[2])
        }),
{
    reveal_strlit("RAM  ");
    reveal_strlit("Swap ");
    assert("RAM  "@ =~= seq!['R', 'A', 'M', ' ', ' ']);
    assert("Swap "@ =~= seq!['S', 'w', 'a', 'p', ' ']);
}

/// The panel is its border with its title and its rows inside the border, and nothing else. Its
/// figures have to be figures, and no more is asked of them.
pub proof fn panel_is_border_and_rows(
    mem: MemPanel,
    area: Rect,
    before: Screen,
    after: Screen,
) -> (rows: Seq<Rect>)
    requires
        mem_outcome(mem, area, before, after),
    ensures
        splits_rows(meter_rows(), area.inner(Sides::All), rows),
        after == mem_rows(
            mem,
            rows,
            before.border(
                BorderView {
                    title: seq![' ', 'M', 'e', 'm', 'o', 'r', 'y', ' '],
                    title_color: 0x33FF33,
                    title_modifiers: 1,
                    sides: Sides::All,
                    color: 0x33FF33,
                },
                area,
            ),
        ),
        mem.printable() <==> is_figure(mem.ram@) && is_figure(mem.swap@) && is_figure(
            mem.zram_ratio@,
        ),
{
    reveal_strlit(" Memory ");
    assert(" Memory "@ =~= seq![' ', 'M', 'e', 'm', 'o', 'r', 'y', ' ']);
    rows_of_mem(mem, area, before, after)
}

} // verus!
