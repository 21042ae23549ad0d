//! The GPU panel: two memory gauges and a load bar.

use ratatui::buffer::Buffer;
use vstd::prelude::*;
use vstd::string::*;

use crate::cells::{same_outside_chains, Screen};
use crate::gpu::GpuData;
use crate::number::{decimal, decimal_is_digits, format_u64, number, number_of_decimal};
use crate::paint::{
    bar, bar_fills_width, border_stays_inside, concat_is_narrow, decimal_is_narrow,
    decimal_is_short, figure_is_narrow, is_figure, labelled_gauge, labelled_gauge_stays_inside,
    make_bar, make_border, make_meter_rows, make_usage_label, meter_rows, meters,
    meters_have_their_places, panel_border, paragraph_stays_inside, render_labelled_gauge,
    usage_label, usage_label_is_narrow,
};
use crate::screen::{
    buffer_area, inner_area, is_narrow, line_view, lines_narrow, lines_view, paint_border,
    paint_paragraph, screen, split_rows, splits_rows, BorderView, Rect, Sides, Span, SpanView,
    GREEN,
};

verus! {

/// What the GPU panel shows, with its figures written out.
pub struct GpuPanel {
    pub data: GpuData,
    /// The temperature in degrees Celsius.
    pub temp: String,
    /// How much of the memory is in use, in percent.
    pub vram_pct: u16,
    pub gtt_pct: u16,
}

/// The title of the GPU panel.
pub open spec fn gpu_title(data: GpuData, temp: Seq<char>) -> Seq<char> {
    " GPU  "@ + decimal(data.clock_mhz as nat) + "MHz  "@ + decimal(data.busy_pct as nat) + "%  "@
        + temp + "\u{b0}C "@
}

/// How many cells of the load bar are filled.
pub open spec fn busy_bar_len(busy: nat, width: nat) -> nat {
    (if busy < 100 {
        busy
    } else {
        100
    }) * width / 100
}

/// The load bar.
pub open spec fn busy_line(busy: nat, width: nat) -> Seq<Seq<SpanView>> {
    let b = bar(busy_bar_len(busy, width), width);
    seq![seq![b.0, b.1]]
}

/// The screen after the rows of the GPU panel were painted.
pub open spec fn gpu_rows(gpu: GpuPanel, rows: Seq<Rect>, before: Screen) -> Screen {
    let d = gpu.data;
    let vram = labelled_gauge(
        usage_label("VRAM "@, d.vram_used_mb, d.vram_total_mb),
        gpu.vram_pct,
        rows[0],
        before,
    );
    let gtt = labelled_gauge(
        usage_label("GTT  "@, d.gtt_used_mb, d.gtt_total_mb),
        gpu.gtt_pct,
        rows[1],
        vram,
    );
    gtt.paragraph(busy_line(d.busy_pct as nat, rows[2].width as nat), rows[2])
}

/// Whether painting the GPU panel can turn one screen into another: its border, and three rows
/// inside it.
pub open spec fn gpu_outcome(gpu: GpuPanel, area: Rect, before: Screen, after: Screen) -> bool {
    let framed = before.border(panel_border(gpu_title(gpu.data, gpu.temp@), GREEN), area);
    exists|rows: Seq<Rect>|
        {
            &&& #[trigger] splits_rows(meter_rows(), area.inner(Sides::All), rows)
            &&& after == gpu_rows(gpu, rows, framed)
        }
}

/// The rows that a GPU panel was painted in.
proof fn rows_of_gpu(gpu: GpuPanel, area: Rect, before: Screen, after: Screen) -> (rows: Seq<Rect>)
    requires
        gpu_outcome(gpu, area, before, after),
    ensures
        splits_rows(meter_rows(), area.inner(Sides::All), rows),
        after == gpu_rows(
            gpu,
            rows,
            before.border(panel_border(gpu_title(gpu.data, gpu.temp@), GREEN), area),
        ),
{
    let framed = before.border(panel_border(gpu_title(gpu.data, gpu.temp@), GREEN), area);
    choose|rows: Seq<Rect>|
        {
            &&& #[trigger] splits_rows(meter_rows(), area.inner(Sides::All), rows)
            &&& after == gpu_rows(gpu, rows, framed)
        }
}

/// A GPU panel of at least seven lines shows all that it has, each row in its place.
pub proof fn gpu_panel_has_room(gpu: GpuPanel, area: Rect, before: Screen, after: Screen)
    requires
        area.bounded(),
        area.height >= 7,
        gpu_outcome(gpu, area, before, after),
    ensures
        after == gpu_rows(
            gpu,
            meters(area.inner(Sides::All)),
            before.border(panel_border(gpu_title(gpu.data, gpu.temp@), GREEN), area),
        ),
{
    let rows = rows_of_gpu(gpu, area, before, after);
    meters_have_their_places(area.inner(Sides::All), rows);
}

/// The load bar is never longer than its row, and it is full from 100 percent on and, in a row that
/// is there, not before.
pub proof fn busy_bar_fits(busy: nat, width: nat)
    ensures
        busy_bar_len(busy, width) <= width,
        busy >= 100 ==> busy_bar_len(busy, width) == width,
        width > 0 && busy < 100 ==> busy_bar_len(busy, width) < width,
{
    let capped = if busy < 100 {
        busy
    } else {
        100
    };
    assert(capped * width <= 100 * width) by (nonlinear_arith)
        requires
            capped <= 100,
    ;
    if width > 0 && busy < 100 {
        assert(capped * width < 100 * width) by (nonlinear_arith)
            requires
                capped < 100,
                width > 0,
        ;
    }
}

/// A higher load never has a shorter bar.
pub proof fn busy_bar_grows_with_load(low: nat, high: nat, width: nat)
    requires
        low <= high,
    ensures
        busy_bar_len(low, width) <= busy_bar_len(high, width),
{
    let a = if low < 100 {
        low
    } else {
        100
    };
    let b = if high < 100 {
        high
    } else {
        100
    };
    assert(a * width <= b * width) by (nonlinear_arith)
        requires
            a <= b,
    ;
}

/// Makes the load bar.
pub fn make_busy_line(busy: u64, width: u16) -> (r: Vec<Vec<Span>>)
    ensures
        lines_view(r@) == busy_line(busy as nat, width as nat),
        lines_narrow(lines_view(r@)),
{
    let capped: usize = if busy < 100 {
        busy as usize
    } else {
        100
    };
    let w: usize = width as usize;
    proof {
        busy_bar_fits(busy as nat, width as nat);
        bar_fills_width(busy_bar_len(busy as nat, width as nat), width as nat);
    }
    assert(capped * w <= 100 * 0xffff) by (nonlinear_arith)
        requires
            capped <= 100,
            w <= 0xffff,
    ;
    let (full, rest) = make_bar(capped * w / 100, w);
    let mut line: Vec<Span> = Vec::new();
    line.push(full);
    line.push(rest);
    let mut r: Vec<Vec<Span>> = Vec::new();
    let ghost b = bar(busy_bar_len(busy as nat, width as nat), width as nat);
    assert(line_view(line@) =~= seq![b.0, b.1]);
    r.push(line);
    assert(lines_view(r@) =~= busy_line(busy as nat, width as nat));
    r
}

/// Paints the rows of the GPU panel.
pub fn render_gpu_rows(gpu: &GpuPanel, rows: &Vec<Rect>, buf: &mut Buffer)
    requires
        screen(*old(buf)).valid(),
        rows@.len() == 3,
        forall|i: int| 0 <= i < 3 ==> (#[trigger] rows@[i]).within(buffer_area(*old(buf))),
        forall|i: int| 0 <= i < 3 ==> (#[trigger] rows@[i]).width < u16::MAX,
    ensures
        screen(*final(buf)) == gpu_rows(*gpu, rows@, screen(*old(buf))),
        screen(*final(buf)).valid(),
{
    let d = gpu.data;
    proof {
        reveal_strlit("VRAM ");
        reveal_strlit("GTT  ");
        assert(is_narrow("VRAM "@) && is_narrow("GTT  "@));
        usage_label_is_narrow("VRAM "@, d.vram_used_mb, d.vram_total_mb);
        usage_label_is_narrow("GTT  "@, d.gtt_used_mb, d.gtt_total_mb);
    }
    let vram = make_usage_label("VRAM ", d.vram_used_mb, d.vram_total_mb);
    render_labelled_gauge(vram, gpu.vram_pct, rows[0], buf);
    let gtt = make_usage_label("GTT  ", d.gtt_used_mb, d.gtt_total_mb);
    render_labelled_gauge(gtt, gpu.gtt_pct, rows[1], buf);
    let busy = make_busy_line(d.busy_pct, rows[2].width);
    paint_paragraph(&busy, rows[2], buf);
}

/// Makes the title of the GPU panel.
pub fn make_gpu_title(data: GpuData, temp: &str) -> (r: String)
    ensures
        r@ == gpu_title(data, temp@),
{
    let mut r = " GPU  ".to_owned();
    r.append(format_u64(data.clock_mhz as u64).as_str());
    r.append("MHz  ");
    r.append(format_u64(data.busy_pct).as_str());
    r.append("%  ");
    r.append(temp);
    r.append("\u{b0}C ");
    r
}

/// Paints the GPU panel.
pub fn render_gpu(gpu: &GpuPanel, area: Rect, buf: &mut Buffer)
    requires
        screen(*old(buf)).valid(),
        area.within(buffer_area(*old(buf))),
        is_figure(gpu.temp@),
    ensures
        gpu_outcome(*gpu, area, screen(*old(buf)), screen(*final(buf))),
        screen(*final(buf)).area == screen(*old(buf)).area,
        screen(*final(buf)).valid(),
{
    let border = make_border(make_gpu_title(gpu.data, gpu.temp.as_str()), GREEN);
    proof {
        broadcast use concat_is_narrow, decimal_is_narrow, figure_is_narrow;

        reveal_strlit(" GPU  ");
        reveal_strlit("MHz  ");
        reveal_strlit("%  ");
        reveal_strlit("\u{b0}C ");
        assert(is_narrow(" GPU  "@) && is_narrow("MHz  "@) && is_narrow("%  "@) && is_narrow(
            "\u{b0}C "@,
        ));
        assert(is_narrow(gpu.temp@));
        decimal_is_short(gpu.data.clock_mhz as u64);
        decimal_is_short(gpu.data.busy_pct);
    }
    let inner = inner_area(&border, area);
    paint_border(&border, area, buf);
    let rows = split_rows(&make_meter_rows(), inner);
    assert(splits_rows(meter_rows(), area.inner(Sides::All), rows@));
    render_gpu_rows(gpu, &rows, buf);
}

/// The GPU panel changes no cell outside its area.
pub proof fn gpu_panel_stays_inside(gpu: GpuPanel, area: Rect, before: Screen, after: Screen)
    requires
        before.valid(),
        area.within(before.area),
        gpu_outcome(gpu, area, before, after),
    ensures
        before.same_outside(after, area),
        after.valid(),
{
    let d = gpu.data;
    let inner = area.inner(Sides::All);
    let border = panel_border(gpu_title(gpu.data, gpu.temp@), GREEN);
    let framed = before.border(border, area);
    let rows = rows_of_gpu(gpu, area, before, after);
    assert(rows[0].within(inner) && rows[1].within(inner) && rows[2].within(inner));
    let first = usage_label("VRAM "@, d.vram_used_mb, d.vram_total_mb);
    let second = usage_label("GTT  "@, d.gtt_used_mb, d.gtt_total_mb);
    let last = busy_line(d.busy_pct as nat, rows[2].width as nat);
    let one = labelled_gauge(first, gpu.vram_pct, rows[0], framed);
    let two = labelled_gauge(second, gpu.gtt_pct, rows[1], one);
    border_stays_inside(before, border, area, area);
    labelled_gauge_stays_inside(framed, first, gpu.vram_pct, rows[0], area);
    labelled_gauge_stays_inside(one, second, gpu.gtt_pct, rows[1], area);
    paragraph_stays_inside(two, last, rows[2], area);
    same_outside_chains(before, framed, one, area);
    same_outside_chains(before, one, two, area);
    same_outside_chains(before, two, after, area);
}

/// The title shows the clock in MHz, the load in percent and the temperature in degrees Celsius;
/// clock and load can be read back.
pub proof fn title_shows_clock_load_and_temperature(data: GpuData, temp: Seq<char>) -> (r: (int, int))
    ensures
        ({
            let title = gpu_title(data, temp);
            let (a, b) = r;
            let m = temp.len() as int;
            &&& 6 < a && a + 5 < b && b + 3 + m + 3 == title.len()
            &&& title.subrange(0, 6) == seq![' ', 'G', 'P', 'U', ' ', ' ']
            &&& title.subrange(6, a) == decimal(data.clock_mhz as nat)
            &&& title.subrange(a + 5, b) == decimal(data.busy_pct as nat)
            &&& number(title.subrange(6, a), u64::MAX as nat) == Some(data.clock_mhz as nat)
            &&& '0' <= title[6] <= '9'
            &&& title.subrange(a, a + 5) == seq!['M', 'H', 'z', ' ', ' ']
            &&& number(title.subrange(a + 5, b), u64::MAX as nat) == Some(data.busy_pct as nat)
            &&& '0' <= title[a + 5] <= '9'
            &&& title.subrange(b, b + 3) == seq!['%', ' ', ' ']
            &&& title.subrange(b + 3, b + 3 + m) == temp
            &&& title.subrange(b + 3 + m, b + 6 + m) == seq!['\u{b0}', 'C', ' ']
        }),
{
    reveal_strlit(" GPU  ");
    reveal_strlit("MHz  ");
    reveal_strlit("%  ");
    reveal_strlit("\u{b0}C ");
    let title = gpu_title(data, temp);
    let clock = decimal(data.clock_mhz as nat);
    let busy = decimal(data.busy_pct as nat);
    decimal_is_digits(data.clock_mhz as nat);
    decimal_is_digits(data.busy_pct as nat);
    number_of_decimal(data.clock_mhz as nat, u64::MAX as nat);
    number_of_decimal(data.busy_pct as nat, u64::MAX as nat);
    let a = 6 + clock.len() as int;
    let b = a + 5 + busy.len() as int;
    let m = temp.len() as int;
    assert(title.subrange(0, 6) =~= seq![' ', 'G', 'P', 'U', ' ', ' ']);
    assert(title.subrange(6, a) =~= clock);
    assert(title.subrange(a, a + 5) =~= seq!['M', 'H', 'z', ' ', ' ']);
    assert(title.subrange(a + 5, b) =~= busy);
    assert(title.subrange(b, b + 3) =~= seq!['%', ' ', ' ']);
    assert(title.subrange(b + 3, b + 3 + m) =~= temp);
    assert(title.subrange(b + 3 + m, b + 6 + m) =~= seq!['\u{b0}', 'C', ' ']);
    assert(title[6] == clock[0] && title[a + 5] == busy[0]);
    (a, b)
}

/// The load bar has as many cells filled as the load has of 100 percent, rounded down.
pub proof fn busy_bar_is_in_proportion(busy: nat, width: nat)
    requires
        busy <= 100,
    ensures
        busy_bar_len(busy, width) * 100 <= busy * width < (busy_bar_len(busy, width) + 1) * 100,
{
    busy_bar_fits(busy, width);
}

/// The rows of the panel: the memory of the GPU's own with its gauge, the memory set aside for it
/// with its gauge, and the load as a bar as wide as its row. Each has its own numbers.
pub proof fn rows_show_memory_and_load(gpu: GpuPanel, rows: Seq<Rect>, before: Screen)
    ensures
        ({
            let d = gpu.data;
            let own = labelled_gauge(
                usage_label(
                    seq!['V', 'R', 'A', 'M', ' '],
                    d.vram_used_mb,
                    d.vram_total_mb,
                ),
                gpu.vram_pct,
                rows[0],
                before,
            );
            let aside = labelled_gauge(
                usage_label(seq!['G', 'T', 'T', ' ', ' '], d.gtt_used_mb, d.gtt_total_mb),
                gpu.gtt_pct,
                rows[1],
                own,
            );
            let (full, rest) = bar(
                busy_bar_len(d.busy_pct as nat, rows[2].width as nat),
                rows[2].width as nat,
            );
            gpu_rows(gpu, rows, before) == aside.paragraph(seq![seq![full, rest]], rows[2])
        }),
{
    reveal_strlit("VRAM ");
    reveal_strlit("GTT  ");
    assert("VRAM "@ =~= seq!['V', 'R', 'A', 'M', ' ']);
    assert("GTT  "@ =~= seq!['G', 'T', 'T', ' ', ' ']);
}

/// The panel is its border with its title and its rows inside the border, and nothing else.
pub proof fn panel_is_border_and_rows(
    gpu: GpuPanel,
    area: Rect,
    before: Screen,
    after: Screen,
) -> (rows: Seq<Rect>)
    requires
        gpu_outcome(gpu, area, before, after),
    ensures
        splits_rows(meter_rows(), area.inner(Sides::All), rows),
        after == gpu_rows(
            gpu,
            rows,
            before.border(
                BorderView {
                    title: gpu_title(gpu.data, gpu.temp@),
                    title_color: 0x33FF33,
                    title_modifiers: 1,
                    sides: Sides::All,
                    color: 0x33FF33,
                },
                area,
            ),
        ),
{
    rows_of_gpu(gpu, area, before, after)
}

} // verus!
