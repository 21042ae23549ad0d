//! The dashboard: where the panels stand, and how a frame is drawn.

use ratatui::buffer::Buffer;
use vstd::prelude::*;
use vstd::string::*;

use crate::cells::{patch_stays_inside, same_outside_chains, same_outside_widens, Screen};
use crate::control::REFRESH_MS;
use crate::cpu_panel::{cpu_painted, cpu_panel_stays_inside, render_cpu, CpuPanel};
use crate::gpu_panel::{gpu_outcome, gpu_panel_stays_inside, render_gpu, GpuPanel};
use crate::mem_panel::{mem_outcome, mem_panel_stays_inside, render_mem, MemPanel};
use crate::npu::NpuData;
use crate::npu_panel::{npu_painted, npu_panel_stays_inside, render_npu};
use crate::number::decimal;
use crate::paint::{check_figure, is_figure, paragraph_stays_inside, styled};
use crate::procs::TOP_N;
use crate::procs_panel::{
    procs_outcome, procs_panel_stays_inside, render_procs, rows_printable, ProcRow,
};
use crate::screen::{
    backdrop_cells, buffer_area, is_cell, is_narrow, is_short, line_len, line_view, lines_narrow,
    lines_view, measure, narrow, paint_backdrop, paint_paragraph, parts_are_inside, percentage,
    roomy, rows_crowd, rows_settle, screen, settled_size, settled_start, span, spans_rows,
    split_columns, split_rows, splits_rows, total_least, Backdrop, Constraint, Rect, Sides, Span,
    SpanView, BOLD, DIM_GREEN, GREEN, PLAIN,
};
use crate::text::to_chars;

verus! {

/// All that a frame shows.
pub struct Dashboard {
    pub cpu: CpuPanel,
    pub gpu: GpuPanel,
    pub npu: NpuData,
    pub mem: MemPanel,
    pub top_cpu: Vec<ProcRow>,
    pub top_mem: Vec<ProcRow>,
}

impl Dashboard {
    /// Whether all its texts can be painted.
    pub open spec fn printable(self) -> bool {
        &&& self.cpu.printable()
        &&& is_figure(self.gpu.temp@)
        &&& self.mem.printable()
        &&& rows_printable(self.top_cpu@)
        &&& rows_printable(self.top_mem@)
    }
}

/// The text at the foot of the screen.
pub open spec fn footer_line() -> Seq<Seq<SpanView>> {
    seq![
        seq![
            span(" tri-mon "@, GREEN, BOLD),
            span("| q/Esc to quit | 200ms refresh "@, DIM_GREEN, PLAIN),
        ],
    ]
}

/// The foot of the screen tells how long a refresh takes.
pub proof fn footer_tells_refresh()
    ensures
        footer_line()[0][1].text == "| q/Esc to quit | "@ + decimal(REFRESH_MS as nat)
            + "ms refresh "@,
{
    reveal_strlit("| q/Esc to quit | 200ms refresh ");
    reveal_strlit("| q/Esc to quit | ");
    reveal_strlit("ms refresh ");
    reveal_with_fuel(decimal, 3);
    assert(decimal(200) =~= seq!['2', '0', '0']);
    assert(footer_line()[0][1].text =~= "| q/Esc to quit | "@ + decimal(200) + "ms refresh "@);
}

/// Makes the text at the foot of the screen.
pub fn make_footer_line() -> (r: Vec<Vec<Span>>)
    ensures
        lines_view(r@) == footer_line(),
        lines_narrow(lines_view(r@)),
{
    let mut line: Vec<Span> = Vec::new();
    line.push(styled(" tri-mon ".to_owned(), GREEN, BOLD));
    line.push(styled("| q/Esc to quit | 200ms refresh ".to_owned(), DIM_GREEN, PLAIN));
    assert(line_view(line@) =~= footer_line()[0]);
    let mut r: Vec<Vec<Span>> = Vec::new();
    r.push(line);
    assert(lines_view(r@) =~= footer_line());
    proof {
        reveal_strlit(" tri-mon ");
        reveal_strlit("| q/Esc to quit | 200ms refresh ");
        assert(is_narrow(" tri-mon "@) && is_narrow("| q/Esc to quit | 200ms refresh "@));
    }
    r
}

/// Paints the text at the foot of the screen.
pub fn render_footer(area: Rect, buf: &mut Buffer)
    requires
        screen(*old(buf)).valid(),
        area.within(buffer_area(*old(buf))),
    ensures
        screen(*final(buf)) == screen(*old(buf)).paragraph(footer_line(), area),
        screen(*final(buf)).valid(),
{
    let line = make_footer_line();
    proof {
        let spans = footer_line()[0];
        reveal_strlit(" tri-mon ");
        reveal_strlit("| q/Esc to quit | 200ms refresh ");
        reveal_with_fuel(line_len, 3);
        assert(spans.drop_last() =~= seq![spans[0]]);
        assert(line_len(spans) <= u16::MAX);
    }
    paint_paragraph(&line, area, buf);
}

/// Where the panels stand.
#[derive(Clone, Copy, PartialEq, Eq, Structural, Debug)]
pub struct Places {
    pub cpu: Rect,
    pub gpu: Rect,
    pub mem: Rect,
    pub npu: Rect,
    pub procs: Rect,
    pub footer: Rect,
}

impl Places {
    /// Whether every panel lies in an area.
    pub open spec fn within(self, area: Rect) -> bool {
        &&& self.cpu.within(area)
        &&& self.gpu.within(area)
        &&& self.mem.within(area)
        &&& self.npu.within(area)
        &&& self.procs.within(area)
        &&& self.footer.within(area)
    }
}

/// The rows of the screen: the panels, the processes and the foot.
pub open spec fn main_rows() -> Seq<Constraint> {
    seq![Constraint::Min(16), Constraint::Length(9), Constraint::Length(1)]
}

/// The percentage of the width above the processes that the CPU panel has; all other panels stand
/// on its right.
pub const CPU_PERCENT: u16 = 45;

/// The rows of the right column: GPU, memory and NPU.
pub open spec fn right_rows() -> Seq<Constraint> {
    seq![Constraint::Length(7), Constraint::Length(7), Constraint::Min(5)]
}

/// Where the panels stand, given the rows of the screen and those of the right column.
pub open spec fn places(main: Seq<Rect>, right: Seq<Rect>) -> Places {
    Places {
        cpu: main[0].left_part(CPU_PERCENT),
        gpu: right[0],
        mem: right[1],
        npu: right[2],
        procs: main[1],
        footer: main[2],
    }
}

/// Whether the panels can come to stand in `p` on an area.
pub open spec fn placed(area: Rect, p: Places) -> bool {
    exists|main: Seq<Rect>, right: Seq<Rect>|
        {
            &&& #[trigger] splits_rows(main_rows(), area, main)
            &&& #[trigger] splits_rows(right_rows(), main[0].right_part(CPU_PERCENT), right)
            &&& p == places(main, right)
        }
}

/// Whether painting the panels can turn one screen into another.
pub open spec fn panels_outcome(d: Dashboard, p: Places, before: Screen, after: Screen) -> bool {
    exists|gpu: Screen, mem: Screen, procs: Screen|
        {
            &&& #[trigger] gpu_outcome(d.gpu, p.gpu, cpu_painted(d.cpu, p.cpu, before), gpu)
            &&& #[trigger] mem_outcome(d.mem, p.mem, gpu, mem)
            &&& #[trigger] procs_outcome(
                d.top_cpu@,
                d.top_mem@,
                p.procs,
                npu_painted(d.npu, p.npu, mem),
                procs,
            )
            &&& after == procs.paragraph(footer_line(), p.footer)
        }
}

/// Whether drawing a frame on an area can turn one screen into another: the area is made black,
/// and the panels are painted where they come to stand.
pub open spec fn ui_outcome(d: Dashboard, area: Rect, before: Screen, after: Screen) -> bool {
    exists|p: Places|
        {
            &&& #[trigger] placed(area, p)
            &&& panels_outcome(d, p, before.backdrop(Backdrop::Black, area), after)
        }
}

/// The rows of the screen and those of the right column that panels stand in.
proof fn rows_of_places(area: Rect, p: Places) -> (r: (Seq<Rect>, Seq<Rect>))
    requires
        placed(area, p),
    ensures
        splits_rows(main_rows(), area, r.0),
        splits_rows(right_rows(), r.0[0].right_part(CPU_PERCENT), r.1),
        p == places(r.0, r.1),
{
    choose|main: Seq<Rect>, right: Seq<Rect>|
        {
            &&& #[trigger] splits_rows(main_rows(), area, main)
            &&& #[trigger] splits_rows(right_rows(), main[0].right_part(CPU_PERCENT), right)
            &&& p == places(main, right)
        }
}

/// Every panel lies in the area that the frame is drawn on.
pub proof fn panels_stay_inside(area: Rect, p: Places)
    requires
        area.bounded(),
        placed(area, p),
    ensures
        p.within(area),
{
    let (main, right) = rows_of_places(area, p);
    assert(main[0].within(area) && main[1].within(area) && main[2].within(area));
    parts_are_inside(main[0], CPU_PERCENT);
    let column = main[0].right_part(CPU_PERCENT);
    assert(right[0].within(column) && right[1].within(column) && right[2].within(column));
}

/// The processes and the foot are as wide as the screen; the panels of the right column begin where
/// the CPU panel ends, and reach to the end of the screen.
pub proof fn panels_line_up(area: Rect, p: Places)
    requires
        area.bounded(),
        placed(area, p),
    ensures
        p.procs.x == area.x && p.procs.width == area.width,
        p.footer.x == area.x && p.footer.width == area.width,
        p.cpu.x == area.x && p.cpu.width == percentage(CPU_PERCENT, area.width),
        p.gpu.x == p.mem.x == p.npu.x == p.cpu.x + p.cpu.width,
        p.gpu.width == p.mem.width == p.npu.width == area.width - p.cpu.width,
{
    let (main, right) = rows_of_places(area, p);
    assert(main[0].within(area));
    assert(main[0].x == area.x && main[1].x == area.x && main[2].x == area.x);
    parts_are_inside(main[0], CPU_PERCENT);
    let column = main[0].right_part(CPU_PERCENT);
    assert(right[0].x == column.x && right[1].x == column.x && right[2].x == column.x);
}

/// On a screen of any size, no two panels share a position: the CPU panel stands left of the right
/// column, in which GPU, memory and NPU follow each other, and below them follow the processes and
/// the foot.
pub proof fn panels_stand_apart(area: Rect, p: Places)
    requires
        area.bounded(),
        placed(area, p),
    ensures
        p.cpu.y == p.gpu.y == area.y,
        p.gpu.y + p.gpu.height == p.mem.y,
        p.mem.y + p.mem.height == p.npu.y,
        p.npu.y + p.npu.height <= p.procs.y,
        p.cpu.y + p.cpu.height == p.procs.y,
        p.procs.y + p.procs.height == p.footer.y,
        p.cpu.apart(p.gpu) && p.cpu.apart(p.mem) && p.cpu.apart(p.npu),
        p.gpu.apart(p.mem) && p.gpu.apart(p.npu) && p.mem.apart(p.npu),
        p.cpu.apart(p.procs) && p.gpu.apart(p.procs) && p.mem.apart(p.procs) && p.npu.apart(
            p.procs,
        ),
        p.cpu.apart(p.footer) && p.gpu.apart(p.footer) && p.mem.apart(p.footer) && p.npu.apart(
            p.footer,
        ) && p.procs.apart(p.footer),
{
    let (main, right) = rows_of_places(area, p);
    panels_line_up(area, p);
    assert(main[0].within(area));
    parts_are_inside(main[0], CPU_PERCENT);
    let column = main[0].right_part(CPU_PERCENT);
    assert(main[0].y + main[0].height == main[1].y && main[1].y + main[1].height == main[2].y);
    assert(right[0].y + right[0].height == right[1].y && right[1].y + right[1].height
        == right[2].y);
    assert(right[0].within(column) && right[1].within(column) && right[2].within(column));
}

/// On a screen of at most sixteen rows, the panels have all of it.
pub proof fn panels_crowd_a_short_screen(area: Rect, p: Places)
    requires
        area.bounded(),
        area.height <= 16,
        placed(area, p),
    ensures
        p.cpu.height == area.height,
        p.procs.height == 0,
        p.footer.height == 0,
{
    let (main, right) = rows_of_places(area, p);
    let size = area.height as nat;
    let rows = main_rows();
    rows_crowd(Constraint::Min(16), Constraint::Length(9), Constraint::Length(1), size);
    rows_need_room(size);
    assert(spans_rows(main[0], area, settled_start(rows, size, 0), settled_size(rows, size, 0)));
    assert(spans_rows(main[1], area, settled_start(rows, size, 1), settled_size(rows, size, 1)));
    assert(spans_rows(main[2], area, settled_start(rows, size, 2), settled_size(rows, size, 2)));
}

proof fn rows_need_room(size: nat)
    requires
        size <= 16,
    ensures
        !roomy(main_rows(), size),
{
    let s = main_rows();
    assert(s.drop_last().drop_last().drop_last() =~= Seq::<Constraint>::empty());
    reveal_with_fuel(total_least, 4);
}

/// The smallest height that has room for all panels.
pub const ROOMY_HEIGHT: u16 = 29;

/// Where the panels stand on a screen that has room for all of them: the CPU panel on the left; GPU
/// and memory with seven rows each and the NPU with the rest on the right; below them the processes
/// with nine rows and the foot with one.
pub open spec fn roomy_places(area: Rect) -> Places {
    let height = (area.height - 10) as u16;
    let panels = Rect { height, ..area };
    let right = panels.right_part(CPU_PERCENT);
    Places {
        cpu: panels.left_part(CPU_PERCENT),
        gpu: Rect { height: 7, ..right },
        mem: Rect { y: (area.y + 7) as u16, height: 7, ..right },
        npu: Rect { y: (area.y + 14) as u16, height: (height - 14) as u16, ..right },
        procs: Rect { y: (area.y + height) as u16, height: 9, ..area },
        footer: Rect { y: (area.y + height + 9) as u16, height: 1, ..area },
    }
}

/// Where the rows of the screen have room, each process table has a line for its header and for all
/// the processes that it shows.
pub proof fn tables_show_all_rows(area: Rect, p: Places)
    requires
        area.bounded(),
        area.height >= 26,
        placed(area, p),
    ensures
        p.procs.inner(Sides::All).left_part(50).inner(Sides::Right).height >= 1 + TOP_N,
        p.procs.inner(Sides::All).right_part(50).inner(Sides::NoSide).height >= 1 + TOP_N,
{
    let (main, right) = rows_of_places(area, p);
    let size = area.height as nat;
    rows_settle(Constraint::Min(16), Constraint::Length(9), Constraint::Length(1), size);
    assert(spans_rows(main[1], area, size - 10, 9));
}

/// On a screen with room for all panels, each panel has its place.
pub proof fn panels_fill_a_roomy_screen(area: Rect, p: Places)
    requires
        area.bounded(),
        area.height >= ROOMY_HEIGHT,
        placed(area, p),
    ensures
        p == roomy_places(area),
{
    let (main, right) = rows_of_places(area, p);
    let size = area.height as nat;
    rows_settle(Constraint::Min(16), Constraint::Length(9), Constraint::Length(1), size);
    assert(spans_rows(main[0], area, 0, size - 10));
    assert(spans_rows(main[1], area, size - 10, 9));
    assert(spans_rows(main[2], area, size - 1, 1));
    let column = main[0].right_part(CPU_PERCENT);
    let height = column.height as nat;
    rows_settle(Constraint::Length(7), Constraint::Length(7), Constraint::Min(5), height);
    assert(spans_rows(right[0], column, 0, 7));
    assert(spans_rows(right[1], column, 7, 7));
    assert(spans_rows(right[2], column, 14, height - 14));
}

fn make_rows(a: Constraint, b: Constraint, c: Constraint) -> (r: Vec<Constraint>)
    ensures
        r@ == seq![a, b, c],
{
    let mut r: Vec<Constraint> = Vec::new();
    r.push(a);
    r.push(b);
    r.push(c);
    assert(r@ =~= seq![a, b, c]);
    r
}

/// Finds out where the panels stand on an area.
pub fn place_panels(area: Rect) -> (p: Places)
    requires
        area.bounded(),
    ensures
        placed(area, p),
{
    let main = split_rows(
        &make_rows(Constraint::Min(16), Constraint::Length(9), Constraint::Length(1)),
        area,
    );
    assert(splits_rows(main_rows(), area, main@));
    assert(main@[0].within(area));
    let top = split_columns(CPU_PERCENT, 100 - CPU_PERCENT, main[0]);
    proof {
        parts_are_inside(main@[0], CPU_PERCENT);
    }
    let right = split_rows(
        &make_rows(Constraint::Length(7), Constraint::Length(7), Constraint::Min(5)),
        top[1],
    );
    assert(splits_rows(right_rows(), main@[0].right_part(CPU_PERCENT), right@));
    Places {
        cpu: top[0],
        gpu: right[0],
        mem: right[1],
        npu: right[2],
        procs: main[1],
        footer: main[2],
    }
}

/// Paints the panels.
pub fn render_panels(d: &Dashboard, p: Places, buf: &mut Buffer)
    requires
        screen(*old(buf)).valid(),
        p.within(buffer_area(*old(buf))),
        d.printable(),
    ensures
        panels_outcome(*d, p, screen(*old(buf)), screen(*final(buf))),
        screen(*final(buf)).area == screen(*old(buf)).area,
        screen(*final(buf)).valid(),
{
    render_cpu(&d.cpu, p.cpu, buf);
    render_gpu(&d.gpu, p.gpu, buf);
    let ghost gpu = screen(*buf);
    render_mem(&d.mem, p.mem, buf);
    let ghost mem = screen(*buf);
    render_npu(d.npu, p.npu, buf);
    render_procs(&d.top_cpu, &d.top_mem, p.procs, buf);
    let ghost procs = screen(*buf);
    render_footer(p.footer, buf);
    proof {
        assert(gpu_outcome(d.gpu, p.gpu, cpu_painted(d.cpu, p.cpu, screen(*old(buf))), gpu));
        assert(mem_outcome(d.mem, p.mem, gpu, mem));
        assert(procs_outcome(
            d.top_cpu@,
            d.top_mem@,
            p.procs,
            npu_painted(d.npu, p.npu, mem),
            procs,
        ));
    }
}

/// Draws a frame on an area.
pub fn ui(d: &Dashboard, area: Rect, buf: &mut Buffer)
    requires
        screen(*old(buf)).valid(),
        area.within(buffer_area(*old(buf))),
        d.printable(),
    ensures
        ui_outcome(*d, area, screen(*old(buf)), screen(*final(buf))),
        screen(*final(buf)).area == screen(*old(buf)).area,
        screen(*final(buf)).valid(),
{
    paint_backdrop(Backdrop::Black, area, buf);
    let p = place_panels(area);
    proof {
        panels_stay_inside(area, p);
    }
    render_panels(d, p, buf);
}

/// Tells whether a cell of a table can show a text.
fn check_cell(text: &str) -> (r: bool)
    ensures
        r == is_cell(text@),
{
    let chars = to_chars(text);
    if chars.len() < 0x4000 {
        return true;
    }
    let mut i: usize = 0;
    while i < chars.len()
        invariant
            i <= chars@.len(),
            chars@ == text@,
            !is_short(text@),
            forall|j: int| 0 <= j < i ==> narrow(#[trigger] chars@[j]),
        decreases chars@.len() - i,
    {
        let c: char = chars[i];
        if !((' ' <= c && c <= '~') || c == '\u{b0}' || c == '\u{2588}' || c == '\u{2591}') {
            assert(!narrow(text@[i as int]));
            return false;
        }
        i += 1;
    }
    true
}

/// Tells whether the texts of the rows of a table can be painted.
fn check_rows(rows: &Vec<ProcRow>) -> (r: bool)
    ensures
        r == rows_printable(rows@),
{
    let mut i: usize = 0;
    while i < rows.len()
        invariant
            i <= rows@.len(),
            forall|j: int|
                0 <= j < i ==> is_cell((#[trigger] rows@[j]).name@) && is_figure(rows@[j].figure@),
        decreases rows@.len() - i,
    {
        if !check_cell(rows[i].name.as_str()) || !check_figure(rows[i].figure.as_str()) {
            assert(!(is_cell(rows@[i as int].name@) && is_figure(rows@[i as int].figure@)));
            return false;
        }
        i += 1;
    }
    true
}

impl Dashboard {
    /// Tells whether all its texts can be painted.
    pub fn check(&self) -> (r: bool)
        ensures
            r == self.printable(),
    {
        check_figure(self.cpu.load.as_str()) && check_figure(self.cpu.temp.as_str())
            && check_figure(self.gpu.temp.as_str()) && check_figure(self.mem.ram.as_str())
            && check_figure(self.mem.swap.as_str()) && check_figure(self.mem.zram_ratio.as_str())
            && check_rows(&self.top_cpu) && check_rows(&self.top_mem)
    }
}

/// Draws a frame on a whole buffer and tells whether it did. A buffer whose edges lie further out
/// than 16 bits can tell or that has other than one cell for each position is left as it is, and so
/// is any buffer where a text of the frame cannot be painted.
pub fn draw(d: &Dashboard, buf: &mut Buffer) -> (r: bool)
    ensures
        r == (screen(*old(buf)).valid() && d.printable()),
        screen(*final(buf)).area == screen(*old(buf)).area,
        r ==> screen(*final(buf)).valid(),
        r ==> ui_outcome(
            *d,
            screen(*old(buf)).area,
            screen(*old(buf)),
            screen(*final(buf)),
        ),
        !r ==> *final(buf) == *old(buf),
{
    let (area, cells) = measure(buf);
    if area.x > u16::MAX - area.width || area.y > u16::MAX - area.height {
        return false;
    }
    assert(area.width * area.height <= 0xffff * 0xffff) by (nonlinear_arith)
        requires
            area.width <= 0xffff,
            area.height <= 0xffff,
    ;
    if cells != area.width as usize * area.height as usize || !d.check() {
        return false;
    }
    ui(d, area, buf);
    true
}

/// A frame changes no cell outside the area that it is drawn on.
pub proof fn frame_stays_inside(d: Dashboard, area: Rect, before: Screen, after: Screen)
    requires
        before.valid(),
        area.within(before.area),
        ui_outcome(d, area, before, after),
    ensures
        before.same_outside(after, area),
        after.valid(),
{
    let p = choose|p: Places|
        {
            &&& #[trigger] placed(area, p)
            &&& panels_outcome(d, p, before.backdrop(Backdrop::Black, area), after)
        };
    panels_stay_inside(area, p);
    let black = before.backdrop(Backdrop::Black, area);
    let cells = backdrop_cells(Backdrop::Black, area, before.window(area));
    patch_stays_inside(before, area, cells, area);
    let (gpu, mem, procs) = choose|gpu: Screen, mem: Screen, procs: Screen|
        {
            &&& #[trigger] gpu_outcome(d.gpu, p.gpu, cpu_painted(d.cpu, p.cpu, black), gpu)
            &&& #[trigger] mem_outcome(d.mem, p.mem, gpu, mem)
            &&& #[trigger] procs_outcome(
                d.top_cpu@,
                d.top_mem@,
                p.procs,
                npu_painted(d.npu, p.npu, mem),
                procs,
            )
            &&& after == procs.paragraph(footer_line(), p.footer)
        };
    let cpu = cpu_painted(d.cpu, p.cpu, black);
    let npu = npu_painted(d.npu, p.npu, mem);
    cpu_panel_stays_inside(d.cpu, p.cpu, black);
    same_outside_widens(black, cpu, p.cpu, area);
    same_outside_chains(before, black, cpu, area);
    gpu_panel_stays_inside(d.gpu, p.gpu, cpu, gpu);
    same_outside_widens(cpu, gpu, p.gpu, area);
    same_outside_chains(before, cpu, gpu, area);
    mem_panel_stays_inside(d.mem, p.mem, gpu, mem);
    same_outside_widens(gpu, mem, p.mem, area);
    same_outside_chains(before, gpu, mem, area);
    npu_panel_stays_inside(d.npu, p.npu, mem);
    same_outside_widens(mem, npu, p.npu, area);
    same_outside_chains(before, mem, npu, area);
    procs_panel_stays_inside(d.top_cpu@, d.top_mem@, p.procs, npu, procs);
    same_outside_widens(npu, procs, p.procs, area);
    same_outside_chains(before, npu, procs, area);
    paragraph_stays_inside(procs, footer_line(), p.footer, area);
    same_outside_chains(before, procs, after, area);
}

/// The foot of the screen names the program, in bold, and tells its keys and its pace.
pub proof fn footer_tells_the_keys()
    ensures
        ({
            let line = footer_line();
            &&& line.len() == 1 && line[0].len() == 2
            &&& line[0][0].text == seq![' ', 't', 'r', 'i', '-', 'm', 'o', 'n', ' ']
            &&& line[0][0].color == 0x33FF33 && line[0][0].modifiers == 1
            &&& line[0][1].text == seq!['|', ' ', 'q', '/', 'E', 's', 'c', ' ', 't', 'o', ' ', 'q', 'u', 'i', 't', ' ', '|', ' ', '2', '0', '0', 'm', 's', ' ', 'r', 'e', 'f', 'r', 'e', 's', 'h', ' ']
            &&& line[0][1].color == 0x118811 && line[0][1].modifiers == 0
        }),
{
    reveal_strlit(" tri-mon ");
    reveal_strlit("| q/Esc to quit | 200ms refresh ");
    assert(" tri-mon "@ =~= seq![' ', 't', 'r', 'i', '-', 'm', 'o', 'n', ' ']);
    assert("| q/Esc to quit | 200ms refresh "@ =~= seq!['|', ' ', 'q', '/', 'E', 's', 'c', ' ', 't', 'o', ' ', 'q', 'u', 'i', 't', ' ', '|', ' ', '2', '0', '0', 'm', 's', ' ', 'r', 'e', 'f', 'r', 'e', 's', 'h', ' ']);
}

/// A frame can be painted exactly where each of its figures is one and the rows of both tables can
/// be painted; nothing else is asked of it.
pub proof fn frame_is_checked_by_its_texts(d: Dashboard)
    ensures
        d.printable() <==> {
            &&& is_figure(d.cpu.load@) && is_figure(d.cpu.temp@)
            &&& is_figure(d.gpu.temp@)
            &&& is_figure(d.mem.ram@) && is_figure(d.mem.swap@) && is_figure(d.mem.zram_ratio@)
            &&& rows_printable(d.top_cpu@) && rows_printable(d.top_mem@)
        },
{
}

/// How high the panels are on a screen with room for all of them, and where they begin.
pub proof fn heights_on_a_roomy_screen(area: Rect, p: Places)
    requires
        area.bounded(),
        area.height >= 29,
        placed(area, p),
    ensures
        p.cpu.y == area.y && p.cpu.height == area.height - 10,
        p.gpu.y == area.y && p.gpu.height == 7,
        p.mem.y == area.y + 7 && p.mem.height == 7,
        p.npu.y == area.y + 14 && p.npu.height == area.height - 24,
        p.procs.y == area.y + area.height - 10 && p.procs.height == 9,
        p.footer.y == area.y + area.height - 1 && p.footer.height == 1,
        p.cpu.x == area.x && p.procs.x == area.x && p.footer.x == area.x,
        100 * p.cpu.width <= area.width * 45 + 50 < 100 * p.cpu.width + 100,
        p.gpu.x == area.x + p.cpu.width && p.mem.x == p.gpu.x && p.npu.x == p.gpu.x,
        p.gpu.width == area.width - p.cpu.width && p.mem.width == p.gpu.width && p.npu.width
            == p.gpu.width,
        p.procs.width == area.width && p.footer.width == area.width,
{
    panels_fill_a_roomy_screen(area, p);
    panels_line_up(area, p);
}

/// A frame is the area made black and then every panel painted once, each from its own part of the
/// dashboard and in its own place: CPU, GPU, memory, NPU, processes and foot.
pub proof fn frame_shows_every_panel(d: Dashboard, area: Rect, before: Screen, after: Screen) -> (r: (
    Places,
    Screen,
    Screen,
    Screen,
))
    requires
        ui_outcome(d, area, before, after),
    ensures
        ({
            let (p, gpu, mem, procs) = r;
            let black = before.backdrop(Backdrop::Black, area);
            &&& placed(area, p)
            &&& gpu_outcome(d.gpu, p.gpu, cpu_painted(d.cpu, p.cpu, black), gpu)
            &&& mem_outcome(d.mem, p.mem, gpu, mem)
            &&& procs_outcome(
                d.top_cpu@,
                d.top_mem@,
                p.procs,
                npu_painted(d.npu, p.npu, mem),
                procs,
            )
            &&& after == procs.paragraph(footer_line(), p.footer)
        }),
{
    let black = before.backdrop(Backdrop::Black, area);
    let p = choose|p: Places|
        {
            &&& #[trigger] placed(area, p)
            &&& panels_outcome(d, p, black, after)
        };
    let (gpu, mem, procs) = choose|gpu: Screen, mem: Screen, procs: Screen|
        {
            &&& #[trigger] gpu_outcome(d.gpu, p.gpu, cpu_painted(d.cpu, p.cpu, black), gpu)
            &&& #[trigger] mem_outcome(d.mem, p.mem, gpu, mem)
            &&& #[trigger] procs_outcome(
                d.top_cpu@,
                d.top_mem@,
                p.procs,
                npu_painted(d.npu, p.npu, mem),
                procs,
            )
            &&& after == procs.paragraph(footer_line(), p.footer)
        };
    (p, gpu, mem, procs)
}

/// The panels come to stand by two splits of rows, on any screen: panels, processes and foot; and
/// to the right of the CPU panel, GPU, memory and NPU.
pub proof fn panels_stand_in_split_rows(area: Rect, p: Places) -> (r: (Seq<Rect>, Seq<Rect>))
    requires
        placed(area, p),
    ensures
        ({
            let (main, right) = r;
            &&& splits_rows(
                seq![Constraint::Min(16), Constraint::Length(9), Constraint::Length(1)],
                area,
                main,
            )
            &&& splits_rows(
                seq![Constraint::Length(7), Constraint::Length(7), Constraint::Min(5)],
                main[0].right_part(45),
                right,
            )
            &&& p.cpu == main[0].left_part(45)
            &&& p.gpu == right[0] && p.mem == right[1] && p.npu == right[2]
            &&& p.procs == main[1] && p.footer == main[2]
        }),
{
    rows_of_places(area, p)
}

} // verus!
