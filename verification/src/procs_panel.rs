//! The process panel: two tables side by side.

use ratatui::buffer::Buffer;
use vstd::prelude::*;
use vstd::string::*;

use crate::cells::{
    patch_stays_inside, same_outside_chains, same_outside_widens, same_patch, same_window, Screen,
};
use crate::number::{decimal, decimal_is_digits, format_u64, number, number_of_decimal};
use crate::paint::{border_stays_inside, decimal_is_short, is_figure, make_border, panel_border};
use crate::procs::TOP_N;
use crate::screen::{
    border_cells, buffer_area, columns_settled, columns_vanish, inner_area, is_cell, is_narrow,
    is_short, paint_border, paint_table, parts_are_inside, rows_crowd, rows_settle, screen,
    settled_columns, split_columns, strings, table_cells, Border, BorderView, Column, Constraint,
    Rect, Sides, Table, TableView, BOLD, DARK_GREEN, DIM_GREEN, GREEN, PLAIN,
};

verus! {

/// A row of a process table, with its figure written out.
pub struct ProcRow {
    pub pid: u32,
    pub name: String,
    /// The share of CPU time in percent, or the memory in megabytes.
    pub figure: String,
}

/// Whether the texts of the rows can be painted: names that a cell can show and figures that are
/// figures.
pub open spec fn rows_printable(rows: Seq<ProcRow>) -> bool {
    forall|i: int|
        0 <= i < rows.len() ==> is_cell((#[trigger] rows[i]).name@) && is_figure(rows[i].figure@)
}

/// The cells of a row.
pub open spec fn row_cells(row: ProcRow) -> Seq<Seq<char>> {
    seq![decimal(row.pid as nat), row.name@, row.figure@]
}

/// A column for numbers, one that takes what is left, and one for figures.
pub open spec fn table_widths() -> Seq<Constraint> {
    seq![Constraint::Length(7), Constraint::Min(10), Constraint::Length(6)]
}

/// A process table; `figure` is the name of its last column.
pub open spec fn proc_table(figure: Seq<char>, rows: Seq<ProcRow>) -> TableView {
    TableView {
        header: seq!["PID"@, "Name"@, figure],
        header_color: GREEN,
        header_modifiers: BOLD,
        rows: rows.map_values(|row: ProcRow| row_cells(row)),
        row_color: DIM_GREEN,
        widths: table_widths(),
    }
}

/// The border of a process table.
pub open spec fn table_border(title: Seq<char>, sides: Sides) -> BorderView {
    BorderView { title, title_color: GREEN, title_modifiers: PLAIN, sides, color: DARK_GREEN }
}

/// Whether painting a process table with its border can turn one screen into another.
pub open spec fn framed_table_outcome(
    title: Seq<char>,
    figure: Seq<char>,
    sides: Sides,
    rows: Seq<ProcRow>,
    area: Rect,
    before: Screen,
    after: Screen,
) -> bool {
    before.border(table_border(title, sides), area).table(
        proc_table(figure, rows),
        area.inner(sides),
        after,
    )
}

/// Whether painting the table of the processes that use the most CPU time can turn one screen into
/// another. A line divides it from the table on its right.
pub open spec fn cpu_table_outcome(
    rows: Seq<ProcRow>,
    area: Rect,
    before: Screen,
    after: Screen,
) -> bool {
    framed_table_outcome(" by CPU "@, "CPU%"@, Sides::Right, rows, area, before, after)
}

/// Whether painting the table of the processes that use the most memory can turn one screen into
/// another. Its border has a title but no side, so that the border's colour shows nowhere.
pub open spec fn mem_table_outcome(
    rows: Seq<ProcRow>,
    area: Rect,
    before: Screen,
    after: Screen,
) -> bool {
    framed_table_outcome(" by MEM "@, "MB"@, Sides::NoSide, rows, area, before, after)
}

/// Whether painting the two tables can turn one screen into another.
pub open spec fn tables_outcome(
    top_cpu: Seq<ProcRow>,
    top_mem: Seq<ProcRow>,
    left: Rect,
    right: Rect,
    before: Screen,
    after: Screen,
) -> bool {
    exists|between: Screen|
        {
            &&& #[trigger] cpu_table_outcome(top_cpu, left, before, between)
            &&& mem_table_outcome(top_mem, right, between, after)
        }
}

/// Whether painting the process panel can turn one screen into another: its border, and two tables
/// of equal width inside it.
pub open spec fn procs_outcome(
    top_cpu: Seq<ProcRow>,
    top_mem: Seq<ProcRow>,
    area: Rect,
    before: Screen,
    after: Screen,
) -> bool {
    let framed = before.border(panel_border(" Top 5 Processes "@, GREEN), area);
    let inner = area.inner(Sides::All);
    tables_outcome(top_cpu, top_mem, inner.left_part(50), inner.right_part(50), framed, after)
}

/// The title tells how many processes a table shows.
pub proof fn title_tells_rows()
    ensures
        " Top 5 Processes "@ == " Top "@ + decimal(TOP_N as nat) + " Processes "@,
{
    reveal_strlit(" Top 5 Processes ");
    reveal_strlit(" Top ");
    reveal_strlit(" Processes ");
    assert(decimal(5) =~= seq!['5']);
    assert(" Top 5 Processes "@ =~= " Top "@ + decimal(5) + " Processes "@);
}

/// Makes the cells of a row.
fn make_cells(row: &ProcRow) -> (r: Vec<String>)
    ensures
        strings(r@) == row_cells(*row),
{
    let mut r: Vec<String> = Vec::new();
    r.push(format_u64(row.pid as u64));
    r.push(row.name.as_str().to_owned());
    r.push(row.figure.as_str().to_owned());
    assert(strings(r@) =~= row_cells(*row));
    r
}

/// Makes a process table.
pub fn make_proc_table(figure: &str, rows: &Vec<ProcRow>) -> (r: Table)
    requires
        is_short(figure@),
        rows_printable(rows@),
    ensures
        r@ == proc_table(figure@, rows@),
        r@.paintable(),
{
    let mut header: Vec<String> = Vec::new();
    header.push("PID".to_owned());
    header.push("Name".to_owned());
    header.push(figure.to_owned());
    assert(strings(header@) =~= seq!["PID"@, "Name"@, figure@]);
    let mut widths: Vec<Constraint> = Vec::new();
    widths.push(Constraint::Length(7));
    widths.push(Constraint::Min(10));
    widths.push(Constraint::Length(6));
    assert(widths@ =~= table_widths());
    let mut cells: Vec<Vec<String>> = Vec::new();
    let mut i: usize = 0;
    while i < rows.len()
        invariant
            i <= rows@.len(),
            cells@.len() == i,
            forall|j: int| 0 <= j < i ==> strings((#[trigger] cells@[j])@) == row_cells(rows@[j]),
        decreases rows@.len() - i,
    {
        cells.push(make_cells(&rows[i]));
        i += 1;
    }
    let r = Table {
        header,
        header_color: GREEN,
        header_modifiers: BOLD,
        rows: cells,
        row_color: DIM_GREEN,
        widths,
    };
    proof {
        let view = proc_table(figure@, rows@);
        assert(r@.rows =~= view.rows);
        reveal_strlit("PID");
        reveal_strlit("Name");
        assert forall|i: int, j: int|
            0 <= i < view.rows.len() && 0 <= j < view.rows[i].len() implies is_cell(
            #[trigger] view.rows[i][j],
        ) by {
            decimal_is_short(rows@[i].pid as u64);
            assert(j == 0 || j == 1 || j == 2);
        }
    }
    r
}

/// Paints a process table with its border.
fn render_table(
    title: &str,
    figure: &str,
    sides: Sides,
    rows: &Vec<ProcRow>,
    area: Rect,
    buf: &mut Buffer,
)
    requires
        screen(*old(buf)).valid(),
        area.within(buffer_area(*old(buf))),
        area.clear(),
        is_narrow(title@),
        is_short(title@),
        is_short(figure@),
        rows_printable(rows@),
    ensures
        framed_table_outcome(
            title@,
            figure@,
            sides,
            rows@,
            area,
            screen(*old(buf)),
            screen(*final(buf)),
        ),
        screen(*final(buf)).area == screen(*old(buf)).area,
        screen(*final(buf)).valid(),
{
    let border = Border {
        title: title.to_owned(),
        title_color: GREEN,
        title_modifiers: PLAIN,
        sides,
        color: DARK_GREEN,
    };
    let inner = inner_area(&border, area);
    paint_border(&border, area, buf);
    let table = make_proc_table(figure, rows);
    let ghost framed = screen(*buf);
    paint_table(&table, inner, buf);
    proof {
        let view = table@;
        let columns = choose|columns: Seq<Column>|
            screen(*buf) == framed.patched(
                inner,
                #[trigger] table_cells(view, columns, inner, framed.window(inner)),
            );
        assert(screen(*buf) == framed.table_with(view, columns, inner));
    }
}

/// Paints the two tables.
pub fn render_tables(
    top_cpu: &Vec<ProcRow>,
    top_mem: &Vec<ProcRow>,
    left: Rect,
    right: Rect,
    buf: &mut Buffer,
)
    requires
        screen(*old(buf)).valid(),
        left.within(buffer_area(*old(buf))),
        right.within(buffer_area(*old(buf))),
        left.clear(),
        right.clear(),
        rows_printable(top_cpu@),
        rows_printable(top_mem@),
    ensures
        tables_outcome(top_cpu@, top_mem@, left, right, screen(*old(buf)), screen(*final(buf))),
        screen(*final(buf)).area == screen(*old(buf)).area,
        screen(*final(buf)).valid(),
{
    proof {
        reveal_strlit(" by CPU ");
        reveal_strlit("CPU%");
        reveal_strlit(" by MEM ");
        reveal_strlit("MB");
    }
    render_table(" by CPU ", "CPU%", Sides::Right, top_cpu, left, buf);
    let ghost between = screen(*buf);
    assert(cpu_table_outcome(top_cpu@, left, screen(*old(buf)), between));
    render_table(" by MEM ", "MB", Sides::NoSide, top_mem, right, buf);
}

/// Paints the process panel.
pub fn render_procs(top_cpu: &Vec<ProcRow>, top_mem: &Vec<ProcRow>, area: Rect, buf: &mut Buffer)
    requires
        screen(*old(buf)).valid(),
        area.within(buffer_area(*old(buf))),
        rows_printable(top_cpu@),
        rows_printable(top_mem@),
    ensures
        procs_outcome(top_cpu@, top_mem@, area, screen(*old(buf)), screen(*final(buf))),
        screen(*final(buf)).area == screen(*old(buf)).area,
        screen(*final(buf)).valid(),
{
    let border = make_border(" Top 5 Processes ".to_owned(), GREEN);
    proof {
        reveal_strlit(" Top 5 Processes ");
        assert(is_narrow(" Top 5 Processes "@));
    }
    let inner = inner_area(&border, area);
    paint_border(&border, area, buf);
    let parts = split_columns(50, 50, inner);
    proof {
        parts_are_inside(inner, 50);
    }
    render_tables(top_cpu, top_mem, parts[0], parts[1], buf);
}

/// Whether the columns of a process table of a given width have no choice. From 13 to 24 cells the
/// two columns with a length share what the name leaves, in one way or another; with less, the name
/// has all of it, and with more there is enough for all.
pub open spec fn columns_fixed(width: u16) -> bool {
    width < 13 || width > 24
}

proof fn proc_columns_settle(width: u16)
    requires
        columns_fixed(width),
    ensures
        columns_settled(table_widths(), width) || columns_vanish(table_widths(), width),
{
    let number = Constraint::Length(7);
    let name = Constraint::Min(10);
    let figure = Constraint::Length(6);
    if width > 24 {
        rows_settle(number, name, figure, (width - 2) as nat);
    } else if width >= 2 {
        rows_crowd(number, name, figure, (width - 2) as nat);
    } else {
        rows_crowd(number, name, figure, 0);
    }
}

proof fn framed_table_stays_inside(
    title: Seq<char>,
    figure: Seq<char>,
    sides: Sides,
    rows: Seq<ProcRow>,
    area: Rect,
    before: Screen,
    after: Screen,
)
    requires
        before.valid(),
        area.within(before.area),
        framed_table_outcome(title, figure, sides, rows, area, before, after),
    ensures
        before.same_outside(after, area),
        after.valid(),
{
    let border = table_border(title, sides);
    let framed = before.border(border, area);
    let inner = area.inner(sides);
    let table = proc_table(figure, rows);
    border_stays_inside(before, border, area, area);
    let columns = choose|columns: Seq<Column>|
        after == #[trigger] framed.table_with(table, columns, inner);
    patch_stays_inside(
        framed,
        inner,
        table_cells(table, columns, inner, framed.window(inner)),
        area,
    );
    same_outside_chains(before, framed, after, area);
}

/// The process panel changes no cell outside its area.
pub proof fn procs_panel_stays_inside(
    top_cpu: Seq<ProcRow>,
    top_mem: Seq<ProcRow>,
    area: Rect,
    before: Screen,
    after: Screen,
)
    requires
        before.valid(),
        area.within(before.area),
        procs_outcome(top_cpu, top_mem, area, before, after),
    ensures
        before.same_outside(after, area),
        after.valid(),
{
    let border = panel_border(" Top 5 Processes "@, GREEN);
    let framed = before.border(border, area);
    border_stays_inside(before, border, area, area);
    let inner = area.inner(Sides::All);
    let left = inner.left_part(50);
    let right = inner.right_part(50);
    parts_are_inside(inner, 50);
    let between = choose|between: Screen|
        {
            &&& #[trigger] cpu_table_outcome(top_cpu, left, framed, between)
            &&& mem_table_outcome(top_mem, right, between, after)
        };
    framed_table_stays_inside(
        " by CPU "@,
        "CPU%"@,
        Sides::Right,
        top_cpu,
        left,
        framed,
        between,
    );
    framed_table_stays_inside(" by MEM "@, "MB"@, Sides::NoSide, top_mem, right, between, after);
    same_outside_widens(framed, between, left, area);
    same_outside_widens(between, after, right, area);
    same_outside_chains(before, framed, between, area);
    same_outside_chains(before, between, after, area);
}

/// The left half of the process panel, its border and all that lies outside it depend on the
/// processes by CPU time only: frames that differ in the processes by memory differ in the right
/// half only. The left table has a width at which its columns have no choice.
pub proof fn left_half_has_its_own_list(
    top_cpu: Seq<ProcRow>,
    top_mem: Seq<ProcRow>,
    other_mem: Seq<ProcRow>,
    area: Rect,
    before: Screen,
    after: Screen,
    other: Screen,
)
    requires
        before.valid(),
        area.within(before.area),
        columns_fixed(area.inner(Sides::All).left_part(50).inner(Sides::Right).width),
        procs_outcome(top_cpu, top_mem, area, before, after),
        procs_outcome(top_cpu, other_mem, area, before, other),
    ensures
        after.same_outside(other, area.inner(Sides::All).right_part(50)),
{
    let border = panel_border(" Top 5 Processes "@, GREEN);
    let framed = before.border(border, area);
    border_stays_inside(before, border, area, area);
    let inner = area.inner(Sides::All);
    let left = inner.left_part(50);
    let right = inner.right_part(50);
    parts_are_inside(inner, 50);
    proc_columns_settle(left.inner(Sides::Right).width);
    let between = choose|between: Screen|
        {
            &&& #[trigger] cpu_table_outcome(top_cpu, left, framed, between)
            &&& mem_table_outcome(top_mem, right, between, after)
        };
    let between_other = choose|between: Screen|
        {
            &&& #[trigger] cpu_table_outcome(top_cpu, left, framed, between)
            &&& mem_table_outcome(other_mem, right, between, other)
        };
    assert(between == between_other);
    framed_table_stays_inside(
        " by CPU "@,
        "CPU%"@,
        Sides::Right,
        top_cpu,
        left,
        framed,
        between,
    );
    framed_table_stays_inside(" by MEM "@, "MB"@, Sides::NoSide, top_mem, right, between, after);
    framed_table_stays_inside(" by MEM "@, "MB"@, Sides::NoSide, other_mem, right, between, other);
    same_outside_chains(between, after, after, right);
    same_outside_chains(after, between, other, right);
}

/// The right half of the process panel, its border and all that lies outside it depend on the
/// processes by memory only: frames that differ in the processes by CPU time differ in the left
/// half only. The right table has a width at which its columns have no choice.
pub proof fn right_half_has_its_own_list(
    top_cpu: Seq<ProcRow>,
    other_cpu: Seq<ProcRow>,
    top_mem: Seq<ProcRow>,
    area: Rect,
    before: Screen,
    after: Screen,
    other: Screen,
)
    requires
        before.valid(),
        area.within(before.area),
        columns_fixed(area.inner(Sides::All).right_part(50).inner(Sides::NoSide).width),
        procs_outcome(top_cpu, top_mem, area, before, after),
        procs_outcome(other_cpu, top_mem, area, before, other),
    ensures
        after.same_outside(other, area.inner(Sides::All).left_part(50)),
{
    let border = panel_border(" Top 5 Processes "@, GREEN);
    let framed = before.border(border, area);
    border_stays_inside(before, border, area, area);
    let inner = area.inner(Sides::All);
    let left = inner.left_part(50);
    let right = inner.right_part(50);
    parts_are_inside(inner, 50);
    let window = right.inner(Sides::NoSide);
    proc_columns_settle(window.width);
    let a = choose|between: Screen|
        {
            &&& #[trigger] cpu_table_outcome(top_cpu, left, framed, between)
            &&& mem_table_outcome(top_mem, right, between, after)
        };
    let b = choose|between: Screen|
        {
            &&& #[trigger] cpu_table_outcome(other_cpu, left, framed, between)
            &&& mem_table_outcome(top_mem, right, between, other)
        };
    framed_table_stays_inside(" by CPU "@, "CPU%"@, Sides::Right, top_cpu, left, framed, a);
    framed_table_stays_inside(" by CPU "@, "CPU%"@, Sides::Right, other_cpu, left, framed, b);
    same_outside_chains(framed, a, a, left);
    same_outside_chains(a, framed, b, left);
    let title = table_border(" by MEM "@, Sides::NoSide);
    assert(right.apart(left) && window.apart(left));
    same_window(a, b, left, right);
    same_patch(a, b, left, right, border_cells(title, right, a.window(right)));
    let c = a.border(title, right);
    let d = b.border(title, right);
    let table = proc_table("MB"@, top_mem);
    let columns = if columns_settled(table_widths(), window.width) {
        settled_columns(table_widths(), window.width)
    } else {
        seq![]
    };
    same_window(c, d, left, window);
    same_patch(c, d, left, window, table_cells(table, columns, window, c.window(window)));
}

/// A table has a row for each process, in order, with the process's number, which can be read back,
/// its name and its figure; its header names the columns.
pub proof fn table_shows_each_process(figure: Seq<char>, rows: Seq<ProcRow>)
    ensures
        ({
            let table = proc_table(figure, rows);
            &&& table.rows.len() == rows.len()
            &&& forall|i: int|
                0 <= i < rows.len() ==> {
                    let cells = #[trigger] table.rows[i];
                    &&& cells.len() == 3
                    &&& cells[0] == decimal(rows[i].pid as nat)
                    &&& number(cells[0], u64::MAX as nat) == Some(rows[i].pid as nat) && '0'
                        <= cells[0][0] <= '9'
                    &&& cells[1] == rows[i].name@
                    &&& cells[2] == rows[i].figure@
                }
            &&& table.header == seq![seq!['P', 'I', 'D'], seq!['N', 'a', 'm', 'e'], figure]
            &&& table.header_color == 0x33FF33 && table.header_modifiers == 1
            &&& table.row_color == 0x118811
            &&& table.widths == seq![
                Constraint::Length(7),
                Constraint::Min(10),
                Constraint::Length(6),
            ]
        }),
{
    reveal_strlit("PID");
    reveal_strlit("Name");
    assert("PID"@ =~= seq!['P', 'I', 'D']);
    assert("Name"@ =~= seq!['N', 'a', 'm', 'e']);
    let table = proc_table(figure, rows);
    assert forall|i: int| 0 <= i < rows.len() implies {
        let cells = #[trigger] table.rows[i];
        &&& cells.len() == 3
        &&& cells[0] == decimal(rows[i].pid as nat)
        &&& number(cells[0], u64::MAX as nat) == Some(rows[i].pid as nat) && '0' <= cells[0][0]
            <= '9'
        &&& cells[1] == rows[i].name@
        &&& cells[2] == rows[i].figure@
    } by {
        number_of_decimal(rows[i].pid as nat, u64::MAX as nat);
        decimal_is_digits(rows[i].pid as nat);
    }
}

/// A table stands inside its border, whose title is green, and whose line, where it has one, is
/// dark. The first table is titled by CPU and has a line on its right; the second is titled by
/// memory and has none.
pub proof fn tables_stand_in_their_borders(
    rows: Seq<ProcRow>,
    area: Rect,
    before: Screen,
    after: Screen,
)
    ensures
        cpu_table_outcome(rows, area, before, after) <==> before.border(
            BorderView {
                title: seq![' ', 'b', 'y', ' ', 'C', 'P', 'U', ' '],
                title_color: 0x33FF33,
                title_modifiers: 0,
                sides: Sides::Right,
                color: 0x0A330A,
            },
            area,
        ).table(proc_table(seq!['C', 'P', 'U', '%'], rows), area.inner(Sides::Right), after),
        mem_table_outcome(rows, area, before, after) <==> before.border(
            BorderView {
                title: seq![' ', 'b', 'y', ' ', 'M', 'E', 'M', ' '],
                title_color: 0x33FF33,
                title_modifiers: 0,
                sides: Sides::NoSide,
                color: 0x0A330A,
            },
            area,
        ).table(proc_table(seq!['M', 'B'], rows), area.inner(Sides::NoSide), after),
{
    reveal_strlit(" by CPU ");
    reveal_strlit("CPU%");
    reveal_strlit(" by MEM ");
    reveal_strlit("MB");
    assert(" by CPU "@ =~= seq![' ', 'b', 'y', ' ', 'C', 'P', 'U', ' ']);
    assert("CPU%"@ =~= seq!['C', 'P', 'U', '%']);
    assert(" by MEM "@ =~= seq![' ', 'b', 'y', ' ', 'M', 'E', 'M', ' ']);
    assert("MB"@ =~= seq!['M', 'B']);
}

/// The panel is its border with its title, the processes by CPU time in a table on the left half of
/// what the border leaves, and those by memory in one on the right half.
pub proof fn panel_has_two_tables(
    top_cpu: Seq<ProcRow>,
    top_mem: Seq<ProcRow>,
    area: Rect,
    before: Screen,
    after: Screen,
) -> (between: Screen)
    requires
        procs_outcome(top_cpu, top_mem, area, before, after),
    ensures
        cpu_table_outcome(
            top_cpu,
            area.inner(Sides::All).left_part(50),
            before.border(
                BorderView {
                    title: seq![' ', 'T', 'o', 'p', ' ', '5', ' ', 'P', 'r', 'o', 'c', 'e', 's', 's', 'e', 's', ' '],
                    title_color: 0x33FF33,
                    title_modifiers: 1,
                    sides: Sides::All,
                    color: 0x33FF33,
                },
                area,
            ),
            between,
        ),
        mem_table_outcome(top_mem, area.inner(Sides::All).right_part(50), between, after),
{
    reveal_strlit(" Top 5 Processes ");
    assert(" Top 5 Processes "@ =~= seq![' ', 'T', 'o', 'p', ' ', '5', ' ', 'P', 'r', 'o', 'c', 'e', 's', 's', 'e', 's', ' ']);
    let framed = before.border(panel_border(" Top 5 Processes "@, GREEN), area);
    let inner = area.inner(Sides::All);
    choose|between: Screen|
        {
            &&& #[trigger] cpu_table_outcome(top_cpu, inner.left_part(50), framed, between)
            &&& mem_table_outcome(top_mem, inner.right_part(50), between, after)
        }
}

/// Rows can be painted exactly where each name fits a cell and each figure is one; their number
/// does not count.
pub proof fn rows_are_checked_one_by_one(rows: Seq<ProcRow>)
    ensures
        !rows_printable(rows) <==> exists|i: int|
            0 <= i < rows.len() && (!is_cell((#[trigger] rows[i]).name@) || !is_figure(
                rows[i].figure@,
            )),
{
}

} // verus!
