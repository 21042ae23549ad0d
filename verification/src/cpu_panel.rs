//! The CPU panel: the overall load, and a frequency bar for each core.

use ratatui::buffer::Buffer;
use vstd::prelude::*;
use vstd::string::*;

use crate::cells::{same_outside_chains, Screen};
use crate::cpu::NUM_CPUS;
use crate::number::{
    align_right, decimal, decimal_is_digits, field_is_filled_from_the_left, format_u64, number,
    number_of_decimal, right_aligned,
};
use crate::paint::{
    bar, bar_fills_width, border_stays_inside, concat_is_narrow, decimal_is_narrow,
    figure_is_narrow, is_figure, make_bar, make_border, panel_border, paragraph_stays_inside,
    styled,
};
use crate::screen::{
    buffer_area, inner_area, is_narrow, line_view, lines_narrow, lines_view, paint_border,
    paint_paragraph, parts_are_inside, screen, span, split_columns, BorderView, Rect, Sides, Span,
    SpanView, DIM_GREEN, GREEN, PLAIN,
};
use crate::text::{blank, trimmed, trimming_keeps_the_middle, white_space};

verus! {

/// How many cores a column of the CPU panel shows.
pub const COLUMN_CORES: usize = 12;

/// The frequency at which a core's bar is full, in MHz.
pub const FULL_MHZ: usize = 5500;

/// How many cells a core's bar has.
pub const BAR_CELLS: usize = 12;

/// What the CPU panel shows, with its figures written out.
pub struct CpuPanel {
    /// The overall load in percent.
    pub load: String,
    /// The temperature in degrees Celsius.
    pub temp: String,
    pub per_core_freq_mhz: Vec<u32>,
}

impl CpuPanel {
    /// Whether the figures are figures.
    pub open spec fn printable(self) -> bool {
        is_figure(self.load@) && is_figure(self.temp@)
    }
}

/// The title of the CPU panel.
pub open spec fn cpu_title(load: Seq<char>, temp: Seq<char>) -> Seq<char> {
    " CPU  "@ + load + "%  "@ + temp + "\u{b0}C "@
}

/// How many cells of a core's bar are filled.
pub open spec fn core_bar_len(mhz: nat) -> nat {
    (if mhz < FULL_MHZ {
        mhz
    } else {
        FULL_MHZ as nat
    }) * BAR_CELLS as nat / FULL_MHZ as nat
}

/// The line of a core: its number, its bar and its frequency.
pub open spec fn core_line(core: nat, mhz: u32) -> Seq<SpanView> {
    let b = bar(core_bar_len(mhz as nat), BAR_CELLS as nat);
    seq![
        span(right_aligned(decimal(core), 2) + " "@, DIM_GREEN, PLAIN),
        b.0,
        b.1,
        span(" "@ + right_aligned(decimal(mhz as nat), 4), GREEN, PLAIN),
    ]
}

/// How many cores stand in a column.
pub open spec fn column_len(cores: nat, column: nat) -> nat {
    let start = column * COLUMN_CORES;
    if cores <= start {
        0
    } else if cores < start + COLUMN_CORES {
        (cores - start) as nat
    } else {
        COLUMN_CORES as nat
    }
}

/// The lines of a column: its cores, in order.
pub open spec fn column_lines(freqs: Seq<u32>, column: nat) -> Seq<Seq<SpanView>> {
    Seq::new(
        column_len(freqs.len(), column),
        |i: int|
            core_line((column * COLUMN_CORES + i) as nat, freqs[column * COLUMN_CORES + i]),
    )
}

/// The screen after the two columns of the CPU panel were painted.
pub open spec fn cpu_columns(freqs: Seq<u32>, left: Rect, right: Rect, before: Screen) -> Screen {
    before.paragraph(column_lines(freqs, 0), left).paragraph(column_lines(freqs, 1), right)
}

/// The screen after the CPU panel was painted: its border, and two columns of equal width inside
/// it.
pub open spec fn cpu_painted(cpu: CpuPanel, area: Rect, before: Screen) -> Screen {
    let inner = area.inner(Sides::All);
    cpu_columns(
        cpu.per_core_freq_mhz@,
        inner.left_part(50),
        inner.right_part(50),
        before.border(panel_border(cpu_title(cpu.load@, cpu.temp@), GREEN), area),
    )
}

proof fn space_is_narrow()
    ensures
        is_narrow(" "@),
{
    reveal_strlit(" ");
}

proof fn aligned_is_narrow(n: nat, width: nat)
    ensures
        is_narrow(right_aligned(decimal(n), width)),
{
    decimal_is_narrow(n);
    let s = decimal(n);
    if s.len() < width {
        let pad = Seq::new((width - s.len()) as nat, |i: int| ' ');
        assert(is_narrow(pad));
        concat_is_narrow(pad, s);
    }
}

proof fn bar_len_bound(mhz: nat)
    ensures
        core_bar_len(mhz) <= BAR_CELLS,
{
}

proof fn core_line_is_narrow(core: nat, mhz: u32)
    ensures
        forall|j: int|
            0 <= j < core_line(core, mhz).len() ==> is_narrow(
                (#[trigger] core_line(core, mhz)[j]).text,
            ),
{
    let line = core_line(core, mhz);
    space_is_narrow();
    aligned_is_narrow(core, 2);
    aligned_is_narrow(mhz as nat, 4);
    concat_is_narrow(right_aligned(decimal(core), 2), " "@);
    concat_is_narrow(" "@, right_aligned(decimal(mhz as nat), 4));
    bar_len_bound(mhz as nat);
    bar_fills_width(core_bar_len(mhz as nat), BAR_CELLS as nat);
    assert(line.len() == 4);
    assert forall|j: int| 0 <= j < line.len() implies is_narrow((#[trigger] line[j]).text) by {
        assert(j == 0 || j == 1 || j == 2 || j == 3);
    }
}

proof fn column_lines_are_narrow(freqs: Seq<u32>, column: nat)
    ensures
        lines_narrow(column_lines(freqs, column)),
{
    let lines = column_lines(freqs, column);
    assert forall|i: int, j: int| 0 <= i < lines.len() && 0 <= j < lines[i].len() implies is_narrow(
        (#[trigger] lines[i][j]).text,
    ) by {
        core_line_is_narrow(
            (column * COLUMN_CORES + i) as nat,
            freqs[column * COLUMN_CORES + i],
        );
    }
}

/// The two columns together show the first cores, as many as they hold: each once, in order. They
/// hold all cores of the machine.
pub proof fn columns_show_each_core(freqs: Seq<u32>)
    ensures
        ({
            let shown = column_lines(freqs, 0) + column_lines(freqs, 1);
            &&& freqs.len() <= 2 * COLUMN_CORES ==> shown.len() == freqs.len()
            &&& freqs.len() > 2 * COLUMN_CORES ==> shown.len() == 2 * COLUMN_CORES
            &&& freqs.len() == NUM_CPUS ==> shown.len() == NUM_CPUS
            &&& forall|i: int|
                0 <= i < shown.len() ==> #[trigger] shown[i] == core_line(i as nat, freqs[i])
        }),
{
}

/// A faster core never has a shorter bar; a stopped one has none, and the bar is full from 5.5 GHz
/// on and not before.
pub proof fn bar_grows_with_frequency(slow: nat, fast: nat)
    requires
        slow <= fast,
    ensures
        core_bar_len(slow) <= core_bar_len(fast),
        core_bar_len(0) == 0,
        fast >= FULL_MHZ <==> core_bar_len(fast) == BAR_CELLS,
{
}

/// The lines of all cores are equally long, as far as numbers and frequencies fit their columns.
pub proof fn core_lines_line_up(core: nat, mhz: u32)
    requires
        core < 100,
        mhz < 10_000,
    ensures
        core_line(core, mhz).len() == 4,
        core_line(core, mhz)[0].text.len() == 3,
        core_line(core, mhz)[1].text.len() + core_line(core, mhz)[2].text.len() == BAR_CELLS,
        core_line(core, mhz)[3].text.len() == 5,
{
    reveal_strlit(" ");
    bar_len_bound(mhz as nat);
    bar_fills_width(core_bar_len(mhz as nat), BAR_CELLS as nat);
    reveal_with_fuel(decimal, 4);
}

/// Makes the line of a core.
pub fn make_core_line(core: usize, mhz: u32) -> (r: Vec<Span>)
    ensures
        line_view(r@) == core_line(core as nat, mhz),
{
    proof {
        bar_len_bound(mhz as nat);
    }
    let capped: usize = if (mhz as usize) < FULL_MHZ {
        mhz as usize
    } else {
        FULL_MHZ
    };
    let len: usize = capped * BAR_CELLS / FULL_MHZ;
    let mut number = align_right(format_u64(core as u64).as_str(), 2);
    number.append(" ");
    let mut freq = " ".to_owned();
    freq.append(align_right(format_u64(mhz as u64).as_str(), 4).as_str());
    let (full, rest) = make_bar(len, BAR_CELLS);
    let mut r: Vec<Span> = Vec::new();
    r.push(styled(number, DIM_GREEN, PLAIN));
    r.push(full);
    r.push(rest);
    r.push(styled(freq, GREEN, PLAIN));
    assert(line_view(r@) =~= core_line(core as nat, mhz));
    r
}

/// Makes the lines of a column.
pub fn make_column_lines(freqs: &Vec<u32>, column: usize) -> (r: Vec<Vec<Span>>)
    requires
        column < 2,
    ensures
        lines_view(r@) == column_lines(freqs@, column as nat),
{
    let start: usize = column * COLUMN_CORES;
    let end: usize = if freqs.len() < start + COLUMN_CORES {
        freqs.len()
    } else {
        start + COLUMN_CORES
    };
    let mut r: Vec<Vec<Span>> = Vec::new();
    let mut i: usize = start;
    while i < end
        invariant
            column < 2,
            start == column * COLUMN_CORES,
            end <= freqs@.len(),
            start <= i,
            i <= end || end < start,
            end < start ==> i == start,
            r@.len() == i - start,
            forall|j: int|
                0 <= j < r@.len() ==> line_view((#[trigger] r@[j])@) == core_line(
                    (start + j) as nat,
                    freqs@[start + j],
                ),
        decreases end - i,
    {
        r.push(make_core_line(i, freqs[i]));
        i += 1;
    }
    assert(lines_view(r@) =~= column_lines(freqs@, column as nat));
    r
}

/// Paints the two columns of the CPU panel.
pub fn render_cpu_columns(freqs: &Vec<u32>, left: Rect, right: Rect, buf: &mut Buffer)
    requires
        screen(*old(buf)).valid(),
        left.within(buffer_area(*old(buf))),
        right.within(buffer_area(*old(buf))),
        left.width < u16::MAX,
        right.width < u16::MAX,
    ensures
        screen(*final(buf)) == cpu_columns(freqs@, left, right, screen(*old(buf))),
        screen(*final(buf)).valid(),
{
    proof {
        column_lines_are_narrow(freqs@, 0);
        column_lines_are_narrow(freqs@, 1);
    }
    let first = make_column_lines(freqs, 0);
    paint_paragraph(&first, left, buf);
    let second = make_column_lines(freqs, 1);
    paint_paragraph(&second, right, buf);
}

/// Makes the title of the CPU panel.
pub fn make_cpu_title(load: &str, temp: &str) -> (r: String)
    ensures
        r@ == cpu_title(load@, temp@),
{
    let mut r = " CPU  ".to_owned();
    r.append(load);
    r.append("%  ");
    r.append(temp);
    r.append("\u{b0}C ");
    r
}

/// Paints the CPU panel.
pub fn render_cpu(cpu: &CpuPanel, area: Rect, buf: &mut Buffer)
    requires
        screen(*old(buf)).valid(),
        area.within(buffer_area(*old(buf))),
        cpu.printable(),
    ensures
        screen(*final(buf)) == cpu_painted(*cpu, area, screen(*old(buf))),
        screen(*final(buf)).valid(),
{
    let border = make_border(make_cpu_title(cpu.load.as_str(), cpu.temp.as_str()), GREEN);
    proof {
        broadcast use concat_is_narrow, figure_is_narrow;

        reveal_strlit(" CPU  ");
        reveal_strlit("%  ");
        reveal_strlit("\u{b0}C ");
        assert(is_narrow(" CPU  "@) && is_narrow("%  "@) && is_narrow("\u{b0}C "@));
        assert(is_narrow(cpu.load@) && is_narrow(cpu.temp@));
    }
    let inner = inner_area(&border, area);
    paint_border(&border, area, buf);
    let columns = split_columns(50, 50, inner);
    proof {
        parts_are_inside(inner, 50);
    }
    render_cpu_columns(&cpu.per_core_freq_mhz, columns[0], columns[1], buf);
}

/// The CPU panel changes no cell outside its area.
pub proof fn cpu_panel_stays_inside(cpu: CpuPanel, area: Rect, before: Screen)
    requires
        before.valid(),
        area.within(before.area),
    ensures
        before.same_outside(cpu_painted(cpu, area, before), area),
        cpu_painted(cpu, area, before).valid(),
{
    let inner = area.inner(Sides::All);
    let left = inner.left_part(50);
    let right = inner.right_part(50);
    parts_are_inside(inner, 50);
    let framed = before.border(panel_border(cpu_title(cpu.load@, cpu.temp@), GREEN), area);
    let half = framed.paragraph(column_lines(cpu.per_core_freq_mhz@, 0), left);
    let after = half.paragraph(column_lines(cpu.per_core_freq_mhz@, 1), right);
    border_stays_inside(before, panel_border(cpu_title(cpu.load@, cpu.temp@), GREEN), area, area);
    paragraph_stays_inside(framed, column_lines(cpu.per_core_freq_mhz@, 0), left, area);
    paragraph_stays_inside(half, column_lines(cpu.per_core_freq_mhz@, 1), right, area);
    same_outside_chains(before, framed, half, area);
    same_outside_chains(before, half, after, area);
}

/// The title shows the load, a percent sign, and the temperature in degrees Celsius.
pub proof fn title_shows_load_and_temperature(load: Seq<char>, temp: Seq<char>)
    ensures
        ({
            let title = cpu_title(load, temp);
            let n = load.len() as int;
            let m = temp.len() as int;
            &&& title.len() == n + m + 12
            &&& title.subrange(0, 6) == seq![' ', 'C', 'P', 'U', ' ', ' ']
            &&& title.subrange(6, 6 + n) == load
            &&& title.subrange(6 + n, 9 + n) == seq!['%', ' ', ' ']
            &&& title.subrange(9 + n, 9 + n + m) == temp
            &&& title.subrange(9 + n + m, 12 + n + m) == seq!['\u{b0}', 'C', ' ']
        }),
{
    reveal_strlit(" CPU  ");
    reveal_strlit("%  ");
    reveal_strlit("\u{b0}C ");
    let title = cpu_title(load, temp);
    let n = load.len() as int;
    let m = temp.len() as int;
    assert(title.subrange(0, 6) =~= seq![' ', 'C', 'P', 'U', ' ', ' ']);
    assert(title.subrange(6, 6 + n) =~= load);
    assert(title.subrange(6 + n, 9 + n) =~= seq!['%', ' ', ' ']);
    assert(title.subrange(9 + n, 9 + n + m) =~= temp);
    assert(title.subrange(9 + n + m, 12 + n + m) =~= seq!['\u{b0}', 'C', ' ']);
}

/// A core's bar has as many of its twelve cells filled as its frequency has of 5500 MHz, rounded
/// down, and all of them beyond.
pub proof fn bar_is_in_proportion(mhz: nat)
    ensures
        mhz <= 5500 ==> core_bar_len(mhz) * 5500 <= mhz * 12 < (core_bar_len(mhz) + 1) * 5500,
        mhz >= 5500 ==> core_bar_len(mhz) == 12,
{
}

/// A core's line shows its number, its bar and its frequency; number and frequency stand at the
/// right end of their columns and can be read back.
pub proof fn core_line_can_be_read(core: u64, mhz: u32)
    ensures
        ({
            let line = core_line(core as nat, mhz);
            let label = line[0].text;
            let freq = line[3].text;
            &&& line.len() == 4
            &&& label.len() >= 3 && label.last() == ' '
            &&& trimmed(label) == decimal(core as nat)
            &&& number(trimmed(label), u64::MAX as nat) == Some(core as nat)
            &&& core < 10 ==> label.len() == 3 && label[0] == ' '
            &&& line[1] == bar(core_bar_len(mhz as nat), 12).0
            &&& line[2] == bar(core_bar_len(mhz as nat), 12).1
            &&& freq.len() >= 5 && freq[0] == ' '
            &&& trimmed(freq) == decimal(mhz as nat)
            &&& number(trimmed(freq), u64::MAX as nat) == Some(mhz as nat)
            &&& '0' <= freq.last() <= '9'
            &&& line[0].color == 0x118811 && line[3].color == 0x33FF33
            &&& line[0].modifiers == 0 && line[3].modifiers == 0
        }),
{
    reveal_strlit(" ");
    let line = core_line(core as nat, mhz);
    aligned_can_be_read(core as nat, 2, seq![], seq![' ']);
    aligned_can_be_read(mhz as nat, 4, seq![' '], seq![]);
    let label = right_aligned(decimal(core as nat), 2);
    let freq = right_aligned(decimal(mhz as nat), 4);
    assert(line[0].text =~= Seq::<char>::empty() + label + seq![' ']);
    assert(line[3].text =~= seq![' '] + freq + Seq::<char>::empty());
    number_of_decimal(core as nat, u64::MAX as nat);
    number_of_decimal(mhz as nat, u64::MAX as nat);
    field_is_filled_from_the_left(decimal(core as nat), 2);
    field_is_filled_from_the_left(decimal(mhz as nat), 4);
    decimal_is_digits(mhz as nat);
    let d = decimal(mhz as nat);
    assert(freq.last() == d.last());
    if core < 10 {
        assert(decimal(core as nat).len() == 1);
        assert(line[0].text[0] == label[0]);
    }
}

proof fn aligned_can_be_read(n: nat, width: nat, before: Seq<char>, after: Seq<char>)
    requires
        blank(before),
        blank(after),
    ensures
        trimmed(before + right_aligned(decimal(n), width) + after) == decimal(n),
{
    let s = decimal(n);
    decimal_is_digits(n);
    field_is_filled_from_the_left(s, width);
    let field = right_aligned(s, width);
    let spaces = field.take(field.len() - s.len());
    assert(spaces + s =~= field) by {
        assert(field.subrange(field.len() - s.len(), field.len() as int) =~= s);
    }
    let front = before + spaces;
    assert(blank(front)) by {
        assert forall|i: int| 0 <= i < front.len() implies white_space(#[trigger] front[i]) by {
            if i < before.len() {
                assert(front[i] == before[i]);
            } else {
                assert(front[i] == field[i - before.len()]);
            }
        }
    }
    assert('0' <= s[0] <= '9' && '0' <= s[s.len() - 1] <= '9');
    trimming_keeps_the_middle(front, s, after);
    assert(front + s + after =~= before + field + after);
}

/// The panel is its border with its title, the first twelve cores on the left half of what the
/// border leaves, and the others on the right half.
pub proof fn panel_has_two_columns(cpu: CpuPanel, area: Rect, before: Screen)
    ensures
        ({
            let inner = area.inner(Sides::All);
            let framed = before.border(
                BorderView {
                    title: cpu_title(cpu.load@, cpu.temp@),
                    title_color: 0x33FF33,
                    title_modifiers: 1,
                    sides: Sides::All,
                    color: 0x33FF33,
                },
                area,
            );
            let left = framed.paragraph(
                column_lines(cpu.per_core_freq_mhz@, 0),
                inner.left_part(50),
            );
            cpu_painted(cpu, area, before) == left.paragraph(
                column_lines(cpu.per_core_freq_mhz@, 1),
                inner.right_part(50),
            )
        }),
{
}

} // verus!
