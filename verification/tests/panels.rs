use ratatui::buffer::{Buffer, Cell};
use ratatui::style::{Color, Modifier};
use tri_mon::cpu_panel::{make_core_line, make_cpu_title, render_cpu, render_cpu_columns, CpuPanel};
use tri_mon::dashboard::{draw, place_panels, render_footer, ui, Dashboard, Places};
use tri_mon::gpu::GpuData;
use tri_mon::gpu_panel::{make_busy_line, render_gpu, render_gpu_rows, GpuPanel};
use tri_mon::mem::MemData;
use tri_mon::mem_panel::{render_mem, render_mem_rows, MemPanel};
use tri_mon::npu::NpuData;
use tri_mon::npu_panel::{make_npu_title, render_npu};
use tri_mon::paint::{check_figure, make_usage_label, render_labelled_gauge, render_text};
use tri_mon::procs_panel::{render_procs, render_tables, ProcRow};
use tri_mon::screen::{Rect, BOLD, DARK_GREEN, DIM_GREEN, GREEN, ORANGE, PLAIN};

const FULL: &str = "\u{2588}";
const REST: &str = "\u{2591}";

fn rect(x: u16, y: u16, width: u16, height: u16) -> Rect {
    Rect { x, y, width, height }
}

fn buffer(width: u16, height: u16) -> Buffer {
    Buffer::empty(ratatui::layout::Rect::new(0, 0, width, height))
}

fn row(buf: &Buffer, y: u16) -> String {
    (0..buf.area.width).map(|x| buf[(x, y)].symbol()).collect()
}

fn cell(buf: &Buffer, x: u16, y: u16) -> &Cell {
    &buf[(x, y)]
}

fn rgb(color: u32) -> Color {
    Color::from_u32(color)
}

fn padded(s: &str, width: usize) -> String {
    format!("{}{}", s, " ".repeat(width - s.chars().count()))
}

fn cpu_panel() -> CpuPanel {
    CpuPanel {
        load: "12".to_string(),
        temp: "45".to_string(),
        per_core_freq_mhz: (0..24).map(|i| i * 250).collect(),
    }
}

fn gpu_panel() -> GpuPanel {
    GpuPanel {
        data: GpuData {
            vram_used_mb: 512,
            vram_total_mb: 2048,
            gtt_used_mb: 100,
            gtt_total_mb: 400,
            busy_pct: 50,
            clock_mhz: 728,
            temp_milli_c: 51_000,
        },
        temp: "51".to_string(),
        vram_pct: 25,
        gtt_pct: 250,
    }
}

fn mem_panel() -> MemPanel {
    MemPanel {
        data: MemData {
            total_mb: 32000,
            used_mb: 16000,
            swap_total_mb: 8192,
            swap_used_mb: 0,
            zram_orig_kb: 4096,
            zram_compr_kb: 1024,
        },
        ram: "50".to_string(),
        ram_pct: 50,
        swap: "0".to_string(),
        swap_pct: 0,
        zram_ratio: "4.0".to_string(),
    }
}

fn proc_row(pid: u32, name: &str, figure: &str) -> ProcRow {
    ProcRow { pid, name: name.to_string(), figure: figure.to_string() }
}

fn dashboard() -> Dashboard {
    Dashboard {
        cpu: cpu_panel(),
        gpu: gpu_panel(),
        npu: NpuData { accel_present: true, module_loaded: true },
        mem: mem_panel(),
        top_cpu: vec![proc_row(1234, "firefox", "45.2"), proc_row(1, "init", "0.1")],
        top_mem: vec![proc_row(77, "java", "2048")],
    }
}

#[test]
fn figures_are_printable() {
    for s in ["", "0", "-12", "NaN", "inf", "1.5"] {
        assert!(check_figure(s));
    }
    assert!(!check_figure("1\n"));
    assert!(!check_figure("\u{e9}"));
    assert!(check_figure(&"9".repeat(400)));
    assert!(!check_figure(&"9".repeat(401)));
}

#[test]
fn core_lines_line_up() {
    let line = make_core_line(7, 2750);
    let texts: Vec<&str> = line.iter().map(|s| s.text.as_str()).collect();
    let six = FULL.repeat(6);
    let rest = REST.repeat(6);
    assert_eq!(texts, vec![" 7 ", six.as_str(), rest.as_str(), " 2750"]);
    let colors: Vec<u32> = line.iter().map(|s| s.color).collect();
    assert_eq!(colors, vec![DIM_GREEN, GREEN, DARK_GREEN, GREEN]);
    for (core, mhz) in [(0, 0), (9, 999), (23, 5499), (23, 9999)] {
        let width: usize = make_core_line(core, mhz).iter().map(|s| s.text.chars().count()).sum();
        assert_eq!(width, 20);
    }
}

#[test]
fn core_bars_fill_up_to_full_speed() {
    let full = |mhz: u32| make_core_line(0, mhz)[1].text.chars().count();
    assert_eq!(full(0), 0);
    assert_eq!(full(458), 0);
    assert_eq!(full(459), 1);
    assert_eq!(full(5499), 11);
    assert_eq!(full(5500), 12);
    assert_eq!(full(u32::MAX), 12);
    assert_eq!(make_core_line(0, u32::MAX)[2].text, "");
}

#[test]
fn cpu_panel_shows_each_core_once() {
    let mut buf = buffer(44, 14);
    assert_eq!(make_cpu_title("12", "45"), " CPU  12%  45\u{b0}C ");
    render_cpu(&cpu_panel(), rect(0, 0, 44, 14), &mut buf);
    assert!(row(&buf, 0).starts_with("\u{250c} CPU  12%  45\u{b0}C \u{2500}"));
    assert!(row(&buf, 13).starts_with("\u{2514}\u{2500}"));
    for i in 0..12usize {
        let line = |core: usize| {
            let mhz = core * 250;
            let len = mhz * 12 / 5500;
            format!("{:>2} {}{} {:>4} ", core, FULL.repeat(len), REST.repeat(12 - len), mhz)
        };
        let expected = format!("\u{2502}{}{}\u{2502}", line(i), line(i + 12));
        assert_eq!(row(&buf, i as u16 + 1), expected);
    }
    assert_eq!(cell(&buf, 2, 0).fg, rgb(GREEN));
    assert_eq!(cell(&buf, 2, 0).modifier, Modifier::BOLD);
    assert_eq!(cell(&buf, 0, 0).fg, rgb(GREEN));
    assert_eq!(cell(&buf, 0, 0).modifier, Modifier::empty());
}

#[test]
fn columns_show_no_more_cores_than_they_hold() {
    let mut buf = buffer(40, 13);
    render_cpu_columns(&(0..30).collect(), rect(0, 0, 20, 13), rect(20, 0, 20, 13), &mut buf);
    assert!(row(&buf, 11).starts_with("11 "));
    assert_eq!(row(&buf, 12), padded("", 40));
    let mut buf = buffer(40, 3);
    render_cpu_columns(&vec![5500, 0], rect(0, 0, 20, 3), rect(20, 0, 20, 3), &mut buf);
    assert_eq!(row(&buf, 0), padded(&format!(" 0 {} 5500", FULL.repeat(12)), 40));
    assert_eq!(row(&buf, 1), padded(&format!(" 1 {}    0", REST.repeat(12)), 40));
    assert_eq!(row(&buf, 2), padded("", 40));
}

#[test]
fn gpu_panel_shows_gauges_and_load() {
    let mut buf = buffer(40, 7);
    render_gpu(&gpu_panel(), rect(0, 0, 40, 7), &mut buf);
    assert!(row(&buf, 0).starts_with("\u{250c} GPU  728MHz  50%  51\u{b0}C \u{2500}"));
    assert_eq!(row(&buf, 1), format!("\u{2502}{}\u{2502}", padded("VRAM 512/2048MB", 38)));
    assert!(row(&buf, 2).contains("25%"));
    assert_eq!(cell(&buf, 1, 2).symbol(), FULL);
    assert_eq!(cell(&buf, 1, 2).fg, rgb(GREEN));
    assert_eq!(cell(&buf, 38, 2).bg, rgb(DARK_GREEN));
    assert_eq!(row(&buf, 3), format!("\u{2502}{}\u{2502}", padded("GTT  100/400MB", 38)));
    assert!(row(&buf, 4).contains("100%"));
    assert_eq!(
        row(&buf, 5),
        format!("\u{2502}{}{}\u{2502}", FULL.repeat(19), REST.repeat(19))
    );
}

#[test]
fn gauges_show_at_most_everything() {
    let mut buf = buffer(28, 2);
    render_labelled_gauge("Swap".to_string(), 25, rect(0, 0, 28, 2), &mut buf);
    assert_eq!(row(&buf, 0), padded("Swap", 28));
    assert_eq!(row(&buf, 1), padded(&format!("{}     25%", FULL.repeat(7)), 28));
    let mut over = buffer(28, 2);
    render_labelled_gauge("Swap".to_string(), u16::MAX, rect(0, 0, 28, 2), &mut over);
    let mut full = buffer(28, 2);
    render_labelled_gauge("Swap".to_string(), 100, rect(0, 0, 28, 2), &mut full);
    assert_eq!(over, full);
}

#[test]
fn gauge_needs_a_second_line() {
    let mut buf = buffer(10, 2);
    render_labelled_gauge("RAM".to_string(), 100, rect(0, 0, 10, 1), &mut buf);
    assert_eq!(row(&buf, 0), padded("RAM", 10));
    assert_eq!(row(&buf, 1), padded("", 10));
    render_text("x".to_string(), ORANGE, rect(4, 1, 3, 1), &mut buf);
    assert_eq!(row(&buf, 1), padded("    x", 10));
    assert_eq!(cell(&buf, 4, 1).fg, rgb(ORANGE));
    assert_eq!(make_usage_label("RAM  ", 1, 2), "RAM  1/2MB");
}

#[test]
fn load_bar_fills_its_row() {
    let cases = [(0, 38, 0), (50, 38, 19), (99, 38, 37), (100, 38, 38), (900, 38, 38), (50, 0, 0)];
    for (busy, width, len) in cases {
        let line = make_busy_line(busy, width);
        assert_eq!(line[0][0].text.chars().count(), len);
        assert_eq!(line[0][1].text.chars().count(), width as usize - len);
    }
}

#[test]
fn gpu_rows_have_their_places() {
    for height in 7..40u16 {
        let mut buf = buffer(40, height);
        render_gpu(&gpu_panel(), rect(0, 0, 40, height), &mut buf);
        assert!(row(&buf, 1).starts_with("\u{2502}VRAM "));
        assert!(row(&buf, 2).contains("25%"));
        assert!(row(&buf, 3).starts_with("\u{2502}GTT  "));
        assert!(row(&buf, 4).contains("100%"));
        assert!(row(&buf, 5).starts_with(&format!("\u{2502}{}", FULL)));
    }
}

#[test]
fn gpu_rows_may_stand_anywhere() {
    let mut buf = buffer(30, 5);
    let rows = vec![rect(2, 3, 20, 1), rect(2, 0, 20, 2), rect(2, 4, 10, 1)];
    render_gpu_rows(&gpu_panel(), &rows, &mut buf);
    assert_eq!(row(&buf, 3), padded("  VRAM 512/2048MB", 30));
    assert_eq!(row(&buf, 0), padded("  GTT  100/400MB", 30));
    assert_eq!(row(&buf, 4), padded(&format!("  {}{}", FULL.repeat(5), REST.repeat(5)), 30));
}

#[test]
fn memory_panel_shows_gauges_and_ratio() {
    let mut buf = buffer(42, 7);
    render_mem(&mem_panel(), rect(0, 0, 42, 7), &mut buf);
    assert!(row(&buf, 0).starts_with("\u{250c} Memory \u{2500}"));
    assert_eq!(row(&buf, 1), format!("\u{2502}{}\u{2502}", padded("RAM  16000/32000MB (50%)", 40)));
    assert!(row(&buf, 2).contains("50%"));
    assert_eq!(row(&buf, 3), format!("\u{2502}{}\u{2502}", padded("Swap 0/8192MB (0%)", 40)));
    assert!(row(&buf, 4).contains("0%"));
    assert_eq!(
        row(&buf, 5),
        format!("\u{2502}{}\u{2502}", padded("ZRAM ratio: 4.0x (4096KB -> 1024KB)", 40))
    );
    assert_eq!(cell(&buf, 1, 5).fg, rgb(DIM_GREEN));
    assert_eq!(cell(&buf, 13, 5).fg, rgb(GREEN));
    assert_eq!(cell(&buf, 18, 5).fg, rgb(DIM_GREEN));
}

#[test]
fn memory_rows_may_stand_anywhere() {
    let mut buf = buffer(40, 3);
    let rows = vec![rect(0, 2, 40, 1), rect(0, 1, 40, 1), rect(0, 0, 40, 1)];
    render_mem_rows(&mem_panel(), &rows, &mut buf);
    assert_eq!(row(&buf, 0), padded("ZRAM ratio: 4.0x (4096KB -> 1024KB)", 40));
    assert_eq!(row(&buf, 2), padded("RAM  16000/32000MB (50%)", 40));
}

fn npu_screen(accel_present: bool, module_loaded: bool) -> Buffer {
    let mut buf = buffer(40, 5);
    render_npu(NpuData { accel_present, module_loaded }, rect(0, 0, 40, 5), &mut buf);
    buf
}

#[test]
fn npu_panel_tells_three_states() {
    let online = npu_screen(true, true);
    assert!(row(&online, 0).starts_with("\u{250c} NPU  ONLINE \u{2500}"));
    assert!(row(&online, 1).starts_with("\u{2502}amdxdna module: loaded "));
    assert!(row(&online, 2).starts_with("\u{2502}/dev/accel/accel0: present "));
    assert!(row(&online, 3).starts_with("\u{2502}Arch: XDNA 2 (aie2p) "));
    let half = npu_screen(false, true);
    assert!(row(&half, 0).starts_with("\u{250c} NPU  MODULE OK / NO DEVICE \u{2500}"));
    assert!(row(&half, 2).starts_with("\u{2502}/dev/accel/accel0: absent "));
    let off = npu_screen(true, false);
    assert!(row(&off, 0).starts_with("\u{250c} NPU  OFFLINE \u{2500}"));
    assert!(row(&off, 1).starts_with("\u{2502}amdxdna module: not loaded "));
    let neither = NpuData { accel_present: false, module_loaded: false };
    assert_eq!(make_npu_title(neither), " NPU  OFFLINE ");
}

#[test]
fn npu_alarm_shows_what_is_missing() {
    let online = npu_screen(true, true);
    assert_eq!(cell(&online, 2, 0).fg, rgb(GREEN));
    assert_eq!(cell(&online, 17, 1).fg, rgb(GREEN));
    assert_eq!(cell(&online, 20, 2).fg, rgb(GREEN));
    let half = npu_screen(false, true);
    assert_eq!(cell(&half, 2, 0).fg, rgb(ORANGE));
    assert_eq!(cell(&half, 0, 0).fg, rgb(GREEN));
    assert_eq!(cell(&half, 17, 1).fg, rgb(GREEN));
    assert_eq!(cell(&half, 20, 2).fg, rgb(ORANGE));
    let off = npu_screen(true, false);
    assert_eq!(cell(&off, 17, 1).fg, rgb(ORANGE));
    assert_eq!(cell(&off, 20, 2).fg, rgb(GREEN));
    assert_eq!(cell(&off, 7, 3).fg, rgb(GREEN));
}

#[test]
fn processes_stand_in_two_tables() {
    let mut buf = buffer(82, 8);
    let d = dashboard();
    render_procs(&d.top_cpu, &d.top_mem, rect(0, 0, 82, 8), &mut buf);
    assert!(row(&buf, 0).starts_with("\u{250c} Top 5 Processes \u{2500}"));
    let line = |left: &str, right: &str| {
        format!("\u{2502}{}\u{2502}{}\u{2502}", padded(left, 39), padded(right, 40))
    };
    assert_eq!(row(&buf, 1), line(" by CPU ", " by MEM "));
    assert_eq!(
        row(&buf, 2),
        line("PID     Name                     CPU%", "PID     Name                      MB")
    );
    assert_eq!(
        row(&buf, 3),
        line("1234    firefox                  45.2", "77      java                      2048")
    );
    assert_eq!(row(&buf, 4), line("1       init                     0.1", ""));
    assert_eq!(cell(&buf, 1, 2).fg, rgb(GREEN));
    assert_eq!(cell(&buf, 1, 2).modifier, Modifier::BOLD);
    assert_eq!(cell(&buf, 1, 3).fg, rgb(DIM_GREEN));
    assert_eq!(cell(&buf, 40, 3).fg, rgb(DARK_GREEN));
    assert_eq!(cell(&buf, 2, 1).fg, rgb(GREEN));
    assert_eq!(cell(&buf, 2, 1).modifier, Modifier::empty());
}

#[test]
fn tables_may_stand_anywhere() {
    let mut buf = buffer(40, 6);
    let d = dashboard();
    render_tables(&d.top_cpu, &d.top_mem, rect(0, 3, 40, 3), rect(0, 0, 40, 3), &mut buf);
    assert!(row(&buf, 0).starts_with(" by MEM "));
    assert!(row(&buf, 2).starts_with("77      java"));
    assert!(row(&buf, 3).starts_with(" by CPU "));
    assert!(row(&buf, 5).starts_with("1234    firefox"));
}

#[test]
fn footer_tells_keys_and_refresh() {
    let mut buf = buffer(44, 1);
    render_footer(rect(0, 0, 44, 1), &mut buf);
    assert_eq!(row(&buf, 0), padded(" tri-mon | q/Esc to quit | 200ms refresh ", 44));
    assert_eq!(cell(&buf, 1, 0).modifier, Modifier::BOLD);
    assert_eq!(cell(&buf, 9, 0).fg, rgb(DIM_GREEN));
    assert_eq!((PLAIN, BOLD), (0, Modifier::BOLD.bits()));
}

#[test]
fn panels_stand_where_they_should() {
    let p = place_panels(rect(0, 0, 80, 30));
    assert_eq!(
        p,
        Places {
            cpu: rect(0, 0, 36, 20),
            gpu: rect(36, 0, 44, 7),
            mem: rect(36, 7, 44, 7),
            npu: rect(36, 14, 44, 6),
            procs: rect(0, 20, 80, 9),
            footer: rect(0, 29, 80, 1),
        }
    );
}

#[test]
fn cpu_columns_are_halves() {
    for width in 30..140u16 {
        let mut buf = buffer(width, 14);
        render_cpu(&cpu_panel(), rect(0, 0, width, 14), &mut buf);
        let middle = 1 + ((width - 2) * 50 + 50) / 100;
        assert_eq!(cell(&buf, 2, 1).symbol(), "0");
        assert_eq!(cell(&buf, middle, 1).symbol(), "1");
        assert_eq!(cell(&buf, middle + 1, 1).symbol(), "2");
    }
}

#[test]
fn cpu_panel_has_its_share_of_the_width() {
    for width in 0..400u32 {
        let p = place_panels(rect(7, 0, width as u16, 30));
        let cpu = ((width * 45 + 50) / 100) as u16;
        assert_eq!((p.cpu.x, p.cpu.width), (7, cpu));
        assert_eq!((p.gpu.x, p.gpu.width), (7 + cpu, width as u16 - cpu));
        assert_eq!((p.npu.x, p.npu.width), (p.gpu.x, p.gpu.width));
    }
    let p = place_panels(rect(0, 0, 65_000, 30));
    assert_eq!((p.cpu.width, p.gpu.x, p.gpu.width), (29_250, 29_250, 35_750));
}

#[test]
fn panels_fill_a_roomy_screen() {
    for height in 29..300u16 {
        let p = place_panels(rect(2, 5, 80, height));
        let top = height - 10;
        assert_eq!(p.cpu, rect(2, 5, 36, top));
        assert_eq!(p.gpu, rect(38, 5, 44, 7));
        assert_eq!(p.mem, rect(38, 12, 44, 7));
        assert_eq!(p.npu, rect(38, 19, 44, top - 14));
        assert_eq!(p.procs, rect(2, 5 + top, 80, 9));
        assert_eq!(p.footer, rect(2, 5 + top + 9, 80, 1));
    }
}

#[test]
fn panels_stay_inside_any_area() {
    for width in [0, 1, 2, 5, 17, 80, 200] {
        for height in [0, 1, 2, 5, 9, 17, 25, 60] {
            let p = place_panels(rect(3, 4, width, height));
            for r in [p.cpu, p.gpu, p.mem, p.npu, p.procs, p.footer] {
                assert!(3 <= r.x && r.x + r.width <= 3 + width);
                assert!(4 <= r.y && r.y + r.height <= 4 + height);
            }
            assert_eq!((p.procs.width, p.footer.width), (width, width));
            assert_eq!((p.gpu.width, p.gpu.x), (p.npu.width, p.npu.x));
        }
    }
}

#[test]
fn frame_shows_all_panels_on_black() {
    let mut buf = buffer(80, 30);
    assert!(draw(&dashboard(), &mut buf));
    assert!(row(&buf, 0).starts_with("\u{250c} CPU  12%  45\u{b0}C "));
    assert!(row(&buf, 0).contains("\u{250c} GPU  728MHz  50%  51\u{b0}C "));
    assert!(row(&buf, 7).contains("\u{250c} Memory "));
    assert!(row(&buf, 14).contains("\u{250c} NPU  ONLINE "));
    assert!(row(&buf, 20).starts_with("\u{250c} Top 5 Processes "));
    assert!(row(&buf, 29).starts_with(" tri-mon | q/Esc to quit "));
    assert_eq!(cell(&buf, 79, 29).bg, Color::Black);
    assert_eq!(cell(&buf, 0, 0).bg, Color::Black);
    assert_eq!(cell(&buf, 20, 18).bg, Color::Black);
}

#[test]
fn frame_may_be_part_of_a_buffer() {
    let mut buf = buffer(100, 40);
    ui(&dashboard(), rect(5, 3, 80, 30), &mut buf);
    assert_eq!(row(&buf, 2), padded("", 100));
    assert_eq!(cell(&buf, 5, 3).symbol(), "\u{250c}");
    assert_eq!(cell(&buf, 4, 3).bg, Color::Reset);
    assert_eq!(cell(&buf, 5, 3).bg, Color::Black);
}

#[test]
fn frame_fits_any_screen() {
    for width in [0, 1, 2, 3, 7, 20, 45, 120] {
        for height in [0, 1, 2, 3, 8, 9, 16, 26] {
            let mut buf = buffer(width, height);
            assert!(draw(&dashboard(), &mut buf));
            assert_eq!((buf.area.width, buf.area.height), (width, height));
        }
    }
}

#[test]
fn what_cannot_be_painted_leaves_the_screen() {
    let before = buffer(80, 30);
    let mut buf = before.clone();
    let mut d = dashboard();
    d.cpu.load = "\u{4e2d}".to_string();
    assert!(!draw(&d, &mut buf));
    let mut d = dashboard();
    d.mem.zram_ratio = "1\t2".to_string();
    assert!(!draw(&d, &mut buf));
    let mut d = dashboard();
    d.top_mem[0].name = "\u{e9}".repeat(0x4000);
    assert!(!draw(&d, &mut buf));
    assert_eq!(buf, before);
    let mut short = before.clone();
    short.content.pop();
    assert!(!draw(&dashboard(), &mut short));
    assert_eq!(short.content, before.content[1..].to_vec());
}

#[test]
fn names_may_hold_any_characters() {
    let mut d = dashboard();
    d.top_cpu[0].name = "\u{4e2d}\u{6587}\u{301}\n\u{7}\u{200d}x".to_string();
    d.top_mem[0].name = "\u{1f468}\u{200d}\u{1f469}\u{200d}\u{1f467}".to_string();
    for width in [0, 1, 2, 3, 9, 11, 12, 24, 25, 80] {
        let mut buf = buffer(width, 12);
        assert!(draw(&d, &mut buf));
    }
}

fn five(prefix: &str) -> Vec<ProcRow> {
    (1..6).map(|i| proc_row(i, &format!("{}-{}", prefix, i), "1.0")).collect()
}

fn text(buf: &Buffer) -> String {
    (0..buf.area.height).map(|y| row(buf, y) + "\n").collect()
}

#[test]
fn frame_shows_all_five_processes() {
    for (width, height) in [(100, 40), (80, 26), (80, 29), (200, 60)] {
        let mut d = dashboard();
        d.top_cpu = five("busy");
        d.top_mem = five("large");
        let mut buf = buffer(width, height);
        assert!(draw(&d, &mut buf));
        let shown = text(&buf);
        assert!(shown.contains(" Top 5 Processes "));
        for i in 1..6 {
            assert!(shown.contains(&format!("busy-{} ", i)), "{} {}", height, i);
            assert!(shown.contains(&format!("large-{} ", i)), "{} {}", height, i);
        }
    }
}

fn noisy(width: u16, height: u16) -> Buffer {
    let mut buf = buffer(width, height);
    for (i, cell) in buf.content.iter_mut().enumerate() {
        cell.set_char((b'a' + (i % 26) as u8) as char).set_fg(Color::Indexed((i % 200) as u8));
    }
    buf
}

fn same_outside(a: &Buffer, b: &Buffer, part: Rect) -> bool {
    (0..a.area.height).all(|y| {
        (0..a.area.width).all(|x| {
            let inside = part.x <= x
                && x < part.x + part.width
                && part.y <= y
                && y < part.y + part.height;
            inside || a[(x, y)] == b[(x, y)]
        })
    })
}

#[test]
fn panels_change_nothing_outside_their_areas() {
    let before = noisy(90, 40);
    let d = dashboard();
    for (width, height) in [(0, 0), (1, 1), (3, 2), (20, 5), (50, 9), (80, 30)] {
        let area = rect(4, 3, width, height);
        let mut buf = before.clone();
        render_cpu(&d.cpu, area, &mut buf);
        assert!(same_outside(&buf, &before, area));
        render_gpu(&d.gpu, area, &mut buf);
        assert!(same_outside(&buf, &before, area));
        render_mem(&d.mem, area, &mut buf);
        assert!(same_outside(&buf, &before, area));
        render_npu(d.npu, area, &mut buf);
        assert!(same_outside(&buf, &before, area));
        render_procs(&d.top_cpu, &d.top_mem, area, &mut buf);
        assert!(same_outside(&buf, &before, area));
        render_footer(area, &mut buf);
        assert!(same_outside(&buf, &before, area));
        ui(&d, area, &mut buf);
        assert!(same_outside(&buf, &before, area));
    }
}

#[test]
fn halves_have_their_own_lists() {
    let before = noisy(90, 12);
    let area = rect(2, 1, 82, 9);
    let left = rect(3, 2, 40, 7);
    let right = rect(43, 2, 40, 7);
    let paint = |cpu: &str, mem: &str| {
        let mut buf = before.clone();
        render_procs(&five(cpu), &five(mem), area, &mut buf);
        buf
    };
    let first = paint("a", "b");
    let other_mem = paint("a", "c");
    let other_cpu = paint("d", "b");
    assert_ne!(first, other_mem);
    assert_ne!(first, other_cpu);
    assert!(same_outside(&first, &other_mem, right));
    assert!(same_outside(&first, &other_cpu, left));
}

#[test]
fn table_columns_have_their_places() {
    for width in 25..120u16 {
        let mut buf = buffer(2 * width + 1, 3);
        let d = dashboard();
        let left = rect(0, 0, width + 1, 3);
        render_tables(&d.top_cpu, &d.top_mem, left, rect(width + 1, 0, width, 3), &mut buf);
        for start in [0, width + 1] {
            assert_eq!(cell(&buf, start, 1).symbol(), "P");
            assert_eq!(cell(&buf, start + 8, 1).symbol(), "N");
        }
        assert_eq!(cell(&buf, width - 6, 1).symbol(), "C");
        assert_eq!(cell(&buf, width + 1 + width - 6, 1).symbol(), "M");
    }
}

#[test]
fn frame_may_reach_the_last_position() {
    let mut d = dashboard();
    d.top_mem[0].name = "a-name-of-many-characters-that-is-cut\u{200b}".to_string();
    d.top_mem[0].figure = "123456".to_string();
    let area = ratatui::layout::Rect { x: 65455, y: 65505, width: 80, height: 30 };
    let mut buf = Buffer::empty(area);
    assert!(draw(&d, &mut buf));
    assert_eq!(buf[(65455, 65505)].symbol(), "\u{250c}");
    assert_eq!(buf[(65456, 65534)].symbol(), "t");
    for height in [1, 2, 12] {
        let mut wide = buffer(65535, height);
        assert!(draw(&d, &mut wide));
    }
    let mut high = buffer(3, 65535);
    assert!(draw(&d, &mut high));
    let mut beyond = Buffer::empty(ratatui::layout::Rect { x: 65456, y: 0, width: 80, height: 30 });
    assert!(!draw(&d, &mut beyond));
}

#[test]
fn long_names_are_cut_off() {
    let mut d = dashboard();
    d.top_cpu[0].name = "x".repeat(0x4000);
    let mut buf = buffer(80, 30);
    assert!(draw(&d, &mut buf));
    assert!(text(&buf).contains(" xxxxxxxxxx"));
    d.top_cpu[0].name = "y".repeat(70_000);
    assert!(draw(&d, &mut buf));
    d.top_cpu[0].name = "\u{1100}".repeat(0x3fff);
    assert!(draw(&d, &mut buf));
}

#[test]
fn panels_stand_apart_on_any_screen() {
    for height in 0..60u16 {
        for width in [1, 30, 80] {
            let p = place_panels(rect(3, 4, width, height));
            assert_eq!((p.cpu.y, p.gpu.y), (4, 4));
            assert_eq!(p.gpu.y + p.gpu.height, p.mem.y);
            assert_eq!(p.mem.y + p.mem.height, p.npu.y);
            assert!(p.npu.y + p.npu.height <= p.procs.y);
            assert_eq!(p.cpu.y + p.cpu.height, p.procs.y);
            assert_eq!(p.procs.y + p.procs.height, p.footer.y);
        }
    }
}

#[test]
fn panels_crowd_a_short_screen() {
    for height in 0..17u16 {
        let p = place_panels(rect(0, 2, 80, height));
        assert_eq!((p.cpu.height, p.procs.height, p.footer.height), (height, 0, 0));
        if height <= 5 {
            assert_eq!((p.gpu.height, p.mem.height, p.npu.height), (0, 0, height));
        }
    }
}

#[test]
fn name_has_all_of_a_narrow_table() {
    let rows = vec![proc_row(1234, "abcdefghijklmnop", "45.2")];
    for width in 0..13u16 {
        let mut buf = buffer(40, 3);
        let right = rect(20, 0, width, 3);
        render_tables(&rows, &rows, rect(0, 0, width + 1, 3), right, &mut buf);
        for start in [0, 20] {
            let shown: String = (start..start + width).map(|x| buf[(x, 2)].symbol()).collect();
            let name: String = "abcdefghij".chars().take(width.saturating_sub(2).into()).collect();
            let expected = if width < 2 { "".to_string() } else { format!(" {} ", name) };
            assert_eq!(shown, padded(&expected, width.into()), "{}", width);
        }
    }
}

#[test]
fn halves_of_a_narrow_panel_have_their_own_lists() {
    for width in 0..28u16 {
        let before = noisy(40, 9);
        let area = rect(1, 0, width, 9);
        let paint = |cpu: &str, mem: &str| {
            let mut buf = before.clone();
            render_procs(&five(cpu), &five(mem), area, &mut buf);
            buf
        };
        let inner = width.saturating_sub(2);
        let half = (inner * 50 + 50) / 100;
        let start = 1 + width.min(1);
        let first = paint("a", "b");
        assert!(same_outside(&first, &paint("a", "c"), rect(start + half, 1, inner - half, 7)));
        assert!(same_outside(&first, &paint("d", "b"), rect(start, 1, half, 7)));
    }
}
