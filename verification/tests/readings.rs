use tri_mon::cpu::{
    collect_cpu, read_all_cpu_times, read_core_mhz, AppState, CpuTimes, Usage, NUM_CPUS,
};
use tri_mon::fault::Fault;
use tri_mon::gpu::{collect_gpu, read_clock, GpuFiles};
use tri_mon::mem::collect_mem;
use tri_mon::npu::collect_npu;
use tri_mon::procs::{
    collect_top_procs, is_truncatable, read_proc_stat, truncate_name, ProcInfo, NAME_BYTES, TOP_N,
};
use tri_mon::share::Share;

fn file(s: &str) -> Option<String> {
    Some(s.to_string())
}

const STAT: &str = "cpu  100 5 50 800 45 0 3 0 0 0\n\
cpu0 60 5 20 400 15 0 0 0 0 0\n\
cpu1 40 0 30 400 30 0 3 0 0 0\n\
intr 1 2 3 4 5 6 7 8 9\n\
cpufreq a b c\n";

#[test]
fn cpu_times_are_read_line_by_line() {
    let times = read_all_cpu_times(STAT).unwrap();
    assert_eq!(
        times,
        vec![
            CpuTimes { idle: 845, total: 1003 },
            CpuTimes { idle: 415, total: 500 },
            CpuTimes { idle: 430, total: 503 },
        ]
    );
    assert!(read_all_cpu_times("").unwrap().is_empty());
}

#[test]
fn words_that_are_no_counters_are_skipped() {
    let times = read_all_cpu_times("cpu 1 x 2 y 3 4 5\n").unwrap();
    assert_eq!(times, vec![CpuTimes { idle: 4 + 5, total: 15 }]);
    let times = read_all_cpu_times("cpuX a b c d e f g\n").unwrap();
    assert_eq!(times, vec![CpuTimes { idle: 0, total: 0 }]);
}

#[test]
fn cpu_times_that_do_not_fit_are_a_fault() {
    let stat = format!("cpu {} 1 0 0 0 0 0\n", u64::MAX);
    assert_eq!(read_all_cpu_times(&stat), Err(Fault::Overflow));
    let stat = format!("cpu {} 0 0 0 0 0 0\n", u64::MAX);
    assert_eq!(
        read_all_cpu_times(&stat),
        Ok(vec![CpuTimes { idle: 0, total: u64::MAX }])
    );
}

#[test]
fn idle_ticks_are_part_of_all_ticks() {
    for t in read_all_cpu_times(STAT).unwrap() {
        assert!(t.idle <= t.total);
    }
}

#[test]
fn load_comes_from_two_readings() {
    let mut state = AppState::new(vec![CpuTimes { idle: 845, total: 1003 }]);
    assert_eq!((state.prev_total_idle, state.prev_total_sum), (845, 1003));
    let freqs = vec![file("3500000\n"), None, file("5500999\n")];
    let cur = vec![CpuTimes { idle: 900, total: 1103 }];
    let cpu = collect_cpu(&mut state, cur, &freqs, &file("45500\n"));
    assert_eq!(cpu.usage, Some(Usage { idle: 55, total: 100 }));
    assert_eq!(cpu.per_core_freq_mhz, vec![3500, 0, 5500]);
    assert_eq!(cpu.temp_milli_c, 45_500);
    assert_eq!((state.prev_total_idle, state.prev_total_sum), (900, 1103));
    assert_eq!(state.prev_cpu_times, vec![CpuTimes { idle: 900, total: 1103 }]);
}

#[test]
fn same_reading_shows_no_load() {
    let times = read_all_cpu_times(STAT).unwrap();
    let mut state = AppState::new(times.clone());
    let cpu = collect_cpu(&mut state, times, &vec![], &None);
    assert_eq!(cpu.usage, None);
    assert_eq!(cpu.temp_milli_c, 0);
}

#[test]
fn reading_without_times_keeps_totals() {
    let mut state = AppState::new(vec![CpuTimes { idle: 8, total: 10 }]);
    assert_eq!(state.update(vec![]), None);
    assert_eq!((state.prev_total_idle, state.prev_total_sum), (8, 10));
    assert!(state.prev_cpu_times.is_empty());
    let fresh = AppState::new(vec![]);
    assert_eq!((fresh.prev_total_idle, fresh.prev_total_sum), (0, 0));
}

#[test]
fn counters_that_run_backwards_count_as_zero() {
    let mut state = AppState::new(vec![CpuTimes { idle: 50, total: 60 }]);
    let usage = state.update(vec![CpuTimes { idle: 40, total: 70 }]);
    assert_eq!(usage, Some(Usage { idle: 0, total: 10 }));
    assert_eq!(state.update(vec![CpuTimes { idle: 40, total: 60 }]), None);
}

#[test]
fn frequencies_keep_their_low_bits() {
    assert_eq!(read_core_mhz(&file("4294967296999")), 0);
    assert_eq!(read_core_mhz(&file("4294967297000")), 1);
    assert_eq!(read_core_mhz(&file("1999")), 1);
    assert_eq!(NUM_CPUS, 24);
}

#[test]
fn clock_is_the_active_one() {
    let table = file("0: 200Mhz \n1: 728Mhz *\n2: 2900Mhz \n");
    assert_eq!(read_clock(&table), 728);
    assert_eq!(read_clock(&file("1: 1000MHz *")), 1000);
    assert_eq!(read_clock(&file("0: 200Mhz\n1: 728Mhz\n")), 0);
    assert_eq!(read_clock(&file("S: *\n1: 728Mhz *\n")), 728);
    assert_eq!(read_clock(&file("0: xMhz *\n1: 728Mhz *\n")), 0);
    assert_eq!(read_clock(&file("0: 4294967296Mhz *\n")), 0);
    assert_eq!(read_clock(&None), 0);
}

#[test]
fn gpu_memory_is_told_in_mebibytes() {
    let gpu = collect_gpu(&GpuFiles {
        vram_used: file("536870912\n"),
        vram_total: file("2147483648\n"),
        gtt_used: file("1048575\n"),
        gtt_total: file("none\n"),
        busy_percent: file("37\n"),
        sclk: file("1: 728Mhz *\n"),
        temp: file("51000\n"),
    });
    assert_eq!((gpu.vram_used_mb, gpu.vram_total_mb), (512, 2048));
    assert_eq!((gpu.gtt_used_mb, gpu.gtt_total_mb), (0, 0));
    assert_eq!((gpu.busy_pct, gpu.clock_mhz, gpu.temp_milli_c), (37, 728, 51_000));
    assert_eq!(gpu.vram_share(), Some(Share { part: 512, whole: 2048 }));
    assert_eq!(gpu.gtt_share(), None);
}

#[test]
fn missing_gpu_reads_as_zero() {
    let gpu = collect_gpu(&GpuFiles {
        vram_used: None,
        vram_total: None,
        gtt_used: None,
        gtt_total: None,
        busy_percent: None,
        sclk: None,
        temp: None,
    });
    assert_eq!((gpu.vram_used_mb, gpu.vram_total_mb), (0, 0));
    assert_eq!((gpu.busy_pct, gpu.clock_mhz, gpu.temp_milli_c), (0, 0, 0));
}

#[test]
fn npu_driver_is_found_by_its_line() {
    let npu = collect_npu(true, "amdgpu 1 0\namdxdna 147456 0 - Live\n");
    assert!(npu.accel_present && npu.module_loaded);
    assert!(!collect_npu(false, "amdxdna_helper 1 0\n").module_loaded);
    assert!(!collect_npu(false, "accel 1 1 amdxdna \n").module_loaded);
    assert!(!collect_npu(false, "").module_loaded);
}

const MEMINFO: &str = "MemTotal:       32768000 kB\n\
MemFree:         8192000 kB\n\
MemAvailable:   20000000 kB\n\
Buffers:          102400 kB\n\
Cached:          4096000 kB\n\
SwapCached:            7 kB\n\
SwapTotal:       8388608 kB\n\
SwapFree:        6291456 kB\n\
SReclaimable:     204800 kB\n";

#[test]
fn memory_in_use_leaves_out_caches() {
    let mem = collect_mem(MEMINFO, &file("4194304 1048576 1200000 0\n")).unwrap();
    assert_eq!((mem.total_mb, mem.used_mb), (32000, 19700));
    assert_eq!((mem.swap_total_mb, mem.swap_used_mb), (8192, 2048));
    assert_eq!((mem.zram_orig_kb, mem.zram_compr_kb), (4096, 1024));
    assert_eq!(mem.ram_share(), Some(Share { part: 19700, whole: 32000 }));
    assert_eq!(mem.swap_share(), Some(Share { part: 2048, whole: 8192 }));
    assert_eq!(mem.zram_ratio(), Some(Share { part: 4096, whole: 1024 }));
    assert!(mem.used_mb <= mem.total_mb && mem.swap_used_mb <= mem.swap_total_mb);
}

#[test]
fn missing_memory_reads_as_zero() {
    let mem = collect_mem("", &None).unwrap();
    assert_eq!((mem.total_mb, mem.used_mb, mem.swap_total_mb, mem.swap_used_mb), (0, 0, 0, 0));
    assert_eq!((mem.zram_orig_kb, mem.zram_compr_kb), (0, 0));
    assert_eq!((mem.ram_share(), mem.swap_share(), mem.zram_ratio()), (None, None, None));
    let meminfo = "MemTotal: 1024 kB\nMemFree: 4096 kB\nSwapTotal:\nSwapTotal: 2048 kB\n";
    let mem = collect_mem(meminfo, &file("x")).unwrap();
    assert_eq!((mem.total_mb, mem.used_mb), (1, 0));
    assert_eq!((mem.swap_total_mb, mem.swap_used_mb), (2, 2));
}

#[test]
fn memory_that_does_not_fit_is_a_fault() {
    let meminfo = format!("MemFree: {} kB\nCached: 1 kB\n", u64::MAX);
    assert_eq!(collect_mem(&meminfo, &None), Err(Fault::Overflow));
}

fn stat_line(comm: &str, utime: u64, stime: u64, rss: u64) -> String {
    format!(
        "77 ({}) S 1 77 77 0 -1 4194560 1 0 0 0 {} {} 0 0 20 0 1 0 100 5000 {} 184467 1 1\n",
        comm, utime, stime, rss
    )
}

#[test]
fn process_names_may_hold_parentheses() {
    let p = read_proc_stat(77, &stat_line("a (b) c", 30, 12, 500)).unwrap().unwrap();
    assert_eq!((p.pid, p.name.as_str(), p.ticks, p.rss_pages), (77, "a (b) c", 42, 500));
}

#[test]
fn lines_that_say_nothing_are_skipped() {
    assert!(read_proc_stat(1, "").unwrap().is_none());
    assert!(read_proc_stat(1, "1 init S").unwrap().is_none());
    assert!(read_proc_stat(1, "1 (init").unwrap().is_none());
    assert!(read_proc_stat(1, "1 (init)").unwrap().is_none());
    assert!(read_proc_stat(1, "1 (init) S 1 2 3").unwrap().is_none());
}

#[test]
fn lines_that_cannot_be_cut_are_a_fault() {
    assert!(matches!(read_proc_stat(1, "1 )init( S"), Err(Fault::Slice)));
    assert!(matches!(read_proc_stat(1, "1 (init)\u{e9} S"), Err(Fault::Slice)));
    let line = stat_line("x", u64::MAX, 1, 0);
    assert!(matches!(read_proc_stat(1, &line), Err(Fault::Overflow)));
}

#[test]
fn long_names_end_in_a_tilde() {
    assert_eq!(truncate_name("short", 18), "short");
    assert_eq!(truncate_name("exactly-18-bytes--", 18), "exactly-18-bytes--");
    assert_eq!(truncate_name("nineteen-bytes-long", 18), "nineteen-bytes-lo~");
    assert_eq!(truncate_name("abc", 1), "~");
    assert_eq!(truncate_name("nineteen-bytes-long", 18).len(), 18);
    assert_eq!(NAME_BYTES, 18);
}

#[test]
fn names_are_cut_between_characters_only() {
    assert!(is_truncatable("\u{e9}\u{e9}\u{e9}", 3));
    assert_eq!(truncate_name("\u{e9}\u{e9}\u{e9}", 3), "\u{e9}~");
    assert!(!is_truncatable("\u{e9}\u{e9}\u{e9}", 4));
    assert!(!is_truncatable("abc", 0));
    assert!(is_truncatable("", 0));
}

fn pids(rows: &Vec<ProcInfo>) -> Vec<u32> {
    rows.iter().map(|p| p.pid).collect()
}

#[test]
fn top_processes_by_ticks_and_by_pages() {
    let list = vec![
        (1, stat_line("one", 5, 5, 100)),
        (2, stat_line("two", 40, 0, 300)),
        (3, stat_line("three", 10, 0, 300)),
        (4, stat_line("four", 0, 0, 900)),
        (5, "5 (gone".to_string()),
        (6, stat_line("six", 20, 0, 50)),
        (7, stat_line("seven", 20, 0, 60)),
    ];
    let (cpu, mem) = collect_top_procs(&list).unwrap();
    assert_eq!(pids(&cpu), vec![2, 6, 7, 1, 3]);
    assert_eq!(pids(&mem), vec![4, 2, 3, 1, 7]);
    assert_eq!(cpu[0].cpu_share, Some(Share { part: 40, whole: 100 }));
    assert_eq!(cpu[3].name, "one");
    assert_eq!(mem[0].rss_pages, 900);
    assert_eq!(mem[0].cpu_share, Some(Share { part: 0, whole: 100 }));
    assert_eq!(TOP_N, 5);
}

#[test]
fn few_processes_are_all_shown() {
    let (cpu, mem) = collect_top_procs(&vec![(9, stat_line("idle", 0, 0, 3))]).unwrap();
    assert_eq!((pids(&cpu), pids(&mem)), (vec![9], vec![9]));
    assert_eq!(cpu[0].cpu_share, None);
    let (cpu, mem) = collect_top_procs(&vec![]).unwrap();
    assert!(cpu.is_empty() && mem.is_empty());
}

#[test]
fn processes_that_cannot_be_shown_are_a_fault() {
    let list = vec![(1, stat_line("a", u64::MAX, 0, 0)), (2, stat_line("b", 1, 0, 0))];
    assert!(matches!(collect_top_procs(&list), Err(Fault::Overflow)));
    let name = "0123456789abcdef\u{e9}xx";
    assert!(matches!(collect_top_procs(&vec![(1, stat_line(name, 1, 0, 0))]), Err(Fault::Slice)));
    let list = vec![(1, "1 )( S".to_string()), (2, stat_line("b", u64::MAX, 1, 0))];
    assert!(matches!(collect_top_procs(&list), Err(Fault::Slice)));
}

#[test]
fn silent_process_changes_nothing() {
    let with = vec![
        (1, stat_line("one", 5, 5, 100)),
        (2, "2 (gone".to_string()),
        (3, stat_line("three", 10, 0, 100)),
    ];
    let without = vec![with[0].clone(), with[2].clone()];
    let (cpu, mem) = collect_top_procs(&with).unwrap();
    let (other_cpu, other_mem) = collect_top_procs(&without).unwrap();
    assert_eq!(pids(&cpu), pids(&other_cpu));
    assert_eq!(pids(&mem), pids(&other_mem));
    assert_eq!(cpu[0].cpu_share, other_cpu[0].cpu_share);
}

#[test]
fn same_process_has_same_row() {
    let list = vec![
        (1, stat_line("one", 5, 5, 100)),
        (2, stat_line("two", 10, 0, 100)),
        (3, stat_line("three", 10, 0, 300)),
    ];
    let (cpu, mem) = collect_top_procs(&list).unwrap();
    assert_eq!(pids(&cpu), vec![1, 2, 3]);
    assert_eq!(pids(&mem), vec![3, 1, 2]);
    for a in &cpu {
        for b in &mem {
            if a.pid == b.pid {
                assert_eq!((&a.name, a.cpu_share), (&b.name, b.cpu_share));
                assert_eq!(a.rss_pages, b.rss_pages);
            }
        }
    }
}

#[test]
fn only_known_lines_count() {
    let stat = file("4194304 1048576\n");
    let plain = collect_mem(MEMINFO, &stat);
    let noisy = format!("HugePages_Total: 5\n{}\nVmallocTotal: 1 kB\n MemTotal: 1 kB\n", MEMINFO);
    assert_eq!(collect_mem(&noisy, &stat), plain);
    let fewer: Vec<&str> = MEMINFO
        .lines()
        .filter(|l| !l.starts_with("MemAvailable:") && !l.starts_with("SwapCached:"))
        .collect();
    assert_eq!(collect_mem(&fewer.join("\n"), &stat), plain);
}

#[test]
fn order_of_lines_does_not_count() {
    let plain = collect_mem(MEMINFO, &None);
    let mut list: Vec<&str> = MEMINFO.lines().collect();
    list.reverse();
    assert_eq!(collect_mem(&list.join("\n"), &None), plain);
    list.sort();
    assert_eq!(collect_mem(&list.join("\r\n"), &None), plain);
    let twice = "MemTotal: 1024 kB\nMemTotal: 4096 kB\n";
    assert_eq!(collect_mem(twice, &None).unwrap().total_mb, 1);
}
