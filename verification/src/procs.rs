//! The processes that use the most CPU time and the most memory.

use vstd::prelude::*;
use vstd::slice::slice_subrange;
use vstd::string::*;
use vstd::utf8::*;

use crate::fault::Fault;
use crate::number::{checked_sum, naturals, number, number_or_zero, parse_or_zero, sum};
use crate::order::{arranged, rank, ranking, ranking_descends};
use crate::share::{share, Share};
use crate::text::{
    contents, find_from, position_from, position_from_bounds, split_words, to_chars, words,
};

verus! {

/// How many processes a table shows.
pub const TOP_N: usize = 5;

/// How many bytes of a process's name a table shows.
pub const NAME_BYTES: usize = 18;

/// What `/proc` says of a process.
pub struct ProcStat {
    pub pid: u32,
    pub name: String,
    /// Ticks in user and kernel mode.
    pub ticks: u64,
    /// Pages in memory.
    pub rss_pages: u64,
}

/// `ProcStat` with its name as a sequence of characters.
pub struct ProcStatView {
    pub pid: u32,
    pub name: Seq<char>,
    pub ticks: u64,
    pub rss_pages: u64,
}

impl View for ProcStat {
    type V = ProcStatView;

    open spec fn view(&self) -> ProcStatView {
        ProcStatView {
            pid: self.pid,
            name: self.name@,
            ticks: self.ticks,
            rss_pages: self.rss_pages,
        }
    }
}

/// The last position before `end` that holds `c`; -1 where there is none.
pub open spec fn last_position(s: Seq<char>, c: char, end: int) -> int
    decreases end,
{
    if end <= 0 {
        -1
    } else if s[end - 1] == c {
        end - 1
    } else {
        last_position(s, c, end - 1)
    }
}

/// What the line of `/proc/<pid>/stat` says. The name stands in the outermost parentheses; the
/// fields follow the closing one after a separator of one byte. A line without parentheses, with
/// nothing after the closing one or with too few fields says nothing. The reading is given up
/// where the parentheses are the wrong way round, where the separator is longer than a byte, or
/// where the ticks do not fit 64 bits.
pub open spec fn proc_stat(pid: u32, stat: Seq<char>) -> Result<Option<ProcStatView>, Fault> {
    let open = position_from(stat, '(', 0);
    let close = last_position(stat, ')', stat.len() as int);
    if open >= stat.len() || close < 0 || close + 1 >= stat.len() {
        Ok(None)
    } else if close < open || stat[close + 1] as u32 >= 0x80 {
        Err(Fault::Slice)
    } else {
        let fields = words(stat.skip(close + 2));
        if fields.len() <= 21 {
            Ok(None)
        } else {
            let ticks = number_or_zero(fields[11]) + number_or_zero(fields[12]);
            if ticks > u64::MAX {
                Err(Fault::Overflow)
            } else {
                Ok(
                    Some(
                        ProcStatView {
                            pid,
                            name: stat.subrange(open + 1, close),
                            ticks: ticks as u64,
                            rss_pages: number_or_zero(fields[21]) as u64,
                        },
                    ),
                )
            }
        }
    }
}

/// Finds the last `c`.
fn find_last(s: &[char], c: char) -> (r: Option<usize>)
    ensures
        match r {
            Some(i) => i < s@.len() && last_position(s@, c, s@.len() as int) == i,
            None => last_position(s@, c, s@.len() as int) == -1,
        },
{
    let mut i: usize = s.len();
    while i > 0
        invariant
            i <= s@.len(),
            last_position(s@, c, i as int) == last_position(s@, c, s@.len() as int),
        decreases i,
    {
        if s[i - 1] == c {
            return Some(i - 1);
        }
        i -= 1;
    }
    None
}

/// Reads the line of `/proc/<pid>/stat`.
pub fn read_proc_stat(pid: u32, stat: &str) -> (r: Result<Option<ProcStat>, Fault>)
    ensures
        match r {
            Ok(Some(p)) => proc_stat(pid, stat@) == Ok::<Option<ProcStatView>, Fault>(Some(p@)),
            Ok(None) => proc_stat(pid, stat@) == Ok::<Option<ProcStatView>, Fault>(None),
            Err(fault) => proc_stat(pid, stat@) == Err::<Option<ProcStatView>, Fault>(fault),
        },
{
    let chars = to_chars(stat);
    let s = chars.as_slice();
    let open: usize = find_from(s, '(', 0);
    if open == s.len() {
        return Ok(None);
    }
    let close: usize = match find_last(s, ')') {
        Some(i) => i,
        None => {
            return Ok(None);
        },
    };
    if close == s.len() - 1 {
        return Ok(None);
    }
    if close < open || s[close + 1] as u32 >= 0x80 {
        return Err(Fault::Slice);
    }
    proof {
        position_from_bounds(s@, '(', 0);
        last_position_holds(s@, ')', s@.len() as int);
    }
    let rest = slice_subrange(s, close + 2, s.len());
    assert(rest@ =~= s@.skip(close + 2));
    let fields = split_words(rest);
    if fields.len() <= 21 {
        return Ok(None);
    }
    let ghost all = words(rest@);
    assert(contents(fields@) == all);
    assert(all[11] == fields@[11]@ && all[12] == fields@[12]@ && all[21] == fields@[21]@);
    let utime: u64 = parse_or_zero(fields[11]);
    let stime: u64 = parse_or_zero(fields[12]);
    let rss_pages: u64 = parse_or_zero(fields[21]);
    if utime > u64::MAX - stime {
        return Err(Fault::Overflow);
    }
    let name = stat.substring_char(open + 1, close).to_owned();
    Ok(Some(ProcStat { pid, name, ticks: utime + stime, rss_pages }))
}

proof fn last_position_holds(s: Seq<char>, c: char, end: int)
    requires
        0 <= end <= s.len(),
    ensures
        last_position(s, c, end) < end,
        last_position(s, c, end) >= 0 ==> s[last_position(s, c, end)] == c,
    decreases end,
{
    if end > 0 && s[end - 1] != c {
        last_position_holds(s, c, end - 1);
    }
}

/// Whether a name can be cut to `max` bytes: it is short enough already, or there is a character's
/// end after its first `max - 1` bytes.
pub open spec fn can_truncate(s: Seq<char>, max: int) -> bool {
    encode_utf8(s).len() > max ==> max >= 1 && is_char_boundary(encode_utf8(s), max - 1)
}

/// A name cut to `max` bytes: one that is longer has a tilde in place of all but its first
/// `max - 1` bytes.
pub open spec fn truncated(s: Seq<char>, max: int) -> Seq<char> {
    if encode_utf8(s).len() > max {
        decode_utf8(encode_utf8(s).subrange(0, max - 1)) + "~"@
    } else {
        s
    }
}

/// Tells whether a name can be cut to `max` bytes.
pub fn is_truncatable(s: &str, max: usize) -> (r: bool)
    ensures
        r == can_truncate(s@, max as int),
{
    s.as_bytes().len() <= max || (max >= 1 && s.is_char_boundary(max - 1))
}

/// Cuts a name to `max` bytes.
pub fn truncate_name(s: &str, max: usize) -> (r: String)
    requires
        can_truncate(s@, max as int),
    ensures
        r@ == truncated(s@, max as int),
{
    if s.as_bytes().len() > max {
        let (head, _rest) = s.split_at(max - 1);
        let mut r = head.to_owned();
        r.append("~");
        proof {
            encode_utf8_decode_utf8(head@);
        }
        r
    } else {
        s.to_owned()
    }
}

/// A row of a table of processes.
pub struct ProcInfo {
    pub pid: u32,
    pub name: String,
    /// The share of all ticks.
    pub cpu_share: Option<Share>,
    /// Pages in memory.
    pub rss_pages: u64,
}

/// `ProcInfo` with its name as a sequence of characters.
pub struct ProcInfoView {
    pub pid: u32,
    pub name: Seq<char>,
    pub cpu_share: Option<Share>,
    pub rss_pages: u64,
}

impl View for ProcInfo {
    type V = ProcInfoView;

    open spec fn view(&self) -> ProcInfoView {
        ProcInfoView {
            pid: self.pid,
            name: self.name@,
            cpu_share: self.cpu_share,
            rss_pages: self.rss_pages,
        }
    }
}

/// The views of a list of processes.
pub open spec fn stat_views(list: Seq<ProcStat>) -> Seq<ProcStatView> {
    list.map_values(|p: ProcStat| p@)
}

/// The views of the rows of a table.
pub open spec fn info_views(list: Seq<ProcInfo>) -> Seq<ProcInfoView> {
    list.map_values(|p: ProcInfo| p@)
}

/// Process numbers with the lines of their `stat` files.
pub open spec fn stat_lines(list: Seq<(u32, String)>) -> Seq<(u32, Seq<char>)> {
    list.map_values(|p: (u32, String)| (p.0, p.1@))
}

/// What the lines of all processes say, in order; the first fault in order where there is one.
pub open spec fn records(list: Seq<(u32, Seq<char>)>) -> Result<Seq<ProcStatView>, Fault>
    decreases list.len(),
{
    if list.len() == 0 {
        Ok(seq![])
    } else {
        match records(list.drop_last()) {
            Err(fault) => Err(fault),
            Ok(head) => match proc_stat(list.last().0, list.last().1) {
                Err(fault) => Err(fault),
                Ok(None) => Ok(head),
                Ok(Some(p)) => Ok(head.push(p)),
            },
        }
    }
}

/// The ticks of each process.
pub open spec fn tick_keys(list: Seq<ProcStatView>) -> Seq<u64> {
    list.map_values(|p: ProcStatView| p.ticks)
}

/// The pages of each process.
pub open spec fn rss_keys(list: Seq<ProcStatView>) -> Seq<u64> {
    list.map_values(|p: ProcStatView| p.rss_pages)
}

/// The ticks of all processes together.
pub open spec fn total_ticks(list: Seq<ProcStatView>) -> nat {
    sum(naturals(tick_keys(list)))
}

/// Processes by ticks, the most first; equal ones stay in order.
pub open spec fn by_ticks(list: Seq<ProcStatView>) -> Seq<ProcStatView> {
    arranged(list, ranking(tick_keys(list)))
}

/// Processes by pages, the most first; equal ones stay in order.
pub open spec fn by_rss(list: Seq<ProcStatView>) -> Seq<ProcStatView> {
    arranged(list, ranking(rss_keys(list)))
}

/// How many rows a table of `n` processes has.
pub open spec fn shown(n: nat) -> nat {
    if n < TOP_N {
        n
    } else {
        TOP_N as nat
    }
}

/// The row of a process.
pub open spec fn info(p: ProcStatView, total: u64) -> ProcInfoView {
    ProcInfoView {
        pid: p.pid,
        name: truncated(p.name, NAME_BYTES as int),
        cpu_share: share(p.ticks, total),
        rss_pages: p.rss_pages,
    }
}

/// The rows of the first processes of a list.
pub open spec fn top(list: Seq<ProcStatView>, total: u64) -> Seq<ProcInfoView> {
    Seq::new(shown(list.len()), |i: int| info(list[i], total))
}

/// Whether the names of the first processes of a list can be cut.
pub open spec fn top_truncatable(list: Seq<ProcStatView>) -> bool {
    forall|i: int|
        0 <= i < shown(list.len()) ==> can_truncate(
            (#[trigger] list[i]).name,
            NAME_BYTES as int,
        )
}

/// The tables of the processes with the most ticks and with the most pages. Among processes with
/// as many pages, the one with more ticks comes first.
pub open spec fn top_procs(list: Seq<(u32, Seq<char>)>) -> Result<
    (Seq<ProcInfoView>, Seq<ProcInfoView>),
    Fault,
> {
    match records(list) {
        Err(fault) => Err(fault),
        Ok(procs) => {
            let cpu = by_ticks(procs);
            let mem = by_rss(cpu);
            if total_ticks(procs) > u64::MAX {
                Err(Fault::Overflow)
            } else if !top_truncatable(cpu) || !top_truncatable(mem) {
                Err(Fault::Slice)
            } else {
                Ok((top(cpu, total_ticks(procs) as u64), top(mem, total_ticks(procs) as u64)))
            }
        },
    }
}

proof fn records_fault(list: Seq<(u32, Seq<char>)>, end: int)
    requires
        0 <= end <= list.len(),
        records(list.take(end)) is Err,
    ensures
        records(list) == records(list.take(end)),
    decreases list.len(),
{
    if end < list.len() {
        assert(list.drop_last().take(end) =~= list.take(end));
        records_fault(list.drop_last(), end);
    } else {
        assert(list.take(end) =~= list);
    }
}

/// Reads the lines of all processes.
pub fn read_records(list: &Vec<(u32, String)>) -> (r: Result<Vec<ProcStat>, Fault>)
    ensures
        match r {
            Ok(procs) => records(stat_lines(list@)) == Ok::<Seq<ProcStatView>, Fault>(
                stat_views(procs@),
            ),
            Err(fault) => records(stat_lines(list@)) == Err::<Seq<ProcStatView>, Fault>(fault),
        },
{
    let ghost all = stat_lines(list@);
    let mut procs: Vec<ProcStat> = Vec::new();
    let mut i: usize = 0;
    assert(all.take(0) =~= seq![]);
    assert(stat_views(procs@) =~= seq![]);
    while i < list.len()
        invariant
            i <= list@.len(),
            all == stat_lines(list@),
            records(all.take(i as int)) == Ok::<Seq<ProcStatView>, Fault>(stat_views(procs@)),
        decreases list@.len() - i,
    {
        let ghost before = stat_views(procs@);
        assert(all.take(i + 1).drop_last() =~= all.take(i as int));
        assert(all.take(i + 1).last() == (list@[i as int].0, list@[i as int].1@));
        match read_proc_stat(list[i].0, list[i].1.as_str()) {
            Ok(Some(p)) => {
                procs.push(p);
                assert(stat_views(procs@) =~= before.push(p@));
            },
            Ok(None) => {},
            Err(fault) => {
                proof {
                    records_fault(all, i + 1);
                }
                return Err(fault);
            },
        }
        i += 1;
    }
    assert(all.take(i as int) =~= all);
    Ok(procs)
}

/// Makes the table of the first processes in an order.
fn top_rows(procs: &Vec<ProcStat>, order: &Vec<usize>, total: u64) -> (r: Result<
    Vec<ProcInfo>,
    Fault,
>)
    requires
        order@.len() == procs@.len(),
        forall|i: int| 0 <= i < order@.len() ==> #[trigger] order@[i] < procs@.len(),
    ensures
        match r {
            Ok(rows) => top_truncatable(arranged(stat_views(procs@), order@)) && info_views(rows@)
                == top(arranged(stat_views(procs@), order@), total),
            Err(fault) => fault == Fault::Slice && !top_truncatable(
                arranged(stat_views(procs@), order@),
            ),
        },
{
    let ghost all = arranged(stat_views(procs@), order@);
    let n: usize = if order.len() < TOP_N {
        order.len()
    } else {
        TOP_N
    };
    let mut rows: Vec<ProcInfo> = Vec::new();
    let mut i: usize = 0;
    while i < n
        invariant
            i <= n,
            n == shown(all.len()),
            n <= order@.len(),
            order@.len() == procs@.len(),
            forall|i: int| 0 <= i < order@.len() ==> #[trigger] order@[i] < procs@.len(),
            all == arranged(stat_views(procs@), order@),
            rows@.len() == i,
            forall|j: int|
                0 <= j < i ==> can_truncate((#[trigger] all[j]).name, NAME_BYTES as int),
            forall|j: int| 0 <= j < i ==> (#[trigger] rows@[j])@ == info(all[j], total),
        decreases n - i,
    {
        let p: &ProcStat = &procs[order[i]];
        assert(all[i as int] == p@);
        if !is_truncatable(p.name.as_str(), NAME_BYTES) {
            return Err(Fault::Slice);
        }
        rows.push(
            ProcInfo {
                pid: p.pid,
                name: truncate_name(p.name.as_str(), NAME_BYTES),
                cpu_share: Share::of(p.ticks, total),
                rss_pages: p.rss_pages,
            },
        );
        i += 1;
    }
    assert(info_views(rows@) =~= top(all, total));
    Ok(rows)
}

/// Makes the tables of the processes with the most ticks and with the most pages, of process
/// numbers and the lines of their `stat` files.
pub fn collect_top_procs(list: &Vec<(u32, String)>) -> (r: Result<
    (Vec<ProcInfo>, Vec<ProcInfo>),
    Fault,
>)
    ensures
        match r {
            Ok((cpu, mem)) => top_procs(stat_lines(list@)) == Ok::<
                (Seq<ProcInfoView>, Seq<ProcInfoView>),
                Fault,
            >((info_views(cpu@), info_views(mem@))),
            Err(fault) => top_procs(stat_lines(list@)) == Err::<
                (Seq<ProcInfoView>, Seq<ProcInfoView>),
                Fault,
            >(fault),
        },
{
    let procs = match read_records(list) {
        Ok(procs) => procs,
        Err(fault) => {
            return Err(fault);
        },
    };
    let ghost views = stat_views(procs@);
    let mut ticks: Vec<u64> = Vec::new();
    let mut i: usize = 0;
    while i < procs.len()
        invariant
            i <= procs@.len(),
            ticks@.len() == i,
            forall|j: int| 0 <= j < i ==> #[trigger] ticks@[j] == procs@[j].ticks,
        decreases procs@.len() - i,
    {
        ticks.push(procs[i].ticks);
        i += 1;
    }
    assert(ticks@ =~= tick_keys(views));
    let cpu_order = rank(&ticks);
    let ghost cpu = by_ticks(views);
    assert(cpu == arranged(views, cpu_order@));
    let mut rss: Vec<u64> = Vec::new();
    let mut i: usize = 0;
    while i < procs.len()
        invariant
            i <= procs@.len(),
            rss@.len() == i,
            cpu_order@.len() == procs@.len(),
            forall|j: int| 0 <= j < cpu_order@.len() ==> #[trigger] cpu_order@[j] < procs@.len(),
            forall|j: int|
                0 <= j < i ==> #[trigger] rss@[j] == procs@[cpu_order@[j] as int].rss_pages,
        decreases procs@.len() - i,
    {
        rss.push(procs[cpu_order[i]].rss_pages);
        i += 1;
    }
    assert(rss@ =~= rss_keys(cpu));
    let rss_order = rank(&rss);
    let mut mem_order: Vec<usize> = Vec::new();
    let mut i: usize = 0;
    while i < procs.len()
        invariant
            i <= procs@.len(),
            mem_order@.len() == i,
            cpu_order@.len() == procs@.len(),
            rss_order@.len() == procs@.len(),
            forall|j: int| 0 <= j < cpu_order@.len() ==> #[trigger] cpu_order@[j] < procs@.len(),
            forall|j: int| 0 <= j < rss_order@.len() ==> #[trigger] rss_order@[j] < procs@.len(),
            forall|j: int|
                0 <= j < i ==> #[trigger] mem_order@[j] == cpu_order@[rss_order@[j] as int],
        decreases procs@.len() - i,
    {
        mem_order.push(cpu_order[rss_order[i]]);
        i += 1;
    }
    assert(arranged(views, mem_order@) =~= by_rss(cpu));
    let total: u64 = match checked_sum(&ticks) {
        Some(total) => total,
        None => {
            return Err(Fault::Overflow);
        },
    };
    let top_cpu = match top_rows(&procs, &cpu_order, total) {
        Ok(rows) => rows,
        Err(fault) => {
            return Err(fault);
        },
    };
    match top_rows(&procs, &mem_order, total) {
        Ok(top_mem) => Ok((top_cpu, top_mem)),
        Err(fault) => Err(fault),
    }
}

/// A table by CPU time lists the processes with the most ticks: it has `TOP_N` rows, or one for
/// each process where there are fewer; the ticks descend; equal ones stay in the order in which
/// they came; and no process that is left out has more ticks than one that is shown.
pub proof fn most_ticks_are_shown(list: Seq<ProcStatView>, total: u64)
    requires
        list.len() <= usize::MAX,
    ensures
        ({
            let order = ranking(tick_keys(list));
            let rows = top(by_ticks(list), total);
            &&& order.len() == list.len() && order.no_duplicates()
            &&& rows.len() == shown(list.len())
            &&& forall|i: int|
                0 <= i < rows.len() ==> 0 <= #[trigger] order[i] < list.len() && rows[i] == info(
                    list[order[i] as int],
                    total,
                )
            &&& forall|i: int, j: int|
                0 <= i < j < rows.len() ==> {
                    let a = #[trigger] order[i];
                    let b = #[trigger] order[j];
                    list[a as int].ticks >= list[b as int].ticks && (list[a as int].ticks
                        == list[b as int].ticks ==> a < b)
                }
            &&& forall|a: usize, i: int|
                0 <= a < list.len() && !(#[trigger] order.take(rows.len() as int).contains(a))
                    && 0 <= i < rows.len() ==> list[a as int].ticks <= list[(
                #[trigger] order[i]) as int].ticks
        }),
{
    let keys = tick_keys(list);
    let order = ranking(keys);
    let rows = top(by_ticks(list), total);
    ranking_descends(keys);
    assert forall|i: int| 0 <= i < list.len() implies 0 <= #[trigger] order[i] < list.len() by {
        assert(order.contains(order[i]));
    }
    assert forall|a: usize, i: int|
        0 <= a < list.len() && !(#[trigger] order.take(rows.len() as int).contains(a)) && 0 <= i
            < rows.len() implies list[a as int].ticks <= list[(#[trigger] order[i]) as int].ticks by {
        assert(order.contains(a));
        let k = choose|k: int| 0 <= k < order.len() && order[k] == a;
        if k < rows.len() {
            assert(order.take(rows.len() as int)[k] == a);
        }
        assert(keys[order[i] as int] >= keys[order[k] as int]);
    }
}

/// A table by memory lists the processes with the most pages in the same way; among equal ones
/// those with more ticks come first, and those with as many ticks stay in the order in which they
/// came.
pub proof fn most_pages_are_shown(list: Seq<ProcStatView>, total: u64)
    requires
        list.len() <= usize::MAX,
    ensures
        ({
            let cpu = by_ticks(list);
            let first = ranking(tick_keys(list));
            let order = ranking(rss_keys(cpu));
            let rows = top(by_rss(cpu), total);
            &&& cpu.len() == list.len() && order.len() == list.len() && order.no_duplicates()
            &&& rows.len() == shown(list.len())
            &&& forall|i: int|
                0 <= i < rows.len() ==> 0 <= #[trigger] order[i] < cpu.len() && rows[i] == info(
                    cpu[order[i] as int],
                    total,
                ) && cpu[order[i] as int] == list[first[order[i] as int] as int]
            &&& forall|i: int, j: int|
                0 <= i < j < rows.len() ==> {
                    let p = cpu[(#[trigger] order[i]) as int];
                    let q = cpu[(#[trigger] order[j]) as int];
                    p.rss_pages >= q.rss_pages && (p.rss_pages == q.rss_pages ==> p.ticks
                        >= q.ticks && (p.ticks == q.ticks ==> first[order[i] as int]
                        < first[order[j] as int]))
                }
            &&& forall|a: usize, i: int|
                0 <= a < cpu.len() && !(#[trigger] order.take(rows.len() as int).contains(a)) && 0
                    <= i < rows.len() ==> cpu[a as int].rss_pages <= cpu[(
                #[trigger] order[i]) as int].rss_pages
        }),
{
    let first = ranking(tick_keys(list));
    let cpu = by_ticks(list);
    let keys = rss_keys(cpu);
    let order = ranking(keys);
    let rows = top(by_rss(cpu), total);
    ranking_descends(tick_keys(list));
    ranking_descends(keys);
    assert forall|i: int| 0 <= i < list.len() implies 0 <= #[trigger] first[i] < list.len() by {
        assert(first.contains(first[i]));
    }
    assert forall|i: int| 0 <= i < list.len() implies 0 <= #[trigger] order[i] < list.len() by {
        assert(order.contains(order[i]));
    }
    assert forall|i: int, j: int| 0 <= i < j < rows.len() implies {
        let p = cpu[(#[trigger] order[i]) as int];
        let q = cpu[(#[trigger] order[j]) as int];
        p.rss_pages >= q.rss_pages && (p.rss_pages == q.rss_pages ==> p.ticks >= q.ticks && (
        p.ticks == q.ticks ==> first[order[i] as int] < first[order[j] as int]))
    } by {
        let a = order[i] as int;
        let b = order[j] as int;
        assert(keys[a] >= keys[b]);
        if keys[a] == keys[b] {
            assert(a < b);
            assert(tick_keys(list)[first[a] as int] >= tick_keys(list)[first[b] as int]);
        }
    }
    assert forall|a: usize, i: int|
        0 <= a < cpu.len() && !(#[trigger] order.take(rows.len() as int).contains(a)) && 0 <= i
            < rows.len() implies cpu[a as int].rss_pages <= cpu[(
    #[trigger] order[i]) as int].rss_pages by {
        assert(order.contains(a));
        let k = choose|k: int| 0 <= k < order.len() && order[k] == a;
        if k < rows.len() {
            assert(order.take(rows.len() as int)[k] == a);
        }
        assert(keys[order[i] as int] >= keys[order[k] as int]);
    }
}

proof fn term_within_sum(list: Seq<nat>, i: int)
    requires
        0 <= i < list.len(),
    ensures
        list[i] <= sum(list),
    decreases list.len(),
{
    if i < list.len() - 1 {
        term_within_sum(list.drop_last(), i);
    }
}

/// The share of CPU time that a row shows is never more than the whole.
pub proof fn cpu_share_within_whole(list: Seq<ProcStatView>, i: int)
    requires
        0 <= i < list.len(),
        total_ticks(list) <= u64::MAX,
    ensures
        match info(list[i], total_ticks(list) as u64).cpu_share {
            Some(s) => s.part <= s.whole && s.part == list[i].ticks,
            None => list[i].ticks == 0,
        },
{
    term_within_sum(naturals(tick_keys(list)), i);
}

proof fn encode_utf8_concat(a: Seq<char>, b: Seq<char>)
    ensures
        encode_utf8(a + b) == encode_utf8(a) + encode_utf8(b),
    decreases a.len(),
{
    if a.len() == 0 {
        assert(a + b =~= b);
        assert(encode_utf8(a) + encode_utf8(b) =~= encode_utf8(b));
    } else {
        encode_utf8_concat(a.drop_first(), b);
        assert((a + b).drop_first() =~= a.drop_first() + b);
        assert(encode_utf8(a + b) =~= encode_utf8(a) + encode_utf8(b));
    }
}

/// A name that was cut takes up the bytes it was cut to, exactly; one that was not is unchanged.
/// Either way it fits.
pub proof fn truncated_fits(s: Seq<char>, max: int)
    requires
        max >= 0,
        can_truncate(s, max),
    ensures
        encode_utf8(truncated(s, max)).len() <= max,
        encode_utf8(s).len() > max ==> encode_utf8(truncated(s, max)).len() == max,
        encode_utf8(s).len() <= max ==> truncated(s, max) == s,
{
    if encode_utf8(s).len() > max {
        let head = encode_utf8(s).subrange(0, max - 1);
        encode_utf8_valid_utf8(s);
        valid_utf8_split(encode_utf8(s), max - 1);
        decode_utf8_encode_utf8(head);
        encode_utf8_concat(decode_utf8(head), "~"@);
        reveal_strlit("~");
        is_ascii_chars_encode_utf8("~"@);
    }
}

proof fn characters_within_bytes(s: Seq<char>)
    ensures
        s.len() <= encode_utf8(s).len(),
    decreases s.len(),
{
    if s.len() > 0 {
        characters_within_bytes(s.drop_first());
    }
}

/// A name in a table has no more characters than the bytes it was cut to.
pub proof fn shown_names_are_short(p: ProcStatView, total: u64)
    requires
        can_truncate(p.name, NAME_BYTES as int),
    ensures
        info(p, total).name.len() <= NAME_BYTES,
{
    truncated_fits(p.name, NAME_BYTES as int);
    characters_within_bytes(truncated(p.name, NAME_BYTES as int));
}

proof fn records_without_silent(
    head: Seq<(u32, Seq<char>)>,
    silent: (u32, Seq<char>),
    tail: Seq<(u32, Seq<char>)>,
)
    requires
        proc_stat(silent.0, silent.1) == Ok::<Option<ProcStatView>, Fault>(None),
    ensures
        records(head.push(silent) + tail) == records(head + tail),
    decreases tail.len(),
{
    if tail.len() == 0 {
        assert(head.push(silent) + tail =~= head.push(silent));
        assert(head + tail =~= head);
        assert(head.push(silent).drop_last() =~= head);
    } else {
        records_without_silent(head, silent, tail.drop_last());
        assert((head.push(silent) + tail).drop_last() =~= head.push(silent) + tail.drop_last());
        assert((head + tail).drop_last() =~= head + tail.drop_last());
    }
}

/// A process whose line says nothing changes neither table, wherever it stands in the list.
pub proof fn silent_process_changes_nothing(
    head: Seq<(u32, Seq<char>)>,
    silent: (u32, Seq<char>),
    tail: Seq<(u32, Seq<char>)>,
)
    requires
        proc_stat(silent.0, silent.1) == Ok::<Option<ProcStatView>, Fault>(None),
    ensures
        top_procs(head.push(silent) + tail) == top_procs(head + tail),
{
    records_without_silent(head, silent, tail);
}

/// A process that stands in both tables has the same row in both. Where no number stands for two
/// processes, rows with the same number are those of one process.
pub proof fn same_process_has_same_row(list: Seq<ProcStatView>, total: u64, i: int, j: int)
    requires
        list.len() <= usize::MAX,
        0 <= i < shown(list.len()),
        0 <= j < shown(list.len()),
    ensures
        ({
            let cpu = by_ticks(list);
            let first = ranking(tick_keys(list));
            let order = ranking(rss_keys(cpu));
            let a = top(cpu, total)[i];
            let b = top(by_rss(cpu), total)[j];
            &&& first[i] == first[order[j] as int] ==> a == b
            &&& (forall|m: int, n: int|
                0 <= m < n < list.len() ==> (#[trigger] list[m]).pid != (#[trigger] list[n]).pid)
                && a.pid == b.pid ==> a == b
        }),
{
    let cpu = by_ticks(list);
    let first = ranking(tick_keys(list));
    let order = ranking(rss_keys(cpu));
    ranking_descends(tick_keys(list));
    ranking_descends(rss_keys(cpu));
    assert(order.contains(order[j]));
    let k = order[j] as int;
    assert(first.contains(first[i]) && first.contains(first[k]));
    assert(cpu[i] == list[first[i] as int] && cpu[k] == list[first[k] as int]);
    assert(by_rss(cpu)[j] == cpu[k]);
}

proof fn last_position_is(s: Seq<char>, c: char, end: int, i: int)
    requires
        0 <= i < end <= s.len(),
        s[i] == c,
        forall|j: int| i < j < end ==> s[j] != c,
    ensures
        last_position(s, c, end) == i,
    decreases end,
{
    if end - 1 > i {
        assert(s[end - 1] != c);
        last_position_is(s, c, end - 1, i);
    }
}

proof fn no_last_position(s: Seq<char>, c: char, end: int)
    requires
        0 <= end <= s.len(),
        forall|j: int| 0 <= j < end ==> s[j] != c,
    ensures
        last_position(s, c, end) == -1,
    decreases end,
{
    if end > 0 {
        assert(s[end - 1] != c);
        no_last_position(s, c, end - 1);
    }
}

proof fn position_is(s: Seq<char>, c: char, i: int)
    requires
        0 <= i < s.len(),
        s[i] == c,
        forall|j: int| 0 <= j < i ==> s[j] != c,
    ensures
        position_from(s, c, 0) == i,
{
    position_from_bounds(s, c, 0);
}

/// A line is read by its parentheses: the name is all that stands between the first opening and the
/// last closing one, and the fields are the words behind the character that follows. With more than
/// 21 fields it always says something: the ticks are those of fields 11 and 12 together, the pages
/// are field 21, each 0 where the field says no number of 64 bits, and no other field counts. With
/// fewer it says nothing. It is given up exactly where the ticks do not fit 64 bits or the
/// character behind the closing parenthesis takes more than one byte.
pub proof fn line_is_read_by_its_parentheses(
    pid: u32,
    before: Seq<char>,
    name: Seq<char>,
    separator: char,
    rest: Seq<char>,
)
    requires
        !before.contains('('),
        separator != ')',
        !rest.contains(')'),
    ensures
        ({
            let line = before.push('(') + name.push(')').push(separator) + rest;
            let fields = words(rest);
            let user = match number(fields[11], u64::MAX as nat) {
                Some(n) => n,
                None => 0,
            };
            let kernel = match number(fields[12], u64::MAX as nat) {
                Some(n) => n,
                None => 0,
            };
            let pages = match number(fields[21], u64::MAX as nat) {
                Some(n) => n,
                None => 0,
            };
            match proc_stat(pid, line) {
                Ok(Some(p)) => {
                    &&& (separator as u32) < 0x80 && fields.len() >= 22
                    &&& p.pid == pid
                    &&& p.name == name
                    &&& p.ticks == user + kernel
                    &&& p.rss_pages == pages
                },
                Ok(None) => (separator as u32) < 0x80 && fields.len() < 22,
                Err(Fault::Slice) => separator as u32 >= 0x80,
                Err(Fault::Overflow) => {
                    &&& (separator as u32) < 0x80 && fields.len() >= 22
                    &&& user + kernel >= 0x1_0000_0000_0000_0000
                },
            }
        }),
{
    let line = before.push('(') + name.push(')').push(separator) + rest;
    let open = before.len() as int;
    let close = open + 1 + name.len();
    assert(line[open] == '(');
    assert forall|j: int| 0 <= j < open implies line[j] != '(' by {
        assert(line[j] == before[j]);
        assert(before.contains(before[j]));
    }
    position_is(line, '(', open);
    assert(line[close] == ')');
    assert(line[close + 1] == separator);
    assert forall|j: int| close < j < line.len() implies line[j] != ')' by {
        if j > close + 1 {
            assert(line[j] == rest[j - close - 2]);
            assert(rest.contains(rest[j - close - 2]));
        }
    }
    last_position_is(line, ')', line.len() as int, close);
    assert(line.skip(close + 2) =~= rest);
    assert(line.subrange(open + 1, close) =~= name);
}

/// A line without an opening or a closing parenthesis, and one that ends in a closing one, says
/// nothing. One whose closing parentheses all stand before the opening ones is given up.
pub proof fn line_needs_its_parentheses(pid: u32, line: Seq<char>, front: Seq<char>, back: Seq<char>)
    ensures
        !line.contains('(') ==> proc_stat(pid, line) == Ok::<Option<ProcStatView>, Fault>(None),
        !line.contains(')') ==> proc_stat(pid, line) == Ok::<Option<ProcStatView>, Fault>(None),
        line.len() > 0 && line.last() == ')' ==> proc_stat(pid, line) == Ok::<
            Option<ProcStatView>,
            Fault,
        >(None),
        front.contains(')') && !front.contains('(') && back.len() > 0 && back[0] == '('
            && !back.contains(')') ==> proc_stat(pid, front + back) == Err::<
            Option<ProcStatView>,
            Fault,
        >(Fault::Slice),
{
    position_from_bounds(line, '(', 0);
    if !line.contains('(') {
        let i = position_from(line, '(', 0);
        if i < line.len() {
            assert(line.contains(line[i]));
        }
    }
    if !line.contains(')') {
        assert forall|j: int| 0 <= j < line.len() implies line[j] != ')' by {
            assert(line.contains(line[j]));
        }
        no_last_position(line, ')', line.len() as int);
    }
    if front.contains(')') && !front.contains('(') && back.len() > 0 && back[0] == '('
        && !back.contains(')') {
        let s = front + back;
        let n = front.len() as int;
        assert(s[n] == '(');
        assert forall|j: int| 0 <= j < n implies s[j] != '(' by {
            assert(front.contains(front[j]));
        }
        position_is(s, '(', n);
        let k = last_position(front, ')', n);
        last_position_holds(front, ')', n);
        if k < 0 {
            let i = choose|i: int| 0 <= i < front.len() && front[i] == ')';
            last_position_covers(front, ')', n, i);
        }
        assert forall|j: int| k < j < s.len() implies s[j] != ')' by {
            if j < n {
                if front[j] == ')' {
                    last_position_covers(front, ')', n, j);
                }
            } else {
                assert(back.contains(back[j - n]));
            }
        }
        assert(s[k] == ')');
        last_position_is(s, ')', s.len() as int, k);
    }
}

proof fn last_position_covers(s: Seq<char>, c: char, end: int, i: int)
    requires
        0 <= i < end <= s.len(),
        s[i] == c,
    ensures
        last_position(s, c, end) >= i,
    decreases end,
{
    if s[end - 1] != c {
        last_position_covers(s, c, end - 1, i);
    }
}

/// Two lines that differ only before the name and in fields other than 11, 12 and 21 say the same.
pub proof fn other_fields_do_not_count(
    pid: u32,
    before: Seq<char>,
    other_before: Seq<char>,
    name: Seq<char>,
    rest: Seq<char>,
    other_rest: Seq<char>,
)
    requires
        !before.contains('(') && !other_before.contains('('),
        !rest.contains(')') && !other_rest.contains(')'),
        words(rest).len() >= 22 && words(other_rest).len() >= 22,
        words(rest)[11] == words(other_rest)[11],
        words(rest)[12] == words(other_rest)[12],
        words(rest)[21] == words(other_rest)[21],
    ensures
        proc_stat(pid, before.push('(') + name.push(')').push(' ') + rest) == proc_stat(
            pid,
            other_before.push('(') + name.push(')').push(' ') + other_rest,
        ),
        !(proc_stat(pid, before.push('(') + name.push(')').push(' ') + rest) matches Ok(None)),
{
    line_is_read_by_its_parentheses(pid, before, name, ' ', rest);
    line_is_read_by_its_parentheses(pid, other_before, name, ' ', other_rest);
}

proof fn boundary_behind_prefix(head: Seq<char>, tail: Seq<char>)
    ensures
        is_char_boundary(encode_utf8(head + tail), encode_utf8(head).len() as int),
    decreases head.len(),
{
    let s = head + tail;
    encode_utf8_valid_utf8(s);
    if head.len() > 0 {
        let rest = head.drop_first();
        boundary_behind_prefix(rest, tail);
        encode_utf8_first_scalar(s);
        encode_utf8_concat(head, tail);
        assert(s.drop_first() =~= rest + tail);
        assert(pop_first_scalar(encode_utf8(s)) =~= encode_utf8(rest + tail));
        assert(encode_utf8(head).len() == encode_scalar(s[0] as u32).len() + encode_utf8(rest).len());
    }
}

/// A name that is too long can be cut exactly where one of its beginnings takes up one byte less
/// than there is room for, and then that beginning and a tilde are what is left of it. A name that
/// is not too long stays as it is.
pub proof fn beginning_is_kept(head: Seq<char>, tail: Seq<char>, max: int)
    requires
        encode_utf8(head + tail).len() > max,
        encode_utf8(head).len() == max - 1,
    ensures
        can_truncate(head + tail, max),
        truncated(head + tail, max) == head.push('~'),
{
    boundary_behind_prefix(head, tail);
    encode_utf8_concat(head, tail);
    assert(encode_utf8(head + tail).subrange(0, max - 1) =~= encode_utf8(head));
    encode_utf8_decode_utf8(head);
    reveal_strlit("~");
    assert(head + "~"@ =~= head.push('~'));
}

/// Where a name that is too long can be cut, it has a beginning that takes up one byte less than
/// there is room for.
pub proof fn cut_has_a_beginning(s: Seq<char>, max: int) -> (r: (Seq<char>, Seq<char>))
    requires
        encode_utf8(s).len() > max,
        can_truncate(s, max),
    ensures
        s == r.0 + r.1,
        encode_utf8(r.0).len() == max - 1,
{
    let bytes = encode_utf8(s);
    encode_utf8_valid_utf8(s);
    valid_utf8_split(bytes, max - 1);
    decode_utf8_split(bytes, max - 1);
    encode_utf8_decode_utf8(s);
    let head = bytes.subrange(0, max - 1);
    decode_utf8_encode_utf8(head);
    (decode_utf8(head), decode_utf8(bytes.subrange(max - 1, bytes.len() as int)))
}

/// A name that is not too long can be shown, and stays as it is.
pub proof fn short_name_is_kept(s: Seq<char>, max: int)
    requires
        encode_utf8(s).len() <= max,
    ensures
        can_truncate(s, max),
        truncated(s, max) == s,
{
}

/// Every process whose line says something is on record, in order, and no other is; the first line
/// that is given up gives up all.
pub proof fn records_keep_order(
    a: Seq<(u32, Seq<char>)>,
    b: Seq<(u32, Seq<char>)>,
    pid: u32,
    line: Seq<char>,
)
    ensures
        match (records(a), records(b)) {
            (Ok(p), Ok(q)) => records(a + b) == Ok::<Seq<ProcStatView>, Fault>(p + q),
            (Ok(_), Err(fault)) => records(a + b) == Err::<Seq<ProcStatView>, Fault>(fault),
            (Err(fault), _) => records(a + b) == Err::<Seq<ProcStatView>, Fault>(fault),
        },
        match proc_stat(pid, line) {
            Ok(Some(p)) => records(seq![(pid, line)]) == Ok::<Seq<ProcStatView>, Fault>(seq![p]),
            Ok(None) => records(seq![(pid, line)]) == Ok::<Seq<ProcStatView>, Fault>(seq![]),
            Err(fault) => records(seq![(pid, line)]) == Err::<Seq<ProcStatView>, Fault>(fault),
        },
    decreases b.len(),
{
    let one = seq![(pid, line)];
    assert(one.drop_last() =~= Seq::<(u32, Seq<char>)>::empty());
    assert(records(one.drop_last()) == Ok::<Seq<ProcStatView>, Fault>(seq![]));
    match proc_stat(pid, line) {
        Ok(Some(p)) => {
            assert(Seq::<ProcStatView>::empty().push(p) =~= seq![p]);
        },
        _ => {},
    }
    if b.len() == 0 {
        assert(a + b =~= a);
        match records(a) {
            Ok(p) => {
                assert(p + Seq::<ProcStatView>::empty() =~= p);
            },
            Err(_) => {},
        }
    } else {
        records_keep_order(a, b.drop_last(), pid, line);
        assert((a + b).drop_last() =~= a + b.drop_last());
        assert((a + b).last() == b.last());
        match (records(a), records(b)) {
            (Ok(p), Ok(q)) => {
                match proc_stat(b.last().0, b.last().1) {
                    Ok(Some(x)) => {
                        let r = records(b.drop_last())->Ok_0;
                        assert(p + r.push(x) =~= (p + r).push(x));
                    },
                    _ => {},
                }
            },
            _ => {},
        }
    }
}

/// What the tables show of the processes on record. Each table has five rows, or one for each
/// process where there are fewer. The first lists processes in the ranking of their ticks, the
/// second ranks that list by pages. A row has the process's number and pages, its name cut to 18
/// bytes, and its ticks as a share of the ticks of all processes, where there are any. The tables
/// are given up exactly where those ticks do not fit 64 bits, or else where a name that would be
/// shown cannot be cut.
pub proof fn tables_show_the_records(
    list: Seq<(u32, Seq<char>)>,
    procs: Seq<ProcStatView>,
    total: nat,
)
    requires
        records(list) == Ok::<Seq<ProcStatView>, Fault>(procs),
        procs.len() <= usize::MAX,
        total == sum(Seq::new(procs.len(), |i: int| procs[i].ticks as nat)),
    ensures
        ({
            let n = if procs.len() < 5 {
                procs.len() as int
            } else {
                5
            };
            let first = ranking(Seq::new(procs.len(), |i: int| procs[i].ticks));
            let listed = Seq::new(procs.len(), |i: int| procs[first[i] as int]);
            let second = ranking(Seq::new(procs.len(), |i: int| listed[i].rss_pages));
            match top_procs(list) {
                Ok((cpu, mem)) => {
                    &&& total < 0x1_0000_0000_0000_0000
                    &&& cpu.len() == n && mem.len() == n
                    &&& forall|i: int|
                        0 <= i < n ==> {
                            let p = listed[i];
                            &&& (#[trigger] cpu[i]).pid == p.pid
                            &&& cpu[i].rss_pages == p.rss_pages
                            &&& can_truncate(p.name, 18) && cpu[i].name == truncated(p.name, 18)
                            &&& total > 0 ==> cpu[i].cpu_share == Some(
                                Share { part: p.ticks, whole: total as u64 },
                            )
                            &&& total == 0 ==> cpu[i].cpu_share is None
                        }
                    &&& forall|i: int|
                        0 <= i < n ==> {
                            let p = listed[second[i] as int];
                            &&& (#[trigger] mem[i]).pid == p.pid
                            &&& mem[i].rss_pages == p.rss_pages
                            &&& can_truncate(p.name, 18) && mem[i].name == truncated(p.name, 18)
                            &&& total > 0 ==> mem[i].cpu_share == Some(
                                Share { part: p.ticks, whole: total as u64 },
                            )
                            &&& total == 0 ==> mem[i].cpu_share is None
                        }
                },
                Err(Fault::Overflow) => total >= 0x1_0000_0000_0000_0000,
                Err(Fault::Slice) => total < 0x1_0000_0000_0000_0000 && exists|i: int|
                    0 <= i < n && (!can_truncate((#[trigger] listed[i]).name, 18) || !can_truncate(
                        listed[second[i] as int].name,
                        18,
                    )),
            }
        }),
{
    let keys = Seq::new(procs.len(), |i: int| procs[i].ticks);
    assert(keys =~= tick_keys(procs));
    assert(naturals(tick_keys(procs)) =~= Seq::new(procs.len(), |i: int| procs[i].ticks as nat));
    let first = ranking(keys);
    ranking_descends(keys);
    let cpu = by_ticks(procs);
    let listed = Seq::new(procs.len(), |i: int| procs[first[i] as int]);
    assert(cpu =~= listed);
    let pages = Seq::new(procs.len(), |i: int| listed[i].rss_pages);
    assert(pages =~= rss_keys(cpu));
    let second = ranking(pages);
    ranking_descends(pages);
    let mem = by_rss(cpu);
    assert(mem.len() == procs.len());
    assert forall|i: int| 0 <= i < mem.len() implies #[trigger] mem[i] == listed[second[i] as int] by {}
    if top_procs(list) is Err && total <= u64::MAX {
        if !top_truncatable(cpu) {
            let i = choose|i: int|
                0 <= i < shown(cpu.len()) && !can_truncate(
                    (#[trigger] cpu[i]).name,
                    NAME_BYTES as int,
                );
            assert(!can_truncate(listed[i].name, 18));
        } else {
            let i = choose|i: int|
                0 <= i < shown(mem.len()) && !can_truncate(
                    (#[trigger] mem[i]).name,
                    NAME_BYTES as int,
                );
            let p = listed[i];
            assert(!can_truncate(listed[second[i] as int].name, 18));
        }
    }
}

/// Where a line is given up, so are the tables.
pub proof fn fault_gives_up_the_tables(list: Seq<(u32, Seq<char>)>)
    ensures
        match records(list) {
            Err(fault) => top_procs(list) == Err::<(Seq<ProcInfoView>, Seq<ProcInfoView>), Fault>(
                fault,
            ),
            Ok(_) => true,
        },
{
}

/// Processes, rows and lines are looked at one for one, with all that they hold.
pub proof fn views_are_one_for_one(
    stats: Seq<ProcStat>,
    infos: Seq<ProcInfo>,
    list: Seq<(u32, String)>,
)
    ensures
        stat_views(stats).len() == stats.len(),
        forall|i: int|
            0 <= i < stats.len() ==> {
                let v = #[trigger] stat_views(stats)[i];
                v.pid == stats[i].pid && v.name == stats[i].name@ && v.ticks == stats[i].ticks
                    && v.rss_pages == stats[i].rss_pages
            },
        info_views(infos).len() == infos.len(),
        forall|i: int|
            0 <= i < infos.len() ==> {
                let v = #[trigger] info_views(infos)[i];
                v.pid == infos[i].pid && v.name == infos[i].name@ && v.cpu_share
                    == infos[i].cpu_share && v.rss_pages == infos[i].rss_pages
            },
        stat_lines(list).len() == list.len(),
        forall|i: int|
            0 <= i < list.len() ==> (#[trigger] stat_lines(list)[i]).0 == list[i].0 && stat_lines(
                list,
            )[i].1 == list[i].1@,
{
}

} // verus!
