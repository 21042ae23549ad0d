//! CPU time, core frequencies and the CPU's temperature.

use vstd::prelude::*;

use crate::fault::Fault;
use crate::number::{
    checked_sum, file_number, monus, naturals, number, parse_u64, read_file_number, sum,
};
use crate::text::{contents, lines, split_lines, split_words, starts_with, to_chars, words};

verus! {

/// How many cores are watched.
pub const NUM_CPUS: usize = 24;

/// The ticks that a CPU has counted since boot.
#[derive(Clone, Copy, PartialEq, Eq, Structural, Debug)]
pub struct CpuTimes {
    /// Ticks spent idle or waiting for I/O.
    pub idle: u64,
    /// All ticks.
    pub total: u64,
}

/// The numbers among a list of words, in order; the other words are left out.
pub open spec fn numbers(list: Seq<Seq<char>>) -> Seq<nat>
    decreases list.len(),
{
    if list.len() == 0 {
        seq![]
    } else {
        let head = numbers(list.drop_last());
        match number(list.last(), u64::MAX as nat) {
            Some(n) => head.push(n),
            None => head,
        }
    }
}

/// The number at a position, 0 where the list is too short.
pub open spec fn at_or_zero(list: Seq<nat>, i: int) -> nat {
    if 0 <= i < list.len() {
        list[i]
    } else {
        0
    }
}

/// Whether a line of `/proc/stat` gives the times of a CPU.
pub open spec fn is_cpu_line(line: Seq<char>) -> bool {
    "cpu"@.is_prefix_of(line) && words(line).len() >= 8
}

/// The counters on a line that gives the times of a CPU.
pub open spec fn counters(line: Seq<char>) -> Seq<nat> {
    numbers(words(line).skip(1))
}

/// Idle and total ticks on a line that gives the times of a CPU: the fourth and fifth counters,
/// and all of them.
pub open spec fn line_times(line: Seq<char>) -> (nat, nat) {
    let c = counters(line);
    (at_or_zero(c, 3) + at_or_zero(c, 4), sum(c))
}

/// The times that the lines of `/proc/stat` give, in order.
pub open spec fn stat_times(list: Seq<Seq<char>>) -> Seq<(nat, nat)>
    decreases list.len(),
{
    if list.len() == 0 {
        seq![]
    } else {
        let head = stat_times(list.drop_last());
        if is_cpu_line(list.last()) {
            head.push(line_times(list.last()))
        } else {
            head
        }
    }
}

/// Whether every total fits 64 bits.
pub open spec fn times_fit(times: Seq<(nat, nat)>) -> bool {
    forall|i: int| 0 <= i < times.len() ==> (#[trigger] times[i]).1 <= u64::MAX
}

/// Times as plain numbers.
pub open spec fn ticks(times: Seq<CpuTimes>) -> Seq<(nat, nat)> {
    times.map_values(|t: CpuTimes| (t.idle as nat, t.total as nat))
}

proof fn part_of_sum(list: Seq<nat>, i: int, j: int)
    ensures
        i < j ==> at_or_zero(list, i) + at_or_zero(list, j) <= sum(list),
        at_or_zero(list, i) <= sum(list),
    decreases list.len(),
{
    if list.len() > 0 {
        part_of_sum(list.drop_last(), i, j);
        part_of_sum(list.drop_last(), j, i);
    }
}

proof fn stat_times_of_prefix(list: Seq<Seq<char>>, end: int)
    requires
        0 <= end <= list.len(),
    ensures
        stat_times(list.take(end)).len() <= stat_times(list).len(),
        forall|i: int|
            0 <= i < stat_times(list.take(end)).len() ==> #[trigger] stat_times(list.take(end))[i]
                == stat_times(list)[i],
    decreases list.len(),
{
    if end < list.len() {
        stat_times_of_prefix(list.drop_last(), end);
        assert(list.drop_last().take(end) =~= list.take(end));
    } else {
        assert(list.take(end) =~= list);
    }
}

/// Reads the numbers among a list of words.
fn read_numbers(list: &Vec<&[char]>, from: usize) -> (r: Vec<u64>)
    requires
        from <= list@.len(),
    ensures
        naturals(r@) == numbers(contents(list@).skip(from as int)),
{
    let mut r: Vec<u64> = Vec::new();
    let mut i: usize = from;
    let ghost all = contents(list@).skip(from as int);
    assert(all.take(0) =~= seq![]);
    assert(naturals(r@) =~= numbers(all.take(0)));
    while i < list.len()
        invariant
            from <= i <= list@.len(),
            all == contents(list@).skip(from as int),
            naturals(r@) == numbers(all.take(i - from)),
        decreases list@.len() - i,
    {
        let ghost before = naturals(r@);
        assert(all.take(i - from + 1).drop_last() =~= all.take(i - from));
        assert(all[i - from] == list@[i as int]@);
        match parse_u64(list[i]) {
            Some(n) => {
                r.push(n);
                assert(naturals(r@) =~= before.push(n as nat));
            },
            None => {},
        }
        i += 1;
    }
    assert(all.take(i - from) =~= all);
    r
}

/// Reads the times of one CPU; `None` where the total does not fit.
fn read_cpu_line(list: &Vec<&[char]>, Ghost(line): Ghost<Seq<char>>) -> (r: Option<CpuTimes>)
    requires
        contents(list@) == words(line),
        list@.len() >= 8,
    ensures
        match r {
            Some(t) => line_times(line) == (t.idle as nat, t.total as nat),
            None => line_times(line).1 > u64::MAX,
        },
{
    let vals = read_numbers(list, 1);
    proof {
        part_of_sum(counters(line), 3, 4);
    }
    match checked_sum(&vals) {
        Some(total) => {
            let a: u64 = if vals.len() > 3 {
                vals[3]
            } else {
                0
            };
            let b: u64 = if vals.len() > 4 {
                vals[4]
            } else {
                0
            };
            Some(CpuTimes { idle: a + b, total })
        },
        None => None,
    }
}

/// Reads the times of all CPUs out of `/proc/stat`. The first is that of the machine as a whole.
/// The reading is given up where a total does not fit 64 bits.
pub fn read_all_cpu_times(stat: &str) -> (r: Result<Vec<CpuTimes>, Fault>)
    ensures
        match r {
            Ok(times) => {
                &&& ticks(times@) == stat_times(lines(stat@))
                &&& times_fit(stat_times(lines(stat@)))
                &&& forall|i: int|
                    0 <= i < times@.len() ==> (#[trigger] times@[i]).idle <= times@[i].total
            },
            Err(fault) => fault == Fault::Overflow && !times_fit(stat_times(lines(stat@))),
        },
{
    let chars = to_chars(stat);
    let list = split_lines(chars.as_slice());
    let prefix = to_chars("cpu");
    let mut times: Vec<CpuTimes> = Vec::with_capacity(NUM_CPUS + 1);
    let mut i: usize = 0;
    let ghost all = lines(stat@);
    assert(all.take(0) =~= seq![]);
    assert(ticks(times@) =~= stat_times(all.take(0)));
    while i < list.len()
        invariant
            i <= list@.len(),
            all == lines(stat@),
            contents(list@) == all,
            prefix@ == "cpu"@,
            ticks(times@) == stat_times(all.take(i as int)),
            times_fit(stat_times(all.take(i as int))),
        decreases list@.len() - i,
    {
        let ghost before = ticks(times@);
        proof {
            assert(all.take(i + 1).drop_last() =~= all.take(i as int));
            assert(all[i as int] == list@[i as int]@);
            stat_times_of_prefix(all, i + 1);
        }
        if starts_with(list[i], prefix.as_slice()) {
            let parts = split_words(list[i]);
            if parts.len() >= 8 {
                match read_cpu_line(&parts, Ghost(list@[i as int]@)) {
                    Some(t) => {
                        times.push(t);
                        assert(ticks(times@) =~= before.push((t.idle as nat, t.total as nat)));
                    },
                    None => {
                        assert(stat_times(all.take(i + 1)).last() == line_times(all[i as int]));
                        assert(stat_times(all)[stat_times(all.take(i + 1)).len() - 1].1 > u64::MAX);
                        return Err(Fault::Overflow);
                    },
                }
            }
        }
        i += 1;
    }
    proof {
        assert(all.take(i as int) =~= all);
        idle_within_total(all);
        assert forall|i: int| 0 <= i < times@.len() implies (#[trigger] times@[i]).idle
            <= times@[i].total by {
            assert(ticks(times@)[i] == (times@[i].idle as nat, times@[i].total as nat));
        }
    }
    Ok(times)
}

proof fn line_idle_within_total(line: Seq<char>)
    ensures
        line_times(line).0 <= line_times(line).1,
{
    part_of_sum(counters(line), 3, 4);
}

/// A CPU is never idle for longer than it counts: in all times that are read, idle ticks are part
/// of the total.
pub proof fn idle_within_total(list: Seq<Seq<char>>)
    ensures
        forall|i: int|
            0 <= i < stat_times(list).len() ==> (#[trigger] stat_times(list)[i]).0 <= stat_times(
                list,
            )[i].1,
    decreases list.len(),
{
    if list.len() > 0 {
        idle_within_total(list.drop_last());
        line_idle_within_total(list.last());
        let head = stat_times(list.drop_last());
        assert forall|i: int| 0 <= i < stat_times(list).len() implies (#[trigger] stat_times(
            list,
        )[i]).0 <= stat_times(list)[i].1 by {
            if i < head.len() {
                assert(stat_times(list)[i] == head[i]);
            }
        }
    }
}

/// What the ticks of the machine as a whole have grown by between two readings.
#[derive(Clone, Copy, PartialEq, Eq, Structural, Debug)]
pub struct Usage {
    /// Ticks spent idle.
    pub idle: u64,
    /// All ticks; more than 0.
    pub total: u64,
}

/// The readings that the next one is compared with.
pub struct AppState {
    pub prev_cpu_times: Vec<CpuTimes>,
    pub prev_total_idle: u64,
    pub prev_total_sum: u64,
}

impl AppState {
    /// Whether the remembered totals are those of the last reading, where it gave any.
    pub open spec fn consistent(self) -> bool {
        self.prev_cpu_times@.len() > 0 ==> {
            &&& self.prev_total_idle == self.prev_cpu_times@[0].idle
            &&& self.prev_total_sum == self.prev_cpu_times@[0].total
        }
    }

    /// What the ticks have grown by since the remembered reading; `None` where the new reading
    /// gives no times or no tick has passed.
    pub open spec fn usage(self, cur: Seq<CpuTimes>) -> Option<Usage> {
        if cur.len() == 0 || cur[0].total <= self.prev_total_sum {
            None
        } else {
            Some(
                Usage {
                    idle: monus(cur[0].idle as nat, self.prev_total_idle as nat) as u64,
                    total: monus(cur[0].total as nat, self.prev_total_sum as nat) as u64,
                },
            )
        }
    }

    /// Remembers a first reading.
    pub fn new(times: Vec<CpuTimes>) -> (r: AppState)
        ensures
            r.consistent(),
            r.prev_cpu_times == times,
            times@.len() > 0 ==> r.prev_total_idle == times@[0].idle && r.prev_total_sum
                == times@[0].total,
            times@.len() == 0 ==> r.prev_total_idle == 0 && r.prev_total_sum == 0,
    {
        let mut idle: u64 = 0;
        let mut sum: u64 = 0;
        if times.len() > 0 {
            idle = times[0].idle;
            sum = times[0].total;
        }
        AppState { prev_cpu_times: times, prev_total_idle: idle, prev_total_sum: sum }
    }

    /// Compares a new reading with the remembered one and remembers it in its place. A reading
    /// without times leaves the remembered totals as they are.
    pub fn update(&mut self, cur: Vec<CpuTimes>) -> (r: Option<Usage>)
        ensures
            r == old(self).usage(cur@),
            final(self).consistent(),
            final(self).prev_cpu_times == cur,
            cur@.len() > 0 ==> final(self).prev_total_idle == cur@[0].idle && final(self).prev_total_sum == cur@[0].total,
            cur@.len() == 0 ==> final(self).prev_total_idle == old(self).prev_total_idle
                && final(self).prev_total_sum == old(self).prev_total_sum,
    {
        let mut r: Option<Usage> = None;
        if cur.len() > 0 {
            let total: u64 = cur[0].total.saturating_sub(self.prev_total_sum);
            let idle: u64 = cur[0].idle.saturating_sub(self.prev_total_idle);
            if total > 0 {
                r = Some(Usage { idle, total });
            }
            self.prev_total_idle = cur[0].idle;
            self.prev_total_sum = cur[0].total;
        }
        self.prev_cpu_times = cur;
        r
    }
}

/// What the CPU panel shows.
pub struct CpuData {
    /// The ticks that the overall load is computed from; `None` reads as no load.
    pub usage: Option<Usage>,
    pub per_core_freq_mhz: Vec<u32>,
    /// In thousandths of a degree Celsius.
    pub temp_milli_c: u64,
}

/// The frequency of a core in MHz, from the file that gives it in kHz. What does not fit 32 bits
/// keeps its low 32 bits.
pub open spec fn core_mhz(file: Option<String>) -> nat {
    (file_number(file) / 1000) % 0x1_0000_0000
}

/// Reads the frequency of a core.
pub fn read_core_mhz(file: &Option<String>) -> (r: u32)
    ensures
        r == core_mhz(*file),
{
    let mhz: u64 = read_file_number(file) / 1000;
    assert(mhz as u32 == mhz % 0x1_0000_0000) by (bit_vector);
    #[verifier::truncate]
    let r: u32 = mhz as u32;
    r
}

/// Makes a CPU reading of the times in `cur`, of the frequency file of each core and of the
/// temperature file; a file that is missing or holds no number reads as 0.
pub fn collect_cpu(
    state: &mut AppState,
    cur: Vec<CpuTimes>,
    freq_files: &Vec<Option<String>>,
    temp_file: &Option<String>,
) -> (r: CpuData)
    ensures
        r.usage == old(state).usage(cur@),
        r.per_core_freq_mhz@.len() == freq_files@.len(),
        forall|i: int|
            0 <= i < freq_files@.len() ==> #[trigger] r.per_core_freq_mhz@[i] == core_mhz(
                freq_files@[i],
            ),
        r.temp_milli_c == file_number(*temp_file),
        final(state).consistent(),
        final(state).prev_cpu_times == cur,
        cur@.len() > 0 ==> final(state).prev_total_idle == cur@[0].idle && final(state).prev_total_sum == cur@[0].total,
        cur@.len() == 0 ==> final(state).prev_total_idle == old(state).prev_total_idle
            && final(state).prev_total_sum == old(state).prev_total_sum,
{
    let usage = state.update(cur);
    let mut freqs: Vec<u32> = Vec::with_capacity(NUM_CPUS);
    let mut i: usize = 0;
    while i < freq_files.len()
        invariant
            i <= freq_files@.len(),
            freqs@.len() == i,
            forall|j: int| 0 <= j < i ==> #[trigger] freqs@[j] == core_mhz(freq_files@[j]),
        decreases freq_files@.len() - i,
    {
        freqs.push(read_core_mhz(&freq_files[i]));
        i += 1;
    }
    CpuData { usage, per_core_freq_mhz: freqs, temp_milli_c: read_file_number(temp_file) }
}

/// A second reading that gives the same times shows no load.
pub proof fn same_reading_shows_no_load(state: AppState)
    requires
        state.consistent(),
    ensures
        state.usage(state.prev_cpu_times@) is None,
{
}

/// Where the counters only grow, and the idle ones by no more than all of them, idle ticks are
/// part of the ticks that passed: the load lies between nothing and everything.
pub proof fn load_is_a_share(state: AppState, cur: Seq<CpuTimes>)
    requires
        cur.len() > 0,
        state.prev_total_idle <= cur[0].idle,
        cur[0].idle - state.prev_total_idle <= cur[0].total - state.prev_total_sum,
    ensures
        match state.usage(cur) {
            Some(u) => u.idle <= u.total && u.total > 0,
            None => cur[0].total == state.prev_total_sum && cur[0].idle == state.prev_total_idle,
        },
{
}

proof fn numbers_of_lists(a: Seq<Seq<char>>, b: Seq<Seq<char>>)
    ensures
        numbers(a + b) == numbers(a) + numbers(b),
    decreases b.len(),
{
    if b.len() == 0 {
        assert(a + b =~= a);
        assert(numbers(a) + numbers(b) =~= numbers(a));
    } else {
        numbers_of_lists(a, b.drop_last());
        assert((a + b).drop_last() =~= a + b.drop_last());
        assert(numbers(a + b) =~= numbers(a) + numbers(b));
    }
}

/// Every word that says a number of 64 bits counts, in order, and no other word does.
pub proof fn numbers_keep_order(a: Seq<Seq<char>>, word: Seq<char>, b: Seq<Seq<char>>)
    ensures
        numbers(a + b) == numbers(a) + numbers(b),
        match number(word, u64::MAX as nat) {
            Some(n) => numbers(seq![word]) == seq![n],
            None => numbers(seq![word]) == Seq::<nat>::empty(),
        },
{
    numbers_of_lists(a, b);
    assert(seq![word].drop_last() =~= Seq::<Seq<char>>::empty());
    assert(numbers(Seq::<Seq<char>>::empty()) =~= Seq::<nat>::empty());
    assert(numbers(seq![word]) =~= match number(word, u64::MAX as nat) {
        Some(n) => seq![n],
        None => Seq::<nat>::empty(),
    });
}

proof fn numbers_of_counters(list: Seq<Seq<char>>, values: Seq<nat>)
    requires
        list.len() == values.len(),
        forall|i: int|
            0 <= i < list.len() ==> number(#[trigger] list[i], u64::MAX as nat) == Some(values[i]),
    ensures
        numbers(list) == values,
    decreases list.len(),
{
    if list.len() > 0 {
        numbers_of_counters(list.drop_last(), values.drop_last());
        assert(numbers(list) =~= values);
    } else {
        assert(numbers(list) =~= values);
    }
}

/// On a line whose words behind the first all say numbers, all of them make up the total, and the
/// fourth and the fifth are idle ticks, whatever the others are and however many there are.
pub proof fn counters_make_up_the_times(line: Seq<char>, values: Seq<nat>)
    requires
        words(line).len() == values.len() + 1,
        forall|i: int|
            0 <= i < values.len() ==> number(#[trigger] words(line)[i + 1], u64::MAX as nat) == Some(
                values[i],
            ),
    ensures
        line_times(line).1 == sum(values),
        values.len() >= 5 ==> line_times(line).0 == values[3] + values[4],
        values.len() == 4 ==> line_times(line).0 == values[3],
        values.len() < 4 ==> line_times(line).0 == 0,
{
    let list = words(line).skip(1);
    assert forall|i: int| 0 <= i < list.len() implies number(#[trigger] list[i], u64::MAX as nat)
        == Some(values[i]) by {
        assert(list[i] == words(line)[i + 1]);
    }
    numbers_of_counters(list, values);
}

/// Idle ticks and the total of a line depend on its numbers only: the counters that its words
/// behind the first say.
pub proof fn times_come_from_the_numbers(line: Seq<char>)
    requires
        words(line).len() > 0,
    ensures
        ({
            let c = numbers(words(line).skip(1));
            &&& line_times(line).1 == sum(c)
            &&& c.len() > 4 ==> line_times(line).0 == c[3] + c[4]
            &&& c.len() == 4 ==> line_times(line).0 == c[3]
            &&& c.len() < 4 ==> line_times(line).0 == 0
        }),
{
}

proof fn stat_times_of_lists(a: Seq<Seq<char>>, b: Seq<Seq<char>>)
    ensures
        stat_times(a + b) == stat_times(a) + stat_times(b),
    decreases b.len(),
{
    if b.len() == 0 {
        assert(a + b =~= a);
        assert(stat_times(a) + stat_times(b) =~= stat_times(a));
    } else {
        stat_times_of_lists(a, b.drop_last());
        assert((a + b).drop_last() =~= a + b.drop_last());
        assert(stat_times(a + b) =~= stat_times(a) + stat_times(b));
    }
}

/// Every line that starts with `cpu` and has at least eight words gives its times, in order, and no
/// other line does.
pub proof fn cpu_lines_give_times(a: Seq<Seq<char>>, line: Seq<char>, b: Seq<Seq<char>>)
    ensures
        stat_times(a + b) == stat_times(a) + stat_times(b),
        seq!['c', 'p', 'u'].is_prefix_of(line) && words(line).len() >= 8 ==> stat_times(seq![line])
            == seq![line_times(line)],
        !(seq!['c', 'p', 'u'].is_prefix_of(line) && words(line).len() >= 8) ==> stat_times(
            seq![line],
        ) == Seq::<(nat, nat)>::empty(),
{
    stat_times_of_lists(a, b);
    reveal_strlit("cpu");
    assert("cpu"@ =~= seq!['c', 'p', 'u']);
    assert(seq![line].drop_last() =~= Seq::<Seq<char>>::empty());
    let none = stat_times(Seq::<Seq<char>>::empty());
    assert(none =~= Seq::<(nat, nat)>::empty());
    assert(none.push(line_times(line)) =~= seq![line_times(line)]);
}

/// Times fit exactly where no total is more than the largest number of 64 bits.
pub proof fn times_fit_64_bits(times: Seq<(nat, nat)>)
    ensures
        !times_fit(times) <==> exists|i: int|
            0 <= i < times.len() && (#[trigger] times[i]).1 >= 0x1_0000_0000_0000_0000,
{
    if !times_fit(times) {
        let i = choose|i: int| 0 <= i < times.len() && !((#[trigger] times[i]).1 <= u64::MAX);
        assert(times[i].1 >= 0x1_0000_0000_0000_0000);
    }
}

/// Between two readings, the ticks that are reported and those remembered make up the new ones: the
/// total always, the idle ones where they have not run backwards, and then there are none. Nothing
/// is reported exactly where there are no times or the total has not grown. Times behind the first
/// have no influence.
pub proof fn growth_makes_up_the_reading(state: AppState, cur: Seq<CpuTimes>, other: Seq<CpuTimes>)
    ensures
        state.usage(cur) is None <==> cur.len() == 0 || cur[0].total <= state.prev_total_sum,
        match state.usage(cur) {
            Some(u) => {
                &&& state.prev_total_sum + u.total == cur[0].total
                &&& cur[0].idle >= state.prev_total_idle ==> state.prev_total_idle + u.idle
                    == cur[0].idle
                &&& cur[0].idle < state.prev_total_idle ==> u.idle == 0
            },
            None => true,
        },
        cur.len() > 0 && other.len() > 0 && cur[0] == other[0] ==> state.usage(cur) == state.usage(
            other,
        ),
{
}

/// What is reported over one step and over the next adds up to what is reported over both, where
/// the counters only grow.
pub proof fn growth_adds_up(first: AppState, second: AppState, cur: Seq<CpuTimes>)
    requires
        second.consistent(),
        second.prev_cpu_times@.len() > 0,
        cur.len() > 0,
        first.prev_total_sum < second.prev_total_sum < cur[0].total,
        first.prev_total_idle <= second.prev_total_idle <= cur[0].idle,
    ensures
        first.usage(second.prev_cpu_times@) is Some && second.usage(cur) is Some && first.usage(
            cur,
        ) is Some,
        first.usage(second.prev_cpu_times@)->0.total + second.usage(cur)->0.total == first.usage(
            cur,
        )->0.total,
        first.usage(second.prev_cpu_times@)->0.idle + second.usage(cur)->0.idle == first.usage(
            cur,
        )->0.idle,
{
}

/// A core's frequency in MHz is the number of whole thousands in its frequency in kHz, as long as
/// that fits 32 bits.
pub proof fn mhz_are_whole_thousands(file: Option<String>)
    requires
        file_number(file) < 0x1_0000_0000 * 1000,
    ensures
        core_mhz(file) * 1000 <= file_number(file) < core_mhz(file) * 1000 + 1000,
{
}

/// What does not fit 32 bits loses a multiple of what they hold.
pub proof fn mhz_keep_their_low_bits(file: Option<String>) -> (lost: nat)
    ensures
        core_mhz(file) < 0x1_0000_0000,
        (core_mhz(file) + lost * 0x1_0000_0000) * 1000 <= file_number(file) < (core_mhz(file) + lost
            * 0x1_0000_0000) * 1000 + 1000,
{
    (file_number(file) / 1000) / 0x1_0000_0000
}

/// Times stay what they are, one for one.
pub proof fn ticks_are_one_for_one(times: Seq<CpuTimes>)
    ensures
        ticks(times).len() == times.len(),
        forall|i: int|
            0 <= i < times.len() ==> (#[trigger] ticks(times)[i]).0 == times[i].idle && ticks(
                times,
            )[i].1 == times[i].total,
{
}

/// Remembered totals are consistent exactly where they are those of the first remembered time, if
/// there is one.
pub proof fn totals_are_those_of_the_first(state: AppState)
    ensures
        state.prev_cpu_times@.len() == 0 ==> state.consistent(),
        state.prev_cpu_times@.len() > 0 ==> (state.consistent() <==> CpuTimes {
            idle: state.prev_total_idle,
            total: state.prev_total_sum,
        } == state.prev_cpu_times@[0]),
{
}

} // verus!
