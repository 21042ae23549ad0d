//! GPU memory, load, clock and temperature.

use vstd::prelude::*;
use vstd::slice::slice_subrange;

use crate::number::{file_number, number, parse_u32, read_file_number};
use crate::share::{share, Share};
use crate::text::{
    contents, ends_with, find_from, lines, position_from_bounds, split_lines, split_words, to_chars,
    trim, trimmed, words,
};

verus! {

/// The contents of the GPU's files; `None` for one that could not be read.
pub struct GpuFiles {
    pub vram_used: Option<String>,
    pub vram_total: Option<String>,
    pub gtt_used: Option<String>,
    pub gtt_total: Option<String>,
    pub busy_percent: Option<String>,
    /// The table of clock levels.
    pub sclk: Option<String>,
    pub temp: Option<String>,
}

/// What the GPU panel shows.
#[derive(Clone, Copy, PartialEq, Eq, Structural, Debug)]
pub struct GpuData {
    pub vram_used_mb: u64,
    pub vram_total_mb: u64,
    pub gtt_used_mb: u64,
    pub gtt_total_mb: u64,
    pub busy_pct: u64,
    pub clock_mhz: u32,
    /// In thousandths of a degree Celsius.
    pub temp_milli_c: u64,
}

impl GpuData {
    /// The share of the GPU's own memory that is in use.
    pub fn vram_share(&self) -> (r: Option<Share>)
        ensures
            r == share(self.vram_used_mb, self.vram_total_mb),
    {
        Share::of(self.vram_used_mb, self.vram_total_mb)
    }

    /// The share of the memory set aside for the GPU that is in use.
    pub fn gtt_share(&self) -> (r: Option<Share>)
        ensures
            r == share(self.gtt_used_mb, self.gtt_total_mb),
    {
        Share::of(self.gtt_used_mb, self.gtt_total_mb)
    }
}

/// Whether a word gives a frequency in MHz.
pub open spec fn is_frequency(word: Seq<char>) -> bool {
    "Mhz"@.is_suffix_of(word) || "MHz"@.is_suffix_of(word)
}

/// The first frequency among the words from position `from` on, without its unit.
pub open spec fn frequency_from(list: Seq<Seq<char>>, from: int) -> Option<Seq<char>>
    decreases list.len() - from,
{
    if from < 0 || from >= list.len() {
        None
    } else if is_frequency(list[from]) {
        Some(list[from].take(list[from].len() - 3))
    } else {
        frequency_from(list, from + 1)
    }
}

/// The frequency on a line of the clock table that is marked as active.
pub open spec fn active_frequency(line: Seq<char>) -> Option<Seq<char>> {
    if line.contains('*') {
        frequency_from(words(line), 0)
    } else {
        None
    }
}

/// The clock that the lines of the clock table from position `from` on give: the frequency on the
/// first active line that has one, 0 where it is no number of 32 bits or no line has one.
pub open spec fn clock_from(list: Seq<Seq<char>>, from: int) -> nat
    decreases list.len() - from,
{
    if from < 0 || from >= list.len() {
        0
    } else {
        match active_frequency(list[from]) {
            Some(text) => match number(text, u32::MAX as nat) {
                Some(n) => n,
                None => 0,
            },
            None => clock_from(list, from + 1),
        }
    }
}

/// The active clock in a clock table that may be missing.
pub open spec fn active_clock(table: Option<String>) -> nat {
    match table {
        Some(s) => clock_from(lines(trimmed(s@)), 0),
        None => 0,
    }
}

/// Finds the first frequency among words.
fn find_frequency<'a>(list: &Vec<&'a [char]>) -> (r: Option<&'a [char]>)
    ensures
        match r {
            Some(text) => frequency_from(contents(list@), 0) == Some(text@),
            None => frequency_from(contents(list@), 0) is None,
        },
{
    let lower = to_chars("Mhz");
    let upper = to_chars("MHz");
    proof {
        reveal_strlit("Mhz");
        reveal_strlit("MHz");
    }
    let mut i: usize = 0;
    while i < list.len()
        invariant
            i <= list@.len(),
            lower@ == "Mhz"@,
            upper@ == "MHz"@,
            "Mhz"@.len() == 3,
            "MHz"@.len() == 3,
            frequency_from(contents(list@), 0) == frequency_from(contents(list@), i as int),
        decreases list@.len() - i,
    {
        let word: &'a [char] = list[i];
        assert(contents(list@)[i as int] == word@);
        if ends_with(word, lower.as_slice()) || ends_with(word, upper.as_slice()) {
            let text = slice_subrange(word, 0, word.len() - 3);
            assert(text@ =~= word@.take(word@.len() - 3));
            return Some(text);
        }
        i += 1;
    }
    None
}

/// Reads the active clock out of the clock table.
pub fn read_clock(table: &Option<String>) -> (r: u32)
    ensures
        r == active_clock(*table),
{
    let s: &String = match table {
        Some(s) => s,
        None => {
            return 0;
        },
    };
    let chars = to_chars(s.as_str());
    let list = split_lines(trim(chars.as_slice()));
    let ghost all = lines(trimmed(s@));
    let mut i: usize = 0;
    while i < list.len()
        invariant
            i <= list@.len(),
            contents(list@) == all,
            active_clock(*table) == clock_from(all, 0),
            clock_from(all, 0) == clock_from(all, i as int),
        ensures
            i >= list@.len(),
            contents(list@) == all,
            clock_from(all, 0) == clock_from(all, i as int),
        decreases list@.len() - i,
    {
        let line: &[char] = list[i];
        assert(all[i as int] == line@);
        let star: usize = find_from(line, '*', 0);
        proof {
            position_from_bounds(line@, '*', 0);
            if star < line@.len() {
                assert(line@[star as int] == '*');
            }
            assert(line@.contains('*') == (star < line@.len()));
        }
        if star < line.len() {
            let parts = split_words(line);
            match find_frequency(&parts) {
                Some(text) => {
                    return match parse_u32(text) {
                        Some(n) => n,
                        None => 0,
                    };
                },
                None => {},
            }
        }
        i += 1;
    }
    0
}

/// Bytes in whole mebibytes.
pub open spec fn mebibytes(bytes: nat) -> nat {
    bytes / 1048576
}

/// Makes a GPU reading of the GPU's files; a file that is missing or holds no number reads as 0.
pub fn collect_gpu(files: &GpuFiles) -> (r: GpuData)
    ensures
        r.vram_used_mb == mebibytes(file_number(files.vram_used)),
        r.vram_total_mb == mebibytes(file_number(files.vram_total)),
        r.gtt_used_mb == mebibytes(file_number(files.gtt_used)),
        r.gtt_total_mb == mebibytes(file_number(files.gtt_total)),
        r.busy_pct == file_number(files.busy_percent),
        r.clock_mhz == active_clock(files.sclk),
        r.temp_milli_c == file_number(files.temp),
{
    GpuData {
        vram_used_mb: read_file_number(&files.vram_used) / (1024 * 1024),
        vram_total_mb: read_file_number(&files.vram_total) / (1024 * 1024),
        gtt_used_mb: read_file_number(&files.gtt_used) / (1024 * 1024),
        gtt_total_mb: read_file_number(&files.gtt_total) / (1024 * 1024),
        busy_pct: read_file_number(&files.busy_percent),
        clock_mhz: read_clock(&files.sclk),
        temp_milli_c: read_file_number(&files.temp),
    }
}

/// Memory that is in use within the memory there is, in bytes, shows so in mebibytes too.
pub proof fn mebibytes_keep_order(used: nat, total: nat)
    requires
        used <= total,
    ensures
        mebibytes(used) <= mebibytes(total),
{
}

/// Whether a word ends in `Mhz` or `MHz`.
pub open spec fn ends_in_mhz(word: Seq<char>) -> bool {
    let n = word.len() as int;
    n >= 3 && word[n - 3] == 'M' && (word[n - 2] == 'h' || word[n - 2] == 'H') && word[n - 1] == 'z'
}

proof fn ends_in_mhz_is_frequency(word: Seq<char>)
    ensures
        ends_in_mhz(word) <==> is_frequency(word),
{
    reveal_strlit("Mhz");
    reveal_strlit("MHz");
    let n = word.len() as int;
    if n >= 3 {
        let tail = word.subrange(n - 3, n);
        assert(tail[0] == word[n - 3] && tail[1] == word[n - 2] && tail[2] == word[n - 1]);
        if ends_in_mhz(word) {
            if word[n - 2] == 'h' {
                assert(tail =~= "Mhz"@);
            } else {
                assert(tail =~= "MHz"@);
            }
        }
    }
}

proof fn first_frequency(list: Seq<Seq<char>>, from: int, i: int)
    requires
        0 <= from <= i < list.len(),
        ends_in_mhz(list[i]),
        forall|j: int| from <= j < i ==> !ends_in_mhz(#[trigger] list[j]),
    ensures
        frequency_from(list, from) == Some(list[i].take(list[i].len() - 3)),
    decreases i - from,
{
    ends_in_mhz_is_frequency(list[from]);
    if from < i {
        first_frequency(list, from + 1, i);
    }
}

proof fn no_frequency(list: Seq<Seq<char>>, from: int)
    requires
        0 <= from <= list.len(),
        forall|j: int| from <= j < list.len() ==> !ends_in_mhz(#[trigger] list[j]),
    ensures
        frequency_from(list, from) is None,
    decreases list.len() - from,
{
    if from < list.len() {
        ends_in_mhz_is_frequency(list[from]);
        no_frequency(list, from + 1);
    }
}

/// Whether a line holds a star and a word that ends in `Mhz` or `MHz`.
pub open spec fn gives_clock(line: Seq<char>) -> bool {
    line.contains('*') && exists|k: int|
        0 <= k < words(line).len() && ends_in_mhz(#[trigger] words(line)[k])
}

proof fn clock_of_first_line(list: Seq<Seq<char>>, from: int, i: int, k: int)
    requires
        0 <= from <= i < list.len(),
        list[i].contains('*'),
        0 <= k < words(list[i]).len(),
        ends_in_mhz(words(list[i])[k]),
        forall|j: int| 0 <= j < k ==> !ends_in_mhz(#[trigger] words(list[i])[j]),
        forall|j: int| from <= j < i ==> !gives_clock(#[trigger] list[j]),
    ensures
        clock_from(list, from) == match number(
            words(list[i])[k].take(words(list[i])[k].len() - 3),
            u32::MAX as nat,
        ) {
            Some(n) => n,
            None => 0,
        },
    decreases i - from,
{
    if from < i {
        let line = list[from];
        if line.contains('*') {
            no_frequency(words(line), 0);
        }
        clock_of_first_line(list, from + 1, i, k);
    } else {
        first_frequency(words(list[i]), 0, k);
    }
}

proof fn clock_of_no_line(list: Seq<Seq<char>>, from: int)
    requires
        0 <= from <= list.len(),
        forall|j: int| from <= j < list.len() ==> !gives_clock(#[trigger] list[j]),
    ensures
        clock_from(list, from) == 0,
    decreases list.len() - from,
{
    if from < list.len() {
        if list[from].contains('*') {
            no_frequency(words(list[from]), 0);
        }
        clock_of_no_line(list, from + 1);
    }
}

/// The clock is what the first line with a star and a frequency says, in whatever line it stands:
/// the digits of its first word that ends in `Mhz` or `MHz`, where they say a number of 32 bits,
/// and 0 where they do not.
pub proof fn clock_is_the_first_active_one(table: String, i: int, k: int)
    requires
        0 <= i < lines(trimmed(table@)).len(),
        lines(trimmed(table@))[i].contains('*'),
        0 <= k < words(lines(trimmed(table@))[i]).len(),
        ends_in_mhz(words(lines(trimmed(table@))[i])[k]),
        forall|j: int| 0 <= j < k ==> !ends_in_mhz(#[trigger] words(lines(trimmed(table@))[i])[j]),
        forall|j: int| 0 <= j < i ==> !gives_clock(#[trigger] lines(trimmed(table@))[j]),
    ensures
        ({
            let word = words(lines(trimmed(table@))[i])[k];
            match number(word.take(word.len() - 3), u32::MAX as nat) {
                Some(n) => active_clock(Some(table)) == n,
                None => active_clock(Some(table)) == 0,
            }
        }),
{
    clock_of_first_line(lines(trimmed(table@)), 0, i, k);
}

/// There is no clock where no line has a star and a frequency, nor where there is no table.
pub proof fn no_active_line_no_clock(table: String)
    ensures
        active_clock(None) == 0,
        (forall|j: int|
            0 <= j < lines(trimmed(table@)).len() ==> !gives_clock(
                #[trigger] lines(trimmed(table@))[j],
            )) ==> active_clock(Some(table)) == 0,
{
    let list = lines(trimmed(table@));
    if forall|j: int| 0 <= j < list.len() ==> !gives_clock(#[trigger] list[j]) {
        clock_of_no_line(list, 0);
    }
}

/// Mebibytes are the whole multiples of 1,048,576 bytes.
pub proof fn mebibytes_are_whole(bytes: nat)
    ensures
        mebibytes(bytes) * 1_048_576 <= bytes < mebibytes(bytes) * 1_048_576 + 1_048_576,
{
}

} // verus!
