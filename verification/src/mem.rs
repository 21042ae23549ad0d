//! System memory, swap and compressed swap.

use vstd::prelude::*;

use crate::fault::Fault;
use crate::number::{monus, number, number_or_zero, parse_or_zero};
use crate::share::{share, Share};
use crate::text::{
    contents, lines, split_lines, split_words, starts_with, to_chars, trim, trimmed, words,
};

verus! {

/// What the memory panel shows.
#[derive(Clone, Copy, PartialEq, Eq, Structural, Debug)]
pub struct MemData {
    pub total_mb: u64,
    pub used_mb: u64,
    pub swap_total_mb: u64,
    pub swap_used_mb: u64,
    pub zram_orig_kb: u64,
    pub zram_compr_kb: u64,
}

impl MemData {
    /// The share of the memory that is in use.
    pub fn ram_share(&self) -> (r: Option<Share>)
        ensures
            r == share(self.used_mb, self.total_mb),
    {
        Share::of(self.used_mb, self.total_mb)
    }

    /// The share of the swap that is in use.
    pub fn swap_share(&self) -> (r: Option<Share>)
        ensures
            r == share(self.swap_used_mb, self.swap_total_mb),
    {
        Share::of(self.swap_used_mb, self.swap_total_mb)
    }

    /// How many times what is swapped out fits into the room that it takes up compressed.
    pub fn zram_ratio(&self) -> (r: Option<Share>)
        ensures
            r == share(self.zram_orig_kb, self.zram_compr_kb),
    {
        Share::of(self.zram_orig_kb, self.zram_compr_kb)
    }
}

/// Whether a line of `/proc/meminfo` gives a value for `key`.
pub open spec fn has_entry(line: Seq<char>, key: Seq<char>) -> bool {
    key.is_prefix_of(line) && words(line).len() >= 2
}

/// The value for `key` on the lines of `/proc/meminfo` from position `from` on: the second word of
/// the first line that gives one, 0 where that is no number or no line gives one.
pub open spec fn entry_from(list: Seq<Seq<char>>, key: Seq<char>, from: int) -> nat
    decreases list.len() - from,
{
    if from < 0 || from >= list.len() {
        0
    } else if has_entry(list[from], key) {
        number_or_zero(words(list[from])[1])
    } else {
        entry_from(list, key, from + 1)
    }
}

/// The value for `key` in `/proc/meminfo`.
pub open spec fn entry(meminfo: Seq<char>, key: Seq<char>) -> nat {
    entry_from(lines(meminfo), key, 0)
}

/// Memory that could be had at once: free, or holding what can be read again.
pub open spec fn available_kb(meminfo: Seq<char>) -> nat {
    entry(meminfo, "MemFree:"@) + entry(meminfo, "Buffers:"@) + entry(meminfo, "Cached:"@) + entry(
        meminfo,
        "SReclaimable:"@,
    )
}

/// Memory in use.
pub open spec fn used_kb(meminfo: Seq<char>) -> nat {
    monus(entry(meminfo, "MemTotal:"@), available_kb(meminfo))
}

/// Swap in use.
pub open spec fn swap_used_kb(meminfo: Seq<char>) -> nat {
    monus(entry(meminfo, "SwapTotal:"@), entry(meminfo, "SwapFree:"@))
}

/// The field at a position in the statistics of compressed swap, 0 where it is missing or no
/// number.
pub open spec fn stat_field(mm_stat: Option<String>, i: int) -> nat {
    match mm_stat {
        Some(s) => if i < words(trimmed(s@)).len() {
            number_or_zero(words(trimmed(s@))[i])
        } else {
            0
        },
        None => 0,
    }
}

/// Looks up the value for a key.
fn look_up(list: &Vec<&[char]>, key: &str) -> (r: u64)
    ensures
        r == entry_from(contents(list@), key@, 0),
{
    let prefix = to_chars(key);
    let mut i: usize = 0;
    while i < list.len()
        invariant
            i <= list@.len(),
            prefix@ == key@,
            entry_from(contents(list@), key@, 0) == entry_from(contents(list@), key@, i as int),
        ensures
            i >= list@.len(),
            entry_from(contents(list@), key@, 0) == entry_from(contents(list@), key@, i as int),
        decreases list@.len() - i,
    {
        assert(contents(list@)[i as int] == list@[i as int]@);
        if starts_with(list[i], prefix.as_slice()) {
            let parts = split_words(list[i]);
            if parts.len() >= 2 {
                assert(contents(parts@)[1] == parts@[1]@);
                return parse_or_zero(parts[1]);
            }
        }
        i += 1;
    }
    0
}

/// Reads the first two statistics of compressed swap.
fn read_mm_stat(mm_stat: &Option<String>) -> (r: (u64, u64))
    ensures
        r.0 == stat_field(*mm_stat, 0),
        r.1 == stat_field(*mm_stat, 1),
{
    match mm_stat {
        Some(s) => {
            let chars = to_chars(s.as_str());
            let parts = split_words(trim(chars.as_slice()));
            let ghost all = words(trimmed(s@));
            assert(contents(parts@) == all);
            let orig: u64 = if parts.len() > 0 {
                assert(all[0] == parts@[0]@);
                parse_or_zero(parts[0])
            } else {
                0
            };
            let compr: u64 = if parts.len() > 1 {
                assert(all[1] == parts@[1]@);
                parse_or_zero(parts[1])
            } else {
                0
            };
            (orig, compr)
        },
        None => (0, 0),
    }
}

/// The memory reading that `/proc/meminfo` and the statistics of compressed swap make. It is given
/// up where the memory that could be had at once does not fit 64 bits.
pub open spec fn mem_reading(meminfo: Seq<char>, mm_stat: Option<String>) -> Result<
    MemData,
    Fault,
> {
    if available_kb(meminfo) > u64::MAX {
        Err(Fault::Overflow)
    } else {
        Ok(
            MemData {
                total_mb: (entry(meminfo, "MemTotal:"@) / 1024) as u64,
                used_mb: (used_kb(meminfo) / 1024) as u64,
                swap_total_mb: (entry(meminfo, "SwapTotal:"@) / 1024) as u64,
                swap_used_mb: (swap_used_kb(meminfo) / 1024) as u64,
                zram_orig_kb: (stat_field(mm_stat, 0) / 1024) as u64,
                zram_compr_kb: (stat_field(mm_stat, 1) / 1024) as u64,
            },
        )
    }
}

/// Makes a memory reading of `/proc/meminfo` and of the statistics of compressed swap.
pub fn collect_mem(meminfo: &str, mm_stat: &Option<String>) -> (r: Result<MemData, Fault>)
    ensures
        r == mem_reading(meminfo@, *mm_stat),
{
    let chars = to_chars(meminfo);
    let list = split_lines(chars.as_slice());
    let total: u64 = look_up(&list, "MemTotal:");
    let free: u64 = look_up(&list, "MemFree:");
    let buffers: u64 = look_up(&list, "Buffers:");
    let cached: u64 = look_up(&list, "Cached:");
    let sreclaimable: u64 = look_up(&list, "SReclaimable:");
    let available: u128 = free as u128 + buffers as u128 + cached as u128 + sreclaimable as u128;
    if available > u64::MAX as u128 {
        return Err(Fault::Overflow);
    }
    let used: u64 = total.saturating_sub(available as u64);
    let swap_total: u64 = look_up(&list, "SwapTotal:");
    let swap_free: u64 = look_up(&list, "SwapFree:");
    let swap_used: u64 = swap_total.saturating_sub(swap_free);
    let (orig, compr) = read_mm_stat(mm_stat);
    Ok(
        MemData {
            total_mb: total / 1024,
            used_mb: used / 1024,
            swap_total_mb: swap_total / 1024,
            swap_used_mb: swap_used / 1024,
            zram_orig_kb: orig / 1024,
            zram_compr_kb: compr / 1024,
        },
    )
}

/// No more memory is in use than there is, nor more swap.
pub proof fn used_within_total(meminfo: Seq<char>)
    ensures
        used_kb(meminfo) / 1024 <= entry(meminfo, "MemTotal:"@) / 1024,
        swap_used_kb(meminfo) / 1024 <= entry(meminfo, "SwapTotal:"@) / 1024,
{
}

/// The keys of `/proc/meminfo` that are looked up.
pub open spec fn is_key(key: Seq<char>) -> bool {
    ||| key == "MemTotal:"@
    ||| key == "MemFree:"@
    ||| key == "Buffers:"@
    ||| key == "Cached:"@
    ||| key == "SReclaimable:"@
    ||| key == "SwapTotal:"@
    ||| key == "SwapFree:"@
}

/// Whether a line starts with one of the keys that are looked up.
pub open spec fn known(line: Seq<char>) -> bool {
    exists|key: Seq<char>| is_key(key) && #[trigger] key.is_prefix_of(line)
}

/// The lines of a list that start with one of the keys, in order.
pub open spec fn known_lines(list: Seq<Seq<char>>) -> Seq<Seq<char>>
    decreases list.len(),
{
    if list.len() == 0 {
        seq![]
    } else if known(list.first()) {
        seq![list.first()] + known_lines(list.drop_first())
    } else {
        known_lines(list.drop_first())
    }
}

/// Whether no two lines of a list give different values for a key, as where it occurs once.
pub open spec fn unambiguous(list: Seq<Seq<char>>, key: Seq<char>) -> bool {
    forall|i: int, j: int|
        0 <= i < list.len() && 0 <= j < list.len() && has_entry(#[trigger] list[i], key)
            && has_entry(#[trigger] list[j], key) ==> list[i] == list[j]
}

proof fn entry_of_rest(list: Seq<Seq<char>>, key: Seq<char>, from: int)
    requires
        1 <= from,
        list.len() > 0,
    ensures
        entry_from(list, key, from) == entry_from(list.drop_first(), key, from - 1),
    decreases list.len() - from,
{
    if from < list.len() {
        entry_of_rest(list, key, from + 1);
    }
}

proof fn entry_of_known(list: Seq<Seq<char>>, key: Seq<char>)
    requires
        is_key(key),
    ensures
        entry_from(list, key, 0) == entry_from(known_lines(list), key, 0),
    decreases list.len(),
{
    if list.len() > 0 {
        let rest = list.drop_first();
        entry_of_known(rest, key);
        entry_of_rest(list, key, 1);
        if known(list.first()) {
            let kept = known_lines(list);
            assert(kept.drop_first() =~= known_lines(rest));
            entry_of_rest(kept, key, 1);
        } else {
            assert(!key.is_prefix_of(list.first()));
        }
    }
}

proof fn entry_is_first(list: Seq<Seq<char>>, key: Seq<char>, from: int) -> (r: Option<int>)
    requires
        0 <= from,
    ensures
        match r {
            Some(i) => {
                &&& from <= i < list.len() && has_entry(list[i], key)
                &&& entry_from(list, key, from) == number_or_zero(words(list[i])[1])
            },
            None => {
                &&& entry_from(list, key, from) == 0
                &&& forall|i: int| from <= i < list.len() ==> !has_entry(#[trigger] list[i], key)
            },
        },
    decreases list.len() - from,
{
    if from >= list.len() {
        None
    } else if has_entry(list[from], key) {
        Some(from)
    } else {
        entry_is_first(list, key, from + 1)
    }
}

proof fn entry_of_permuted(a: Seq<Seq<char>>, b: Seq<Seq<char>>, key: Seq<char>)
    requires
        a.to_multiset() == b.to_multiset(),
        unambiguous(a, key),
    ensures
        entry_from(a, key, 0) == entry_from(b, key, 0),
{
    a.to_multiset_ensures();
    b.to_multiset_ensures();
    let i = entry_is_first(a, key, 0);
    let j = entry_is_first(b, key, 0);
    if j is Some {
        let line = b[j->0];
        assert(b.contains(line));
        assert(a.to_multiset().count(line) > 0);
        assert(a.contains(line));
        let k = choose|k: int| 0 <= k < a.len() && a[k] == line;
        assert(has_entry(a[k], key));
    }
    if i is Some {
        let line = a[i->0];
        assert(a.contains(line));
        assert(b.to_multiset().count(line) > 0);
        assert(b.contains(line));
        let k = choose|k: int| 0 <= k < b.len() && b[k] == line;
        assert(has_entry(b[k], key));
    }
}

/// A line that starts with none of the keys gives no value for any of them, wherever it stands.
pub proof fn unknown_line_gives_nothing(
    head: Seq<Seq<char>>,
    line: Seq<char>,
    tail: Seq<Seq<char>>,
    key: Seq<char>,
)
    requires
        is_key(key),
        !known(line),
    ensures
        entry_from(head.push(line) + tail, key, 0) == entry_from(head + tail, key, 0),
    decreases head.len(),
{
    let with = head.push(line) + tail;
    let without = head + tail;
    if head.len() == 0 {
        assert(!key.is_prefix_of(line));
        assert(with.drop_first() =~= tail);
        assert(without =~= tail);
        entry_of_rest(with, key, 1);
    } else {
        let rest = head.drop_first();
        unknown_line_gives_nothing(rest, line, tail, key);
        assert(with.drop_first() =~= rest.push(line) + tail);
        assert(without.drop_first() =~= rest + tail);
        entry_of_rest(with, key, 1);
        entry_of_rest(without, key, 1);
    }
}

/// Only lines that start with one of the keys count: where two texts have the same ones in the same
/// order, others may be added, removed or moved, and the reading is the same.
pub proof fn unknown_lines_change_nothing(a: Seq<char>, b: Seq<char>, mm_stat: Option<String>)
    requires
        known_lines(lines(a)) == known_lines(lines(b)),
    ensures
        mem_reading(a, mm_stat) == mem_reading(b, mm_stat),
{
    assert forall|key: Seq<char>| is_key(key) implies #[trigger] entry(a, key) == entry(b, key) by {
        entry_of_known(lines(a), key);
        entry_of_known(lines(b), key);
    }
    same_entries_same_reading(a, b, mm_stat);
}

/// The order of the lines does not count: where each key occurs once, or never with two different
/// values, the lines that start with a key may be permuted, and the reading is the same.
pub proof fn order_changes_nothing(a: Seq<char>, b: Seq<char>, mm_stat: Option<String>)
    requires
        known_lines(lines(a)).to_multiset() == known_lines(lines(b)).to_multiset(),
        forall|key: Seq<char>|
            is_key(key) ==> #[trigger] unambiguous(known_lines(lines(a)), key),
    ensures
        mem_reading(a, mm_stat) == mem_reading(b, mm_stat),
{
    assert forall|key: Seq<char>| is_key(key) implies #[trigger] entry(a, key) == entry(b, key) by {
        entry_of_known(lines(a), key);
        entry_of_known(lines(b), key);
        assert(unambiguous(known_lines(lines(a)), key));
        entry_of_permuted(known_lines(lines(a)), known_lines(lines(b)), key);
    }
    same_entries_same_reading(a, b, mm_stat);
}

proof fn same_entries_same_reading(a: Seq<char>, b: Seq<char>, mm_stat: Option<String>)
    requires
        forall|key: Seq<char>| is_key(key) ==> #[trigger] entry(a, key) == entry(b, key),
    ensures
        mem_reading(a, mm_stat) == mem_reading(b, mm_stat),
{
    assert(entry(a, "MemTotal:"@) == entry(b, "MemTotal:"@));
    assert(entry(a, "MemFree:"@) == entry(b, "MemFree:"@));
    assert(entry(a, "Buffers:"@) == entry(b, "Buffers:"@));
    assert(entry(a, "Cached:"@) == entry(b, "Cached:"@));
    assert(entry(a, "SReclaimable:"@) == entry(b, "SReclaimable:"@));
    assert(entry(a, "SwapTotal:"@) == entry(b, "SwapTotal:"@));
    assert(entry(a, "SwapFree:"@) == entry(b, "SwapFree:"@));
}

proof fn entry_skips(list: Seq<Seq<char>>, key: Seq<char>, from: int, i: int)
    requires
        0 <= from <= i <= list.len(),
        forall|j: int|
            from <= j < i ==> !(key.is_prefix_of(#[trigger] list[j]) && words(list[j]).len() >= 2),
    ensures
        entry_from(list, key, from) == entry_from(list, key, i),
    decreases i - from,
{
    if from < i {
        assert(!has_entry(list[from], key));
        entry_skips(list, key, from + 1, i);
    }
}

/// The value of a key is what the second word says on the first line that starts with the key and
/// has a second word, in whatever line that is: the number that it says, or 0 where it says none of
/// 64 bits.
pub proof fn first_line_gives_the_value(meminfo: Seq<char>, key: Seq<char>, i: int)
    requires
        0 <= i < lines(meminfo).len(),
        key.is_prefix_of(lines(meminfo)[i]),
        words(lines(meminfo)[i]).len() >= 2,
        forall|j: int|
            0 <= j < i ==> !(key.is_prefix_of(#[trigger] lines(meminfo)[j]) && words(
                lines(meminfo)[j],
            ).len() >= 2),
    ensures
        match number(words(lines(meminfo)[i])[1], u64::MAX as nat) {
            Some(n) => entry(meminfo, key) == n,
            None => entry(meminfo, key) == 0,
        },
{
    entry_skips(lines(meminfo), key, 0, i);
}

/// A key that no line starts with, or none with a second word, has the value 0.
pub proof fn missing_key_has_no_value(meminfo: Seq<char>, key: Seq<char>)
    requires
        forall|j: int|
            0 <= j < lines(meminfo).len() ==> !(key.is_prefix_of(#[trigger] lines(meminfo)[j])
                && words(lines(meminfo)[j]).len() >= 2),
    ensures
        entry(meminfo, key) == 0,
{
    entry_skips(lines(meminfo), key, 0, lines(meminfo).len() as int);
}

/// What the values of the keys say of memory and swap.
pub struct MemBalance {
    pub total: nat,
    pub free: nat,
    pub buffers: nat,
    pub cached: nat,
    pub sreclaimable: nat,
    pub swap_total: nat,
    pub swap_free: nat,
}

/// The values of the keys.
pub open spec fn balance(meminfo: Seq<char>) -> MemBalance {
    MemBalance {
        total: entry(meminfo, "MemTotal:"@),
        free: entry(meminfo, "MemFree:"@),
        buffers: entry(meminfo, "Buffers:"@),
        cached: entry(meminfo, "Cached:"@),
        sreclaimable: entry(meminfo, "SReclaimable:"@),
        swap_total: entry(meminfo, "SwapTotal:"@),
        swap_free: entry(meminfo, "SwapFree:"@),
    }
}

/// Memory in use, free memory, buffers, cache and memory that can be reclaimed make up the memory
/// there is; where the others are more than that, none is in use. Swap in use and free swap make up
/// the swap there is, in the same way. Each size is the number of whole multiples of 1024 that it
/// is made of. The reading is given up exactly where memory that is not in use does not fit 64
/// bits.
pub proof fn memory_adds_up(meminfo: Seq<char>, mm_stat: Option<String>, used: nat, swap_used: nat)
    requires
        ({
            let b = balance(meminfo);
            let idle = b.free + b.buffers + b.cached + b.sreclaimable;
            &&& idle <= b.total ==> used + b.free + b.buffers + b.cached + b.sreclaimable == b.total
            &&& idle > b.total ==> used == 0
            &&& b.swap_free <= b.swap_total ==> swap_used + b.swap_free == b.swap_total
            &&& b.swap_free > b.swap_total ==> swap_used == 0
        }),
    ensures
        ({
            let b = balance(meminfo);
            match mem_reading(meminfo, mm_stat) {
                Ok(m) => {
                    &&& b.free + b.buffers + b.cached + b.sreclaimable < 0x1_0000_0000_0000_0000
                    &&& m.total_mb * 1024 <= b.total < m.total_mb * 1024 + 1024
                    &&& m.used_mb * 1024 <= used < m.used_mb * 1024 + 1024
                    &&& m.swap_total_mb * 1024 <= b.swap_total < m.swap_total_mb * 1024 + 1024
                    &&& m.swap_used_mb * 1024 <= swap_used < m.swap_used_mb * 1024 + 1024
                },
                Err(fault) => {
                    &&& fault == Fault::Overflow
                    &&& b.free + b.buffers + b.cached + b.sreclaimable >= 0x1_0000_0000_0000_0000
                },
            }
        }),
{
    entry_fits(lines(meminfo), "MemTotal:"@, 0);
    entry_fits(lines(meminfo), "SwapTotal:"@, 0);
}

proof fn entry_fits(list: Seq<Seq<char>>, key: Seq<char>, from: int)
    requires
        0 <= from,
    ensures
        entry_from(list, key, from) <= u64::MAX,
    decreases list.len() - from,
{
    if from < list.len() && !has_entry(list[from], key) {
        entry_fits(list, key, from + 1);
    }
}

/// More cache, with all else as it was, means as much less memory in use, however large the cache
/// and the rest are; more free memory, more buffers and more memory that can be reclaimed do the
/// same.
pub proof fn cache_is_not_in_use(a: Seq<char>, b: Seq<char>, more: nat)
    requires
        ({
            let x = balance(a);
            let y = balance(b);
            &&& y.total == x.total
            &&& y.free + y.buffers + y.cached + y.sreclaimable == x.free + x.buffers + x.cached
                + x.sreclaimable + more
            &&& y.free + y.buffers + y.cached + y.sreclaimable <= y.total
        }),
    ensures
        used_kb(b) + more == used_kb(a),
{
}

/// The keys are looked up by their names in `/proc/meminfo`, with the colon.
pub proof fn keys_are_spelled_out(meminfo: Seq<char>)
    ensures
        balance(meminfo).total == entry(
            meminfo,
            seq!['M', 'e', 'm', 'T', 'o', 't', 'a', 'l', ':'],
        ),
        balance(meminfo).free == entry(meminfo, seq!['M', 'e', 'm', 'F', 'r', 'e', 'e', ':']),
        balance(meminfo).buffers == entry(meminfo, seq!['B', 'u', 'f', 'f', 'e', 'r', 's', ':']),
        balance(meminfo).cached == entry(meminfo, seq!['C', 'a', 'c', 'h', 'e', 'd', ':']),
        balance(meminfo).sreclaimable == entry(
            meminfo,
            seq!['S', 'R', 'e', 'c', 'l', 'a', 'i', 'm', 'a', 'b', 'l', 'e', ':'],
        ),
        balance(meminfo).swap_total == entry(
            meminfo,
            seq!['S', 'w', 'a', 'p', 'T', 'o', 't', 'a', 'l', ':'],
        ),
        balance(meminfo).swap_free == entry(
            meminfo,
            seq!['S', 'w', 'a', 'p', 'F', 'r', 'e', 'e', ':'],
        ),
{
    reveal_strlit("MemTotal:");
    reveal_strlit("MemFree:");
    reveal_strlit("Buffers:");
    reveal_strlit("Cached:");
    reveal_strlit("SReclaimable:");
    reveal_strlit("SwapTotal:");
    reveal_strlit("SwapFree:");
    assert("MemTotal:"@ =~= seq!['M', 'e', 'm', 'T', 'o', 't', 'a', 'l', ':']);
    assert("MemFree:"@ =~= seq!['M', 'e', 'm', 'F', 'r', 'e', 'e', ':']);
    assert("Buffers:"@ =~= seq!['B', 'u', 'f', 'f', 'e', 'r', 's', ':']);
    assert("Cached:"@ =~= seq!['C', 'a', 'c', 'h', 'e', 'd', ':']);
    assert("SReclaimable:"@ =~= seq![
        'S',
        'R',
        'e',
        'c',
        'l',
        'a',
        'i',
        'm',
        'a',
        'b',
        'l',
        'e',
        ':',
    ]);
    assert("SwapTotal:"@ =~= seq!['S', 'w', 'a', 'p', 'T', 'o', 't', 'a', 'l', ':']);
    assert("SwapFree:"@ =~= seq!['S', 'w', 'a', 'p', 'F', 'r', 'e', 'e', ':']);
}

/// The sizes of swap before and after compression are the first two words of its statistics, in
/// whole multiples of 1024, whatever the words behind them are; what is missing or says no number
/// is 0.
pub proof fn statistics_give_two_sizes(
    meminfo: Seq<char>,
    stat: String,
    orig: nat,
    compr: nat,
)
    requires
        words(trimmed(stat@)).len() >= 1 && number(words(trimmed(stat@))[0], u64::MAX as nat)
            == Some(orig) || orig == 0 && (words(trimmed(stat@)).len() < 1 || number(
            words(trimmed(stat@))[0],
            u64::MAX as nat,
        ) is None),
        words(trimmed(stat@)).len() >= 2 && number(words(trimmed(stat@))[1], u64::MAX as nat)
            == Some(compr) || compr == 0 && (words(trimmed(stat@)).len() < 2 || number(
            words(trimmed(stat@))[1],
            u64::MAX as nat,
        ) is None),
    ensures
        match mem_reading(meminfo, Some(stat)) {
            Ok(m) => {
                &&& m.zram_orig_kb * 1024 <= orig < m.zram_orig_kb * 1024 + 1024
                &&& m.zram_compr_kb * 1024 <= compr < m.zram_compr_kb * 1024 + 1024
            },
            Err(_) => true,
        },
        match mem_reading(meminfo, None) {
            Ok(m) => m.zram_orig_kb == 0 && m.zram_compr_kb == 0,
            Err(_) => true,
        },
{
}

} // verus!
