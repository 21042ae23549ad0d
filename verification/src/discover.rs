//! Where the readings come from: paths in procfs and sysfs, and the devices found there.

use vstd::prelude::*;
use vstd::slice::slice_subrange;
use vstd::string::*;

use crate::cpu::NUM_CPUS;
use crate::number::{
    decimal, decimal_is_digits, format_u64, number, number_is_digits, number_of_decimal, parse_u32,
};
use crate::text::{find_from, position_from_bounds, same, starts_with, to_chars, trim, trimmed};

verus! {

/// The number of the graphics card that an entry of the DRM directory stands for. The entries of a
/// card's connectors, such as `card1-DP-1`, stand for none.
pub open spec fn card_number(name: Seq<char>) -> Option<nat> {
    if "card"@.is_prefix_of(name) && !name.skip("card"@.len() as int).contains('-') {
        number(name.skip("card"@.len() as int), u32::MAX as nat)
    } else {
        None
    }
}

/// Reads the number of a graphics card.
pub fn read_card_number(name: &str) -> (r: Option<u32>)
    ensures
        match r {
            Some(n) => card_number(name@) == Some(n as nat),
            None => card_number(name@) is None,
        },
{
    let chars = to_chars(name);
    let prefix = to_chars("card");
    if !starts_with(chars.as_slice(), prefix.as_slice()) {
        return None;
    }
    let rest = slice_subrange(chars.as_slice(), prefix.len(), chars.len());
    assert(rest@ =~= name@.skip("card"@.len() as int));
    let dash: usize = find_from(rest, '-', 0);
    proof {
        position_from_bounds(rest@, '-', 0);
        if dash < rest@.len() {
            assert(rest@[dash as int] == '-');
        }
    }
    if dash < rest.len() {
        return None;
    }
    parse_u32(rest)
}

/// The path of a file in a directory.
pub open spec fn joined(dir: Seq<char>, file: Seq<char>) -> Seq<char> {
    dir + "/"@ + file
}

/// Makes the path of a file in a directory.
pub fn join(dir: &str, file: &str) -> (r: String)
    ensures
        r@ == joined(dir@, file@),
{
    let mut r = dir.to_owned();
    r.append("/");
    r.append(file);
    r
}

/// A path with a number in it.
pub open spec fn numbered(before: Seq<char>, n: nat, after: Seq<char>) -> Seq<char> {
    before + decimal(n) + after
}

fn number_path(before: &str, n: u64, after: &str) -> (r: String)
    ensures
        r@ == numbered(before@, n as nat, after@),
{
    let mut r = before.to_owned();
    r.append(format_u64(n).as_str());
    r.append(after);
    r
}

/// Makes the path of the device directory of a graphics card.
pub fn gpu_dir(card: u32) -> (r: String)
    ensures
        r@ == numbered("/sys/class/drm/card"@, card as nat, "/device"@),
{
    number_path("/sys/class/drm/card", card as u64, "/device")
}

/// Makes the path of the frequency file of a core.
pub fn core_freq_path(core: usize) -> (r: String)
    ensures
        r@ == numbered(
            "/sys/devices/system/cpu/cpu"@,
            core as nat,
            "/cpufreq/scaling_cur_freq"@,
        ),
{
    number_path("/sys/devices/system/cpu/cpu", core as u64, "/cpufreq/scaling_cur_freq")
}

/// Makes the paths of the frequency files of all cores that are watched.
pub fn core_freq_paths() -> (r: Vec<String>)
    ensures
        r@.len() == NUM_CPUS,
        forall|i: int|
            0 <= i < NUM_CPUS ==> (#[trigger] r@[i])@ == numbered(
                "/sys/devices/system/cpu/cpu"@,
                i as nat,
                "/cpufreq/scaling_cur_freq"@,
            ),
{
    let mut r: Vec<String> = Vec::with_capacity(NUM_CPUS);
    let mut i: usize = 0;
    while i < NUM_CPUS
        invariant
            i <= NUM_CPUS,
            r@.len() == i,
            forall|j: int|
                0 <= j < i ==> (#[trigger] r@[j])@ == numbered(
                    "/sys/devices/system/cpu/cpu"@,
                    j as nat,
                    "/cpufreq/scaling_cur_freq"@,
                ),
        decreases NUM_CPUS - i,
    {
        r.push(core_freq_path(i));
        i += 1;
    }
    r
}

/// Makes the path of the `stat` file of a process.
pub fn proc_stat_path(pid: u32) -> (r: String)
    ensures
        r@ == numbered("/proc/"@, pid as nat, "/stat"@),
{
    number_path("/proc/", pid as u64, "/stat")
}

/// Makes the path of the file whose presence shows that a card has memory of its own, for an entry
/// of the DRM directory that stands for a card.
pub fn vram_probe_path(name: &str) -> (r: Option<String>)
    ensures
        match r {
            Some(path) => card_number(name@) is Some && path@ == joined(
                numbered("/sys/class/drm/card"@, card_number(name@)->0, "/device"@),
                "mem_info_vram_total"@,
            ),
            None => card_number(name@) is None,
        },
{
    match read_card_number(name) {
        Some(n) => Some(join(gpu_dir(n).as_str(), "mem_info_vram_total")),
        None => None,
    }
}

/// An entry of the DRM directory.
pub struct DrmEntry {
    /// `None` for an entry that could not be read.
    pub name: Option<String>,
    /// Whether the file that `vram_probe_path` names exists.
    pub vram: bool,
}

/// The first card with memory of its own from position `from` on. An entry that could not be read
/// ends the search.
pub open spec fn card_from(entries: Seq<DrmEntry>, from: int) -> Option<nat>
    decreases entries.len() - from,
{
    if from < 0 || from >= entries.len() {
        None
    } else {
        match entries[from].name {
            None => None,
            Some(name) => if entries[from].vram && card_number(name@) is Some {
                card_number(name@)
            } else {
                card_from(entries, from + 1)
            },
        }
    }
}

/// Finds the graphics card to watch among the entries of the DRM directory.
pub fn find_gpu_card(entries: &Vec<DrmEntry>) -> (r: Option<u32>)
    ensures
        match r {
            Some(n) => card_from(entries@, 0) == Some(n as nat),
            None => card_from(entries@, 0) is None,
        },
{
    let mut i: usize = 0;
    while i < entries.len()
        invariant
            i <= entries@.len(),
            card_from(entries@, 0) == card_from(entries@, i as int),
        decreases entries@.len() - i,
    {
        match &entries[i].name {
            None => {
                return None;
            },
            Some(name) => {
                let n = read_card_number(name.as_str());
                if entries[i].vram && n.is_some() {
                    return n;
                }
            },
        }
        i += 1;
    }
    None
}

/// A directory of the hardware monitor.
pub struct HwmonEntry {
    pub path: String,
    /// The content of the file `name` in it.
    pub name: String,
}

/// The path of the first hardware monitor called `name` from position `from` on. An entry that
/// could not be read ends the search.
pub open spec fn hwmon_from(
    entries: Seq<Option<HwmonEntry>>,
    name: Seq<char>,
    from: int,
) -> Option<Seq<char>>
    decreases entries.len() - from,
{
    if from < 0 || from >= entries.len() {
        None
    } else {
        match entries[from] {
            None => None,
            Some(entry) => if trimmed(entry.name@) == name {
                Some(entry.path@)
            } else {
                hwmon_from(entries, name, from + 1)
            },
        }
    }
}

/// Finds the hardware monitor called `name`.
pub fn find_hwmon(entries: &Vec<Option<HwmonEntry>>, name: &str) -> (r: Option<String>)
    ensures
        match r {
            Some(path) => hwmon_from(entries@, name@, 0) == Some(path@),
            None => hwmon_from(entries@, name@, 0) is None,
        },
{
    let wanted = to_chars(name);
    let mut i: usize = 0;
    while i < entries.len()
        invariant
            i <= entries@.len(),
            wanted@ == name@,
            hwmon_from(entries@, name@, 0) == hwmon_from(entries@, name@, i as int),
        decreases entries@.len() - i,
    {
        match &entries[i] {
            None => {
                return None;
            },
            Some(entry) => {
                let chars = to_chars(entry.name.as_str());
                if same(trim(chars.as_slice()), wanted.as_slice()) {
                    return Some(entry.path.clone());
                }
            },
        }
        i += 1;
    }
    None
}

/// Reads the process number that an entry of `/proc` stands for.
pub fn read_pid(name: &str) -> (r: Option<u32>)
    ensures
        match r {
            Some(n) => number(name@, u32::MAX as nat) == Some(n as nat),
            None => number(name@, u32::MAX as nat) is None,
        },
{
    let chars = to_chars(name);
    parse_u32(chars.as_slice())
}

/// The directory name of a card stands for that card.
pub proof fn card_number_of_name(n: u32)
    ensures
        card_number(numbered("card"@, n as nat, ""@)) == Some(n as nat),
{
    let name = numbered("card"@, n as nat, ""@);
    reveal_strlit("");
    let rest = name.skip("card"@.len() as int);
    assert(rest =~= decimal(n as nat));
    assert(name.subrange(0, "card"@.len() as int) =~= "card"@);
    decimal_is_digits(n as nat);
    number_of_decimal(n as nat, u32::MAX as nat);
    if rest.contains('-') {
        let i = choose|i: int| 0 <= i < rest.len() && rest[i] == '-';
        assert('0' <= decimal(n as nat)[i] <= '9');
    }
}

/// The card that was found is one of the entries before which every entry could be read, and has
/// memory of its own; no card before it has.
pub proof fn found_card_is_first(entries: Seq<DrmEntry>, from: int)
    requires
        0 <= from <= entries.len(),
        card_from(entries, from) is Some,
    ensures
        exists|i: int|
            {
                &&& from <= i < entries.len()
                &&& (#[trigger] entries[i]).name is Some && entries[i].vram
                &&& card_number(entries[i].name->0@) == card_from(entries, from)
                &&& forall|j: int|
                    from <= j < i ==> (#[trigger] entries[j]).name is Some && !(entries[j].vram
                        && card_number(entries[j].name->0@) is Some)
            },
    decreases entries.len() - from,
{
    let e = entries[from];
    if !(e.vram && card_number(e.name->0@) is Some) {
        found_card_is_first(entries, from + 1);
        let i = choose|i: int|
            {
                &&& from + 1 <= i < entries.len()
                &&& (#[trigger] entries[i]).name is Some && entries[i].vram
                &&& card_number(entries[i].name->0@) == card_from(entries, from + 1)
                &&& forall|j: int|
                    from + 1 <= j < i ==> (#[trigger] entries[j]).name is Some && !(entries[j].vram
                        && card_number(entries[j].name->0@) is Some)
            };
        assert(entries[i].vram);
    }
}

/// An entry with a dash in its name stands for no card.
pub proof fn connectors_are_no_cards(name: Seq<char>)
    requires
        name.contains('-'),
    ensures
        card_number(name) is None,
{
    if "card"@.is_prefix_of(name) {
        reveal_strlit("card");
        let i = choose|i: int| 0 <= i < name.len() && name[i] == '-';
        assert(name.subrange(0, 4) =~= "card"@);
        assert(name.subrange(0, 4)[0] == name[0] && name.subrange(0, 4)[1] == name[1]);
        assert(name.subrange(0, 4)[2] == name[2] && name.subrange(0, 4)[3] == name[3]);
        assert(name.skip(4)[i - 4] == '-');
    }
}

/// The hardware monitor that was found is called `name` and is one before which every entry could
/// be read; none before it is called so.
pub proof fn found_hwmon_is_first(entries: Seq<Option<HwmonEntry>>, name: Seq<char>, from: int)
    requires
        0 <= from <= entries.len(),
        hwmon_from(entries, name, from) is Some,
    ensures
        exists|i: int|
            {
                &&& from <= i < entries.len()
                &&& #[trigger] entries[i] is Some
                &&& trimmed(entries[i]->0.name@) == name
                &&& hwmon_from(entries, name, from) == Some(entries[i]->0.path@)
                &&& forall|j: int|
                    from <= j < i ==> #[trigger] entries[j] is Some && trimmed(entries[j]->0.name@)
                        != name
            },
    decreases entries.len() - from,
{
    if trimmed(entries[from]->0.name@) != name {
        found_hwmon_is_first(entries, name, from + 1);
        let i = choose|i: int|
            {
                &&& from + 1 <= i < entries.len()
                &&& #[trigger] entries[i] is Some
                &&& trimmed(entries[i]->0.name@) == name
                &&& hwmon_from(entries, name, from + 1) == Some(entries[i]->0.path@)
                &&& forall|j: int|
                    from + 1 <= j < i ==> #[trigger] entries[j] is Some && trimmed(
                        entries[j]->0.name@,
                    ) != name
            };
        assert(entries[i] is Some);
    } else {
        assert(entries[from] is Some);
    }
}

/// An entry stands for a card exactly where its name is `card` and a number of 32 bits behind it,
/// and then it stands for the card with that number.
pub proof fn card_name_is_card_and_number(name: Seq<char>, rest: Seq<char>)
    ensures
        card_number(seq!['c', 'a', 'r', 'd'] + rest) == number(rest, u32::MAX as nat),
        !seq!['c', 'a', 'r', 'd'].is_prefix_of(name) ==> card_number(name) is None,
{
    reveal_strlit("card");
    let card = seq!['c', 'a', 'r', 'd'];
    assert("card"@ =~= card);
    let whole = card + rest;
    assert(whole.subrange(0, 4) =~= card);
    assert(whole.skip(4) =~= rest);
    if rest.contains('-') && number(rest, u32::MAX as nat) is Some {
        number_is_digits(rest, u32::MAX as nat);
        let i = choose|i: int| 0 <= i < rest.len() && rest[i] == '-';
        assert(i == 0 || '0' <= rest[i] <= '9');
    }
}

/// No card is found exactly where every entry that is a card with memory of its own stands behind
/// one that could not be read.
pub proof fn no_card_is_overlooked(entries: Seq<DrmEntry>, from: int)
    requires
        0 <= from <= entries.len(),
        card_from(entries, from) is None,
    ensures
        forall|i: int|
            from <= i < entries.len() && (#[trigger] entries[i]).name is Some && entries[i].vram
                && card_number(entries[i].name->0@) is Some ==> exists|j: int|
                from <= j < i && (#[trigger] entries[j]).name is None,
    decreases entries.len() - from,
{
    if from < entries.len() {
        if entries[from].name is Some {
            no_card_is_overlooked(entries, from + 1);
            assert forall|i: int|
                from <= i < entries.len() && (#[trigger] entries[i]).name is Some && entries[i].vram
                    && card_number(entries[i].name->0@) is Some implies exists|j: int|
                from <= j < i && (#[trigger] entries[j]).name is None by {
                assert(i > from);
                let j = choose|j: int| from + 1 <= j < i && (#[trigger] entries[j]).name is None;
                assert(entries[j].name is None);
            }
        } else {
            assert forall|i: int|
                from <= i < entries.len() && (#[trigger] entries[i]).name is Some && entries[i].vram
                    && card_number(entries[i].name->0@) is Some implies exists|j: int|
                from <= j < i && (#[trigger] entries[j]).name is None by {
                assert(entries[from].name is None);
            }
        }
    }
}

/// No hardware monitor of a name is found exactly where every one of that name stands behind an
/// entry that could not be read.
pub proof fn no_hwmon_is_overlooked(entries: Seq<Option<HwmonEntry>>, name: Seq<char>, from: int)
    requires
        0 <= from <= entries.len(),
        hwmon_from(entries, name, from) is None,
    ensures
        forall|i: int|
            from <= i < entries.len() && #[trigger] entries[i] is Some && trimmed(
                entries[i]->0.name@,
            ) == name ==> exists|j: int| from <= j < i && #[trigger] entries[j] is None,
    decreases entries.len() - from,
{
    if from < entries.len() {
        if entries[from] is Some {
            no_hwmon_is_overlooked(entries, name, from + 1);
            assert forall|i: int|
                from <= i < entries.len() && #[trigger] entries[i] is Some && trimmed(
                    entries[i]->0.name@,
                ) == name implies exists|j: int| from <= j < i && #[trigger] entries[j] is None by {
                assert(i > from);
                let j = choose|j: int| from + 1 <= j < i && #[trigger] entries[j] is None;
                assert(entries[j] is None);
            }
        } else {
            assert forall|i: int|
                from <= i < entries.len() && #[trigger] entries[i] is Some && trimmed(
                    entries[i]->0.name@,
                ) == name implies exists|j: int| from <= j < i && #[trigger] entries[j] is None by {
                assert(entries[from] is None);
            }
        }
    }
}

/// A path is the directory, a slash and the file; a numbered one has the number in decimal between
/// its parts, and the number can be read back from between them.
pub proof fn paths_are_put_together(dir: Seq<char>, file: Seq<char>, n: u64)
    ensures
        joined(dir, file) == dir.push('/') + file,
        dir.is_prefix_of(numbered(dir, n as nat, file)),
        file.is_suffix_of(numbered(dir, n as nat, file)),
        number(
            numbered(dir, n as nat, file).subrange(
                dir.len() as int,
                numbered(dir, n as nat, file).len() - file.len(),
            ),
            u64::MAX as nat,
        ) == Some(n as nat),
        numbered(dir, n as nat, file).subrange(
            dir.len() as int,
            numbered(dir, n as nat, file).len() - file.len(),
        ) == decimal(n as nat),
{
    reveal_strlit("/");
    assert(joined(dir, file) =~= dir.push('/') + file);
    let path = numbered(dir, n as nat, file);
    let digits = path.subrange(dir.len() as int, path.len() - file.len());
    assert(digits =~= decimal(n as nat));
    number_of_decimal(n as nat, u64::MAX as nat);
    assert(path.subrange(0, dir.len() as int) =~= dir);
    assert(path.subrange(path.len() - file.len(), path.len() as int) =~= file);
}

} // verus!
