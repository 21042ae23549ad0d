//! Presence of the NPU.

use vstd::prelude::*;

use crate::text::{
    contents, line_feed_ends_a_line, lines, split_lines, starts_with, text_without_line_feed,
    to_chars,
};

verus! {

/// What the NPU panel shows.
#[derive(Clone, Copy, PartialEq, Eq, Structural, Debug)]
pub struct NpuData {
    pub accel_present: bool,
    pub module_loaded: bool,
}

/// Whether the list of kernel modules has the NPU's driver in it.
pub open spec fn lists_driver(modules: Seq<char>) -> bool {
    exists|i: int|
        0 <= i < lines(modules).len() && "amdxdna "@.is_prefix_of(#[trigger] lines(modules)[i])
}

/// Makes an NPU reading of whether the device file exists and of the list of kernel modules.
pub fn collect_npu(accel_present: bool, modules: &str) -> (r: NpuData)
    ensures
        r.accel_present == accel_present,
        r.module_loaded == lists_driver(modules@),
{
    let chars = to_chars(modules);
    let list = split_lines(chars.as_slice());
    let driver = to_chars("amdxdna ");
    let mut module_loaded: bool = false;
    let mut i: usize = 0;
    while i < list.len() && !module_loaded
        invariant
            i <= list@.len(),
            contents(list@) == lines(modules@),
            driver@ == "amdxdna "@,
            !module_loaded ==> forall|j: int|
                0 <= j < i ==> !"amdxdna "@.is_prefix_of(#[trigger] lines(modules@)[j]),
            module_loaded ==> lists_driver(modules@),
        decreases list@.len() - i,
    {
        assert(lines(modules@)[i as int] == list@[i as int]@);
        if starts_with(list[i], driver.as_slice()) {
            module_loaded = true;
        }
        i += 1;
    }
    NpuData { accel_present, module_loaded }
}

/// A line that starts with the driver's name and a space shows the driver, wherever it stands, and
/// no other line does.
pub proof fn driver_line_shows_the_driver(line: Seq<char>, rest: Seq<char>)
    requires
        !line.contains('\n'),
        line.len() > 0 ==> line.last() != '\r',
    ensures
        lists_driver(line.push('\n') + rest) <==> seq![
            'a',
            'm',
            'd',
            'x',
            'd',
            'n',
            'a',
            ' ',
        ].is_prefix_of(line) || lists_driver(rest),
        lists_driver(line) <==> seq!['a', 'm', 'd', 'x', 'd', 'n', 'a', ' '].is_prefix_of(line),
        !lists_driver(seq![]),
{
    reveal_strlit("amdxdna ");
    let name = seq!['a', 'm', 'd', 'x', 'd', 'n', 'a', ' '];
    assert("amdxdna "@ =~= name);
    line_feed_ends_a_line(line, rest);
    let all = lines(line.push('\n') + rest);
    assert(all.len() == lines(rest).len() + 1 && all[0] == line);
    assert forall|i: int| 0 <= i < lines(rest).len() implies all[i + 1] == #[trigger] lines(
        rest,
    )[i] by {}
    if lists_driver(line.push('\n') + rest) {
        let i = choose|i: int| 0 <= i < all.len() && name.is_prefix_of(#[trigger] all[i]);
        if i > 0 {
            assert(lines(rest)[i - 1] == all[i]);
        }
    }
    if name.is_prefix_of(line) {
        assert("amdxdna "@.is_prefix_of(all[0]));
    }
    if lists_driver(rest) {
        let i = choose|i: int| 0 <= i < lines(rest).len() && name.is_prefix_of(
            #[trigger] lines(rest)[i],
        );
        assert("amdxdna "@.is_prefix_of(all[i + 1]));
    }
    text_without_line_feed(line);
    text_without_line_feed(Seq::<char>::empty());
    if line.len() > 0 {
        assert(lines(line)[0] == line);
        if name.is_prefix_of(line) {
            assert("amdxdna "@.is_prefix_of(lines(line)[0]));
        }
    }
}

} // verus!
