//! Plain text as procfs and sysfs hand it out: lines, words, prefixes and decimal numbers.

use vstd::prelude::*;
use vstd::slice::slice_subrange;

verus! {

/// The characters that Unicode calls white space.
pub open spec fn white_space(c: char) -> bool {
    let n = c as u32;
    ||| 0x09 <= n <= 0x0d
    ||| n == 0x20 || n == 0x85 || n == 0xa0 || n == 0x1680
    ||| 0x2000 <= n <= 0x200a
    ||| n == 0x2028 || n == 0x2029 || n == 0x202f || n == 0x205f || n == 0x3000
}

/// Tells whether a character is white space.
pub fn is_white_space(c: char) -> (r: bool)
    ensures
        r == white_space(c),
{
    let n: u32 = c as u32;
    (0x09 <= n && n <= 0x0d) || n == 0x20 || n == 0x85 || n == 0xa0 || n == 0x1680
        || (0x2000 <= n && n <= 0x200a) || n == 0x2028 || n == 0x2029 || n == 0x202f
        || n == 0x205f || n == 0x3000
}

/// The characters of a string, one by one.
pub fn to_chars(s: &str) -> (r: Vec<char>)
    ensures
        r@ == s@,
{
    let mut r: Vec<char> = Vec::new();
    for c in it: s.chars()
        invariant
            it.seq() == s@,
            r@ == s@.take(it.index()),
    {
        r.push(c);
    }
    r
}

/// The first position at or after `from` that holds `c`; the length of `s` where there is none.
pub open spec fn position_from(s: Seq<char>, c: char, from: int) -> int
    decreases s.len() - from,
{
    if from < 0 || from >= s.len() {
        s.len() as int
    } else if s[from] == c {
        from
    } else {
        position_from(s, c, from + 1)
    }
}

/// Between `from` and the position that was found nothing holds `c`.
pub proof fn position_from_bounds(s: Seq<char>, c: char, from: int)
    requires
        0 <= from <= s.len(),
    ensures
        from <= position_from(s, c, from) <= s.len(),
        position_from(s, c, from) < s.len() ==> s[position_from(s, c, from)] == c,
        forall|i: int| from <= i < position_from(s, c, from) ==> s[i] != c,
    decreases s.len() - from,
{
    if from < s.len() && s[from] != c {
        position_from_bounds(s, c, from + 1);
    }
}

/// Finds the first `c` at or after `from`.
pub fn find_from(s: &[char], c: char, from: usize) -> (r: usize)
    requires
        from <= s@.len(),
    ensures
        r == position_from(s@, c, from as int),
        from <= r <= s@.len(),
{
    proof {
        position_from_bounds(s@, c, from as int);
    }
    let mut i: usize = from;
    while i < s.len() && s[i] != c
        invariant
            from <= i <= s@.len(),
            position_from(s@, c, i as int) == position_from(s@, c, from as int),
        decreases s@.len() - i,
    {
        i += 1;
    }
    i
}

/// The strings that a list of slices holds.
pub open spec fn contents(list: Seq<&[char]>) -> Seq<Seq<char>> {
    list.map_values(|part: &[char]| part@)
}

/// A line without the carriage return that may stand before its line feed.
pub open spec fn without_return(line: Seq<char>) -> Seq<char> {
    if line.len() > 0 && line.last() == '\r' {
        line.drop_last()
    } else {
        line
    }
}

/// The lines of `s` from position `from` on. A line ends at `\n` or `\r\n`; the ending of the last
/// line may be missing, and a carriage return that no line feed follows belongs to its line.
pub open spec fn lines_from(s: Seq<char>, from: int) -> Seq<Seq<char>>
    decreases s.len() - from,
{
    if from < 0 || from >= s.len() {
        seq![]
    } else {
        let end = position_from(s, '\n', from);
        proof {
            position_from_bounds(s, '\n', from);
        }
        if end >= s.len() {
            seq![s.skip(from)]
        } else {
            seq![without_return(s.subrange(from, end))] + lines_from(s, end + 1)
        }
    }
}

/// The lines of a text.
pub open spec fn lines(s: Seq<char>) -> Seq<Seq<char>> {
    lines_from(s, 0)
}

/// Splits a text into its lines.
pub fn split_lines<'a>(s: &'a [char]) -> (r: Vec<&'a [char]>)
    ensures
        contents(r@) == lines(s@),
{
    let mut r: Vec<&'a [char]> = Vec::new();
    let mut from: usize = 0;
    while from < s.len()
        invariant
            from <= s@.len(),
            contents(r@) + lines_from(s@, from as int) == lines(s@),
        decreases s@.len() - from,
    {
        let end: usize = find_from(s, '\n', from);
        let ghost before = contents(r@);
        if end == s.len() {
            let part = slice_subrange(s, from, s.len());
            r.push(part);
            proof {
                assert(part@ =~= s@.skip(from as int));
                assert(contents(r@) =~= before + seq![part@]);
                assert(lines_from(s@, s@.len() as int) =~= seq![]);
                assert(contents(r@) + seq![] =~= contents(r@));
            }
            from = s.len();
        } else {
            let stop: usize = if end > from && s[end - 1] == '\r' {
                end - 1
            } else {
                end
            };
            let part = slice_subrange(s, from, stop);
            r.push(part);
            proof {
                assert(part@ =~= without_return(s@.subrange(from as int, end as int)));
                assert(contents(r@) =~= before + seq![part@]);
                assert(contents(r@) + lines_from(s@, end + 1) =~= before + (seq![part@]
                    + lines_from(s@, end + 1)));
            }
            from = end + 1;
        }
    }
    proof {
        assert(contents(r@) + lines_from(s@, from as int) =~= contents(r@));
    }
    r
}

/// The first position at or after `from` where white space begins (`blank`) or ends (`!blank`);
/// the length of `s` where there is none.
pub open spec fn edge_from(s: Seq<char>, blank: bool, from: int) -> int
    decreases s.len() - from,
{
    if from < 0 || from >= s.len() {
        s.len() as int
    } else if white_space(s[from]) == blank {
        from
    } else {
        edge_from(s, blank, from + 1)
    }
}

/// Between `from` and the edge that was found the text is of one kind.
pub proof fn edge_from_bounds(s: Seq<char>, blank: bool, from: int)
    requires
        0 <= from <= s.len(),
    ensures
        from <= edge_from(s, blank, from) <= s.len(),
        edge_from(s, blank, from) < s.len() ==> white_space(s[edge_from(s, blank, from)]) == blank,
        forall|i: int|
            from <= i < edge_from(s, blank, from) ==> white_space(#[trigger] s[i]) != blank,
    decreases s.len() - from,
{
    if from < s.len() && white_space(s[from]) != blank {
        edge_from_bounds(s, blank, from + 1);
    }
}

fn find_edge(s: &[char], blank: bool, from: usize) -> (r: usize)
    requires
        from <= s@.len(),
    ensures
        r == edge_from(s@, blank, from as int),
        from <= r <= s@.len(),
{
    proof {
        edge_from_bounds(s@, blank, from as int);
    }
    let mut i: usize = from;
    while i < s.len() && is_white_space(s[i]) != blank
        invariant
            from <= i <= s@.len(),
            edge_from(s@, blank, i as int) == edge_from(s@, blank, from as int),
        decreases s@.len() - i,
    {
        i += 1;
    }
    i
}

/// The words of `s` from position `from` on: the longest runs without white space.
pub open spec fn words_from(s: Seq<char>, from: int) -> Seq<Seq<char>>
    decreases s.len() - from,
{
    let start = edge_from(s, false, from);
    if from < 0 || start >= s.len() {
        seq![]
    } else {
        let end = edge_from(s, true, start);
        proof {
            edge_from_bounds(s, false, from);
            edge_from_bounds(s, true, start);
        }
        seq![s.subrange(start, end)] + words_from(s, end)
    }
}

/// The words of a text.
pub open spec fn words(s: Seq<char>) -> Seq<Seq<char>> {
    words_from(s, 0)
}

/// Splits a text into its words.
pub fn split_words<'a>(s: &'a [char]) -> (r: Vec<&'a [char]>)
    ensures
        contents(r@) == words(s@),
{
    let mut r: Vec<&'a [char]> = Vec::new();
    let mut from: usize = find_edge(s, false, 0);
    proof {
        edge_from_bounds(s@, false, 0);
        edge_from_idempotent(s@, false, 0);
        assert(contents(r@) + words_from(s@, from as int) =~= words(s@));
    }
    while from < s.len()
        invariant
            from <= s@.len(),
            from == edge_from(s@, false, from as int),
            contents(r@) + words_from(s@, from as int) == words(s@),
        decreases s@.len() - from,
    {
        let end: usize = find_edge(s, true, from);
        let next: usize = find_edge(s, false, end);
        let ghost before = contents(r@);
        let part = slice_subrange(s, from, end);
        r.push(part);
        proof {
            edge_from_bounds(s@, false, from as int);
            edge_from_bounds(s@, true, from as int);
            edge_from_bounds(s@, false, end as int);
            edge_from_idempotent(s@, false, end as int);
            assert(contents(r@) =~= before + seq![part@]);
            assert(words_from(s@, end as int) == words_from(s@, next as int));
            assert(contents(r@) + words_from(s@, end as int) =~= before + (seq![part@]
                + words_from(s@, end as int)));
        }
        from = next;
    }
    proof {
        assert(contents(r@) + words_from(s@, from as int) =~= contents(r@));
    }
    r
}

proof fn edge_from_idempotent(s: Seq<char>, blank: bool, from: int)
    requires
        0 <= from <= s.len(),
    ensures
        edge_from(s, blank, edge_from(s, blank, from)) == edge_from(s, blank, from),
{
    edge_from_bounds(s, blank, from);
}

/// The position after the last character before `end` that is no white space.
pub open spec fn trim_end(s: Seq<char>, end: int) -> int
    decreases end,
{
    if end <= 0 {
        0
    } else if white_space(s[end - 1]) {
        trim_end(s, end - 1)
    } else {
        end
    }
}

/// A text without the white space at its two ends.
pub open spec fn trimmed(s: Seq<char>) -> Seq<char> {
    let start = edge_from(s, false, 0);
    let end = trim_end(s, s.len() as int);
    if start < end {
        s.subrange(start, end)
    } else {
        seq![]
    }
}

/// Takes the white space off the two ends of a text.
pub fn trim<'a>(s: &'a [char]) -> (r: &'a [char])
    ensures
        r@ == trimmed(s@),
{
    let start: usize = find_edge(s, false, 0);
    let mut end: usize = s.len();
    while end > 0 && is_white_space(s[end - 1])
        invariant
            end <= s@.len(),
            trim_end(s@, end as int) == trim_end(s@, s@.len() as int),
        decreases end,
    {
        end -= 1;
    }
    if start < end {
        slice_subrange(s, start, end)
    } else {
        let r = slice_subrange(s, 0, 0);
        assert(r@ =~= seq![]);
        r
    }
}

/// Tells whether `s` begins with `prefix`.
pub fn starts_with(s: &[char], prefix: &[char]) -> (r: bool)
    ensures
        r == prefix@.is_prefix_of(s@),
{
    if s.len() < prefix.len() {
        return false;
    }
    let mut i: usize = 0;
    while i < prefix.len()
        invariant
            i <= prefix@.len() <= s@.len(),
            forall|j: int| 0 <= j < i ==> prefix@[j] == s@[j],
        decreases prefix@.len() - i,
    {
        if s[i] != prefix[i] {
            assert(s@.subrange(0, prefix@.len() as int)[i as int] == s@[i as int]);
            return false;
        }
        i += 1;
    }
    assert(s@.subrange(0, prefix@.len() as int) =~= prefix@);
    true
}

/// Tells whether `s` ends with `suffix`.
pub fn ends_with(s: &[char], suffix: &[char]) -> (r: bool)
    ensures
        r == suffix@.is_suffix_of(s@),
{
    if s.len() < suffix.len() {
        return false;
    }
    let start: usize = s.len() - suffix.len();
    let tail = slice_subrange(s, start, s.len());
    let r = starts_with(tail, suffix);
    proof {
        assert(tail@.subrange(0, suffix@.len() as int) =~= tail@);
    }
    r
}

/// Tells whether two texts are the same.
pub fn same(a: &[char], b: &[char]) -> (r: bool)
    ensures
        r == (a@ == b@),
{
    let r = a.len() == b.len() && starts_with(a, b);
    proof {
        if a@.len() == b@.len() {
            assert(a@.subrange(0, b@.len() as int) =~= a@);
        }
    }
    r
}

/// Whether a text is made of white space only.
pub open spec fn blank(s: Seq<char>) -> bool {
    forall|i: int| 0 <= i < s.len() ==> white_space(#[trigger] s[i])
}

/// Whether a text holds no white space.
pub open spec fn solid(s: Seq<char>) -> bool {
    forall|i: int| 0 <= i < s.len() ==> !white_space(#[trigger] s[i])
}

proof fn position_in_rest(s: Seq<char>, rest: Seq<char>, c: char, from: int)
    requires
        0 <= from <= rest.len(),
        rest.len() <= s.len(),
        rest == s.skip(s.len() - rest.len()),
    ensures
        position_from(s, c, from + s.len() - rest.len()) == position_from(rest, c, from) + s.len()
            - rest.len(),
    decreases rest.len() - from,
{
    if from < rest.len() {
        assert(rest[from] == s[from + s.len() - rest.len()]);
        position_in_rest(s, rest, c, from + 1);
    }
}

proof fn lines_in_rest(s: Seq<char>, rest: Seq<char>, from: int)
    requires
        0 <= from <= rest.len(),
        rest.len() <= s.len(),
        rest == s.skip(s.len() - rest.len()),
    ensures
        lines_from(s, from + s.len() - rest.len()) == lines_from(rest, from),
    decreases rest.len() - from,
{
    let k = s.len() - rest.len();
    if from < rest.len() {
        let end = position_from(rest, '\n', from);
        position_in_rest(s, rest, '\n', from);
        position_from_bounds(rest, '\n', from);
        if end >= rest.len() {
            assert(s.skip(from + k) =~= rest.skip(from));
        } else {
            assert(s.subrange(from + k, end + k) =~= rest.subrange(from, end));
            lines_in_rest(s, rest, end + 1);
        }
    }
}

/// Without a line feed, a text is one line, and no line where it is empty.
pub proof fn text_without_line_feed(s: Seq<char>)
    requires
        !s.contains('\n'),
    ensures
        s.len() > 0 ==> lines(s) == seq![s],
        s.len() == 0 ==> lines(s) == Seq::<Seq<char>>::empty(),
{
    position_from_bounds(s, '\n', 0);
    assert(s.skip(0) =~= s);
}

/// What stands before the first line feed is the first line, and the lines behind it follow,
/// however many there are. A carriage return before the line feed belongs to it.
pub proof fn line_feed_ends_a_line(line: Seq<char>, rest: Seq<char>)
    requires
        !line.contains('\n'),
    ensures
        line.len() == 0 || line.last() != '\r' ==> lines(line.push('\n') + rest) == seq![line] + lines(
            rest,
        ),
        lines(line.push('\r').push('\n') + rest) == seq![line] + lines(rest),
{
    let s = line.push('\n') + rest;
    first_line_ends(line, rest);
    let r = line.push('\r');
    assert forall|i: int| 0 <= i < r.len() implies r[i] != '\n' by {
        if i < line.len() {
            assert(line.contains(line[i]));
        }
    }
    first_line_ends(r, rest);
    assert(r.drop_last() =~= line);
}

proof fn first_line_ends(line: Seq<char>, rest: Seq<char>)
    requires
        !line.contains('\n'),
    ensures
        lines(line.push('\n') + rest) == seq![without_return(line)] + lines(rest),
{
    let s = line.push('\n') + rest;
    let n = line.len() as int;
    position_from_bounds(s, '\n', 0);
    let end = position_from(s, '\n', 0);
    assert(s[n] == '\n');
    if end < n {
        assert(line.contains(line[end]));
        assert(s[end] == line[end]);
    }
    assert(end == n);
    assert(s.subrange(0, n) =~= line);
    assert(s.skip(n + 1) =~= rest);
    lines_in_rest(s, rest, 0);
}

proof fn edge_in_rest(s: Seq<char>, rest: Seq<char>, blank: bool, from: int)
    requires
        0 <= from <= rest.len(),
        rest.len() <= s.len(),
        rest == s.skip(s.len() - rest.len()),
    ensures
        edge_from(s, blank, from + s.len() - rest.len()) == edge_from(rest, blank, from) + s.len()
            - rest.len(),
    decreases rest.len() - from,
{
    if from < rest.len() {
        assert(rest[from] == s[from + s.len() - rest.len()]);
        edge_in_rest(s, rest, blank, from + 1);
    }
}

proof fn words_in_rest(s: Seq<char>, rest: Seq<char>, from: int)
    requires
        0 <= from <= rest.len(),
        rest.len() <= s.len(),
        rest == s.skip(s.len() - rest.len()),
    ensures
        words_from(s, from + s.len() - rest.len()) == words_from(rest, from),
    decreases rest.len() - from,
{
    let k = s.len() - rest.len();
    let start = edge_from(rest, false, from);
    edge_in_rest(s, rest, false, from);
    edge_from_bounds(rest, false, from);
    if start < rest.len() {
        let end = edge_from(rest, true, start);
        edge_in_rest(s, rest, true, start);
        edge_from_bounds(rest, true, start);
        assert(s.subrange(start + k, end + k) =~= rest.subrange(start, end));
        words_in_rest(s, rest, end);
    }
}

/// White space holds no words.
pub proof fn blank_has_no_words(s: Seq<char>)
    requires
        blank(s),
    ensures
        words(s) == Seq::<Seq<char>>::empty(),
{
    edge_from_bounds(s, false, 0);
}

/// The first word is what stands between white space, or an end of the text, on both sides, and the
/// words behind it follow, however many there are.
pub proof fn first_word_comes_first(space: Seq<char>, word: Seq<char>, rest: Seq<char>)
    requires
        blank(space),
        solid(word),
        word.len() > 0,
        rest.len() == 0 || white_space(rest[0]),
    ensures
        words(space + word + rest) == seq![word] + words(rest),
{
    let s = space + word + rest;
    let a = space.len() as int;
    let b = a + word.len();
    edge_from_bounds(s, false, 0);
    let start = edge_from(s, false, 0);
    assert(s[a] == word[0]);
    if start < a {
        assert(s[start] == space[start]);
    }
    assert(start == a);
    edge_from_bounds(s, true, a);
    let end = edge_from(s, true, a);
    if end < b {
        assert(s[end] == word[end - a]);
    }
    if end > b {
        assert(s[b] == rest[0]);
    }
    assert(end == b);
    assert(s.subrange(a, b) =~= word);
    assert(s.skip(b) =~= rest);
    words_in_rest(s, rest, 0);
}

/// Trimming takes the white space off both ends and nothing else.
pub proof fn trimming_keeps_the_middle(before: Seq<char>, middle: Seq<char>, after: Seq<char>)
    requires
        blank(before),
        blank(after),
        middle.len() > 0 ==> !white_space(middle.first()) && !white_space(middle.last()),
    ensures
        trimmed(before + middle + after) == middle,
{
    let s = before + middle + after;
    let a = before.len() as int;
    let b = a + middle.len();
    edge_from_bounds(s, false, 0);
    let start = edge_from(s, false, 0);
    trim_end_bounds(s, s.len() as int);
    let end = trim_end(s, s.len() as int);
    if middle.len() > 0 {
        assert(s[a] == middle.first());
        assert(s[b - 1] == middle.last());
        if start < a {
            assert(s[start] == before[start]);
        }
        if end > b {
            assert(s[end - 1] == after[end - 1 - b]);
        }
        assert(s.subrange(a, b) =~= middle);
    } else {
        if start < s.len() {
            assert(white_space(s[start])) by {
                if start < a {
                    assert(s[start] == before[start]);
                } else {
                    assert(s[start] == after[start - a]);
                }
            }
        }
        assert(middle =~= seq![]);
    }
}

proof fn trim_end_bounds(s: Seq<char>, end: int)
    requires
        0 <= end <= s.len(),
    ensures
        0 <= trim_end(s, end) <= end,
        trim_end(s, end) > 0 ==> !white_space(s[trim_end(s, end) - 1]),
        forall|i: int| trim_end(s, end) <= i < end ==> white_space(#[trigger] s[i]),
    decreases end,
{
    if end > 0 && white_space(s[end - 1]) {
        trim_end_bounds(s, end - 1);
    }
}

/// The contents of a list of slices are those of its slices, one for one.
pub proof fn contents_are_one_for_one(list: Seq<&[char]>)
    ensures
        contents(list).len() == list.len(),
        forall|i: int| 0 <= i < list.len() ==> #[trigger] contents(list)[i] == list[i]@,
{
}

} // verus!
