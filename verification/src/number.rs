//! Decimal numbers: reading them from text and writing them out.

use vstd::prelude::*;
use vstd::slice::slice_subrange;
use vstd::string::*;

use crate::text::{blank, to_chars, trim, trimmed, trimming_keeps_the_middle, white_space};

verus! {

/// The value of a decimal digit.
pub open spec fn digit_value(c: char) -> Option<nat> {
    if '0' <= c <= '9' {
        Some((c as u32 - '0' as u32) as nat)
    } else {
        None
    }
}

/// The value of a run of decimal digits, the most significant one first.
pub open spec fn digits_value(s: Seq<char>) -> Option<nat>
    decreases s.len(),
{
    if s.len() == 0 {
        Some(0)
    } else {
        match (digits_value(s.drop_last()), digit_value(s.last())) {
            (Some(high), Some(low)) => Some(10 * high + low),
            _ => None,
        }
    }
}

/// A decimal number without the plus sign that may stand before it.
pub open spec fn without_plus(s: Seq<char>) -> Seq<char> {
    if s.len() > 0 && s[0] == '+' {
        s.skip(1)
    } else {
        s
    }
}

/// What a text says as an unsigned number of at most `max`: an optional plus sign, then at least
/// one decimal digit and nothing else.
pub open spec fn number(s: Seq<char>, max: nat) -> Option<nat> {
    let digits = without_plus(s);
    if digits.len() == 0 {
        None
    } else {
        match digits_value(digits) {
            Some(n) => if n <= max {
                Some(n)
            } else {
                None
            },
            None => None,
        }
    }
}

/// The number that a text says, 0 where it says none that fits 64 bits.
pub open spec fn number_or_zero(s: Seq<char>) -> nat {
    match number(s, u64::MAX as nat) {
        Some(n) => n,
        None => 0,
    }
}

/// More digits never make a number smaller, nor a number out of what is none.
proof fn digits_value_grows(s: Seq<char>, end: int)
    requires
        0 <= end <= s.len(),
    ensures
        digits_value(s.take(end)) is None ==> digits_value(s) is None,
        digits_value(s) is Some ==> digits_value(s.take(end))->0 <= digits_value(s)->0,
    decreases s.len(),
{
    if end < s.len() {
        digits_value_grows(s.drop_last(), end);
        assert(s.drop_last().take(end) =~= s.take(end));
    } else {
        assert(s.take(end) =~= s);
    }
}

/// Reads an unsigned number of 64 bits.
pub fn parse_u64(s: &[char]) -> (r: Option<u64>)
    ensures
        match r {
            Some(n) => number(s@, u64::MAX as nat) == Some(n as nat),
            None => number(s@, u64::MAX as nat) is None,
        },
{
    let digits = if s.len() > 0 && s[0] == '+' {
        slice_subrange(s, 1, s.len())
    } else {
        s
    };
    assert(digits@ =~= without_plus(s@));
    if digits.len() == 0 {
        return None;
    }
    let mut n: u64 = 0;
    let mut i: usize = 0;
    assert(digits@.take(0) =~= seq![]);
    while i < digits.len()
        invariant
            i <= digits@.len(),
            0 < digits@.len(),
            digits@ == without_plus(s@),
            digits_value(digits@.take(i as int)) == Some(n as nat),
        decreases digits@.len() - i,
    {
        let c: char = digits[i];
        proof {
            assert(digits@.take(i + 1).drop_last() =~= digits@.take(i as int));
            digits_value_grows(digits@, i + 1);
        }
        if c < '0' || c > '9' {
            return None;
        }
        let d: u64 = (c as u32 - '0' as u32) as u64;
        if n > u64::MAX / 10 || n * 10 > u64::MAX - d {
            return None;
        }
        n = n * 10 + d;
        i += 1;
    }
    assert(digits@.take(i as int) =~= digits@);
    Some(n)
}

/// Reads an unsigned number of 32 bits.
pub fn parse_u32(s: &[char]) -> (r: Option<u32>)
    ensures
        match r {
            Some(n) => number(s@, u32::MAX as nat) == Some(n as nat),
            None => number(s@, u32::MAX as nat) is None,
        },
{
    match parse_u64(s) {
        Some(n) => if n <= 0xffff_ffff {
            Some(n as u32)
        } else {
            None
        },
        None => None,
    }
}

/// Reads an unsigned number of 64 bits, taking what is none for 0.
pub fn parse_or_zero(s: &[char]) -> (r: u64)
    ensures
        r == number_or_zero(s@),
{
    match parse_u64(s) {
        Some(n) => n,
        None => 0,
    }
}

/// Reads a file that holds one number, with white space around it.
pub fn read_u64(content: &str) -> (r: Option<u64>)
    ensures
        match r {
            Some(n) => number(trimmed(content@), u64::MAX as nat) == Some(n as nat),
            None => number(trimmed(content@), u64::MAX as nat) is None,
        },
{
    let chars = to_chars(content);
    parse_u64(trim(chars.as_slice()))
}

/// The number in a file that may be missing; 0 where there is none.
pub open spec fn file_number(content: Option<String>) -> nat {
    match content {
        Some(s) => number_or_zero(trimmed(s@)),
        None => 0,
    }
}

/// Reads the number in a file that may be missing, taking what is none for 0.
pub fn read_file_number(content: &Option<String>) -> (r: u64)
    ensures
        r == file_number(*content),
{
    match content {
        Some(s) => match read_u64(s.as_str()) {
            Some(n) => n,
            None => 0,
        },
        None => 0,
    }
}

/// The character that stands for a digit.
pub open spec fn digit_char(d: nat) -> char {
    ('0' as u32 + d) as char
}

/// A number in decimal, without leading zeros.
pub open spec fn decimal(n: nat) -> Seq<char>
    decreases n,
{
    if n < 10 {
        seq![digit_char(n)]
    } else {
        decimal(n / 10).push(digit_char(n % 10))
    }
}

fn digit_str(d: u64) -> (r: &'static str)
    requires
        d < 10,
    ensures
        r@ == seq![digit_char(d as nat)],
{
    proof {
        reveal_strlit("0");
        reveal_strlit("1");
        reveal_strlit("2");
        reveal_strlit("3");
        reveal_strlit("4");
        reveal_strlit("5");
        reveal_strlit("6");
        reveal_strlit("7");
        reveal_strlit("8");
        reveal_strlit("9");
    }
    let r = match d {
        0 => "0",
        1 => "1",
        2 => "2",
        3 => "3",
        4 => "4",
        5 => "5",
        6 => "6",
        7 => "7",
        8 => "8",
        _ => "9",
    };
    assert(r@ =~= seq![digit_char(d as nat)]);
    r
}

/// Writes a number in decimal.
pub fn format_u64(n: u64) -> (r: String)
    ensures
        r@ == decimal(n as nat),
    decreases n,
{
    if n < 10 {
        digit_str(n).to_owned()
    } else {
        let mut r = format_u64(n / 10);
        r.append(digit_str(n % 10));
        assert(r@ =~= decimal(n as nat));
        r
    }
}

/// A text moved to the right end of a field by spaces on its left.
pub open spec fn right_aligned(s: Seq<char>, width: nat) -> Seq<char> {
    if s.len() < width {
        Seq::new((width - s.len()) as nat, |i: int| ' ') + s
    } else {
        s
    }
}

/// Moves a text to the right end of a field.
pub fn align_right(s: &str, width: usize) -> (r: String)
    ensures
        r@ == right_aligned(s@, width as nat),
{
    proof {
        reveal_strlit(" ");
    }
    let len: usize = s.unicode_len();
    let mut r = if len < width {
        repeat(" ", width - len)
    } else {
        String::new()
    };
    r.append(s);
    assert(r@ =~= right_aligned(s@, width as nat));
    r
}

/// Writes one character `n` times.
pub fn repeat(unit: &str, n: usize) -> (r: String)
    requires
        unit@.len() == 1,
    ensures
        r@ == Seq::new(n as nat, |i: int| unit@[0]),
{
    let mut r = String::new();
    let mut i: usize = 0;
    while i < n
        invariant
            i <= n,
            unit@.len() == 1,
            r@ == Seq::new(i as nat, |i: int| unit@[0]),
        decreases n - i,
    {
        r.append(unit);
        i += 1;
        assert(r@ =~= Seq::new(i as nat, |i: int| unit@[0]));
    }
    assert(r@ =~= Seq::new(n as nat, |i: int| unit@[0]));
    r
}

/// Every character of a number in decimal is a digit.
pub proof fn decimal_is_digits(n: nat)
    ensures
        decimal(n).len() > 0,
        forall|i: int| 0 <= i < decimal(n).len() ==> '0' <= #[trigger] decimal(n)[i] <= '9',
    decreases n,
{
    if n >= 10 {
        decimal_is_digits(n / 10);
    }
}

proof fn digits_value_of_decimal(n: nat)
    ensures
        digits_value(decimal(n)) == Some(n),
    decreases n,
{
    if n < 10 {
        assert(decimal(n).drop_last() =~= seq![]);
        assert(digits_value(seq![]) == Some(0nat));
    } else {
        digits_value_of_decimal(n / 10);
        assert(decimal(n).drop_last() =~= decimal(n / 10));
    }
}

/// Reading undoes writing: a number that fits is read back from its decimal form.
pub proof fn number_of_decimal(n: nat, max: nat)
    requires
        n <= max,
    ensures
        number(decimal(n), max) == Some(n),
{
    decimal_is_digits(n);
    digits_value_of_decimal(n);
    assert('0' <= decimal(n)[0] <= '9');
}

/// Machine integers as natural numbers.
pub open spec fn naturals(list: Seq<u64>) -> Seq<nat> {
    list.map_values(|n: u64| n as nat)
}

/// The sum of a list of numbers.
pub open spec fn sum(list: Seq<nat>) -> nat
    decreases list.len(),
{
    if list.len() == 0 {
        0
    } else {
        sum(list.drop_last()) + list.last()
    }
}

proof fn sum_of_prefix(list: Seq<nat>, end: int)
    requires
        0 <= end <= list.len(),
    ensures
        sum(list.take(end)) <= sum(list),
    decreases list.len(),
{
    if end < list.len() {
        sum_of_prefix(list.drop_last(), end);
        assert(list.drop_last().take(end) =~= list.take(end));
    } else {
        assert(list.take(end) =~= list);
    }
}

/// Adds up numbers; `None` where the sum does not fit 64 bits.
pub fn checked_sum(list: &Vec<u64>) -> (r: Option<u64>)
    ensures
        match r {
            Some(n) => sum(naturals(list@)) == n,
            None => sum(naturals(list@)) > u64::MAX,
        },
{
    let ghost all = naturals(list@);
    let mut total: u64 = 0;
    let mut i: usize = 0;
    assert(all.take(0) =~= seq![]);
    while i < list.len()
        invariant
            i <= list@.len(),
            all == naturals(list@),
            total == sum(all.take(i as int)),
        decreases list@.len() - i,
    {
        proof {
            assert(all.take(i + 1).drop_last() =~= all.take(i as int));
            sum_of_prefix(all, i + 1);
        }
        if total > u64::MAX - list[i] {
            return None;
        }
        total = total + list[i];
        i += 1;
    }
    assert(all.take(i as int) =~= all);
    Some(total)
}

/// `a - b`, 0 where that is negative.
pub open spec fn monus(a: nat, b: nat) -> nat {
    if a > b {
        (a - b) as nat
    } else {
        0
    }
}

/// A single digit says its own value.
pub proof fn digit_says_its_value(c: char, max: nat)
    requires
        '0' <= c <= '9',
    ensures
        c as u32 - '0' as u32 <= max ==> number(seq![c], max) == Some(
            (c as u32 - '0' as u32) as nat,
        ),
        c as u32 - '0' as u32 > max ==> number(seq![c], max) is None,
{
    assert(seq![c].drop_last() =~= Seq::<char>::empty());
    assert(digits_value(Seq::<char>::empty()) == Some(0nat));
}

/// One more digit behind a number makes it ten times as large and adds the digit's value, as long
/// as it fits; anything else behind a number makes it none.
pub proof fn digit_behind_a_number(s: Seq<char>, c: char, max: nat)
    requires
        number(s, max) is Some,
    ensures
        '0' <= c <= '9' ==> {
            let n = 10 * number(s, max)->0 + (c as u32 - '0' as u32);
            number(s.push(c), max) == if n <= max {
                Some(n as nat)
            } else {
                None
            }
        },
        !('0' <= c <= '9') ==> number(s.push(c), max) is None,
{
    let digits = without_plus(s);
    let more = without_plus(s.push(c));
    assert(more =~= digits.push(c));
    assert(more.drop_last() =~= digits);
}

/// A plus sign before a number changes nothing; two do not make a number.
pub proof fn plus_sign_changes_nothing(s: Seq<char>, max: nat)
    ensures
        s.len() > 0 && s[0] != '+' ==> number(seq!['+'] + s, max) == number(s, max),
        s.len() > 0 && s[0] == '+' ==> number(seq!['+'] + s, max) is None,
        number(seq!['+'], max) is None,
        number(seq![], max) is None,
{
    assert((seq!['+'] + s).skip(1) =~= s);
    assert(seq!['+'].skip(1) =~= Seq::<char>::empty());
    if s.len() > 0 && s[0] == '+' {
        assert(s.take(1).drop_last() =~= Seq::<char>::empty());
        assert(digits_value(s.take(1)) is None);
        digits_value_grows(s, 1);
    }
}

/// What says a number holds, behind a plus sign that may be there, digits only, at least one; what
/// holds anything else says none.
pub proof fn number_is_digits(s: Seq<char>, max: nat)
    requires
        number(s, max) is Some,
    ensures
        number(s, max)->0 <= max,
        s.len() > 0,
        forall|i: int| 0 < i < s.len() ==> '0' <= #[trigger] s[i] <= '9',
        '0' <= s[0] <= '9' || s[0] == '+' && s.len() > 1,
{
    let digits = without_plus(s);
    assert forall|i: int| 0 <= i < digits.len() implies '0' <= #[trigger] digits[i] <= '9' by {
        digits_value_grows(digits, i + 1);
        assert(digits.take(i + 1).last() == digits[i]);
    }
    assert forall|i: int| 0 < i < s.len() implies '0' <= #[trigger] s[i] <= '9' by {
        if s[0] == '+' {
            assert(digits[i - 1] == s[i]);
        } else {
            assert(digits[i] == s[i]);
        }
    }
    if s[0] != '+' {
        assert(digits[0] == s[0]);
    }
}

proof fn prefix_value(s: Seq<char>)
    requires
        s.len() > 0,
        forall|i: int| 0 <= i < s.len() ==> '0' <= #[trigger] s[i] <= '9',
    ensures
        digits_value(s) is Some,
    decreases s.len(),
{
    if s.len() > 1 {
        assert forall|i: int| 0 <= i < s.drop_last().len() implies '0' <= #[trigger] s.drop_last()[i]
            <= '9' by {
            assert(s[i] == s.drop_last()[i]);
        }
        prefix_value(s.drop_last());
    } else {
        assert(s.drop_last() =~= Seq::<char>::empty());
        assert(digits_value(s.drop_last()) == Some(0nat));
    }
    assert('0' <= s[s.len() - 1] <= '9');
}

/// Digits say a number unless it is too large; a number that fits a smaller limit is the same under
/// a larger one.
pub proof fn limit_only_rejects(s: Seq<char>, small: nat, large: nat)
    requires
        small <= large,
    ensures
        number(s, small) is Some ==> number(s, large) == number(s, small),
        number(s, large) is Some && number(s, large)->0 <= small ==> number(s, small) == number(
            s,
            large,
        ),
        number(s, large) is Some && number(s, large)->0 > small ==> number(s, small) is None,
{
}

/// A run of digits says a number under some limit.
pub proof fn digits_say_a_number(s: Seq<char>) -> (max: nat)
    requires
        s.len() > 0,
        forall|i: int| 0 <= i < s.len() ==> '0' <= #[trigger] s[i] <= '9',
    ensures
        number(s, max) == Some(max),
{
    prefix_value(s);
    assert('0' <= s[0] <= '9');
    digits_value(s)->0
}

/// A number is written without leading zeros.
pub proof fn decimal_has_no_leading_zero(n: nat)
    ensures
        n > 0 ==> decimal(n)[0] != '0',
        decimal(0) == seq!['0'],
    decreases n,
{
    decimal_is_digits(n / 10);
    if n >= 10 {
        decimal_has_no_leading_zero(n / 10);
    }
}

/// A file that holds a number with white space around it gives that number; a missing one, or one
/// that holds anything else, gives 0.
pub proof fn file_gives_its_number(
    content: Option<String>,
    before: Seq<char>,
    middle: Seq<char>,
    after: Seq<char>,
)
    requires
        blank(before),
        blank(after),
        middle.len() > 0 ==> !white_space(middle.first()) && !white_space(middle.last()),
    ensures
        content is None ==> file_number(content) == 0,
        content is Some && content->0@ == before + middle + after ==> file_number(content) == match number(
            middle,
            u64::MAX as nat,
        ) {
            Some(n) => n,
            None => 0,
        },
{
    trimming_keeps_the_middle(before, middle, after);
}

/// A text in a field ends it, has only spaces before it, and is never cut.
pub proof fn field_is_filled_from_the_left(s: Seq<char>, width: nat)
    ensures
        right_aligned(s, width).len() == if s.len() < width {
            width
        } else {
            s.len()
        },
        s.is_suffix_of(right_aligned(s, width)),
        forall|i: int|
            0 <= i < right_aligned(s, width).len() - s.len() ==> #[trigger] right_aligned(
                s,
                width,
            )[i] == ' ',
{
    let r = right_aligned(s, width);
    assert(r.subrange(r.len() - s.len(), r.len() as int) =~= s);
}

/// A sum grows by what is put behind it, and puts lists together.
pub proof fn sum_adds_up(a: Seq<nat>, b: Seq<nat>, n: nat)
    ensures
        sum(seq![]) == 0,
        sum(seq![n]) == n,
        sum(a + b) == sum(a) + sum(b),
    decreases b.len(),
{
    assert(seq![n].drop_last() =~= Seq::<nat>::empty());
    if b.len() == 0 {
        assert(a + b =~= a);
    } else {
        sum_adds_up(a, b.drop_last(), n);
        assert((a + b).drop_last() =~= a + b.drop_last());
    }
}

/// A difference and what was taken off make up the whole, and nothing is taken off below 0.
pub proof fn difference_makes_up_the_whole(a: nat, b: nat)
    ensures
        b <= a ==> monus(a, b) + b == a,
        b > a ==> monus(a, b) == 0,
{
}

/// Numbers stay what they are, one for one.
pub proof fn naturals_are_one_for_one(list: Seq<u64>)
    ensures
        naturals(list).len() == list.len(),
        forall|i: int| 0 <= i < list.len() ==> #[trigger] naturals(list)[i] == list[i],
{
}

} // verus!
