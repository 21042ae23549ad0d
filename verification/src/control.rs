//! Pace and end of the program's loop.

use vstd::prelude::*;

use crate::number::monus;

verus! {

/// How long a refresh takes, in milliseconds.
pub const REFRESH_MS: u64 = 200;

/// A key on the keyboard.
#[derive(Clone, Copy, PartialEq, Eq, Structural, Debug)]
pub enum Key {
    Char(char),
    Esc,
    Other,
}

/// Tells whether a key event ends the program. Only the press of a key counts, not its release or
/// repetition.
pub fn quits(pressed: bool, key: Key) -> (r: bool)
    ensures
        r == (pressed && (key == Key::Char('q') || key == Key::Esc)),
{
    pressed && match key {
        Key::Char(c) => c == 'q',
        Key::Esc => true,
        Key::Other => false,
    }
}

/// Nanoseconds in a refresh.
pub open spec fn refresh_nanos() -> nat {
    (REFRESH_MS * 1_000_000) as nat
}

/// Tells how many nanoseconds of a refresh are left after `elapsed` of them.
pub fn remaining_nanos(elapsed: u128) -> (r: u64)
    ensures
        r == monus(refresh_nanos(), elapsed as nat),
{
    let tick: u64 = REFRESH_MS * 1_000_000;
    if elapsed < tick as u128 {
        tick - elapsed as u64
    } else {
        0
    }
}

/// A refresh takes its full time, or as long as the work takes where that is more.
pub proof fn refresh_is_full(elapsed: nat)
    ensures
        elapsed <= refresh_nanos() ==> elapsed + monus(refresh_nanos(), elapsed)
            == refresh_nanos(),
        elapsed > refresh_nanos() ==> monus(refresh_nanos(), elapsed) == 0,
{
}

/// A refresh takes 200 ms: after any part of it, what is left and what has passed make it up.
pub proof fn refresh_takes_a_fifth_of_a_second(elapsed: nat)
    ensures
        elapsed <= 200_000_000 ==> elapsed + monus(refresh_nanos(), elapsed) == 200_000_000,
        elapsed > 200_000_000 ==> monus(refresh_nanos(), elapsed) == 0,
{
}

} // verus!
