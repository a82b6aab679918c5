//! pty-host runs once.
//!
//! It owns every terminal, so a second one would own none and be in the way. A
//! named mutex of the system tells whether there is one already.

use vstd::prelude::*;

verus! {

/// The system's number for a mutex that was there before.
pub const ERROR_ALREADY_EXISTS: u32 = 183;

/// The UTF-16 code units of a character: one, or a pair of surrogates.
pub open spec fn utf16_units(c: char) -> Seq<u16> {
    let n = c as u32;
    if n < 0x1_0000 {
        seq![n as u16]
    } else {
        seq![
            (0xD800 + (n - 0x1_0000) / 0x400) as u16,
            (0xDC00 + (n - 0x1_0000) % 0x400) as u16,
        ]
    }
}

/// A text in UTF-16.
pub open spec fn utf16(text: Seq<char>) -> Seq<u16>
    decreases text.len(),
{
    if text.len() == 0 {
        seq![]
    } else {
        utf16(text.drop_last()) + utf16_units(text.last())
    }
}

/// The name of a system object, in the UTF-16 that the system takes it in.
pub fn wide_name(name: &str) -> (wide: Vec<u16>)
    ensures
        wide@ == utf16(name@),
{
    let len: usize = name.unicode_len();
    let mut wide: Vec<u16> = Vec::new();
    let mut i: usize = 0;
    assert(wide@ =~= utf16(name@.take(0)));
    while i < len
        invariant
            len == name@.len(),
            i <= len,
            wide@ == utf16(name@.take(i as int)),
        decreases len - i,
    {
        let c: char = name.get_char(i);
        let n: u32 = c as u32;
        let ghost before = wide@;
        if n < 0x1_0000 {
            wide.push(n as u16);
        } else {
            wide.push((0xD800 + (n - 0x1_0000) / 0x400) as u16);
            wide.push((0xDC00 + (n - 0x1_0000) % 0x400) as u16);
        }
        assert(wide@ =~= before + utf16_units(c));
        assert(name@.take(i + 1).drop_last() =~= name@.take(i as int));
        i = i + 1;
    }
    assert(name@.take(i as int) =~= name@);
    wide
}

/// Whether this process may go on as the only pty-host, where `mutex` is the
/// handle that `CreateMutexW` returned and `last_error` the error it left.
/// Without a handle the start is not prevented: the pipe will tell.
pub fn acquire_single_instance(mutex: isize, last_error: u32) -> (may_run: bool)
    ensures
        may_run == (mutex == 0 || last_error != ERROR_ALREADY_EXISTS),
{
    mutex == 0 || last_error != ERROR_ALREADY_EXISTS
}

/// The character can be told from its code units: one unit says its number; of two, each
/// in its own range, the first says the upper ten bits above 0x10000 and the second the
/// lower ten.
pub proof fn code_units_say_their_character(c: char)
    ensures
        (c as u32) < 0x1_0000 ==> utf16_units(c).len() == 1 && utf16_units(c)[0] == c as u32,
        (c as u32) >= 0x1_0000 ==> {
            let units = utf16_units(c);
            &&& units.len() == 2
            &&& 0xD800 <= units[0] < 0xDC00
            &&& 0xDC00 <= units[1] < 0xE000
            &&& c as u32 == 0x1_0000 + (units[0] - 0xD800) * 0x400 + (units[1] - 0xDC00)
        },
{
}

/// A text in UTF-16 is that of its parts, one after the other, down to its characters.
pub proof fn wide_texts_are_put_together(a: Seq<char>, b: Seq<char>, c: char)
    ensures
        utf16(a + b) == utf16(a) + utf16(b),
        utf16(seq![c]) == utf16_units(c),
        utf16(Seq::<char>::empty()).len() == 0,
    decreases b.len(),
{
    reveal_with_fuel(utf16, 2);
    assert(utf16(seq![c]) =~= utf16_units(c)) by {
        assert(seq![c].drop_last() =~= Seq::<char>::empty());
    }
    if b.len() == 0 {
        assert(a + b =~= a);
        assert(utf16(a) + utf16(b) =~= utf16(a));
    } else {
        wide_texts_are_put_together(a, b.drop_last(), c);
        assert((a + b).drop_last() =~= a + b.drop_last());
        assert(utf16(a + b) =~= utf16(a) + utf16(b));
    }
}

} // verus!
