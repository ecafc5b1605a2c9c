//! Notifications of the system tray.
use vstd::prelude::*;

use crate::text::chars_of;

verus! {

/// How serious a notification is.
#[derive(Debug, Clone, Copy, PartialEq, Eq, Structural)]
pub enum SystemNotificationKind {
    Info,
    Warning,
    Error,
}

/// The last number that a tray icon may have.
pub const LAST_TRAY_ID: u32 = 64;

/// The code units of a character in UTF-16: one, or a surrogate pair.
pub open spec fn utf16_units(c: char) -> Seq<u16> {
    let n = c as u32 as int;
    if n < 0x1_0000 {
        seq![n as u16]
    } else {
        seq![
            (0xd800 + (n - 0x1_0000) / 0x400) as u16,
            (0xdc00 + (n - 0x1_0000) % 0x400) as u16,
        ]
    }
}

/// The code units of a text in UTF-16.
pub open spec fn utf16(text: Seq<char>) -> Seq<u16>
    decreases text.len(),
{
    if text.len() == 0 {
        seq![]
    } else {
        utf16(text.drop_last()) + utf16_units(text.last())
    }
}

/// A buffer of `n` code units with `units` at its front, as many as leave room
/// for a zero, and zeros behind.
pub open spec fn zero_ended(units: Seq<u16>, n: nat) -> Seq<u16> {
    Seq::new(
        n,
        |i: int|
            if i < n - 1 && i < units.len() {
                units[i]
            } else {
                0
            },
    )
}

/// Fills `target` with `value` in UTF-16, cut to leave room for a zero behind.
pub fn copy_utf16<const N: usize>(value: &str, target: &mut [u16; N])
    ensures
        final(target)@ == zero_ended(utf16(value@), N as nat),
{
    let units = utf16_of(value);
    for i in 0..N
        invariant
            units@ == utf16(value@),
            target@.len() == N,
            forall|j: int| 0 <= j < i ==> target@[j] == zero_ended(units@, N as nat)[j],
    {
        if i < N - 1 && i < units.len() {
            target[i] = units[i];
        } else {
            target[i] = 0;
        }
    }
    assert(target@ =~= zero_ended(utf16(value@), N as nat));
}

fn utf16_of(value: &str) -> (units: Vec<u16>)
    ensures
        units@ == utf16(value@),
{
    let chars = chars_of(value);
    let mut units: Vec<u16> = Vec::new();
    assert(units@ =~= utf16(value@.take(0)));
    for i in 0..chars.len()
        invariant
            chars@ == value@,
            units@ == utf16(value@.take(i as int)),
    {
        let ghost before = units@;
        let c: char = chars[i];
        let n: u32 = c as u32;
        if n < 0x1_0000 {
            units.push(n as u16);
        } else {
            let m: u32 = n - 0x1_0000;
            units.push((0xd800 + m / 0x400) as u16);
            units.push((0xdc00 + m % 0x400) as u16);
        }
        assert(value@.take(i + 1).drop_last() =~= value@.take(i as int));
        assert(value@.take(i + 1).last() == chars@[i as int]);
        assert(units@ =~= before + utf16_units(chars@[i as int]));
    }
    assert(value@.take(value@.len() as int) =~= value@);
    units
}

/// What to do after a number was tried for the tray icon.
#[derive(Debug, Clone, Copy, PartialEq, Eq, Structural)]
pub enum TrayProbe {
    Found(u32),
    Try(u32),
    NotReady,
}

/// What to do after the number `id` was tried.
pub open spec fn probe_after(id: u32, answered: bool) -> TrayProbe {
    if answered {
        TrayProbe::Found(id)
    } else if id >= LAST_TRAY_ID {
        TrayProbe::NotReady
    } else {
        TrayProbe::Try((id + 1) as u32)
    }
}

/// Goes through the numbers that the tray icon may have: the first that answers
/// is taken.
pub fn next_tray_probe(id: u32, answered: bool) -> (probe: TrayProbe)
    ensures
        probe == (if answered {
            TrayProbe::Found(id)
        } else if id < LAST_TRAY_ID {
            TrayProbe::Try((id + 1) as u32)
        } else {
            TrayProbe::NotReady
        }),
        probe == probe_after(id, answered),
{
    if answered {
        TrayProbe::Found(id)
    } else if id < LAST_TRAY_ID {
        TrayProbe::Try(id + 1)
    } else {
        TrayProbe::NotReady
    }
}

/// The number that answers is the one that is taken; without an answer the next one
/// is tried, until there is none.
pub proof fn numbers_are_tried_in_turn(id: u32, answered: bool)
    ensures
        answered ==> probe_after(id, answered) == TrayProbe::Found(id),
        !answered && id < 64 ==> (probe_after(id, answered) matches TrayProbe::Try(next) && next
            == id + 1),
        !answered && id >= 64 ==> probe_after(id, answered) == TrayProbe::NotReady,
{
}

/// A filled buffer always ends in a zero, and a text that fits stands in it
/// whole.
pub proof fn buffers_end_in_zero(text: Seq<char>, n: nat)
    requires
        n > 0,
    ensures
        zero_ended(utf16(text), n).last() == 0,
        utf16(text).len() < n ==> zero_ended(utf16(text), n).take(utf16(text).len() as int)
            == utf16(text),
{
    if utf16(text).len() < n {
        assert(zero_ended(utf16(text), n).take(utf16(text).len() as int) =~= utf16(text));
    }
}

/// Texts are written in UTF-16 character by character, and each character can be
/// read back: from its one code unit, which is no surrogate, or from its two, a
/// high and a low surrogate.
pub proof fn characters_are_written_one_by_one(first: Seq<char>, second: Seq<char>, c: char)
    ensures
        utf16(first + second) == utf16(first) + utf16(second),
        utf16(seq![c]) == utf16_units(c),
        ({
            let units = utf16_units(c);
            let n = c as u32;
            &&& units.len() == 1 || units.len() == 2
            &&& units.len() == 1 ==> units[0] == n && !(0xd800 <= units[0] <= 0xdfff)
            &&& units.len() == 2 ==> {
                &&& 0xd800 <= units[0] <= 0xdbff
                &&& 0xdc00 <= units[1] <= 0xdfff
                &&& n == 0x1_0000 + (units[0] - 0xd800) * 0x400 + (units[1] - 0xdc00)
            }
        }),
    decreases second.len(),
{
    assert(seq![c].drop_last() =~= seq![]);
    assert(seq![c].last() == c);
    assert(utf16(seq![c].drop_last()) =~= seq![]);
    assert(utf16(seq![c]) =~= utf16_units(c));
    if second.len() == 0 {
        assert(first + second =~= first);
        assert(utf16(first) + utf16(second) =~= utf16(first));
    } else {
        characters_are_written_one_by_one(first, second.drop_last(), c);
        assert((first + second).drop_last() =~= first + second.drop_last());
        assert((first + second).last() == second.last());
        assert(utf16(first + second) =~= utf16(first) + utf16(second));
    }
}

/// A buffer holds the code units in their places, as long as there is room for a
/// zero behind them, and zeros from there on.
pub proof fn buffers_hold_units_in_place(units: Seq<u16>, n: nat, i: int)
    requires
        0 <= i < n,
    ensures
        zero_ended(units, n).len() == n,
        i + 1 < n && i < units.len() ==> zero_ended(units, n)[i] == units[i],
        i + 1 == n || i >= units.len() ==> zero_ended(units, n)[i] == 0,
{
}

} // verus!
