//! The app icon.
use vstd::prelude::*;

verus! {

/// The width and the height of the icon, in pixels.
pub const ICON_SIZE: u32 = 32;

/// Whether the pixel in column `x` of row `y` belongs to the letter F.
pub open spec fn in_letter(x: int, y: int) -> bool {
    ||| 8 <= x < 13 && 6 <= y < 27
    ||| 8 <= x < 25 && 6 <= y < 11
    ||| 8 <= x < 21 && 14 <= y < 19
}

/// The byte at `index` of the icon: four to a pixel, row by row. The letter is
/// white, the ground nearly black, and every pixel opaque.
pub open spec fn icon_byte(index: int) -> u8 {
    let pixel = index / 4;
    if index % 4 == 3 || in_letter(pixel % (ICON_SIZE as int), pixel / (ICON_SIZE as int)) {
        255
    } else {
        7
    }
}

/// Returns the shared app icon as straight-alpha RGBA pixels.
pub fn icon_rgba() -> (rgba: Vec<u8>)
    ensures
        rgba@ == Seq::new((ICON_SIZE * ICON_SIZE * 4) as nat, |i: int| icon_byte(i)),
{
    let mut rgba: Vec<u8> = Vec::new();
    let size: usize = 32;
    for y in 0..size
        invariant
            size == 32,
            rgba@ == Seq::new((y * 128) as nat, |i: int| icon_byte(i)),
    {
        for x in 0..size
            invariant
                size == 32,
                0 <= y < 32,
                rgba@ == Seq::new((y * 128 + x * 4) as nat, |i: int| icon_byte(i)),
        {
            let is_f = (8 <= x && x < 13 && 6 <= y && y < 27) || (8 <= x && x < 25 && 6 <= y && y
                < 11) || (8 <= x && x < 21 && 14 <= y && y < 19);
            let shade: u8 = if is_f {
                255
            } else {
                7
            };
            let ghost base = y * 128 + x * 4;
            rgba.push(shade);
            rgba.push(shade);
            rgba.push(shade);
            rgba.push(255);
            proof {
                assert forall|k: int| 0 <= k < 4 implies #[trigger] rgba@[base + k] == icon_byte(
                    base + k,
                ) by {
                    assert((base + k) / 4 == y * 32 + x);
                    assert((y * 32 + x) % 32 == x && (y * 32 + x) / 32 == y);
                }
                assert forall|i: int| 0 <= i < rgba@.len() implies rgba@[i] == icon_byte(i) by {
                    if i >= base {
                        assert(rgba@[base + (i - base)] == icon_byte(base + (i - base)));
                    }
                }
                assert(rgba@ =~= Seq::new((y * 128 + (x + 1) * 4) as nat, |i: int| icon_byte(i)));
            }
        }
        assert(rgba@ =~= Seq::new(((y + 1) * 128) as nat, |i: int| icon_byte(i)));
    }
    rgba
}

} // verus!
