//! The fonts that the pages are written in: those of the system come first.
use vstd::prelude::*;

use crate::text;

verus! {

/// A font of the system: the name it goes by, and its file.
#[derive(Debug, Clone, Copy)]
pub struct SystemFont {
    pub name: &'static str,
    pub file: &'static str,
}

/// Whether `font` is the one with that name and that file.
pub open spec fn is_font(font: SystemFont, name: Seq<char>, file: Seq<char>) -> bool {
    font.name@ == name && font.file@ == file
}

/// The fonts of the system, the preferred one first.
pub fn system_fonts() -> (fonts: Vec<SystemFont>)
    ensures
        fonts@.len() == 4,
        is_font(fonts@[0], "windows-yahei"@, "msyh.ttc"@),
        is_font(fonts@[1], "windows-yahei-light"@, "msyhl.ttc"@),
        is_font(fonts@[2], "windows-deng"@, "Deng.ttf"@),
        is_font(fonts@[3], "windows-segoe"@, "segoeui.ttf"@),
{
    let mut fonts: Vec<SystemFont> = Vec::new();
    fonts.push(SystemFont { name: "windows-yahei", file: "msyh.ttc" });
    fonts.push(SystemFont { name: "windows-yahei-light", file: "msyhl.ttc" });
    fonts.push(SystemFont { name: "windows-deng", file: "Deng.ttf" });
    fonts.push(SystemFont { name: "windows-segoe", file: "segoeui.ttf" });
    fonts
}

/// The fonts of a family once those that could be loaded stand in front of it,
/// in their order.
pub fn family_with(loaded: &Vec<String>, family: Vec<String>) -> (fonts: Vec<String>)
    ensures
        text::texts(fonts@) == text::texts(loaded@) + text::texts(family@),
{
    let mut fonts: Vec<String> = Vec::new();
    for i in 0..loaded.len()
        invariant
            fonts@.len() == i,
            forall|j: int| 0 <= j < i ==> #[trigger] fonts@[j]@ == loaded@[j]@,
    {
        fonts.push(loaded[i].clone());
    }
    let ghost front = fonts@;
    for font in it: family
        invariant
            front.len() == loaded@.len(),
            forall|j: int| 0 <= j < front.len() ==> #[trigger] front[j]@ == loaded@[j]@,
            fonts@ == front + it.seq().take(it.index()),
    {
        fonts.push(font);
        assert(fonts@ =~= front + it.seq().take(it.index() + 1));
    }
    assert(text::texts(fonts@) =~= text::texts(loaded@) + text::texts(family@));
    fonts
}

} // verus!
