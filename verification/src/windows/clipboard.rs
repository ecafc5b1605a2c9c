//! Getting at the selected text by way of the clipboard.
use vstd::prelude::*;

use crate::text;
use crate::text::text_is_blank;

verus! {

/// How often the clipboard is looked at for the copied text.
pub const CAPTURE_ATTEMPTS: u32 = 20;

/// How often the modifier keys are looked at before the text is copied anyway.
pub const MODIFIER_CHECKS: u32 = 20;

/// What to do after a look at the modifier keys.
#[derive(Debug, Clone, Copy, PartialEq, Eq, Structural)]
pub enum ModifierStep {
    /// Copy the text now.
    Copy,
    /// Wait a moment, and look again.
    Wait,
    /// Wait a moment, and copy the text whatever is down then.
    WaitAndCopy,
}

/// The looks at the modifier keys before the text is copied.
#[derive(Debug, Clone, Copy, PartialEq, Eq, Structural)]
pub struct ModifierWatch {
    /// How many looks are left.
    pub left: u32,
}

/// What to do after a look at the modifier keys, with so many looks left before it.
pub open spec fn modifier_step(left: u32, pressed: bool) -> ModifierStep {
    if !pressed {
        ModifierStep::Copy
    } else if left > 1 {
        ModifierStep::Wait
    } else {
        ModifierStep::WaitAndCopy
    }
}

impl ModifierWatch {
    /// A watch that has all its looks before it.
    pub fn new() -> (watch: ModifierWatch)
        ensures
            watch == (ModifierWatch { left: MODIFIER_CHECKS }),
    {
        ModifierWatch { left: MODIFIER_CHECKS }
    }

    /// Takes note of a look: whether a modifier key is down.
    pub fn look(&mut self, pressed: bool) -> (step: ModifierStep)
        requires
            old(self).left > 0,
        ensures
            final(self).left == old(self).left - 1,
            step == (if !pressed {
                ModifierStep::Copy
            } else if old(self).left > 1 {
                ModifierStep::Wait
            } else {
                ModifierStep::WaitAndCopy
            }),
            step == modifier_step(old(self).left, pressed),
    {
        self.left = self.left - 1;
        if !pressed {
            ModifierStep::Copy
        } else if self.left > 0 {
            ModifierStep::Wait
        } else {
            ModifierStep::WaitAndCopy
        }
    }
}

/// The selected text, and whether the clipboard is again as it was.
#[derive(Debug)]
pub struct TextCaptureResult {
    pub text: String,
    pub clipboard_restored: bool,
}

/// What the clipboard held: the data of each format that could be read, and
/// whether these are all.
#[derive(Debug)]
pub struct ClipboardSnapshot {
    pub formats: Vec<(u32, Vec<u8>)>,
    pub complete: bool,
}

/// The readings that gave data, in order.
pub open spec fn readable(readings: Seq<(u32, Option<Vec<u8>>)>) -> Seq<(u32, Seq<u8>)>
    decreases readings.len(),
{
    if readings.len() == 0 {
        seq![]
    } else {
        match readings.last().1 {
            Some(data) => readable(readings.drop_last()).push((readings.last().0, data@)),
            None => readable(readings.drop_last()),
        }
    }
}

/// The views of the formats of a snapshot.
pub open spec fn format_views(formats: Seq<(u32, Vec<u8>)>) -> Seq<(u32, Seq<u8>)> {
    Seq::new(formats.len(), |i: int| (formats[i].0, formats[i].1@))
}

/// Whether the clipboard is again as it was, given whether all of it could be read,
/// whether it could be emptied, and for each format whether it could be put back.
pub open spec fn is_restored(complete: bool, emptied: bool, written: Seq<bool>) -> bool {
    complete && emptied && !written.contains(false)
}

impl ClipboardSnapshot {
    /// Keeps what was read of each format of the clipboard.
    pub fn of(readings: Vec<(u32, Option<Vec<u8>>)>) -> (snapshot: ClipboardSnapshot)
        ensures
            format_views(snapshot.formats@) == readable(readings@),
            snapshot.complete == (forall|i: int|
                0 <= i < readings@.len() ==> (#[trigger] readings@[i]).1 is Some),
            snapshot.complete <==> snapshot.formats@.len() == readings@.len(),
    {
        let ghost all = readings@;
        let mut formats: Vec<(u32, Vec<u8>)> = Vec::new();
        let mut complete = true;
        assert(format_views(formats@) =~= readable(all.take(0)));
        for reading in it: readings
            invariant
                it.seq() == all,
                format_views(formats@) == readable(all.take(it.index())),
                complete == (forall|i: int| 0 <= i < it.index() ==> (#[trigger] all[i]).1 is Some),
        {
            let ghost before = formats@;
            let ghost k = it.index();
            assert(all[k] == reading);
            assert(all.take(k + 1).drop_last() =~= all.take(k));
            assert(all.take(k + 1).last() == reading);
            let (id, data) = reading;
            match data {
                Some(bytes) => {
                    formats.push((id, bytes));
                    assert(format_views(formats@) =~= format_views(before).push((id, bytes@)));
                },
                None => {
                    complete = false;
                    assert(all[k].1 is None);
                },
            }
        }
        assert(all.take(all.len() as int) =~= all);
        proof {
            complete_readings_are_kept_whole(all);
            views_hold_every_format(formats@);
        }
        ClipboardSnapshot { formats, complete }
    }

    /// Tells whether the clipboard is again as it was, given whether it could be
    /// emptied, and for each format whether its data could be put back.
    pub fn restored(&self, emptied: bool, written: &Vec<bool>) -> (restored: bool)
        ensures
            restored == (emptied && self.complete && forall|i: int|
                0 <= i < written@.len() ==> #[trigger] written@[i]),
            restored == is_restored(self.complete, emptied, written@),
    {
        if !emptied {
            return false;
        }
        let mut complete = self.complete;
        for i in 0..written.len()
            invariant
                complete == (self.complete && forall|j: int|
                    0 <= j < i ==> #[trigger] written@[j]),
        {
            if !written[i] {
                complete = false;
                assert(!written@[i as int]);
            }
        }
        proof {
            if written@.contains(false) {
                let k = choose|k: int| 0 <= k < written@.len() && !written@[k];
                assert(!written@[k]);
            }
            if exists|j: int| 0 <= j < written@.len() && !#[trigger] written@[j] {
                let k = choose|k: int| 0 <= k < written@.len() && !#[trigger] written@[k];
                assert(written@.contains(written@[k]));
            }
        }
        complete
    }
}

/// The keys of the copy shortcut.
#[derive(Debug, Clone, Copy, PartialEq, Eq, Structural)]
pub enum CopyKey {
    Control,
    C,
}

/// A key that goes down or up.
#[derive(Debug, Clone, Copy, PartialEq, Eq, Structural)]
pub struct KeyStroke {
    pub key: CopyKey,
    pub up: bool,
}

/// The strokes of the copy shortcut.
pub open spec fn copy_strokes() -> Seq<KeyStroke> {
    seq![
        KeyStroke { key: CopyKey::Control, up: false },
        KeyStroke { key: CopyKey::C, up: false },
        KeyStroke { key: CopyKey::C, up: true },
        KeyStroke { key: CopyKey::Control, up: true },
    ]
}

/// The strokes of the copy shortcut, in order.
pub fn copy_shortcut() -> (strokes: Vec<KeyStroke>)
    ensures
        strokes@ == copy_strokes(),
{
    let mut strokes: Vec<KeyStroke> = Vec::new();
    strokes.push(KeyStroke { key: CopyKey::Control, up: false });
    strokes.push(KeyStroke { key: CopyKey::C, up: false });
    strokes.push(KeyStroke { key: CopyKey::C, up: true });
    strokes.push(KeyStroke { key: CopyKey::Control, up: true });
    assert(strokes@ =~= copy_strokes());
    strokes
}

/// Every key of the copy shortcut that goes down comes up again.
pub proof fn copy_shortcut_releases_its_keys(i: int)
    requires
        0 <= i < copy_strokes().len(),
        !copy_strokes()[i].up,
    ensures
        exists|j: int|
            i < j < copy_strokes().len() && (#[trigger] copy_strokes()[j]).up
                && copy_strokes()[j].key == copy_strokes()[i].key,
{
    let strokes = copy_strokes();
    assert(strokes[2].up && strokes[3].up);
}

/// Tells whether all strokes of the copy shortcut went out.
pub fn copy_shortcut_sent(sent: u32) -> (verdict: Result<(), String>)
    ensures
        verdict is Ok <==> sent == copy_strokes().len(),
        verdict matches Err(message) ==> message@ == "无法向当前程序发送复制快捷键"@,
{
    if sent != 4 {
        return Err("无法向当前程序发送复制快捷键".to_owned());
    }
    Ok(())
}

/// What to do after a look at the clipboard.
#[derive(Debug)]
pub enum CaptureStep {
    /// The copied text is there.
    Captured(String),
    /// Look again.
    Wait,
    /// Nothing was copied.
    GiveUp,
}

/// The looks at the clipboard for the copied text.
#[derive(Debug, Clone, Copy, PartialEq, Eq, Structural)]
pub struct CaptureWatch {
    /// The clipboard's sequence number before the copy.
    pub before: u32,
    /// How many looks are left.
    pub left: u32,
}

/// The text that a look finds: it counts once the sequence number has changed.
pub open spec fn fresh_text(before: u32, sequence: u32, found: Option<Seq<char>>) -> Option<
    Seq<char>,
> {
    if sequence == before {
        None
    } else {
        found
    }
}

impl CaptureWatch {
    /// A watch that has all its looks before it.
    pub fn new(before: u32) -> (watch: CaptureWatch)
        ensures
            watch == (CaptureWatch { before, left: CAPTURE_ATTEMPTS }),
    {
        CaptureWatch { before, left: CAPTURE_ATTEMPTS }
    }

    /// Takes note of a look: of the clipboard's sequence number and of the text
    /// in it. Text counts only once the number has changed.
    pub fn look(&mut self, sequence: u32, found: Option<String>) -> (step: CaptureStep)
        requires
            old(self).left > 0,
        ensures
            final(self).before == old(self).before,
            final(self).left == old(self).left - 1,
            if sequence != old(self).before && found is Some {
                step matches CaptureStep::Captured(text) && text@ == found->0@
            } else if old(self).left > 1 {
                step is Wait
            } else {
                step is GiveUp
            },
            match fresh_text(old(self).before, sequence, text::text_option(found)) {
                Some(fresh) => step matches CaptureStep::Captured(text) && text@ == fresh,
                None => step is Wait <==> final(self).left > 0,
            },
    {
        self.left = self.left - 1;
        if sequence != self.before {
            match found {
                Some(text) => return CaptureStep::Captured(text),
                None => {},
            }
        }
        if self.left > 0 {
            CaptureStep::Wait
        } else {
            CaptureStep::GiveUp
        }
    }
}

/// What came of the capture: the text, and whether the clipboard is again as it was,
/// or what is said where there is no text.
pub open spec fn capture_outcome(selected: Option<Seq<char>>, restored: bool) -> Result<
    (Seq<char>, bool),
    Seq<char>,
> {
    match selected {
        Some(text) if !text::is_blank(text) => Ok((text, restored)),
        _ => Err("未获取到选中文本，请先选择一段可复制的文本"@),
    }
}

/// The view of what came of a capture.
pub open spec fn capture_view(result: Result<TextCaptureResult, String>) -> Result<
    (Seq<char>, bool),
    Seq<char>,
> {
    match result {
        Ok(capture) => Ok((capture.text@, capture.clipboard_restored)),
        Err(message) => Err(message@),
    }
}

/// What came of the capture, given the text that was copied and whether the
/// clipboard is again as it was.
pub fn finish_capture(selected: Option<String>, restored: bool) -> (result: Result<
    TextCaptureResult,
    String,
>)
    ensures
        if selected is Some && !text::is_blank(selected->0@) {
            result matches Ok(capture) && capture.text@ == selected->0@
                && capture.clipboard_restored == restored
        } else {
            result matches Err(message) && message@ == "未获取到选中文本，请先选择一段可复制的文本"@
        },
        capture_view(result) == capture_outcome(text::text_option(selected), restored),
{
    match selected {
        Some(text) => if !text_is_blank(text.as_str()) {
            return Ok(TextCaptureResult { text, clipboard_restored: restored });
        },
        None => {},
    }
    Err("未获取到选中文本，请先选择一段可复制的文本".to_owned())
}

/// Two lists of readings, one behind the other, give what the first gives and then
/// what the second gives; one reading gives its number and its bytes, whatever the
/// number is, where it gave data, and nothing where not.
pub proof fn readings_are_kept_one_by_one(
    first: Seq<(u32, Option<Vec<u8>>)>,
    second: Seq<(u32, Option<Vec<u8>>)>,
    reading: (u32, Option<Vec<u8>>),
)
    ensures
        readable(first + second) == readable(first) + readable(second),
        reading.1 is None ==> readable(seq![reading]).len() == 0,
        reading.1 matches Some(data) ==> readable(seq![reading]) == seq![(reading.0, data@)],
    decreases second.len(),
{
    let one = seq![reading];
    assert(one.drop_last() =~= seq![]);
    assert(one.last() == reading);
    assert(readable(one.drop_last()) =~= seq![]);
    assert(reading.1 matches Some(data) ==> readable(one) =~= seq![(reading.0, data@)]);
    if second.len() == 0 {
        assert(first + second =~= first);
        assert(readable(first) + readable(second) =~= readable(first));
    } else {
        let shorter = second.drop_last();
        readings_are_kept_one_by_one(first, shorter, reading);
        assert((first + second).drop_last() =~= first + shorter);
        assert((first + second).last() == second.last());
        assert(readable(first + second) =~= readable(first) + readable(second));
    }
}

proof fn lemma_places_of_readings(readings: Seq<(u32, Option<Vec<u8>>)>) -> (places: Seq<int>)
    ensures
        places.len() == readable(readings).len(),
        forall|k: int|
            0 <= k < places.len() ==> {
                &&& 0 <= #[trigger] places[k] < readings.len()
                &&& readings[places[k]].1 is Some
                &&& readable(readings)[k] == (
                    readings[places[k]].0,
                    readings[places[k]].1->0@,
                )
            },
        forall|k: int, m: int|
            0 <= k < m < places.len() ==> #[trigger] places[k] < #[trigger] places[m],
        forall|i: int|
            0 <= i < readings.len() && (#[trigger] readings[i]).1 is Some ==> places.contains(i),
    decreases readings.len(),
{
    if readings.len() == 0 {
        seq![]
    } else {
        let shorter = readings.drop_last();
        let before = lemma_places_of_readings(shorter);
        let n = readings.len() - 1;
        if readings.last().1 is Some {
            let places = before.push(n);
            assert forall|i: int|
                0 <= i < readings.len() && (#[trigger] readings[i]).1
                    is Some implies places.contains(i) by {
                if i < n {
                    assert(shorter[i] == readings[i]);
                    let k = choose|k: int| 0 <= k < before.len() && before[k] == i;
                    assert(places[k] == i);
                } else {
                    assert(places[before.len() as int] == i);
                }
            }
            places
        } else {
            assert forall|i: int|
                0 <= i < readings.len() && (#[trigger] readings[i]).1
                    is Some implies before.contains(i) by {
                assert(shorter[i] == readings[i]);
            }
            before
        }
    }
}

/// What is kept of the clipboard are the readings that gave data, all of them, in
/// their order, and nothing else: there are places in the readings, one behind the
/// other, at which each kept format stands with its number and its bytes, and every
/// reading with data is at one of them.
pub proof fn every_reading_with_data_is_kept(readings: Seq<(u32, Option<Vec<u8>>)>)
    ensures
        exists|places: Seq<int>|
            {
                &&& #[trigger] places.len() == readable(readings).len()
                &&& forall|k: int|
                    0 <= k < places.len() ==> {
                        &&& 0 <= #[trigger] places[k] < readings.len()
                        &&& readings[places[k]].1 is Some
                        &&& readable(readings)[k] == (
                            readings[places[k]].0,
                            readings[places[k]].1->0@,
                        )
                    }
                &&& forall|k: int, m: int|
                    0 <= k < m < places.len() ==> #[trigger] places[k] < #[trigger] places[m]
                &&& forall|i: int|
                    0 <= i < readings.len() && (#[trigger] readings[i]).1 is Some
                        ==> places.contains(i)
            },
{
    let places = lemma_places_of_readings(readings);
    assert(places.len() == readable(readings).len());
}

/// Where all readings gave data, there are as many formats as readings, each with
/// the number and the bytes of the reading in its place; they are fewer where one
/// gave none.
pub proof fn complete_readings_are_kept_whole(readings: Seq<(u32, Option<Vec<u8>>)>)
    ensures
        readable(readings).len() <= readings.len(),
        readable(readings).len() == readings.len() <==> forall|i: int|
            0 <= i < readings.len() ==> (#[trigger] readings[i]).1 is Some,
        (forall|i: int| 0 <= i < readings.len() ==> (#[trigger] readings[i]).1 is Some)
            ==> forall|i: int|
            0 <= i < readings.len() ==> #[trigger] readable(readings)[i] == (
                readings[i].0,
                readings[i].1->0@,
            ),
    decreases readings.len(),
{
    if readings.len() > 0 {
        let shorter = readings.drop_last();
        complete_readings_are_kept_whole(shorter);
        let all = forall|i: int| 0 <= i < readings.len() ==> (#[trigger] readings[i]).1 is Some;
        if all {
            assert forall|i: int| 0 <= i < shorter.len() implies (#[trigger] shorter[i]).1 is Some by {
                assert(shorter[i] == readings[i]);
            }
            assert(readings[readings.len() - 1].1 is Some);
            assert forall|i: int| 0 <= i < readings.len() implies #[trigger] readable(readings)[i]
                == (readings[i].0, readings[i].1->0@) by {
                if i < shorter.len() {
                    assert(readable(readings)[i] == readable(shorter)[i]);
                    assert(shorter[i] == readings[i]);
                }
            }
        } else if readable(readings).len() == readings.len() {
            assert forall|i: int| 0 <= i < readings.len() implies (#[trigger] readings[i]).1
                is Some by {
                if i < shorter.len() {
                    assert(shorter[i] == readings[i]);
                }
            }
        }
    }
}

/// The views of the formats of a snapshot hold every format in its place.
pub proof fn views_hold_every_format(formats: Seq<(u32, Vec<u8>)>)
    ensures
        format_views(formats).len() == formats.len(),
        forall|i: int|
            0 <= i < formats.len() ==> #[trigger] format_views(formats)[i] == (
                formats[i].0,
                formats[i].1@,
            ),
{
}

/// The text is copied as soon as no modifier key is down, and after the last look
/// whatever is down.
pub proof fn copying_waits_for_the_modifiers(left: u32, pressed: bool)
    ensures
        modifier_step(left, pressed) == ModifierStep::Copy <==> !pressed,
        modifier_step(left, pressed) == ModifierStep::Wait <==> pressed && left > 1,
        modifier_step(left, pressed) == ModifierStep::WaitAndCopy <==> pressed && left <= 1,
{
}

/// The clipboard is again as it was just where all of it could be read, it could be
/// emptied, and each format could be put back.
pub proof fn one_loss_is_a_loss(complete: bool, emptied: bool, written: Seq<bool>)
    ensures
        is_restored(complete, emptied, written) ==> complete && emptied,
        forall|i: int|
            0 <= i < written.len() && is_restored(complete, emptied, written)
                ==> #[trigger] written[i],
        complete && emptied && (forall|i: int| 0 <= i < written.len() ==> #[trigger] written[i])
            ==> is_restored(complete, emptied, written),
{
    assert forall|i: int|
        0 <= i < written.len() && is_restored(
            complete,
            emptied,
            written,
        ) implies #[trigger] written[i] by {
        if !written[i] {
            assert(written.contains(written[i]));
        }
    }
    if written.contains(false) {
        let i = choose|i: int| 0 <= i < written.len() && !written[i];
        assert(!written[i]);
    }
}

/// A text that stood in the clipboard before the copy does not count; one that came
/// by it does, as it is.
pub proof fn only_copied_text_counts(before: u32, sequence: u32, found: Option<Seq<char>>)
    ensures
        fresh_text(before, before, found) is None,
        sequence != before ==> fresh_text(before, sequence, found) == found,
{
}

/// A capture gives the text that was copied, word for word, and tells whether the
/// clipboard is again as it was; without a text, or with a blank one, it gives none.
pub proof fn captures_give_the_copied_text(text: Seq<char>, restored: bool)
    ensures
        !text::is_blank(text) ==> capture_outcome(Some(text), restored) == Ok::<
            (Seq<char>, bool),
            Seq<char>,
        >((text, restored)),
        text::is_blank(text) ==> capture_outcome(Some(text), restored) is Err,
        capture_outcome(None, restored) is Err,
{
}

/// The copy shortcut is the control key, held while C goes down and up, and no
/// other stroke.
pub proof fn copy_shortcut_is_control_and_c()
    ensures
        copy_strokes().len() == 4,
        forall|i: int|
            0 <= i < 4 ==> ((#[trigger] copy_strokes()[i]).up <==> i >= 2) && (copy_strokes()[i].key
                == CopyKey::Control <==> i == 0 || i == 3),
{
}

} // verus!
