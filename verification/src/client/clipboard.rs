//! The clipboard: what is kept of it, what is put back, and which keys paste from it.

use crate::text;
use crate::text::{chars_of, concat, contains_lit, eq_chars, eq_lit, find_char, string_of};
use vstd::prelude::*;

verus! {

/// What the clipboard held before text was pasted.
#[derive(Debug)]
pub enum ClipboardSnapshot {
    /// Text.
    Text(String),
    /// A text without characters.
    EmptyText,
    /// Something that is no text. It is not put back.
    NonText,
    /// It could not be read. Nothing is put back.
    Unreadable,
}

/// Why the clipboard could not be put back.
#[derive(Debug, Clone, Copy, PartialEq, Eq, Structural)]
pub enum ClipboardRestoreError {
    /// It could not be opened.
    OpenFailed,
    /// It could not be written.
    SetFailed,
}

impl ClipboardRestoreError {
    /// The error's fixed code.
    pub fn to_string(&self) -> (r: String)
        ensures
            r@ == (match self {
                ClipboardRestoreError::OpenFailed => "clipboard_open_failed"@,
                ClipboardRestoreError::SetFailed => "clipboard_restore_failed"@,
            }),
    {
        match self {
            ClipboardRestoreError::OpenFailed => string_of(&chars_of("clipboard_open_failed")),
            ClipboardRestoreError::SetFailed => string_of(&chars_of("clipboard_restore_failed")),
        }
    }
}

/// What came of reading the clipboard.
#[derive(Debug)]
pub enum ClipboardRead {
    /// It could not be opened.
    NotOpened,
    /// It could be opened but not read as text, for this reason.
    Failed(String),
    /// Its text.
    Text(String),
}

/// What `str::to_lowercase` makes of a text.
pub uninterp spec fn lowercase_of(text: Seq<char>) -> Seq<char>;

/// `str::to_lowercase`: the text in small letters, by the rules of Unicode. It is a function of the
/// text alone.
#[verifier::external_body]
pub(crate) fn lowercase(text: &str) -> (r: String)
    ensures
        r@ == lowercase_of(text@),
{
    text.to_lowercase()
}

/// What is kept of a clipboard that could not be read as text, whose reason reads so in small
/// letters.
pub fn snapshot_of_failure(lowered: &str) -> (r: ClipboardSnapshot)
    ensures
        r == (if text::has_part(lowered@, "not available as text"@) {
            ClipboardSnapshot::NonText
        } else {
            ClipboardSnapshot::Unreadable
        }),
{
    if contains_lit(&chars_of(lowered), "not available as text") {
        ClipboardSnapshot::NonText
    } else {
        ClipboardSnapshot::Unreadable
    }
}

/// What is kept of the clipboard.
pub open spec fn kept(read: ClipboardRead) -> ClipboardSnapshot {
    match read {
        ClipboardRead::NotOpened => ClipboardSnapshot::Unreadable,
        ClipboardRead::Failed(e) => if text::has_part(
            lowercase_of(e@),
            "not available as text"@,
        ) {
            ClipboardSnapshot::NonText
        } else {
            ClipboardSnapshot::Unreadable
        },
        ClipboardRead::Text(s) => if s@.len() == 0 {
            ClipboardSnapshot::EmptyText
        } else {
            ClipboardSnapshot::Text(s)
        },
    }
}

/// What is kept of the clipboard.
pub fn take_snapshot(read: ClipboardRead) -> (r: ClipboardSnapshot)
    ensures
        r == kept(read),
{
    match read {
        ClipboardRead::NotOpened => ClipboardSnapshot::Unreadable,
        ClipboardRead::Failed(e) => snapshot_of_failure(&lowercase(&e)),
        ClipboardRead::Text(s) => {
            if chars_of(&s).len() == 0 {
                ClipboardSnapshot::EmptyText
            } else {
                ClipboardSnapshot::Text(s)
            }
        },
    }
}

/// The text that a snapshot puts back, if any.
pub open spec fn put_back(snapshot: ClipboardSnapshot) -> Option<Seq<char>> {
    match snapshot {
        ClipboardSnapshot::Text(s) => Some(s@),
        ClipboardSnapshot::EmptyText => Some(Seq::empty()),
        _ => None,
    }
}

/// Is there anything to put back? Where there is not, the clipboard is not even opened.
pub fn restores(snapshot: &ClipboardSnapshot) -> (r: bool)
    ensures
        r == put_back(*snapshot) is Some,
{
    match snapshot {
        ClipboardSnapshot::Text(_) => true,
        ClipboardSnapshot::EmptyText => true,
        _ => false,
    }
}

/// What is to be written to put the clipboard back, if anything: only where it still holds what was
/// put into it.
pub fn restore_clipboard(
    snapshot: &ClipboardSnapshot,
    injected_content: &str,
    current: &ClipboardRead,
) -> (r: Result<Option<String>, ClipboardRestoreError>)
    ensures
        match put_back(*snapshot) {
            None => r == Ok::<Option<String>, ClipboardRestoreError>(None),
            Some(old_text) => match *current {
                ClipboardRead::NotOpened => r == Err::<Option<String>, ClipboardRestoreError>(
                    ClipboardRestoreError::OpenFailed,
                ),
                ClipboardRead::Failed(_) => r == Ok::<Option<String>, ClipboardRestoreError>(None),
                ClipboardRead::Text(s) => if s@ == injected_content@ {
                    r matches Ok(Some(t)) && t@ == old_text
                } else {
                    r == Ok::<Option<String>, ClipboardRestoreError>(None)
                },
            },
        },
{
    let old_text = match snapshot {
        ClipboardSnapshot::Text(s) => string_of(&chars_of(s)),
        ClipboardSnapshot::EmptyText => String::new(),
        _ => {
            return Ok(None);
        },
    };
    match current {
        ClipboardRead::NotOpened => Err(ClipboardRestoreError::OpenFailed),
        ClipboardRead::Failed(_) => Ok(None),
        ClipboardRead::Text(s) => {
            if eq_chars(&chars_of(s), &chars_of(injected_content)) {
                Ok(Some(old_text))
            } else {
                Ok(None)
            }
        },
    }
}

/// What is kept of a text is that text, and of anything else nothing is put back.
pub proof fn law_text_is_put_back(read: ClipboardRead)
    ensures
        put_back(kept(read)) == (match read {
            ClipboardRead::Text(s) => Some(s@),
            _ => None,
        }),
{
    if let ClipboardRead::Text(s) = read {
        if s@.len() == 0 {
            assert(s@ =~= Seq::empty());
        }
    }
}

/// What came of putting the clipboard back.
pub fn restore_result(written: bool) -> (r: Result<(), ClipboardRestoreError>)
    ensures
        r == (if written {
            Ok::<(), ClipboardRestoreError>(())
        } else {
            Err::<(), ClipboardRestoreError>(ClipboardRestoreError::SetFailed)
        }),
{
    if written {
        Ok(())
    } else {
        Err(ClipboardRestoreError::SetFailed)
    }
}

/// What came of writing to the clipboard.
#[derive(Debug)]
pub enum ClipboardWrite {
    /// It could not be opened, for this reason.
    NotOpened(String),
    /// It could not be written, for this reason.
    Failed(String),
    /// It was written.
    Written,
}

/// What came of writing a text to the clipboard. A text without characters is not written.
pub fn write_to_clipboard(text: &str, outcome: &ClipboardWrite) -> (r: Result<(), String>)
    ensures
        match r {
            Ok(()) => text@.len() == 0 || *outcome is Written,
            Err(e) => text@.len() > 0 && match *outcome {
                ClipboardWrite::NotOpened(why) => e@ == "Clipboard init failed: "@ + why@,
                ClipboardWrite::Failed(why) => e@ == "Clipboard write failed: "@ + why@,
                ClipboardWrite::Written => false,
            },
        },
{
    if chars_of(text).len() == 0 {
        return Ok(());
    }
    match outcome {
        ClipboardWrite::NotOpened(why) => Err(concat("Clipboard init failed: ", why)),
        ClipboardWrite::Failed(why) => Err(concat("Clipboard write failed: ", why)),
        ClipboardWrite::Written => Ok(()),
    }
}

/// A key.
#[derive(Debug, Clone, Copy, PartialEq, Eq, Structural)]
pub enum Key {
    Control,
    Shift,
    Alt,
    Meta,
    Return,
    Tab,
    Escape,
    Space,
    Backspace,
    Delete,
    UpArrow,
    DownArrow,
    LeftArrow,
    RightArrow,
    F1,
    F2,
    F3,
    F4,
    F5,
    F6,
    F7,
    F8,
    F9,
    F10,
    F11,
    F12,
    Home,
    End,
    PageUp,
    PageDown,
    /// A character's key.
    Unicode(char),
}

/// The modifier of that name.
pub open spec fn modifier_named(s: Seq<char>) -> Option<Key> {
    if s == "ctrl"@ {
        Some(Key::Control)
    } else if s == "shift"@ {
        Some(Key::Shift)
    } else if s == "alt"@ {
        Some(Key::Alt)
    } else if s == "meta"@ {
        Some(Key::Meta)
    } else {
        None
    }
}

/// The key of that name.
pub open spec fn key_named(s: Seq<char>) -> Option<Key> {
    if s == "Return"@ {
        Some(Key::Return)
    } else if s == "Tab"@ {
        Some(Key::Tab)
    } else if s == "Escape"@ {
        Some(Key::Escape)
    } else if s == "Space"@ {
        Some(Key::Space)
    } else if s == "Backspace"@ {
        Some(Key::Backspace)
    } else if s == "Delete"@ {
        Some(Key::Delete)
    } else if s == "Up"@ {
        Some(Key::UpArrow)
    } else if s == "Down"@ {
        Some(Key::DownArrow)
    } else if s == "Left"@ {
        Some(Key::LeftArrow)
    } else if s == "Right"@ {
        Some(Key::RightArrow)
    } else if s == "F1"@ {
        Some(Key::F1)
    } else if s == "F2"@ {
        Some(Key::F2)
    } else if s == "F3"@ {
        Some(Key::F3)
    } else if s == "F4"@ {
        Some(Key::F4)
    } else if s == "F5"@ {
        Some(Key::F5)
    } else if s == "F6"@ {
        Some(Key::F6)
    } else if s == "F7"@ {
        Some(Key::F7)
    } else if s == "F8"@ {
        Some(Key::F8)
    } else if s == "F9"@ {
        Some(Key::F9)
    } else if s == "F10"@ {
        Some(Key::F10)
    } else if s == "F11"@ {
        Some(Key::F11)
    } else if s == "F12"@ {
        Some(Key::F12)
    } else if s == "Home"@ {
        Some(Key::Home)
    } else if s == "End"@ {
        Some(Key::End)
    } else if s == "PageUp"@ {
        Some(Key::PageUp)
    } else if s == "PageDown"@ {
        Some(Key::PageDown)
    } else {
        None
    }
}

/// The keys that a text names: a key, or a modifier, a plus sign and a key.
pub open spec fn keys_named(s: Seq<char>) -> Option<(Option<Key>, Key)> {
    let plus = text::first_at(s, '+');
    if s.contains('+') {
        match (modifier_named(s.take(plus)), key_named(s.skip(plus + 1))) {
            (Some(m), Some(k)) => Some((Some(m), k)),
            _ => None,
        }
    } else {
        match key_named(s) {
            Some(k) => Some((None, k)),
            None => None,
        }
    }
}

/// The modifier of that name.
fn modifier_of(s: &[char]) -> (r: Option<Key>)
    ensures
        r == modifier_named(s@),
{
    if eq_lit(s, "ctrl") {
        Some(Key::Control)
    } else if eq_lit(s, "shift") {
        Some(Key::Shift)
    } else if eq_lit(s, "alt") {
        Some(Key::Alt)
    } else if eq_lit(s, "meta") {
        Some(Key::Meta)
    } else {
        None
    }
}

/// The key of that name.
fn key_of(s: &[char]) -> (r: Option<Key>)
    ensures
        r == key_named(s@),
{
    if eq_lit(s, "Return") {
        Some(Key::Return)
    } else if eq_lit(s, "Tab") {
        Some(Key::Tab)
    } else if eq_lit(s, "Escape") {
        Some(Key::Escape)
    } else if eq_lit(s, "Space") {
        Some(Key::Space)
    } else if eq_lit(s, "Backspace") {
        Some(Key::Backspace)
    } else if eq_lit(s, "Delete") {
        Some(Key::Delete)
    } else if eq_lit(s, "Up") {
        Some(Key::UpArrow)
    } else if eq_lit(s, "Down") {
        Some(Key::DownArrow)
    } else if eq_lit(s, "Left") {
        Some(Key::LeftArrow)
    } else if eq_lit(s, "Right") {
        Some(Key::RightArrow)
    } else if eq_lit(s, "F1") {
        Some(Key::F1)
    } else if eq_lit(s, "F2") {
        Some(Key::F2)
    } else if eq_lit(s, "F3") {
        Some(Key::F3)
    } else if eq_lit(s, "F4") {
        Some(Key::F4)
    } else if eq_lit(s, "F5") {
        Some(Key::F5)
    } else if eq_lit(s, "F6") {
        Some(Key::F6)
    } else if eq_lit(s, "F7") {
        Some(Key::F7)
    } else if eq_lit(s, "F8") {
        Some(Key::F8)
    } else if eq_lit(s, "F9") {
        Some(Key::F9)
    } else if eq_lit(s, "F10") {
        Some(Key::F10)
    } else if eq_lit(s, "F11") {
        Some(Key::F11)
    } else if eq_lit(s, "F12") {
        Some(Key::F12)
    } else if eq_lit(s, "Home") {
        Some(Key::Home)
    } else if eq_lit(s, "End") {
        Some(Key::End)
    } else if eq_lit(s, "PageUp") {
        Some(Key::PageUp)
    } else if eq_lit(s, "PageDown") {
        Some(Key::PageDown)
    } else {
        None
    }
}

/// The keys that a text names, if it does.
pub fn parse_key_spec(s: &str) -> (r: Option<(Option<Key>, Key)>)
    ensures
        r == keys_named(s@),
{
    let all = chars_of(s);
    match find_char(&all, '+') {
        Some(plus) => {
            let before = vstd::slice::slice_subrange(all.as_slice(), 0, plus);
            let behind = vstd::slice::slice_subrange(all.as_slice(), plus + 1, all.len());
            assert(before@ =~= s@.take(plus as int));
            assert(behind@ =~= s@.skip(plus + 1));
            let modifier = match modifier_of(before) {
                Some(m) => m,
                None => {
                    return None;
                },
            };
            match key_of(behind) {
                Some(k) => Some((Some(modifier), k)),
                None => None,
            }
        },
        None => match key_of(&all) {
            Some(k) => Some((None, k)),
            None => None,
        },
    }
}

/// The keys pressed after pasting, in order: those that are named, if they are keys, and return,
/// where that is asked for and has not just been pressed.
pub open spec fn keys_after_paste(named: Option<Seq<char>>, enter: bool) -> Seq<
    (Option<Key>, Key),
> {
    let first = match named {
        Some(keys) => match keys_named(keys) {
            Some(pressed) => seq![pressed],
            None => Seq::empty(),
        },
        None => Seq::empty(),
    };
    let last = (None::<Key>, Key::Return);
    if enter && !first.contains(last) {
        first.push(last)
    } else {
        first
    }
}

/// The keys pressed after pasting, in order.
pub fn press_after_paste(named: Option<&str>, enter: bool) -> (r: Vec<(Option<Key>, Key)>)
    ensures
        r@ == keys_after_paste(
            match named {
                Some(keys) => Some(keys@),
                None => None,
            },
            enter,
        ),
{
    let mut out: Vec<(Option<Key>, Key)> = Vec::new();
    let mut entered = false;
    if let Some(keys) = named {
        if let Some((modifier, key)) = parse_key_spec(keys) {
            entered = modifier.is_none() && match key {
                Key::Return => true,
                _ => false,
            };
            out.push((modifier, key));
            assert(out@ =~= seq![(modifier, key)]);
            assert(out@[0] == (modifier, key));
        }
    }
    assert(entered == out@.contains((None::<Key>, Key::Return)));
    if enter && !entered {
        out.push((None, Key::Return));
    }
    assert(out@ =~= keys_after_paste(
        match named {
            Some(keys) => Some(keys@),
            None => None,
        },
        enter,
    ));
    out
}

/// Where return is asked for after pasting it is pressed, whatever keys are named besides.
pub proof fn law_return_is_pressed(named: Option<Seq<char>>)
    ensures
        keys_after_paste(named, true).contains((None::<Key>, Key::Return)),
{
    let first = keys_after_paste(named, false);
    let last = (None::<Key>, Key::Return);
    if !first.contains(last) {
        assert(first.push(last)[first.len() as int] == last);
    }
}

/// No name of a key holds a plus sign.
proof fn lemma_key_has_no_plus(s: Seq<char>)
    requires
        key_named(s) is Some,
    ensures
        !s.contains('+'),
{
    reveal_strlit("Return");
    reveal_strlit("Tab");
    reveal_strlit("Escape");
    reveal_strlit("Space");
    reveal_strlit("Backspace");
    reveal_strlit("Delete");
    reveal_strlit("Up");
    reveal_strlit("Down");
    reveal_strlit("Left");
    reveal_strlit("Right");
    reveal_strlit("F1");
    reveal_strlit("F2");
    reveal_strlit("F3");
    reveal_strlit("F4");
    reveal_strlit("F5");
    reveal_strlit("F6");
    reveal_strlit("F7");
    reveal_strlit("F8");
    reveal_strlit("F9");
    reveal_strlit("F10");
    reveal_strlit("F11");
    reveal_strlit("F12");
    reveal_strlit("Home");
    reveal_strlit("End");
    reveal_strlit("PageUp");
    reveal_strlit("PageDown");
}

/// No two modifiers are accepted: a text that names keys holds at most one plus sign.
pub proof fn law_one_modifier_at_most(s: Seq<char>, i: int, j: int)
    requires
        keys_named(s) is Some,
        0 <= i < s.len(),
        0 <= j < s.len(),
        s[i] == '+',
        s[j] == '+',
    ensures
        i == j,
{
    text::lemma_first_at(s, '+');
    let plus = text::first_at(s, '+');
    assert(s.contains('+'));
    let behind = s.skip(plus + 1);
    lemma_key_has_no_plus(behind);
    if i > plus {
        assert(behind[i - plus - 1] == '+');
    }
    if j > plus {
        assert(behind[j - plus - 1] == '+');
    }
}

/// What is done with a key.
#[derive(Debug, Clone, Copy, PartialEq, Eq, Structural)]
pub enum Direction {
    /// It is pressed and held.
    Press,
    /// It is pressed and released.
    Click,
    /// It is released.
    Release,
}

/// A key, and what is done with it.
#[derive(Debug, Clone, Copy, PartialEq, Eq, Structural)]
pub struct KeyStroke {
    pub key: Key,
    pub direction: Direction,
}

/// A key under a modifier, or alone.
pub open spec fn strokes(modifier: Option<Key>, key: Key) -> Seq<KeyStroke> {
    let click = KeyStroke { key, direction: Direction::Click };
    match modifier {
        Some(m) => seq![
            KeyStroke { key: m, direction: Direction::Press },
            click,
            KeyStroke { key: m, direction: Direction::Release },
        ],
        None => seq![click],
    }
}

/// A key under a modifier, or alone.
pub fn simulate_key(modifier: Option<Key>, key: Key) -> (r: Vec<KeyStroke>)
    ensures
        r@ == strokes(modifier, key),
{
    let mut out: Vec<KeyStroke> = Vec::new();
    if let Some(m) = modifier {
        out.push(KeyStroke { key: m, direction: Direction::Press });
    }
    out.push(KeyStroke { key, direction: Direction::Click });
    if let Some(m) = modifier {
        out.push(KeyStroke { key: m, direction: Direction::Release });
    }
    assert(out@ =~= strokes(modifier, key));
    out
}

/// The keys that paste.
pub fn simulate_paste() -> (r: Vec<KeyStroke>)
    ensures
        r@ == strokes(Some(Key::Control), Key::Unicode('v')),
{
    simulate_key(Some(Key::Control), Key::Unicode('v'))
}

/// Do the next keys follow after this one? Not where a modifier could not be pressed; a key that
/// could not be sent keeps no modifier from being released.
pub fn goes_on(stroke: KeyStroke, sent: bool) -> (r: bool)
    ensures
        r == (sent || stroke.direction != Direction::Press),
{
    sent || match stroke.direction {
        Direction::Press => false,
        _ => true,
    }
}

/// How many of the keys are tried, where `sent` says of each whether it could be sent.
pub open spec fn tried(keys: Seq<KeyStroke>, sent: spec_fn(int) -> bool, from: int) -> int
    decreases keys.len() - from,
{
    if from < 0 || from >= keys.len() {
        from
    } else if sent(from) || keys[from].direction != Direction::Press {
        tried(keys, sent, from + 1)
    } else {
        from + 1
    }
}

/// A modifier that could be pressed is released, whatever becomes of the key.
pub proof fn law_modifier_is_released(modifier: Key, key: Key, sent: spec_fn(int) -> bool)
    requires
        sent(0),
    ensures
        tried(strokes(Some(modifier), key), sent, 0) == 3,
        strokes(Some(modifier), key)[2] == (KeyStroke {
            key: modifier,
            direction: Direction::Release,
        }),
{
    let keys = strokes(Some(modifier), key);
    assert(tried(keys, sent, 3) == 3);
    assert(tried(keys, sent, 2) == 3);
    assert(tried(keys, sent, 1) == 3);
}

} // verus!
