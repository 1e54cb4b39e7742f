//! Keybinds such as `ctrl+shift+m`: the key events that they stand for on
//! Windows, and what `xdotool` is told on Linux.

use crate::text;
use crate::text::{
    chars_of, is_text, join_strings, read_unsigned, split_char, string_of, sub_chars,
    to_ascii_upper, trim_chars,
};
use vstd::prelude::*;
use vstd::string::*;

verus! {

/// A key that goes down or up.
#[derive(Debug, Clone, Copy, PartialEq, Eq, Structural)]
pub struct KeyEvent {
    pub code: u8,
    pub up: bool,
}

/// Why a keybind is not played.
#[derive(Debug, Clone)]
pub enum KeybindError {
    /// A part that names no key.
    UnknownKey(String),
    /// Only modifiers.
    NoKey,
}

/// The parts of a keybind, trimmed.
pub open spec fn parts(keybind: Seq<char>) -> Seq<Seq<char>> {
    text::split_on(keybind, '+').map_values(|p: Seq<char>| text::trim(p))
}

/// The virtual-key code of a modifier.
pub open spec fn modifier_code(name: Seq<char>) -> Option<u8> {
    if name == "ctrl"@ || name == "control"@ {
        Some(0x11)
    } else if name == "shift"@ {
        Some(0x10)
    } else if name == "alt"@ {
        Some(0x12)
    } else if name == "win"@ || name == "super"@ {
        Some(0x5B)
    } else {
        None
    }
}

/// The virtual-key code of a function key.
pub open spec fn function_key_code(name: Seq<char>) -> Option<u8> {
    if name == "f1"@ {
        Some(0x70)
    } else if name == "f2"@ {
        Some(0x71)
    } else if name == "f3"@ {
        Some(0x72)
    } else if name == "f4"@ {
        Some(0x73)
    } else if name == "f5"@ {
        Some(0x74)
    } else if name == "f6"@ {
        Some(0x75)
    } else if name == "f7"@ {
        Some(0x76)
    } else if name == "f8"@ {
        Some(0x77)
    } else if name == "f9"@ {
        Some(0x78)
    } else if name == "f10"@ {
        Some(0x79)
    } else if name == "f11"@ {
        Some(0x7A)
    } else if name == "f12"@ {
        Some(0x7B)
    } else {
        None
    }
}

/// The virtual-key code of a key with a name of its own.
pub open spec fn named_key_code(name: Seq<char>) -> Option<u8> {
    if name == "escape"@ || name == "esc"@ {
        Some(0x1B)
    } else if name == "tab"@ {
        Some(0x09)
    } else if name == "space"@ {
        Some(0x20)
    } else if name == "enter"@ || name == "return"@ {
        Some(0x0D)
    } else if name == "backspace"@ {
        Some(0x08)
    } else if name == "delete"@ || name == "del"@ {
        Some(0x2E)
    } else if name == "insert"@ || name == "ins"@ {
        Some(0x2D)
    } else if name == "home"@ {
        Some(0x24)
    } else if name == "end"@ {
        Some(0x23)
    } else if name == "pageup"@ || name == "pgup"@ {
        Some(0x21)
    } else if name == "pagedown"@ || name == "pgdn"@ {
        Some(0x22)
    } else if name == "up"@ {
        Some(0x26)
    } else if name == "down"@ {
        Some(0x28)
    } else if name == "left"@ {
        Some(0x25)
    } else if name == "right"@ {
        Some(0x27)
    } else {
        None
    }
}

/// The virtual-key code of a letter or a digit: its ASCII code, a letter in upper
/// case.
pub open spec fn character_key_code(name: Seq<char>) -> Option<u8> {
    if name.len() == 1 && text::is_ascii_alnum(name[0]) {
        Some(text::ascii_upper(name[0]) as u8)
    } else {
        None
    }
}

/// The virtual-key code of a key that is no modifier.
pub open spec fn key_code(name: Seq<char>) -> Option<u8> {
    match function_key_code(name) {
        Some(code) => Some(code),
        None => match named_key_code(name) {
            Some(code) => Some(code),
            None => character_key_code(name),
        },
    }
}

fn read_modifier(name: &[char]) -> (r: Option<u8>)
    ensures
        r == modifier_code(name@),
{
    if is_text(name, "ctrl") || is_text(name, "control") {
        Some(0x11)
    } else if is_text(name, "shift") {
        Some(0x10)
    } else if is_text(name, "alt") {
        Some(0x12)
    } else if is_text(name, "win") || is_text(name, "super") {
        Some(0x5B)
    } else {
        None
    }
}

fn read_function_key(name: &[char]) -> (r: Option<u8>)
    ensures
        r == function_key_code(name@),
{
    if is_text(name, "f1") {
        Some(0x70)
    } else if is_text(name, "f2") {
        Some(0x71)
    } else if is_text(name, "f3") {
        Some(0x72)
    } else if is_text(name, "f4") {
        Some(0x73)
    } else if is_text(name, "f5") {
        Some(0x74)
    } else if is_text(name, "f6") {
        Some(0x75)
    } else if is_text(name, "f7") {
        Some(0x76)
    } else if is_text(name, "f8") {
        Some(0x77)
    } else if is_text(name, "f9") {
        Some(0x78)
    } else if is_text(name, "f10") {
        Some(0x79)
    } else if is_text(name, "f11") {
        Some(0x7A)
    } else if is_text(name, "f12") {
        Some(0x7B)
    } else {
        None
    }
}

fn read_named_key(name: &[char]) -> (r: Option<u8>)
    ensures
        r == named_key_code(name@),
{
    if is_text(name, "escape") || is_text(name, "esc") {
        Some(0x1B)
    } else if is_text(name, "tab") {
        Some(0x09)
    } else if is_text(name, "space") {
        Some(0x20)
    } else if is_text(name, "enter") || is_text(name, "return") {
        Some(0x0D)
    } else if is_text(name, "backspace") {
        Some(0x08)
    } else if is_text(name, "delete") || is_text(name, "del") {
        Some(0x2E)
    } else if is_text(name, "insert") || is_text(name, "ins") {
        Some(0x2D)
    } else if is_text(name, "home") {
        Some(0x24)
    } else if is_text(name, "end") {
        Some(0x23)
    } else if is_text(name, "pageup") || is_text(name, "pgup") {
        Some(0x21)
    } else if is_text(name, "pagedown") || is_text(name, "pgdn") {
        Some(0x22)
    } else if is_text(name, "up") {
        Some(0x26)
    } else if is_text(name, "down") {
        Some(0x28)
    } else if is_text(name, "left") {
        Some(0x25)
    } else if is_text(name, "right") {
        Some(0x27)
    } else {
        None
    }
}

/// Maps the name of a key, in lower case, to a Windows virtual-key code.
pub fn parse_vk_code(key: &str) -> (r: Option<u8>)
    ensures
        r == key_code(key@),
{
    let name = chars_of(key);
    match read_function_key(&name) {
        Some(code) => {
            return Some(code);
        },
        None => {},
    }
    match read_named_key(&name) {
        Some(code) => {
            return Some(code);
        },
        None => {},
    }
    if name.len() == 1 && text::ascii_alnum(name[0]) {
        Some(text::upper_char(name[0]) as u8)
    } else {
        None
    }
}

/// What the parts of a keybind name so far: the modifiers in order and the last
/// key; or the first part that names no key.
pub open spec fn named_keys(parts: Seq<Seq<char>>) -> Result<(Seq<u8>, Option<u8>), Seq<char>>
    decreases parts.len(),
{
    if parts.len() == 0 {
        Ok((seq![], None))
    } else {
        match named_keys(parts.drop_last()) {
            Err(part) => Err(part),
            Ok((modifiers, key)) => {
                let name = text::lowercase(parts.last());
                match modifier_code(name) {
                    Some(m) => Ok((modifiers.push(m), key)),
                    None => match key_code(name) {
                        Some(k) => Ok((modifiers, Some(k))),
                        None => Err(parts.last()),
                    },
                }
            },
        }
    }
}

/// The modifiers go down in order, the key goes down and up, and the modifiers go
/// up in the opposite order.
pub open spec fn key_events(modifiers: Seq<u8>, key: u8) -> Seq<KeyEvent> {
    modifiers.map_values(|m: u8| KeyEvent { code: m, up: false }).push(
        KeyEvent { code: key, up: false },
    ).push(KeyEvent { code: key, up: true }) + modifiers.reverse().map_values(
        |m: u8| KeyEvent { code: m, up: true },
    )
}

fn press_and_release(modifiers: &Vec<u8>, key: u8) -> (r: Vec<KeyEvent>)
    ensures
        r@ == key_events(modifiers@, key),
{
    let mut out: Vec<KeyEvent> = Vec::new();
    let mut i: usize = 0;
    while i < modifiers.len()
        invariant
            i <= modifiers.len(),
            out@.len() == i,
            forall|k: int| 0 <= k < i ==> out@[k] == (KeyEvent { code: modifiers@[k], up: false }),
        decreases modifiers.len() - i,
    {
        out.push(KeyEvent { code: modifiers[i], up: false });
        i += 1;
    }
    out.push(KeyEvent { code: key, up: false });
    out.push(KeyEvent { code: key, up: true });
    let ghost head = out@;
    proof {
        assert forall|k: int| 0 <= k < head.len() implies head[k] == key_events(modifiers@, key)[k] by {
        }
    }
    let mut j: usize = modifiers.len();
    while j > 0
        invariant
            j <= modifiers.len(),
            head.len() == modifiers@.len() + 2,
            out@.len() == head.len() + modifiers@.len() - j,
            forall|k: int| 0 <= k < head.len() ==> out@[k] == head[k],
            forall|k: int|
                head.len() <= k < out@.len() ==> out@[k] == (KeyEvent {
                    code: modifiers@[modifiers@.len() - 1 - (k - head.len())],
                    up: true,
                }),
        decreases j,
    {
        j -= 1;
        out.push(KeyEvent { code: modifiers[j], up: true });
    }
    proof {
        let want = key_events(modifiers@, key);
        let n = modifiers@.len() as int;
        assert(want.len() == 2 * n + 2);
        assert forall|k: int| 0 <= k < want.len() implies out@[k] == want[k] by {
            if k < n + 2 {
                assert(out@[k] == head[k]);
            } else {
                assert(modifiers@.reverse()[k - n - 2] == modifiers@[n - 1 - (k - n - 2)]);
            }
        }
        assert(out@ =~= want);
    }
    out
}

fn trimmed_parts(keybind: &str) -> (r: Vec<String>)
    ensures
        text::views(r@) == parts(keybind@),
{
    let pieces = split_char(&chars_of(keybind), '+');
    let mut out: Vec<String> = Vec::new();
    let mut i: usize = 0;
    while i < pieces.len()
        invariant
            i <= pieces.len(),
            out@.len() == i,
            pieces@.len() == parts(keybind@).len(),
            forall|k: int|
                0 <= k < pieces@.len() ==> text::trim((#[trigger] pieces@[k])@) == parts(
                    keybind@,
                )[k],
            forall|k: int| 0 <= k < i ==> (#[trigger] out@[k])@ == parts(keybind@)[k],
        decreases pieces.len() - i,
    {
        out.push(string_of(&trim_chars(&pieces[i])));
        i += 1;
    }
    proof {
        assert(text::views(out@) =~= parts(keybind@));
    }
    out
}

/// The key events that play a keybind on Windows.
pub fn send_keybind(keybind: &str) -> (r: Result<Vec<KeyEvent>, KeybindError>)
    ensures
        match r {
            Ok(events) => named_keys(parts(keybind@)) matches Ok((modifiers, Some(key)))
                && events@ == key_events(modifiers, key),
            Err(KeybindError::UnknownKey(part)) => named_keys(parts(keybind@)) == Err::<
                (Seq<u8>, Option<u8>),
                Seq<char>,
            >(part@),
            Err(KeybindError::NoKey) => named_keys(parts(keybind@)) matches Ok((_, None)),
        },
{
    let names = trimmed_parts(keybind);
    let ghost ps = parts(keybind@);
    let mut modifiers: Vec<u8> = Vec::new();
    let mut key: Option<u8> = None;
    let mut i: usize = 0;
    proof {
        assert(ps.take(0) =~= Seq::<Seq<char>>::empty());
    }
    while i < names.len()
        invariant
            i <= names.len(),
            text::views(names@) == ps,
            ps == parts(keybind@),
            named_keys(ps.take(i as int)) == Ok::<(Seq<u8>, Option<u8>), Seq<char>>(
                (modifiers@, key),
            ),
        decreases names.len() - i,
    {
        proof {
            assert(ps.take(i + 1).drop_last() =~= ps.take(i as int));
            assert(ps.take(i + 1).last() == text::views(names@)[i as int]);
        }
        let name = names[i].as_str().to_lowercase();
        let letters = chars_of(&name);
        match read_modifier(&letters) {
            Some(m) => {
                modifiers.push(m);
            },
            None => match parse_vk_code(&name) {
                Some(k) => {
                    key = Some(k);
                },
                None => {
                    proof {
                        lemma_first_error(ps, i + 1);
                    }
                    return Err(KeybindError::UnknownKey(names[i].clone()));
                },
            },
        }
        i += 1;
    }
    proof {
        assert(ps.take(ps.len() as int) =~= ps);
    }
    match key {
        Some(k) => Ok(press_and_release(&modifiers, k)),
        None => Err(KeybindError::NoKey),
    }
}

/// What is wrong with the first parts is wrong with the whole.
proof fn lemma_first_error(ps: Seq<Seq<char>>, k: int)
    requires
        0 <= k <= ps.len(),
        named_keys(ps.take(k)) is Err,
    ensures
        named_keys(ps) == named_keys(ps.take(k)),
    decreases ps.len() - k,
{
    if k < ps.len() {
        assert(ps.take(k + 1).drop_last() =~= ps.take(k));
        lemma_first_error(ps, k + 1);
    } else {
        assert(ps.take(k) =~= ps);
    }
}

/// A keybind leaves no key down: the events read backwards are the events with
/// down and up exchanged.
pub proof fn law_every_key_is_released(modifiers: Seq<u8>, key: u8, i: int)
    requires
        0 <= i < key_events(modifiers, key).len(),
    ensures
        key_events(modifiers, key).len() == 2 * modifiers.len() + 2,
        key_events(modifiers, key)[key_events(modifiers, key).len() - 1 - i] == (KeyEvent {
            code: key_events(modifiers, key)[i].code,
            up: !key_events(modifiers, key)[i].up,
        }),
        i <= modifiers.len() <==> !key_events(modifiers, key)[i].up,
{
}

// ---------------------------------------------------------------------------
// xdotool
// ---------------------------------------------------------------------------

/// What `xdotool` calls a part: modifiers under their usual name, a function key
/// with a capital F, everything else in lower case.
pub open spec fn xdotool_name(part: Seq<char>) -> Seq<char> {
    let name = text::lowercase(part);
    if name == "ctrl"@ || name == "control"@ {
        "ctrl"@
    } else if name == "shift"@ {
        "shift"@
    } else if name == "alt"@ {
        "alt"@
    } else if name == "win"@ || name == "super"@ {
        "super"@
    } else if name.len() > 0 && name[0] == 'f' && text::parse_unsigned(
        name.skip(1),
        u32::MAX as nat,
    ) is Some {
        text::ascii_upper_all(name)
    } else {
        name
    }
}

/// A keybind as `xdotool` takes it.
pub open spec fn xdotool_keybind(keybind: Seq<char>) -> Seq<char> {
    text::join(parts(keybind).map_values(|p: Seq<char>| xdotool_name(p)), "+"@)
}

fn read_xdotool_name(part: &str) -> (r: String)
    ensures
        r@ == xdotool_name(part@),
{
    let lower = part.to_lowercase();
    let name = chars_of(&lower);
    if is_text(&name, "ctrl") || is_text(&name, "control") {
        return "ctrl".to_string();
    }
    if is_text(&name, "shift") {
        return "shift".to_string();
    }
    if is_text(&name, "alt") {
        return "alt".to_string();
    }
    if is_text(&name, "win") || is_text(&name, "super") {
        return "super".to_string();
    }
    if name.len() > 0 && name[0] == 'f' {
        let number = sub_chars(&name, 1, name.len());
        proof {
            assert(number@ =~= name@.skip(1));
        }
        if read_unsigned(&number, 0xFFFF_FFFF).is_some() {
            return string_of(&to_ascii_upper(&name));
        }
    }
    lower
}

/// The keybind that `xdotool key` is given.
pub fn send_keybind_linux(keybind: &str) -> (r: String)
    ensures
        r@ == xdotool_keybind(keybind@),
{
    let names = trimmed_parts(keybind);
    let ghost want = parts(keybind@).map_values(|p: Seq<char>| xdotool_name(p));
    let mut out: Vec<String> = Vec::new();
    let mut i: usize = 0;
    while i < names.len()
        invariant
            i <= names.len(),
            out@.len() == i,
            text::views(names@) == parts(keybind@),
            forall|k: int|
                0 <= k < i ==> (#[trigger] out@[k])@ == xdotool_name(text::views(names@)[k]),
        decreases names.len() - i,
    {
        out.push(read_xdotool_name(&names[i]));
        i += 1;
    }
    proof {
        assert(text::views(out@) =~= want);
    }
    join_strings(&out, "+")
}

// ---------------------------------------------------------------------------
// Names
// ---------------------------------------------------------------------------

proof fn lemma_key_names()
    ensures
        "ctrl"@.len() == 4 && "ctrl"@[0] == 'c' && "ctrl"@[1] == 't' && "ctrl"@[2] == 'r',
        "control"@.len() == 7 && "control"@[0] == 'c' && "control"@[1] == 'o' && "control"@[2] == 'n' && "control"@[4] == 'r',
        "shift"@.len() == 5 && "shift"@[0] == 's' && "shift"@[1] == 'h' && "shift"@[2] == 'i' && "shift"@[4] == 't',
        "alt"@.len() == 3 && "alt"@[0] == 'a' && "alt"@[1] == 'l' && "alt"@[2] == 't',
        "win"@.len() == 3 && "win"@[0] == 'w' && "win"@[1] == 'i' && "win"@[2] == 'n',
        "super"@.len() == 5 && "super"@[0] == 's' && "super"@[1] == 'u' && "super"@[2] == 'p' && "super"@[4] == 'r',
        "escape"@.len() == 6 && "escape"@[0] == 'e' && "escape"@[1] == 's' && "escape"@[2] == 'c' && "escape"@[4] == 'p',
        "esc"@.len() == 3 && "esc"@[0] == 'e' && "esc"@[1] == 's' && "esc"@[2] == 'c',
        "tab"@.len() == 3 && "tab"@[0] == 't' && "tab"@[1] == 'a' && "tab"@[2] == 'b',
        "space"@.len() == 5 && "space"@[0] == 's' && "space"@[1] == 'p' && "space"@[2] == 'a' && "space"@[4] == 'e',
        "enter"@.len() == 5 && "enter"@[0] == 'e' && "enter"@[1] == 'n' && "enter"@[2] == 't' && "enter"@[4] == 'r',
        "return"@.len() == 6 && "return"@[0] == 'r' && "return"@[1] == 'e' && "return"@[2] == 't' && "return"@[4] == 'r',
        "backspace"@.len() == 9 && "backspace"@[0] == 'b' && "backspace"@[1] == 'a' && "backspace"@[2] == 'c' && "backspace"@[4] == 's',
        "delete"@.len() == 6 && "delete"@[0] == 'd' && "delete"@[1] == 'e' && "delete"@[2] == 'l' && "delete"@[4] == 't',
        "del"@.len() == 3 && "del"@[0] == 'd' && "del"@[1] == 'e' && "del"@[2] == 'l',
        "insert"@.len() == 6 && "insert"@[0] == 'i' && "insert"@[1] == 'n' && "insert"@[2] == 's' && "insert"@[4] == 'r',
        "ins"@.len() == 3 && "ins"@[0] == 'i' && "ins"@[1] == 'n' && "ins"@[2] == 's',
        "home"@.len() == 4 && "home"@[0] == 'h' && "home"@[1] == 'o' && "home"@[2] == 'm',
        "end"@.len() == 3 && "end"@[0] == 'e' && "end"@[1] == 'n' && "end"@[2] == 'd',
        "pageup"@.len() == 6 && "pageup"@[0] == 'p' && "pageup"@[1] == 'a' && "pageup"@[2] == 'g' && "pageup"@[4] == 'u',
        "pgup"@.len() == 4 && "pgup"@[0] == 'p' && "pgup"@[1] == 'g' && "pgup"@[2] == 'u',
        "pagedown"@.len() == 8 && "pagedown"@[0] == 'p' && "pagedown"@[1] == 'a' && "pagedown"@[2] == 'g' && "pagedown"@[4] == 'd',
        "pgdn"@.len() == 4 && "pgdn"@[0] == 'p' && "pgdn"@[1] == 'g' && "pgdn"@[2] == 'd',
        "up"@.len() == 2 && "up"@[0] == 'u' && "up"@[1] == 'p',
        "down"@.len() == 4 && "down"@[0] == 'd' && "down"@[1] == 'o' && "down"@[2] == 'w',
        "left"@.len() == 4 && "left"@[0] == 'l' && "left"@[1] == 'e' && "left"@[2] == 'f',
        "right"@.len() == 5 && "right"@[0] == 'r' && "right"@[1] == 'i' && "right"@[2] == 'g' && "right"@[4] == 't',
        "f1"@.len() == 2 && "f1"@[0] == 'f' && "f1"@[1] == '1',
        "f2"@.len() == 2 && "f2"@[0] == 'f' && "f2"@[1] == '2',
        "f3"@.len() == 2 && "f3"@[0] == 'f' && "f3"@[1] == '3',
        "f4"@.len() == 2 && "f4"@[0] == 'f' && "f4"@[1] == '4',
        "f5"@.len() == 2 && "f5"@[0] == 'f' && "f5"@[1] == '5',
        "f6"@.len() == 2 && "f6"@[0] == 'f' && "f6"@[1] == '6',
        "f7"@.len() == 2 && "f7"@[0] == 'f' && "f7"@[1] == '7',
        "f8"@.len() == 2 && "f8"@[0] == 'f' && "f8"@[1] == '8',
        "f9"@.len() == 2 && "f9"@[0] == 'f' && "f9"@[1] == '9',
        "f10"@.len() == 3 && "f10"@[0] == 'f' && "f10"@[1] == '1' && "f10"@[2] == '0',
        "f11"@.len() == 3 && "f11"@[0] == 'f' && "f11"@[1] == '1' && "f11"@[2] == '1',
        "f12"@.len() == 3 && "f12"@[0] == 'f' && "f12"@[1] == '1' && "f12"@[2] == '2',
{
    reveal_strlit("ctrl");
    reveal_strlit("control");
    reveal_strlit("shift");
    reveal_strlit("alt");
    reveal_strlit("win");
    reveal_strlit("super");
    reveal_strlit("escape");
    reveal_strlit("esc");
    reveal_strlit("tab");
    reveal_strlit("space");
    reveal_strlit("enter");
    reveal_strlit("return");
    reveal_strlit("backspace");
    reveal_strlit("delete");
    reveal_strlit("del");
    reveal_strlit("insert");
    reveal_strlit("ins");
    reveal_strlit("home");
    reveal_strlit("end");
    reveal_strlit("pageup");
    reveal_strlit("pgup");
    reveal_strlit("pagedown");
    reveal_strlit("pgdn");
    reveal_strlit("up");
    reveal_strlit("down");
    reveal_strlit("left");
    reveal_strlit("right");
    reveal_strlit("f1");
    reveal_strlit("f2");
    reveal_strlit("f3");
    reveal_strlit("f4");
    reveal_strlit("f5");
    reveal_strlit("f6");
    reveal_strlit("f7");
    reveal_strlit("f8");
    reveal_strlit("f9");
    reveal_strlit("f10");
    reveal_strlit("f11");
    reveal_strlit("f12");
}

/// The codes of the modifiers, and that no other name is one.
pub proof fn law_modifier_codes(name: Seq<char>)
    ensures
        modifier_code("ctrl"@) == Some(0x11u8),
        modifier_code("control"@) == Some(0x11u8),
        modifier_code("shift"@) == Some(0x10u8),
        modifier_code("alt"@) == Some(0x12u8),
        modifier_code("win"@) == Some(0x5bu8),
        modifier_code("super"@) == Some(0x5bu8),
        modifier_code(name) is Some ==> name == "ctrl"@ || name == "control"@ || name == "shift"@ || name == "alt"@ || name == "win"@ || name == "super"@,
{
    lemma_key_names();
}

/// The codes of the keys that have names, of the letters and of the digits.
pub proof fn law_key_codes(c: char)
    ensures
        key_code("escape"@) == Some(0x1bu8),
        key_code("esc"@) == Some(0x1bu8),
        key_code("tab"@) == Some(0x9u8),
        key_code("space"@) == Some(0x20u8),
        key_code("enter"@) == Some(0xdu8),
        key_code("return"@) == Some(0xdu8),
        key_code("backspace"@) == Some(0x8u8),
        key_code("delete"@) == Some(0x2eu8),
        key_code("del"@) == Some(0x2eu8),
        key_code("insert"@) == Some(0x2du8),
        key_code("ins"@) == Some(0x2du8),
        key_code("home"@) == Some(0x24u8),
        key_code("end"@) == Some(0x23u8),
        key_code("pageup"@) == Some(0x21u8),
        key_code("pgup"@) == Some(0x21u8),
        key_code("pagedown"@) == Some(0x22u8),
        key_code("pgdn"@) == Some(0x22u8),
        key_code("up"@) == Some(0x26u8),
        key_code("down"@) == Some(0x28u8),
        key_code("left"@) == Some(0x25u8),
        key_code("right"@) == Some(0x27u8),
        key_code("f1"@) == Some(0x70u8),
        key_code("f2"@) == Some(0x71u8),
        key_code("f3"@) == Some(0x72u8),
        key_code("f4"@) == Some(0x73u8),
        key_code("f5"@) == Some(0x74u8),
        key_code("f6"@) == Some(0x75u8),
        key_code("f7"@) == Some(0x76u8),
        key_code("f8"@) == Some(0x77u8),
        key_code("f9"@) == Some(0x78u8),
        key_code("f10"@) == Some(0x79u8),
        key_code("f11"@) == Some(0x7au8),
        key_code("f12"@) == Some(0x7bu8),
        'a' <= c && c <= 'z' ==> key_code(seq![c]) == Some((c as u32 - 32) as u8),
        'A' <= c && c <= 'Z' ==> key_code(seq![c]) == Some(c as u8),
        '0' <= c && c <= '9' ==> key_code(seq![c]) == Some(c as u8),
{
    lemma_key_names();
    assert(seq![c].len() == 1);
}

/// A keybind is read part by part: a modifier is added to those before it, any other key
/// takes the place of the one before, and a part that names no key is what is wrong with
/// the keybind, unless something before it was.
pub proof fn law_parts_add_up(
    before: Seq<Seq<char>>,
    part: Seq<char>,
    modifiers: Seq<u8>,
    key: Option<u8>,
)
    requires
        named_keys(before) == Ok::<(Seq<u8>, Option<u8>), Seq<char>>((modifiers, key)),
    ensures
        named_keys(Seq::<Seq<char>>::empty()) == Ok::<(Seq<u8>, Option<u8>), Seq<char>>(
            (Seq::<u8>::empty(), None),
        ),
        modifier_code(text::lowercase(part)) matches Some(m) ==> named_keys(before.push(part))
            == Ok::<(Seq<u8>, Option<u8>), Seq<char>>((modifiers.push(m), key)),
        modifier_code(text::lowercase(part)) is None ==> match key_code(text::lowercase(part)) {
            Some(k) => named_keys(before.push(part)) == Ok::<(Seq<u8>, Option<u8>), Seq<char>>(
                (modifiers, Some(k)),
            ),
            None => named_keys(before.push(part)) == Err::<(Seq<u8>, Option<u8>), Seq<char>>(part),
        },
{
    assert(before.push(part).drop_last() =~= before);
}

/// The parts of a keybind are what plus signs separate, without the white space around
/// them.
pub proof fn law_parts_of_a_keybind(first: Seq<char>, rest: Seq<char>)
    requires
        !first.contains('+'),
    ensures
        parts(first) == seq![text::trim(first)],
        parts(first + seq!['+'] + rest) == seq![text::trim(first)] + parts(rest),
{
    let all = first + seq!['+'] + rest;
    assert forall|j: int| 0 <= j < first.len() implies first[j] != '+' && all[j] != '+' by {
        assert(all[j] == first[j]);
        assert(first.contains(first[j]));
    }
    text::lemma_first_index_is(first, '+', first.len() as int);
    text::lemma_first_index_is(all, '+', first.len() as int);
    assert(all.take(first.len() as int) =~= first);
    assert(all.skip(first.len() as int + 1) =~= rest);
    assert(parts(first) =~= seq![text::trim(first)]);
    assert(parts(all) =~= seq![text::trim(first)] + parts(rest));
}

/// A keybind is played in this order: the modifiers go down one after the other, the key
/// goes down and up, and the modifiers go up, the last one first.
pub proof fn law_order_of_key_events(modifiers: Seq<u8>, key: u8, i: int)
    requires
        0 <= i < modifiers.len(),
    ensures
        ({
            let events = key_events(modifiers, key);
            let n = modifiers.len() as int;
            &&& events.len() == 2 * n + 2
            &&& events[i] == (KeyEvent { code: modifiers[i], up: false })
            &&& events[n] == (KeyEvent { code: key, up: false })
            &&& events[n + 1] == (KeyEvent { code: key, up: true })
            &&& events[2 * n + 1 - i] == (KeyEvent { code: modifiers[i], up: true })
        }),
{
    let n = modifiers.len() as int;
    assert(modifiers.reverse()[n - 1 - i] == modifiers[i]);
}

/// A keybind without modifiers presses and releases its key.
pub proof fn law_a_single_key(key: u8)
    ensures
        key_events(Seq::<u8>::empty(), key) == seq![
            KeyEvent { code: key, up: false },
            KeyEvent { code: key, up: true },
        ],
{
    assert(Seq::<u8>::empty().reverse() =~= Seq::<u8>::empty());
    assert(key_events(Seq::<u8>::empty(), key) =~= seq![
        KeyEvent { code: key, up: false },
        KeyEvent { code: key, up: true },
    ]);
}

/// The names that `xdotool` has for the modifiers; a function key is written with a
/// capital, and any other key in lower case.
pub proof fn law_xdotool_names(part: Seq<char>, n: nat)
    ensures
        ({
            let name = text::lowercase(part);
            &&& name == "ctrl"@ || name == "control"@ ==> xdotool_name(part) == "ctrl"@
            &&& name == "shift"@ ==> xdotool_name(part) == "shift"@
            &&& name == "alt"@ ==> xdotool_name(part) == "alt"@
            &&& name == "win"@ || name == "super"@ ==> xdotool_name(part) == "super"@
            &&& n <= u32::MAX && name == seq!['f'] + text::decimal(n) ==> xdotool_name(part)
                == seq!['F'] + text::decimal(n)
            &&& (name.len() == 0 || name[0] != 'f') && name != "control"@ && name != "win"@
                ==> xdotool_name(part) == name
        }),
{
    lemma_key_names();
    let name = text::lowercase(part);
    let number = seq!['f'] + text::decimal(n);
    if n <= u32::MAX && name == number {
        text::law_decimal_reads_back(n, u32::MAX as nat);
        assert(number.skip(1) =~= text::decimal(n));
        assert(name[0] == 'f');
        assert forall|i: int| 0 <= i < name.len() implies text::ascii_upper_all(name)[i] == (
        seq!['F'] + text::decimal(n))[i] by {
            if i > 0 {
                assert(name[i] == text::decimal(n)[i - 1]);
            }
        }
        assert(text::ascii_upper_all(name) =~= seq!['F'] + text::decimal(n));
    }
}

/// Every part of a keybind is handed to `xdotool` under its name, with plus signs between.
pub proof fn law_xdotool_keybinds(first: Seq<char>, rest: Seq<char>)
    requires
        !first.contains('+'),
    ensures
        xdotool_keybind(first) == xdotool_name(text::trim(first)),
        xdotool_keybind(first + seq!['+'] + rest) == xdotool_name(text::trim(first)) + "+"@
            + xdotool_keybind(rest),
{
    law_parts_of_a_keybind(first, rest);
    let f = |p: Seq<char>| xdotool_name(p);
    let one = seq![xdotool_name(text::trim(first))];
    assert(parts(first).map_values(f) =~= one);
    let tail = parts(rest).map_values(f);
    assert(parts(first + seq!['+'] + rest).map_values(f) =~= one + tail);
    text::law_split_and_join(rest, '+');
    text::lemma_join_front(xdotool_name(text::trim(first)), tail, "+"@);
}

/// Nothing else is a key: a key has one of the names, or is one ASCII letter or digit.
pub proof fn law_other_texts_are_no_keys(name: Seq<char>)
    requires
        name != "escape"@,
        name != "esc"@,
        name != "tab"@,
        name != "space"@,
        name != "enter"@,
        name != "return"@,
        name != "backspace"@,
        name != "delete"@,
        name != "del"@,
        name != "insert"@,
        name != "ins"@,
        name != "home"@,
        name != "end"@,
        name != "pageup"@,
        name != "pgup"@,
        name != "pagedown"@,
        name != "pgdn"@,
        name != "up"@,
        name != "down"@,
        name != "left"@,
        name != "right"@,
        name != "f1"@,
        name != "f2"@,
        name != "f3"@,
        name != "f4"@,
        name != "f5"@,
        name != "f6"@,
        name != "f7"@,
        name != "f8"@,
        name != "f9"@,
        name != "f10"@,
        name != "f11"@,
        name != "f12"@,
    ensures
        key_code(name) is Some <==> name.len() == 1 && ('a' <= name[0] && name[0] <= 'z' || 'A'
            <= name[0] && name[0] <= 'Z' || '0' <= name[0] && name[0] <= '9'),
{
}

} // verus!
