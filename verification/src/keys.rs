//! Key codes and the names by which shortcuts give them.

use crate::text;
use std::collections::HashSet;
use vstd::prelude::*;
use vstd::string::StringExecFns;

verus! {

/// A key of the keyboard, by its number among the input event codes of Linux.
pub type KeyCode = u16;

pub const KEY_LEFTMETA: KeyCode = 125;

pub const KEY_LEFTALT: KeyCode = 56;

pub const KEY_LEFTCTRL: KeyCode = 29;

pub const KEY_LEFTSHIFT: KeyCode = 42;

pub const KEY_F1: KeyCode = 59;

pub const KEY_F2: KeyCode = 60;

pub const KEY_F3: KeyCode = 61;

pub const KEY_F4: KeyCode = 62;

pub const KEY_F5: KeyCode = 63;

pub const KEY_F6: KeyCode = 64;

pub const KEY_F7: KeyCode = 65;

pub const KEY_F8: KeyCode = 66;

pub const KEY_F9: KeyCode = 67;

pub const KEY_F10: KeyCode = 68;

pub const KEY_F11: KeyCode = 87;

pub const KEY_F12: KeyCode = 88;

pub const KEY_A: KeyCode = 30;

pub const KEY_B: KeyCode = 48;

pub const KEY_C: KeyCode = 46;

pub const KEY_D: KeyCode = 32;

pub const KEY_E: KeyCode = 18;

pub const KEY_F: KeyCode = 33;

pub const KEY_G: KeyCode = 34;

pub const KEY_H: KeyCode = 35;

pub const KEY_I: KeyCode = 23;

pub const KEY_J: KeyCode = 36;

pub const KEY_K: KeyCode = 37;

pub const KEY_L: KeyCode = 38;

pub const KEY_M: KeyCode = 50;

pub const KEY_N: KeyCode = 49;

pub const KEY_O: KeyCode = 24;

pub const KEY_P: KeyCode = 25;

pub const KEY_Q: KeyCode = 16;

pub const KEY_R: KeyCode = 19;

pub const KEY_S: KeyCode = 31;

pub const KEY_T: KeyCode = 20;

pub const KEY_U: KeyCode = 22;

pub const KEY_V: KeyCode = 47;

pub const KEY_W: KeyCode = 17;

pub const KEY_X: KeyCode = 45;

pub const KEY_Y: KeyCode = 21;

pub const KEY_Z: KeyCode = 44;

pub const KEY_0: KeyCode = 11;

pub const KEY_1: KeyCode = 2;

pub const KEY_2: KeyCode = 3;

pub const KEY_3: KeyCode = 4;

pub const KEY_4: KeyCode = 5;

pub const KEY_5: KeyCode = 6;

pub const KEY_6: KeyCode = 7;

pub const KEY_7: KeyCode = 8;

pub const KEY_8: KeyCode = 9;

pub const KEY_9: KeyCode = 10;

pub const KEY_SPACE: KeyCode = 57;

pub const KEY_ENTER: KeyCode = 28;

pub const KEY_ESC: KeyCode = 1;

pub const KEY_TAB: KeyCode = 15;

pub const KEY_BACKSPACE: KeyCode = 14;

pub const KEY_DELETE: KeyCode = 111;

pub const KEY_INSERT: KeyCode = 110;

pub const KEY_HOME: KeyCode = 102;

pub const KEY_END: KeyCode = 107;

pub const KEY_PAGEUP: KeyCode = 104;

pub const KEY_PAGEDOWN: KeyCode = 109;

pub const KEY_UP: KeyCode = 103;

pub const KEY_DOWN: KeyCode = 108;

pub const KEY_LEFT: KeyCode = 105;

pub const KEY_RIGHT: KeyCode = 106;

/// A name that no key has.
#[derive(Debug, Clone, PartialEq, Eq)]
pub struct UnknownKey {
    pub key: String,
}

/// A part of a shortcut that names no key.
#[derive(Debug, Clone, PartialEq, Eq)]
pub struct ShortcutError {
    /// The part, in upper case and without the white space around it.
    pub part: String,
    /// What is wrong with it.
    pub cause: UnknownKey,
}

/// The mathematical value of a [`ShortcutError`].
pub struct ShortcutErrorView {
    pub part: Seq<char>,
    pub cause: Seq<char>,
}

impl View for ShortcutError {
    type V = ShortcutErrorView;

    open spec fn view(&self) -> ShortcutErrorView {
        ShortcutErrorView { part: self.part@, cause: self.cause.key@ }
    }
}

/// The error for a part that names no key.
pub open spec fn bad_part(part: Seq<char>) -> ShortcutErrorView {
    ShortcutErrorView { part, cause: part }
}

impl UnknownKey {
    /// What is said of the error.
    pub fn to_string(&self) -> (r: String)
        ensures
            r@ == "Unknown key: "@ + self.key@,
    {
        let mut out = String::new();
        out.append("Unknown key: ");
        out.append(self.key.as_str());
        assert(out@ =~= "Unknown key: "@ + self.key@);
        out
    }
}

impl ShortcutError {
    /// What is said of the error, its cause apart.
    pub fn to_string(&self) -> (r: String)
        ensures
            r@ == "Failed to parse key: "@ + self.part@,
    {
        let mut out = String::new();
        out.append("Failed to parse key: ");
        out.append(self.part.as_str());
        assert(out@ =~= "Failed to parse key: "@ + self.part@);
        out
    }
}

/// The key that a name in upper case stands for.
pub open spec fn key_named(name: Seq<char>) -> Option<KeyCode> {
    if name == "SUPER"@ || name == "META"@ || name == "WIN"@ || name == "WINDOWS"@ {
        Some(KEY_LEFTMETA)
    } else if name == "ALT"@ {
        Some(KEY_LEFTALT)
    } else if name == "CTRL"@ || name == "CONTROL"@ {
        Some(KEY_LEFTCTRL)
    } else if name == "SHIFT"@ {
        Some(KEY_LEFTSHIFT)
    } else if name == "F1"@ {
        Some(KEY_F1)
    } else if name == "F2"@ {
        Some(KEY_F2)
    } else if name == "F3"@ {
        Some(KEY_F3)
    } else if name == "F4"@ {
        Some(KEY_F4)
    } else if name == "F5"@ {
        Some(KEY_F5)
    } else if name == "F6"@ {
        Some(KEY_F6)
    } else if name == "F7"@ {
        Some(KEY_F7)
    } else if name == "F8"@ {
        Some(KEY_F8)
    } else if name == "F9"@ {
        Some(KEY_F9)
    } else if name == "F10"@ {
        Some(KEY_F10)
    } else if name == "F11"@ {
        Some(KEY_F11)
    } else if name == "F12"@ {
        Some(KEY_F12)
    } else if name == "A"@ {
        Some(KEY_A)
    } else if name == "B"@ {
        Some(KEY_B)
    } else if name == "C"@ {
        Some(KEY_C)
    } else if name == "D"@ {
        Some(KEY_D)
    } else if name == "E"@ {
        Some(KEY_E)
    } else if name == "F"@ {
        Some(KEY_F)
    } else if name == "G"@ {
        Some(KEY_G)
    } else if name == "H"@ {
        Some(KEY_H)
    } else if name == "I"@ {
        Some(KEY_I)
    } else if name == "J"@ {
        Some(KEY_J)
    } else if name == "K"@ {
        Some(KEY_K)
    } else if name == "L"@ {
        Some(KEY_L)
    } else if name == "M"@ {
        Some(KEY_M)
    } else if name == "N"@ {
        Some(KEY_N)
    } else if name == "O"@ {
        Some(KEY_O)
    } else if name == "P"@ {
        Some(KEY_P)
    } else if name == "Q"@ {
        Some(KEY_Q)
    } else if name == "R"@ {
        Some(KEY_R)
    } else if name == "S"@ {
        Some(KEY_S)
    } else if name == "T"@ {
        Some(KEY_T)
    } else if name == "U"@ {
        Some(KEY_U)
    } else if name == "V"@ {
        Some(KEY_V)
    } else if name == "W"@ {
        Some(KEY_W)
    } else if name == "X"@ {
        Some(KEY_X)
    } else if name == "Y"@ {
        Some(KEY_Y)
    } else if name == "Z"@ {
        Some(KEY_Z)
    } else if name == "0"@ {
        Some(KEY_0)
    } else if name == "1"@ {
        Some(KEY_1)
    } else if name == "2"@ {
        Some(KEY_2)
    } else if name == "3"@ {
        Some(KEY_3)
    } else if name == "4"@ {
        Some(KEY_4)
    } else if name == "5"@ {
        Some(KEY_5)
    } else if name == "6"@ {
        Some(KEY_6)
    } else if name == "7"@ {
        Some(KEY_7)
    } else if name == "8"@ {
        Some(KEY_8)
    } else if name == "9"@ {
        Some(KEY_9)
    } else if name == "SPACE"@ {
        Some(KEY_SPACE)
    } else if name == "ENTER"@ || name == "RETURN"@ {
        Some(KEY_ENTER)
    } else if name == "ESC"@ || name == "ESCAPE"@ {
        Some(KEY_ESC)
    } else if name == "TAB"@ {
        Some(KEY_TAB)
    } else if name == "BACKSPACE"@ {
        Some(KEY_BACKSPACE)
    } else if name == "DELETE"@ || name == "DEL"@ {
        Some(KEY_DELETE)
    } else if name == "INSERT"@ || name == "INS"@ {
        Some(KEY_INSERT)
    } else if name == "HOME"@ {
        Some(KEY_HOME)
    } else if name == "END"@ {
        Some(KEY_END)
    } else if name == "PAGEUP"@ || name == "PGUP"@ {
        Some(KEY_PAGEUP)
    } else if name == "PAGEDOWN"@ || name == "PGDOWN"@ {
        Some(KEY_PAGEDOWN)
    } else if name == "UP"@ {
        Some(KEY_UP)
    } else if name == "DOWN"@ {
        Some(KEY_DOWN)
    } else if name == "LEFT"@ {
        Some(KEY_LEFT)
    } else if name == "RIGHT"@ {
        Some(KEY_RIGHT)
    } else {
        None
    }
}

/// The parts of a shortcut: what stands between the plus signs, in upper case
/// and without the white space around it.
pub open spec fn shortcut_parts(shortcut: Seq<char>) -> Seq<Seq<char>> {
    text::pieces(shortcut, '+').map_values(|part: Seq<char>| text::uppercase(text::trimmed(part)))
}

/// The keys that the parts of a shortcut name, or the first part that names
/// none.
pub open spec fn keys_of(parts: Seq<Seq<char>>) -> Result<Set<KeyCode>, Seq<char>>
    decreases parts.len(),
{
    if parts.len() == 0 {
        Ok(Set::empty())
    } else {
        match (keys_of(parts.drop_last()), key_named(parts.last())) {
            (Err(part), _) => Err(part),
            (Ok(keys), Some(key)) => Ok(keys.insert(key)),
            (Ok(_), None) => Err(parts.last()),
        }
    }
}

/// The keys of a shortcut, or its first part that names none.
pub open spec fn shortcut_keys(shortcut: Seq<char>) -> Result<Set<KeyCode>, Seq<char>> {
    keys_of(shortcut_parts(shortcut))
}

/// The key that a name in upper case stands for.
pub fn parse_key(key_str: &str) -> (r: Result<KeyCode, UnknownKey>)
    ensures
        match r {
            Ok(key) => key_named(key_str@) == Some(key),
            Err(error) => key_named(key_str@) is None && error.key@ == key_str@,
        },
{
    if text::same(key_str, "SUPER")
        || text::same(key_str, "META")
        || text::same(key_str, "WIN")
        || text::same(key_str, "WINDOWS")
    {
        Ok(KEY_LEFTMETA)
    } else if text::same(key_str, "ALT") {
        Ok(KEY_LEFTALT)
    } else if text::same(key_str, "CTRL") || text::same(key_str, "CONTROL") {
        Ok(KEY_LEFTCTRL)
    } else if text::same(key_str, "SHIFT") {
        Ok(KEY_LEFTSHIFT)
    } else if text::same(key_str, "F1") {
        Ok(KEY_F1)
    } else if text::same(key_str, "F2") {
        Ok(KEY_F2)
    } else if text::same(key_str, "F3") {
        Ok(KEY_F3)
    } else if text::same(key_str, "F4") {
        Ok(KEY_F4)
    } else if text::same(key_str, "F5") {
        Ok(KEY_F5)
    } else if text::same(key_str, "F6") {
        Ok(KEY_F6)
    } else if text::same(key_str, "F7") {
        Ok(KEY_F7)
    } else if text::same(key_str, "F8") {
        Ok(KEY_F8)
    } else if text::same(key_str, "F9") {
        Ok(KEY_F9)
    } else if text::same(key_str, "F10") {
        Ok(KEY_F10)
    } else if text::same(key_str, "F11") {
        Ok(KEY_F11)
    } else if text::same(key_str, "F12") {
        Ok(KEY_F12)
    } else if text::same(key_str, "A") {
        Ok(KEY_A)
    } else if text::same(key_str, "B") {
        Ok(KEY_B)
    } else if text::same(key_str, "C") {
        Ok(KEY_C)
    } else if text::same(key_str, "D") {
        Ok(KEY_D)
    } else if text::same(key_str, "E") {
        Ok(KEY_E)
    } else if text::same(key_str, "F") {
        Ok(KEY_F)
    } else if text::same(key_str, "G") {
        Ok(KEY_G)
    } else if text::same(key_str, "H") {
        Ok(KEY_H)
    } else if text::same(key_str, "I") {
        Ok(KEY_I)
    } else if text::same(key_str, "J") {
        Ok(KEY_J)
    } else if text::same(key_str, "K") {
        Ok(KEY_K)
    } else if text::same(key_str, "L") {
        Ok(KEY_L)
    } else if text::same(key_str, "M") {
        Ok(KEY_M)
    } else if text::same(key_str, "N") {
        Ok(KEY_N)
    } else if text::same(key_str, "O") {
        Ok(KEY_O)
    } else if text::same(key_str, "P") {
        Ok(KEY_P)
    } else if text::same(key_str, "Q") {
        Ok(KEY_Q)
    } else if text::same(key_str, "R") {
        Ok(KEY_R)
    } else if text::same(key_str, "S") {
        Ok(KEY_S)
    } else if text::same(key_str, "T") {
        Ok(KEY_T)
    } else if text::same(key_str, "U") {
        Ok(KEY_U)
    } else if text::same(key_str, "V") {
        Ok(KEY_V)
    } else if text::same(key_str, "W") {
        Ok(KEY_W)
    } else if text::same(key_str, "X") {
        Ok(KEY_X)
    } else if text::same(key_str, "Y") {
        Ok(KEY_Y)
    } else if text::same(key_str, "Z") {
        Ok(KEY_Z)
    } else if text::same(key_str, "0") {
        Ok(KEY_0)
    } else if text::same(key_str, "1") {
        Ok(KEY_1)
    } else if text::same(key_str, "2") {
        Ok(KEY_2)
    } else if text::same(key_str, "3") {
        Ok(KEY_3)
    } else if text::same(key_str, "4") {
        Ok(KEY_4)
    } else if text::same(key_str, "5") {
        Ok(KEY_5)
    } else if text::same(key_str, "6") {
        Ok(KEY_6)
    } else if text::same(key_str, "7") {
        Ok(KEY_7)
    } else if text::same(key_str, "8") {
        Ok(KEY_8)
    } else if text::same(key_str, "9") {
        Ok(KEY_9)
    } else if text::same(key_str, "SPACE") {
        Ok(KEY_SPACE)
    } else if text::same(key_str, "ENTER") || text::same(key_str, "RETURN") {
        Ok(KEY_ENTER)
    } else if text::same(key_str, "ESC") || text::same(key_str, "ESCAPE") {
        Ok(KEY_ESC)
    } else if text::same(key_str, "TAB") {
        Ok(KEY_TAB)
    } else if text::same(key_str, "BACKSPACE") {
        Ok(KEY_BACKSPACE)
    } else if text::same(key_str, "DELETE") || text::same(key_str, "DEL") {
        Ok(KEY_DELETE)
    } else if text::same(key_str, "INSERT") || text::same(key_str, "INS") {
        Ok(KEY_INSERT)
    } else if text::same(key_str, "HOME") {
        Ok(KEY_HOME)
    } else if text::same(key_str, "END") {
        Ok(KEY_END)
    } else if text::same(key_str, "PAGEUP") || text::same(key_str, "PGUP") {
        Ok(KEY_PAGEUP)
    } else if text::same(key_str, "PAGEDOWN") || text::same(key_str, "PGDOWN") {
        Ok(KEY_PAGEDOWN)
    } else if text::same(key_str, "UP") {
        Ok(KEY_UP)
    } else if text::same(key_str, "DOWN") {
        Ok(KEY_DOWN)
    } else if text::same(key_str, "LEFT") {
        Ok(KEY_LEFT)
    } else if text::same(key_str, "RIGHT") {
        Ok(KEY_RIGHT)
    } else {
        Err(UnknownKey { key: key_str.to_string() })
    }
}

/// The keys of a shortcut such as `SUPER+R`.
pub fn parse_shortcut(shortcut: &str) -> (r: Result<HashSet<KeyCode>, ShortcutError>)
    ensures
        match r {
            Ok(keys) => shortcut_keys(shortcut@) == Ok::<Set<KeyCode>, Seq<char>>(keys@),
            Err(error) => {
                &&& shortcut_keys(shortcut@) == Err::<Set<KeyCode>, Seq<char>>(error@.part)
                &&& error@ == bad_part(error@.part)
            },
        },
{
    broadcast use vstd::std_specs::hash::group_hash_axioms;

    let pieces = text::split(shortcut, '+');
    let ghost parts = shortcut_parts(shortcut@);
    let mut keys: HashSet<KeyCode> = HashSet::new();
    let mut i: usize = 0;
    assert(keys@ =~= Set::empty());
    while i < pieces.len()
        invariant
            i <= pieces@.len(),
            text::views(pieces@) == text::pieces(shortcut@, '+'),
            parts == shortcut_parts(shortcut@),
            keys_of(parts.take(i as int)) == Ok::<Set<KeyCode>, Seq<char>>(keys@),
        decreases pieces@.len() - i,
    {
        let piece = pieces[i];
        let part = text::to_uppercase(text::trim(piece));
        proof {
            assert(text::views(pieces@)[i as int] == piece@);
            assert(parts[i as int] == part@);
            assert(parts.take(i + 1).drop_last() =~= parts.take(i as int));
            assert(parts.take(i + 1).last() == part@);
        }
        match parse_key(part.as_str()) {
            Ok(key) => {
                keys.insert(key);
            },
            Err(cause) => {
                proof {
                    lemma_keys_of_err(parts, i + 1);
                }
                return Err(ShortcutError { part, cause });
            },
        }
        i += 1;
    }
    assert(parts.take(i as int) =~= parts);
    Ok(keys)
}

/// A part that names no key spoils the parts that begin with it.
proof fn lemma_keys_of_err(parts: Seq<Seq<char>>, n: int)
    requires
        0 <= n <= parts.len(),
        keys_of(parts.take(n)) is Err,
    ensures
        keys_of(parts) == keys_of(parts.take(n)),
    decreases parts.len(),
{
    if n == parts.len() {
        assert(parts.take(n) =~= parts);
    } else {
        assert(parts.drop_last().take(n) =~= parts.take(n));
        lemma_keys_of_err(parts.drop_last(), n);
    }
}

} // verus!
