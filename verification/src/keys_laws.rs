//! What holds of the names of keys and shortcuts.

use crate::keys;
use crate::keys::KeyCode;
use crate::text;
use crate::text_laws;
use vstd::prelude::*;
use vstd::utf8::*;

verus! {

/// The index `i` holds the first of the parts that name no key.
pub open spec fn first_unknown(parts: Seq<Seq<char>>, i: int) -> bool {
    &&& 0 <= i < parts.len()
    &&& keys::key_named(parts[i]) is None
    &&& forall|j: int| 0 <= j < i ==> keys::key_named(#[trigger] parts[j]) is Some
}

/// Parts give keys if and only if every part names one. The keys are then those
/// that the parts name; otherwise the first part that names none is given.
pub proof fn law_keys_of(parts: Seq<Seq<char>>)
    ensures
        match keys::keys_of(parts) {
            Ok(keys) => {
                &&& forall|i: int| 0 <= i < parts.len() ==> keys::key_named(#[trigger] parts[i]) is Some
                &&& forall|key: KeyCode|
                    keys.contains(key) <==> exists|i: int|
                        0 <= i < parts.len() && keys::key_named(#[trigger] parts[i]) == Some(key)
                &&& keys.finite()
            },
            Err(part) => exists|i: int| #[trigger] first_unknown(parts, i) && parts[i] == part,
        },
    decreases parts.len(),
{
    if parts.len() > 0 {
        let front = parts.drop_last();
        law_keys_of(front);
        match keys::keys_of(front) {
            Ok(keys) => {
                assert forall|i: int| 0 <= i < front.len() implies keys::key_named(
                    #[trigger] parts[i],
                ) is Some by {
                    assert(parts[i] == front[i]);
                }
                match keys::key_named(parts.last()) {
                    Some(key) => {
                        let all = keys.insert(key);
                        assert forall|k: KeyCode| all.contains(k) <==> exists|i: int|
                            0 <= i < parts.len() && keys::key_named(#[trigger] parts[i]) == Some(k) by {
                            if keys.contains(k) {
                                let i = choose|i: int|
                                    0 <= i < front.len() && keys::key_named(#[trigger] front[i]) == Some(k);
                                assert(keys::key_named(parts[i]) == Some(k));
                            }
                            if k == key {
                                assert(keys::key_named(parts[parts.len() - 1]) == Some(k));
                            }
                            if exists|i: int|
                                0 <= i < parts.len() && keys::key_named(#[trigger] parts[i]) == Some(k) {
                                let i = choose|i: int|
                                    0 <= i < parts.len() && keys::key_named(#[trigger] parts[i]) == Some(k);
                                if i < front.len() {
                                    assert(keys::key_named(front[i]) == Some(k));
                                }
                            }
                        }
                    },
                    None => {
                        assert(first_unknown(parts, parts.len() - 1));
                    },
                }
            },
            Err(part) => {
                let i = choose|i: int| #[trigger] first_unknown(front, i) && front[i] == part;
                assert forall|j: int| 0 <= j < i implies keys::key_named(#[trigger] parts[j]) is Some by {
                    assert(parts[j] == front[j]);
                }
                assert(first_unknown(parts, i));
            },
        }
    }
}

proof fn lemma_pieces_nonempty(s: Seq<char>, sep: char)
    ensures
        text::pieces(s, sep).len() > 0,
{
}

/// A shortcut that is accepted has at least one key.
pub proof fn law_shortcuts_are_not_empty(shortcut: Seq<char>)
    ensures
        keys::shortcut_keys(shortcut) matches Ok(keys) ==> keys.finite() && keys.len() > 0,
{
    let parts = keys::shortcut_parts(shortcut);
    lemma_pieces_nonempty(shortcut, '+');
    law_keys_of(parts);
    if let Ok(keys) = keys::shortcut_keys(shortcut) {
        assert(keys::key_named(parts[0]) is Some);
        assert(keys.contains(keys::key_named(parts[0])->0));
        if keys.len() == 0 {
            keys.lemma_len0_is_empty();
        }
    }
}

/// Neither the order of the parts nor their repetition matters.
pub proof fn law_part_order(a: Seq<Seq<char>>, b: Seq<Seq<char>>)
    requires
        forall|part: Seq<char>| a.contains(part) <==> b.contains(part),
    ensures
        keys::keys_of(a) is Ok <==> keys::keys_of(b) is Ok,
        keys::keys_of(a) is Ok ==> keys::keys_of(a) == keys::keys_of(b),
{
    lemma_same_parts(a, b);
    lemma_same_parts(b, a);
    if keys::keys_of(a) is Ok {
        assert(keys::keys_of(a)->Ok_0 =~= keys::keys_of(b)->Ok_0);
    }
}

proof fn lemma_same_parts(a: Seq<Seq<char>>, b: Seq<Seq<char>>)
    requires
        forall|part: Seq<char>| a.contains(part) <==> b.contains(part),
    ensures
        keys::keys_of(a) is Ok ==> keys::keys_of(b) is Ok && keys::keys_of(a)->Ok_0.subset_of(
            keys::keys_of(b)->Ok_0,
        ),
{
    law_keys_of(a);
    law_keys_of(b);
    if let Ok(keys) = keys::keys_of(a) {
        if let Err(part) = keys::keys_of(b) {
            let i = choose|i: int| #[trigger] first_unknown(b, i) && b[i] == part;
            assert(b.contains(part));
            let j = choose|j: int| 0 <= j < a.len() && a[j] == part;
            assert(keys::key_named(a[j]) is Some);
        } else {
            let others = keys::keys_of(b)->Ok_0;
            assert forall|key: KeyCode| keys.contains(key) implies others.contains(key) by {
                let i = choose|i: int|
                    0 <= i < a.len() && keys::key_named(#[trigger] a[i]) == Some(key);
                assert(a.contains(a[i]));
                let j = choose|j: int| 0 <= j < b.len() && b[j] == a[i];
                assert(keys::key_named(b[j]) == Some(key));
            }
        }
    }
}

/// `s` with its ASCII letters in upper case.
pub open spec fn capitals(s: Seq<char>) -> Seq<char> {
    s.map_values(|c: char| text::ascii_uppercase(c))
}

proof fn lemma_capitals(s: Seq<char>)
    requires
        is_ascii_chars(s),
    ensures
        capitals(s).len() == s.len(),
        is_ascii_chars(capitals(s)),
        capitals(capitals(s)) == capitals(s),
        forall|i: int| 0 <= i < s.len() ==> text::white_space(#[trigger] s[i]) == text::white_space(
            capitals(s)[i],
        ),
        forall|i: int| 0 <= i < s.len() ==> (#[trigger] s[i] == '+' <==> capitals(s)[i] == '+'),
{
    assert forall|i: int| 0 <= i < s.len() implies ({
        &&& text::white_space(#[trigger] s[i]) == text::white_space(capitals(s)[i])
        &&& (s[i] == '+' <==> capitals(s)[i] == '+')
        &&& (capitals(s)[i] as nat) < 128
        &&& text::ascii_uppercase(capitals(s)[i]) == capitals(s)[i]
    }) by {
        assert((s[i] as nat) < 128);
    }
    assert(capitals(capitals(s)) =~= capitals(s));
}

proof fn lemma_capitals_trimmed(s: Seq<char>)
    requires
        is_ascii_chars(s),
    ensures
        is_ascii_chars(text::trimmed(s)),
        text::trimmed(capitals(s)) == capitals(text::trimmed(s)),
{
    let u = capitals(s);
    lemma_capitals(s);
    text::lemma_leading_space(s);
    let n = text::leading_space(s) as int;
    assert forall|i: int| 0 <= i < n implies text::white_space(#[trigger] u[i]) by {
        assert(text::white_space(s[i]));
    }
    if n < s.len() {
        assert(!text::white_space(s[n]));
    }
    text::lemma_leading_space_unique(u, n);
    let t = text::trimmed_start(s);
    let v = text::trimmed_start(u);
    assert(is_ascii_chars(t)) by {
        assert forall|i: int| 0 <= i < t.len() implies '\0' <= #[trigger] t[i] <= '\u{7f}' by {
            assert(t[i] == s[i + n]);
        }
    }
    assert(v =~= capitals(t));
    lemma_capitals(t);
    text::lemma_trimmed_end_shape(t);
    let m = text::trimmed_end(t).len() as int;
    assert forall|i: int| m <= i < v.len() implies text::white_space(#[trigger] v[i]) by {
        assert(text::white_space(t[i]));
    }
    if m > 0 {
        assert(text::trimmed_end(t).last() == t[m - 1]);
        assert(!text::white_space(t[m - 1]));
    }
    text::lemma_trimmed_end(v, m);
    assert(v.take(m) =~= capitals(t.take(m)));
    assert(is_ascii_chars(t.take(m)));
}

proof fn lemma_capitals_pieces(s: Seq<char>)
    requires
        is_ascii_chars(s),
    ensures
        text::pieces(capitals(s), '+') == text::pieces(s, '+').map_values(
            |piece: Seq<char>| capitals(piece),
        ),
        forall|i: int|
            0 <= i < text::pieces(s, '+').len() ==> is_ascii_chars(
                #[trigger] text::pieces(s, '+')[i],
            ),
    decreases s.len(),
{
    let u = capitals(s);
    lemma_capitals(s);
    text::lemma_leading_until(s, '+');
    let n = text::leading_until(s, '+') as int;
    assert forall|i: int| 0 <= i < n implies #[trigger] u[i] != '+' by {
        assert(s[i] != '+');
    }
    if n < s.len() {
        assert(s[n] == '+');
    }
    text::lemma_leading_until_unique(u, '+', n);
    let all = text::pieces(s, '+');
    if n < s.len() {
        let rest = s.skip(n + 1);
        assert forall|i: int| 0 <= i < rest.len() implies '\0' <= #[trigger] rest[i] <= '\u{7f}' by {
            assert(rest[i] == s[i + n + 1]);
        }
        lemma_capitals_pieces(rest);
        assert(u.skip(n + 1) =~= capitals(rest));
        assert(u.take(n) =~= capitals(s.take(n)));
        assert forall|i: int| 0 <= i < all.len() implies is_ascii_chars(#[trigger] all[i]) by {
            if i > 0 {
                assert(all[i] == text::pieces(rest, '+')[i - 1]);
            }
        }
    }
    assert(text::pieces(u, '+') =~= all.map_values(|piece: Seq<char>| capitals(piece)));
}

/// Of a shortcut in ASCII it does not matter which letters are capitals.
pub proof fn law_case_is_ignored(shortcut: Seq<char>)
    requires
        is_ascii_chars(shortcut),
    ensures
        keys::shortcut_keys(capitals(shortcut)) == keys::shortcut_keys(shortcut),
{
    lemma_capitals_pieces(shortcut);
    let all = text::pieces(shortcut, '+');
    let ups = text::pieces(capitals(shortcut), '+');
    let parts = keys::shortcut_parts(shortcut);
    assert forall|i: int| 0 <= i < all.len() implies keys::shortcut_parts(capitals(shortcut))[i]
        == #[trigger] parts[i] by {
        assert(is_ascii_chars(all[i]));
        assert(ups[i] == capitals(all[i]));
        lemma_capitals_trimmed(all[i]);
        lemma_capitals(text::trimmed(all[i]));
    }
    assert(keys::shortcut_parts(capitals(shortcut)) =~= parts);
}

/// `s` is one of two texts.
pub open spec fn either(s: Seq<char>, x: Seq<char>, y: Seq<char>) -> bool {
    s == x || s == y
}

/// `s` is a name of the key with the logo.
pub open spec fn logo_name(s: Seq<char>) -> bool {
    s == "SUPER"@ || s == "META"@ || s == "WIN"@ || s == "WINDOWS"@
}

/// The names are the same, or both are names that one key has beside others.
pub open spec fn one_name(a: Seq<char>, b: Seq<char>) -> bool {
    ||| a == b
    ||| logo_name(a) && logo_name(b)
    ||| either(a, "CTRL"@, "CONTROL"@) && either(b, "CTRL"@, "CONTROL"@)
    ||| either(a, "ENTER"@, "RETURN"@) && either(b, "ENTER"@, "RETURN"@)
    ||| either(a, "ESC"@, "ESCAPE"@) && either(b, "ESC"@, "ESCAPE"@)
    ||| either(a, "DELETE"@, "DEL"@) && either(b, "DELETE"@, "DEL"@)
    ||| either(a, "INSERT"@, "INS"@) && either(b, "INSERT"@, "INS"@)
    ||| either(a, "PAGEUP"@, "PGUP"@) && either(b, "PAGEUP"@, "PGUP"@)
    ||| either(a, "PAGEDOWN"@, "PGDOWN"@) && either(b, "PAGEDOWN"@, "PGDOWN"@)
}

/// What the names stand for that a key has beside others. They differ from the
/// names before them in the table by length or by a letter.
proof fn lemma_aliases()
    ensures
        keys::key_named("CTRL"@) == Some(keys::KEY_LEFTCTRL),
        keys::key_named("CONTROL"@) == Some(keys::KEY_LEFTCTRL),
        keys::key_named("ENTER"@) == Some(keys::KEY_ENTER),
        keys::key_named("RETURN"@) == Some(keys::KEY_ENTER),
        keys::key_named("ESC"@) == Some(keys::KEY_ESC),
        keys::key_named("ESCAPE"@) == Some(keys::KEY_ESC),
        keys::key_named("DELETE"@) == Some(keys::KEY_DELETE),
        keys::key_named("DEL"@) == Some(keys::KEY_DELETE),
        keys::key_named("INSERT"@) == Some(keys::KEY_INSERT),
        keys::key_named("INS"@) == Some(keys::KEY_INSERT),
        keys::key_named("PAGEUP"@) == Some(keys::KEY_PAGEUP),
        keys::key_named("PGUP"@) == Some(keys::KEY_PAGEUP),
        keys::key_named("PAGEDOWN"@) == Some(keys::KEY_PAGEDOWN),
        keys::key_named("PGDOWN"@) == Some(keys::KEY_PAGEDOWN),
{
    reveal_strlit("SUPER");
    reveal_strlit("META");
    reveal_strlit("WIN");
    reveal_strlit("WINDOWS");
    reveal_strlit("ALT");
    reveal_strlit("CTRL");
    reveal_strlit("CONTROL");
    reveal_strlit("SHIFT");
    reveal_strlit("F1");
    reveal_strlit("F2");
    reveal_strlit("F3");
    reveal_strlit("F4");
    reveal_strlit("F5");
    reveal_strlit("F6");
    reveal_strlit("F7");
    reveal_strlit("F8");
    reveal_strlit("F9");
    reveal_strlit("F10");
    reveal_strlit("F11");
    reveal_strlit("F12");
    reveal_strlit("A");
    reveal_strlit("B");
    reveal_strlit("C");
    reveal_strlit("D");
    reveal_strlit("E");
    reveal_strlit("F");
    reveal_strlit("G");
    reveal_strlit("H");
    reveal_strlit("I");
    reveal_strlit("J");
    reveal_strlit("K");
    reveal_strlit("L");
    reveal_strlit("M");
    reveal_strlit("N");
    reveal_strlit("O");
    reveal_strlit("P");
    reveal_strlit("Q");
    reveal_strlit("R");
    reveal_strlit("S");
    reveal_strlit("T");
    reveal_strlit("U");
    reveal_strlit("V");
    reveal_strlit("W");
    reveal_strlit("X");
    reveal_strlit("Y");
    reveal_strlit("Z");
    reveal_strlit("0");
    reveal_strlit("1");
    reveal_strlit("2");
    reveal_strlit("3");
    reveal_strlit("4");
    reveal_strlit("5");
    reveal_strlit("6");
    reveal_strlit("7");
    reveal_strlit("8");
    reveal_strlit("9");
    reveal_strlit("SPACE");
    reveal_strlit("ENTER");
    reveal_strlit("RETURN");
    reveal_strlit("ESC");
    reveal_strlit("ESCAPE");
    reveal_strlit("TAB");
    reveal_strlit("BACKSPACE");
    reveal_strlit("DELETE");
    reveal_strlit("DEL");
    reveal_strlit("INSERT");
    reveal_strlit("INS");
    reveal_strlit("HOME");
    reveal_strlit("END");
    reveal_strlit("PAGEUP");
    reveal_strlit("PGUP");
    reveal_strlit("PAGEDOWN");
    reveal_strlit("PGDOWN");
    assert("CTRL"@.len() == 4 && "CTRL"@[0] == 'C');
    assert("CONTROL"@.len() == 7 && "CONTROL"@[0] == 'C');
    assert("ENTER"@.len() == 5 && "ENTER"@[0] == 'E');
    assert("RETURN"@.len() == 6 && "RETURN"@[0] == 'R');
    assert("ESC"@.len() == 3 && "ESC"@[0] == 'E');
    assert("ESCAPE"@.len() == 6 && "ESCAPE"@[0] == 'E');
    assert("DELETE"@.len() == 6 && "DELETE"@[0] == 'D');
    assert("DEL"@.len() == 3 && "DEL"@[0] == 'D');
    assert("INSERT"@.len() == 6 && "INSERT"@[0] == 'I');
    assert("INS"@.len() == 3 && "INS"@[0] == 'I');
    assert("PAGEUP"@.len() == 6 && "PAGEUP"@[0] == 'P');
    assert("PGUP"@.len() == 4 && "PGUP"@[0] == 'P');
    assert("PAGEDOWN"@.len() == 8 && "PAGEDOWN"@[0] == 'P');
    assert("PGDOWN"@.len() == 6 && "PGDOWN"@[0] == 'P');
    assert("PGDOWN"@[1] == 'G');
}

/// Two names that stand for keys stand for the same key if and only if they are
/// the same or names that this key has beside others.
pub proof fn law_key_names(a: Seq<char>, b: Seq<char>)
    requires
        keys::key_named(a) is Some,
        keys::key_named(b) is Some,
    ensures
        keys::key_named(a) == keys::key_named(b) <==> one_name(a, b),
{
    lemma_aliases();
}

/// `parts` with a plus sign between each two of them.
pub open spec fn joined(parts: Seq<Seq<char>>) -> Seq<char>
    decreases parts.len(),
{
    if parts.len() == 0 {
        seq![]
    } else if parts.len() == 1 {
        parts[0]
    } else {
        parts[0] + seq!['+'] + joined(parts.drop_first())
    }
}

/// No plus sign is in `s`.
pub open spec fn no_plus(s: Seq<char>) -> bool {
    forall|i: int| 0 <= i < s.len() ==> #[trigger] s[i] != '+'
}

/// Joined pieces are split where they were joined.
pub proof fn law_split_undoes_join(parts: Seq<Seq<char>>)
    requires
        parts.len() > 0,
        forall|i: int| 0 <= i < parts.len() ==> no_plus(#[trigger] parts[i]),
    ensures
        text::pieces(joined(parts), '+') == parts,
    decreases parts.len(),
{
    let s = joined(parts);
    let first = parts[0];
    let n = first.len() as int;
    assert(no_plus(first));
    assert forall|i: int| 0 <= i < n implies #[trigger] s[i] != '+' by {
        assert(s[i] == first[i]);
    }
    text::lemma_leading_until_unique(s, '+', n);
    if parts.len() == 1 {
        assert(text::pieces(s, '+') =~= parts);
    } else {
        let rest = parts.drop_first();
        assert forall|i: int| 0 <= i < rest.len() implies no_plus(#[trigger] rest[i]) by {
            assert(rest[i] == parts[i + 1]);
        }
        law_split_undoes_join(rest);
        assert(s.take(n) =~= first);
        assert(s.skip(n + 1) =~= joined(rest));
        assert(text::pieces(s, '+') =~= parts);
    }
}

/// Every text is its pieces, joined.
pub proof fn law_join_undoes_split(s: Seq<char>)
    ensures
        joined(text::pieces(s, '+')) == s,
        forall|i: int| 0 <= i < text::pieces(s, '+').len() ==> no_plus(
            #[trigger] text::pieces(s, '+')[i],
        ),
    decreases s.len(),
{
    text::lemma_leading_until(s, '+');
    let n = text::leading_until(s, '+') as int;
    let all = text::pieces(s, '+');
    if n < s.len() {
        let rest = s.skip(n + 1);
        law_join_undoes_split(rest);
        lemma_pieces_nonempty(rest, '+');
        assert(all.drop_first() =~= text::pieces(rest, '+'));
        assert(joined(all) =~= s);
        assert forall|i: int| 0 <= i < all.len() implies no_plus(#[trigger] all[i]) by {
            if i > 0 {
                assert(all[i] == text::pieces(rest, '+')[i - 1]);
            }
        }
    }
}

proof fn lemma_trimmed_around(before: Seq<char>, s: Seq<char>, after: Seq<char>)
    requires
        text::blank(before),
        text::blank(after),
    ensures
        text::trimmed(before + s + after) == text::trimmed(s),
{
    text::lemma_leading_space(s);
    let n = text::leading_space(s) as int;
    let t = text::trimmed_start(s);
    text::lemma_trimmed_end_shape(t);
    let core = text::trimmed(s);
    let m = core.len() as int;
    let whole = before + s + after;
    if m == 0 {
        assert forall|i: int| 0 <= i < whole.len() implies text::white_space(#[trigger] whole[i]) by {
            if i < before.len() {
                assert(whole[i] == before[i]);
            } else if i < before.len() + n {
                assert(whole[i] == s[i - before.len()]);
            } else if i < before.len() + s.len() {
                assert(whole[i] == t[i - before.len() - n]);
            } else {
                assert(whole[i] == after[i - before.len() - s.len()]);
            }
        }
        text::lemma_leading_space_unique(whole, whole.len() as int);
        assert(text::trimmed_start(whole) =~= Seq::empty());
        assert(text::trimmed(whole) =~= core);
    } else {
        let head = before + s.take(n);
        let tail = t.skip(m) + after;
        assert forall|i: int| 0 <= i < head.len() implies text::white_space(#[trigger] head[i]) by {
            if i < before.len() {
                assert(head[i] == before[i]);
            } else {
                assert(head[i] == s[i - before.len()]);
            }
        }
        assert forall|i: int| 0 <= i < tail.len() implies text::white_space(#[trigger] tail[i]) by {
            if i < t.len() - m {
                assert(tail[i] == t[i + m]);
            } else {
                assert(tail[i] == after[i - (t.len() - m)]);
            }
        }
        assert(core.first() == s[n]);
        assert(whole =~= head + core + tail);
        text::lemma_trimmed_padded(head, core, tail);
    }
}

/// The pieces of a shortcut with the given text before and after each of them.
pub open spec fn padded(
    shortcut: Seq<char>,
    before: Seq<Seq<char>>,
    after: Seq<Seq<char>>,
) -> Seq<Seq<char>> {
    let pieces = text::pieces(shortcut, '+');
    Seq::new(pieces.len(), |i: int| before[i] + pieces[i] + after[i])
}

/// White space around the parts of a shortcut does not matter.
pub proof fn law_white_space_is_ignored(
    shortcut: Seq<char>,
    before: Seq<Seq<char>>,
    after: Seq<Seq<char>>,
)
    requires
        before.len() == text::pieces(shortcut, '+').len(),
        after.len() == text::pieces(shortcut, '+').len(),
        forall|i: int| 0 <= i < before.len() ==> text::blank(#[trigger] before[i]),
        forall|i: int| 0 <= i < after.len() ==> text::blank(#[trigger] after[i]),
    ensures
        keys::shortcut_keys(joined(padded(shortcut, before, after))) == keys::shortcut_keys(
            shortcut,
        ),
{
    let pieces = text::pieces(shortcut, '+');
    let wide = padded(shortcut, before, after);
    lemma_pieces_nonempty(shortcut, '+');
    law_join_undoes_split(shortcut);
    assert forall|i: int| 0 <= i < wide.len() implies no_plus(#[trigger] wide[i]) by {
        assert(no_plus(pieces[i]));
        assert(text::blank(before[i]));
        assert(text::blank(after[i]));
        assert forall|j: int| 0 <= j < wide[i].len() implies #[trigger] wide[i][j] != '+' by {
            if j < before[i].len() {
                assert(text::white_space(before[i][j]));
            } else if j < before[i].len() + pieces[i].len() {
                assert(pieces[i][j - before[i].len()] != '+');
            } else {
                assert(text::white_space(after[i][j - before[i].len() - pieces[i].len()]));
            }
        }
    }
    law_split_undoes_join(wide);
    let parts = keys::shortcut_parts(shortcut);
    assert forall|i: int| 0 <= i < parts.len() implies keys::shortcut_parts(joined(wide))[i]
        == #[trigger] parts[i] by {
        assert(text::blank(before[i]));
        assert(text::blank(after[i]));
        lemma_trimmed_around(before[i], pieces[i], after[i]);
    }
    assert(keys::shortcut_parts(joined(wide)) =~= parts);
}

proof fn lemma_keys_of_join(a: Seq<Seq<char>>, b: Seq<Seq<char>>)
    ensures
        keys::keys_of(a + b) == match (keys::keys_of(a), keys::keys_of(b)) {
            (Ok(x), Ok(y)) => Ok(x.union(y)),
            (Err(part), _) => Err(part),
            (Ok(_), Err(part)) => Err(part),
        },
    decreases b.len(),
{
    if b.len() == 0 {
        assert(a + b =~= a);
        if let Ok(x) = keys::keys_of(a) {
            assert(x.union(Set::empty()) =~= x);
        }
    } else {
        assert((a + b).drop_last() =~= a + b.drop_last());
        lemma_keys_of_join(a, b.drop_last());
        if let (Ok(x), Ok(y), Some(key)) = (
            keys::keys_of(a),
            keys::keys_of(b.drop_last()),
            keys::key_named(b.last()),
        ) {
            assert(x.union(y).insert(key) =~= x.union(y.insert(key)));
        }
    }
}

/// Two shortcuts with a plus sign between them are a shortcut with the keys of
/// both. It is accepted if and only if both are; otherwise the first part that
/// names no key is given.
pub proof fn law_shortcuts_join(x: Seq<char>, y: Seq<char>)
    ensures
        keys::shortcut_keys(x + seq!['+'] + y) == match (
            keys::shortcut_keys(x),
            keys::shortcut_keys(y),
        ) {
            (Ok(a), Ok(b)) => Ok(a.union(b)),
            (Err(part), _) => Err(part),
            (Ok(_), Err(part)) => Err(part),
        },
{
    text_laws::law_pieces_apart(x, '+', y);
    assert(keys::shortcut_parts(x + seq!['+'] + y) =~= keys::shortcut_parts(x)
        + keys::shortcut_parts(y));
    lemma_keys_of_join(keys::shortcut_parts(x), keys::shortcut_parts(y));
}

/// What the names of one character are, and that the others are longer.
proof fn lemma_short_names()
    ensures
        "A"@ == seq!['A'],
        "B"@ == seq!['B'],
        "C"@ == seq!['C'],
        "D"@ == seq!['D'],
        "E"@ == seq!['E'],
        "F"@ == seq!['F'],
        "G"@ == seq!['G'],
        "H"@ == seq!['H'],
        "I"@ == seq!['I'],
        "J"@ == seq!['J'],
        "K"@ == seq!['K'],
        "L"@ == seq!['L'],
        "M"@ == seq!['M'],
        "N"@ == seq!['N'],
        "O"@ == seq!['O'],
        "P"@ == seq!['P'],
        "Q"@ == seq!['Q'],
        "R"@ == seq!['R'],
        "S"@ == seq!['S'],
        "T"@ == seq!['T'],
        "U"@ == seq!['U'],
        "V"@ == seq!['V'],
        "W"@ == seq!['W'],
        "X"@ == seq!['X'],
        "Y"@ == seq!['Y'],
        "Z"@ == seq!['Z'],
        "0"@ == seq!['0'],
        "1"@ == seq!['1'],
        "2"@ == seq!['2'],
        "3"@ == seq!['3'],
        "4"@ == seq!['4'],
        "5"@ == seq!['5'],
        "6"@ == seq!['6'],
        "7"@ == seq!['7'],
        "8"@ == seq!['8'],
        "9"@ == seq!['9'],
        "SUPER"@.len() >= 2,
        "META"@.len() >= 2,
        "WIN"@.len() >= 2,
        "WINDOWS"@.len() >= 2,
        "CTRL"@.len() >= 2,
        "CONTROL"@.len() >= 2,
        "ENTER"@.len() >= 2,
        "RETURN"@.len() >= 2,
        "ESC"@.len() >= 2,
        "ESCAPE"@.len() >= 2,
        "DELETE"@.len() >= 2,
        "DEL"@.len() >= 2,
        "INSERT"@.len() >= 2,
        "INS"@.len() >= 2,
        "PAGEUP"@.len() >= 2,
        "PGUP"@.len() >= 2,
        "PAGEDOWN"@.len() >= 2,
        "PGDOWN"@.len() >= 2,
        "SPACE"@.len() >= 2,
        "TAB"@.len() >= 2,
        "BACKSPACE"@.len() >= 2,
        "HOME"@.len() >= 2,
        "END"@.len() >= 2,
        "UP"@.len() >= 2,
        "DOWN"@.len() >= 2,
        "LEFT"@.len() >= 2,
        "RIGHT"@.len() >= 2,
        "ALT"@.len() >= 2,
        "SHIFT"@.len() >= 2,
        "F1"@.len() >= 2,
        "F2"@.len() >= 2,
        "F3"@.len() >= 2,
        "F4"@.len() >= 2,
        "F5"@.len() >= 2,
        "F6"@.len() >= 2,
        "F7"@.len() >= 2,
        "F8"@.len() >= 2,
        "F9"@.len() >= 2,
        "F10"@.len() >= 2,
        "F11"@.len() >= 2,
        "F12"@.len() >= 2,
{
    reveal_strlit("SUPER");
    reveal_strlit("META");
    reveal_strlit("WIN");
    reveal_strlit("WINDOWS");
    reveal_strlit("ALT");
    reveal_strlit("CTRL");
    reveal_strlit("CONTROL");
    reveal_strlit("SHIFT");
    reveal_strlit("F1");
    reveal_strlit("F2");
    reveal_strlit("F3");
    reveal_strlit("F4");
    reveal_strlit("F5");
    reveal_strlit("F6");
    reveal_strlit("F7");
    reveal_strlit("F8");
    reveal_strlit("F9");
    reveal_strlit("F10");
    reveal_strlit("F11");
    reveal_strlit("F12");
    reveal_strlit("A");
    reveal_strlit("B");
    reveal_strlit("C");
    reveal_strlit("D");
    reveal_strlit("E");
    reveal_strlit("F");
    reveal_strlit("G");
    reveal_strlit("H");
    reveal_strlit("I");
    reveal_strlit("J");
    reveal_strlit("K");
    reveal_strlit("L");
    reveal_strlit("M");
    reveal_strlit("N");
    reveal_strlit("O");
    reveal_strlit("P");
    reveal_strlit("Q");
    reveal_strlit("R");
    reveal_strlit("S");
    reveal_strlit("T");
    reveal_strlit("U");
    reveal_strlit("V");
    reveal_strlit("W");
    reveal_strlit("X");
    reveal_strlit("Y");
    reveal_strlit("Z");
    reveal_strlit("0");
    reveal_strlit("1");
    reveal_strlit("2");
    reveal_strlit("3");
    reveal_strlit("4");
    reveal_strlit("5");
    reveal_strlit("6");
    reveal_strlit("7");
    reveal_strlit("8");
    reveal_strlit("9");
    reveal_strlit("SPACE");
    reveal_strlit("ENTER");
    reveal_strlit("RETURN");
    reveal_strlit("ESC");
    reveal_strlit("ESCAPE");
    reveal_strlit("TAB");
    reveal_strlit("BACKSPACE");
    reveal_strlit("DELETE");
    reveal_strlit("DEL");
    reveal_strlit("INSERT");
    reveal_strlit("INS");
    reveal_strlit("HOME");
    reveal_strlit("END");
    reveal_strlit("PAGEUP");
    reveal_strlit("PGUP");
    reveal_strlit("PAGEDOWN");
    reveal_strlit("PGDOWN");
    reveal_strlit("UP");
    reveal_strlit("DOWN");
    reveal_strlit("LEFT");
    reveal_strlit("RIGHT");
    assert("A"@ =~= seq!['A']);
    assert("B"@ =~= seq!['B']);
    assert("C"@ =~= seq!['C']);
    assert("D"@ =~= seq!['D']);
    assert("E"@ =~= seq!['E']);
    assert("F"@ =~= seq!['F']);
    assert("G"@ =~= seq!['G']);
    assert("H"@ =~= seq!['H']);
    assert("I"@ =~= seq!['I']);
    assert("J"@ =~= seq!['J']);
    assert("K"@ =~= seq!['K']);
    assert("L"@ =~= seq!['L']);
    assert("M"@ =~= seq!['M']);
    assert("N"@ =~= seq!['N']);
    assert("O"@ =~= seq!['O']);
    assert("P"@ =~= seq!['P']);
    assert("Q"@ =~= seq!['Q']);
    assert("R"@ =~= seq!['R']);
    assert("S"@ =~= seq!['S']);
    assert("T"@ =~= seq!['T']);
    assert("U"@ =~= seq!['U']);
    assert("V"@ =~= seq!['V']);
    assert("W"@ =~= seq!['W']);
    assert("X"@ =~= seq!['X']);
    assert("Y"@ =~= seq!['Y']);
    assert("Z"@ =~= seq!['Z']);
    assert("0"@ =~= seq!['0']);
    assert("1"@ =~= seq!['1']);
    assert("2"@ =~= seq!['2']);
    assert("3"@ =~= seq!['3']);
    assert("4"@ =~= seq!['4']);
    assert("5"@ =~= seq!['5']);
    assert("6"@ =~= seq!['6']);
    assert("7"@ =~= seq!['7']);
    assert("8"@ =~= seq!['8']);
    assert("9"@ =~= seq!['9']);
}

/// The characters along a row of the keyboard name its keys, which are numbered
/// one by one from the given number on.
pub open spec fn row(names: Seq<char>, first: int) -> bool {
    forall|i: int|
        0 <= i < names.len() ==> keys::key_named(seq![#[trigger] names[i]]) == Some(
            (first + i) as KeyCode,
        )
}

/// Digits and letters name the keys of the rows of the keyboard in turn.
pub proof fn law_rows()
    ensures
        row("1234567890"@, 2),
        row("QWERTYUIOP"@, 16),
        row("ASDFGHJKL"@, 30),
        row("ZXCVBNM"@, 44),
{
    lemma_short_names();
    reveal_strlit("1234567890");
    reveal_strlit("QWERTYUIOP");
    reveal_strlit("ASDFGHJKL");
    reveal_strlit("ZXCVBNM");
    assert forall|a: char, b: char| #[trigger] seq![a] == #[trigger] seq![b] implies a == b by {
        assert(seq![a][0] == seq![b][0]);
    }
    assert(keys::key_named(seq!['1']) == Some(2u16));
    assert(keys::key_named(seq!['2']) == Some(3u16));
    assert(keys::key_named(seq!['3']) == Some(4u16));
    assert(keys::key_named(seq!['4']) == Some(5u16));
    assert(keys::key_named(seq!['5']) == Some(6u16));
    assert(keys::key_named(seq!['6']) == Some(7u16));
    assert(keys::key_named(seq!['7']) == Some(8u16));
    assert(keys::key_named(seq!['8']) == Some(9u16));
    assert(keys::key_named(seq!['9']) == Some(10u16));
    assert(keys::key_named(seq!['0']) == Some(11u16));
    assert(keys::key_named(seq!['Q']) == Some(16u16));
    assert(keys::key_named(seq!['W']) == Some(17u16));
    assert(keys::key_named(seq!['E']) == Some(18u16));
    assert(keys::key_named(seq!['R']) == Some(19u16));
    assert(keys::key_named(seq!['T']) == Some(20u16));
    assert(keys::key_named(seq!['Y']) == Some(21u16));
    assert(keys::key_named(seq!['U']) == Some(22u16));
    assert(keys::key_named(seq!['I']) == Some(23u16));
    assert(keys::key_named(seq!['O']) == Some(24u16));
    assert(keys::key_named(seq!['P']) == Some(25u16));
    assert(keys::key_named(seq!['A']) == Some(30u16));
    assert(keys::key_named(seq!['S']) == Some(31u16));
    assert(keys::key_named(seq!['D']) == Some(32u16));
    assert(keys::key_named(seq!['F']) == Some(33u16));
    assert(keys::key_named(seq!['G']) == Some(34u16));
    assert(keys::key_named(seq!['H']) == Some(35u16));
    assert(keys::key_named(seq!['J']) == Some(36u16));
    assert(keys::key_named(seq!['K']) == Some(37u16));
    assert(keys::key_named(seq!['L']) == Some(38u16));
    assert(keys::key_named(seq!['Z']) == Some(44u16));
    assert(keys::key_named(seq!['X']) == Some(45u16));
    assert(keys::key_named(seq!['C']) == Some(46u16));
    assert(keys::key_named(seq!['V']) == Some(47u16));
    assert(keys::key_named(seq!['B']) == Some(48u16));
    assert(keys::key_named(seq!['N']) == Some(49u16));
    assert(keys::key_named(seq!['M']) == Some(50u16));
}

/// The longer names, and the numbers of the keys that they stand for.
pub proof fn law_longer_names()
    ensures
        keys::key_named("SUPER"@) == Some(125u16),
        keys::key_named("META"@) == Some(125u16),
        keys::key_named("WIN"@) == Some(125u16),
        keys::key_named("WINDOWS"@) == Some(125u16),
        keys::key_named("CTRL"@) == Some(29u16),
        keys::key_named("CONTROL"@) == Some(29u16),
        keys::key_named("ENTER"@) == Some(28u16),
        keys::key_named("RETURN"@) == Some(28u16),
        keys::key_named("ESC"@) == Some(1u16),
        keys::key_named("ESCAPE"@) == Some(1u16),
        keys::key_named("DELETE"@) == Some(111u16),
        keys::key_named("DEL"@) == Some(111u16),
        keys::key_named("INSERT"@) == Some(110u16),
        keys::key_named("INS"@) == Some(110u16),
        keys::key_named("PAGEUP"@) == Some(104u16),
        keys::key_named("PGUP"@) == Some(104u16),
        keys::key_named("PAGEDOWN"@) == Some(109u16),
        keys::key_named("PGDOWN"@) == Some(109u16),
        keys::key_named("SPACE"@) == Some(57u16),
        keys::key_named("TAB"@) == Some(15u16),
        keys::key_named("BACKSPACE"@) == Some(14u16),
        keys::key_named("HOME"@) == Some(102u16),
        keys::key_named("END"@) == Some(107u16),
        keys::key_named("UP"@) == Some(103u16),
        keys::key_named("DOWN"@) == Some(108u16),
        keys::key_named("LEFT"@) == Some(105u16),
        keys::key_named("RIGHT"@) == Some(106u16),
        keys::key_named("ALT"@) == Some(56u16),
        keys::key_named("SHIFT"@) == Some(42u16),
        keys::key_named("F1"@) == Some(59u16),
        keys::key_named("F2"@) == Some(60u16),
        keys::key_named("F3"@) == Some(61u16),
        keys::key_named("F4"@) == Some(62u16),
        keys::key_named("F5"@) == Some(63u16),
        keys::key_named("F6"@) == Some(64u16),
        keys::key_named("F7"@) == Some(65u16),
        keys::key_named("F8"@) == Some(66u16),
        keys::key_named("F9"@) == Some(67u16),
        keys::key_named("F10"@) == Some(68u16),
        keys::key_named("F11"@) == Some(87u16),
        keys::key_named("F12"@) == Some(88u16),
{
    lemma_aliases();
    reveal_strlit("SUPER");
    reveal_strlit("META");
    reveal_strlit("WIN");
    reveal_strlit("WINDOWS");
    reveal_strlit("ALT");
    reveal_strlit("CTRL");
    reveal_strlit("CONTROL");
    reveal_strlit("SHIFT");
    reveal_strlit("F1");
    reveal_strlit("F2");
    reveal_strlit("F3");
    reveal_strlit("F4");
    reveal_strlit("F5");
    reveal_strlit("F6");
    reveal_strlit("F7");
    reveal_strlit("F8");
    reveal_strlit("F9");
    reveal_strlit("F10");
    reveal_strlit("F11");
    reveal_strlit("F12");
    reveal_strlit("A");
    reveal_strlit("B");
    reveal_strlit("C");
    reveal_strlit("D");
    reveal_strlit("E");
    reveal_strlit("F");
    reveal_strlit("G");
    reveal_strlit("H");
    reveal_strlit("I");
    reveal_strlit("J");
    reveal_strlit("K");
    reveal_strlit("L");
    reveal_strlit("M");
    reveal_strlit("N");
    reveal_strlit("O");
    reveal_strlit("P");
    reveal_strlit("Q");
    reveal_strlit("R");
    reveal_strlit("S");
    reveal_strlit("T");
    reveal_strlit("U");
    reveal_strlit("V");
    reveal_strlit("W");
    reveal_strlit("X");
    reveal_strlit("Y");
    reveal_strlit("Z");
    reveal_strlit("0");
    reveal_strlit("1");
    reveal_strlit("2");
    reveal_strlit("3");
    reveal_strlit("4");
    reveal_strlit("5");
    reveal_strlit("6");
    reveal_strlit("7");
    reveal_strlit("8");
    reveal_strlit("9");
    reveal_strlit("SPACE");
    reveal_strlit("ENTER");
    reveal_strlit("RETURN");
    reveal_strlit("ESC");
    reveal_strlit("ESCAPE");
    reveal_strlit("TAB");
    reveal_strlit("BACKSPACE");
    reveal_strlit("DELETE");
    reveal_strlit("DEL");
    reveal_strlit("INSERT");
    reveal_strlit("INS");
    reveal_strlit("HOME");
    reveal_strlit("END");
    reveal_strlit("PAGEUP");
    reveal_strlit("PGUP");
    reveal_strlit("PAGEDOWN");
    reveal_strlit("PGDOWN");
    reveal_strlit("UP");
    reveal_strlit("DOWN");
    reveal_strlit("LEFT");
    reveal_strlit("RIGHT");
    assert("SUPER"@.len() == 5 && "SUPER"@[0] == 'S' && "SUPER"@[1] == 'U' && "SUPER"@[2] == 'P');
    assert("META"@.len() == 4 && "META"@[0] == 'M' && "META"@[1] == 'E' && "META"@[2] == 'T');
    assert("WIN"@.len() == 3 && "WIN"@[0] == 'W' && "WIN"@[1] == 'I' && "WIN"@[2] == 'N');
    assert("WINDOWS"@.len() == 7 && "WINDOWS"@[0] == 'W' && "WINDOWS"@[1] == 'I' && "WINDOWS"@[2] == 'N');
    assert("CTRL"@.len() == 4 && "CTRL"@[0] == 'C' && "CTRL"@[1] == 'T' && "CTRL"@[2] == 'R');
    assert("CONTROL"@.len() == 7 && "CONTROL"@[0] == 'C' && "CONTROL"@[1] == 'O' && "CONTROL"@[2] == 'N');
    assert("ENTER"@.len() == 5 && "ENTER"@[0] == 'E' && "ENTER"@[1] == 'N' && "ENTER"@[2] == 'T');
    assert("RETURN"@.len() == 6 && "RETURN"@[0] == 'R' && "RETURN"@[1] == 'E' && "RETURN"@[2] == 'T');
    assert("ESC"@.len() == 3 && "ESC"@[0] == 'E' && "ESC"@[1] == 'S' && "ESC"@[2] == 'C');
    assert("ESCAPE"@.len() == 6 && "ESCAPE"@[0] == 'E' && "ESCAPE"@[1] == 'S' && "ESCAPE"@[2] == 'C');
    assert("DELETE"@.len() == 6 && "DELETE"@[0] == 'D' && "DELETE"@[1] == 'E' && "DELETE"@[2] == 'L');
    assert("DEL"@.len() == 3 && "DEL"@[0] == 'D' && "DEL"@[1] == 'E' && "DEL"@[2] == 'L');
    assert("INSERT"@.len() == 6 && "INSERT"@[0] == 'I' && "INSERT"@[1] == 'N' && "INSERT"@[2] == 'S');
    assert("INS"@.len() == 3 && "INS"@[0] == 'I' && "INS"@[1] == 'N' && "INS"@[2] == 'S');
    assert("PAGEUP"@.len() == 6 && "PAGEUP"@[0] == 'P' && "PAGEUP"@[1] == 'A' && "PAGEUP"@[2] == 'G');
    assert("PGUP"@.len() == 4 && "PGUP"@[0] == 'P' && "PGUP"@[1] == 'G' && "PGUP"@[2] == 'U');
    assert("PAGEDOWN"@.len() == 8 && "PAGEDOWN"@[0] == 'P' && "PAGEDOWN"@[1] == 'A' && "PAGEDOWN"@[2] == 'G');
    assert("PGDOWN"@.len() == 6 && "PGDOWN"@[0] == 'P' && "PGDOWN"@[1] == 'G' && "PGDOWN"@[2] == 'D');
    assert("SPACE"@.len() == 5 && "SPACE"@[0] == 'S' && "SPACE"@[1] == 'P' && "SPACE"@[2] == 'A');
    assert("TAB"@.len() == 3 && "TAB"@[0] == 'T' && "TAB"@[1] == 'A' && "TAB"@[2] == 'B');
    assert("BACKSPACE"@.len() == 9 && "BACKSPACE"@[0] == 'B' && "BACKSPACE"@[1] == 'A' && "BACKSPACE"@[2] == 'C');
    assert("HOME"@.len() == 4 && "HOME"@[0] == 'H' && "HOME"@[1] == 'O' && "HOME"@[2] == 'M');
    assert("END"@.len() == 3 && "END"@[0] == 'E' && "END"@[1] == 'N' && "END"@[2] == 'D');
    assert("UP"@.len() == 2 && "UP"@[0] == 'U' && "UP"@[1] == 'P');
    assert("DOWN"@.len() == 4 && "DOWN"@[0] == 'D' && "DOWN"@[1] == 'O' && "DOWN"@[2] == 'W');
    assert("LEFT"@.len() == 4 && "LEFT"@[0] == 'L' && "LEFT"@[1] == 'E' && "LEFT"@[2] == 'F');
    assert("RIGHT"@.len() == 5 && "RIGHT"@[0] == 'R' && "RIGHT"@[1] == 'I' && "RIGHT"@[2] == 'G');
    assert("ALT"@.len() == 3 && "ALT"@[0] == 'A' && "ALT"@[1] == 'L' && "ALT"@[2] == 'T');
    assert("SHIFT"@.len() == 5 && "SHIFT"@[0] == 'S' && "SHIFT"@[1] == 'H' && "SHIFT"@[2] == 'I');
    assert("F1"@.len() == 2 && "F1"@[0] == 'F' && "F1"@[1] == '1');
    assert("F2"@.len() == 2 && "F2"@[0] == 'F' && "F2"@[1] == '2');
    assert("F3"@.len() == 2 && "F3"@[0] == 'F' && "F3"@[1] == '3');
    assert("F4"@.len() == 2 && "F4"@[0] == 'F' && "F4"@[1] == '4');
    assert("F5"@.len() == 2 && "F5"@[0] == 'F' && "F5"@[1] == '5');
    assert("F6"@.len() == 2 && "F6"@[0] == 'F' && "F6"@[1] == '6');
    assert("F7"@.len() == 2 && "F7"@[0] == 'F' && "F7"@[1] == '7');
    assert("F8"@.len() == 2 && "F8"@[0] == 'F' && "F8"@[1] == '8');
    assert("F9"@.len() == 2 && "F9"@[0] == 'F' && "F9"@[1] == '9');
    assert("F10"@.len() == 3 && "F10"@[0] == 'F' && "F10"@[1] == '1' && "F10"@[2] == '0');
    assert("F11"@.len() == 3 && "F11"@[0] == 'F' && "F11"@[1] == '1' && "F11"@[2] == '1');
    assert("F12"@.len() == 3 && "F12"@[0] == 'F' && "F12"@[1] == '1' && "F12"@[2] == '2');
}

/// Nothing else names a key: a name is a digit or a capital letter, or one of
/// the longer names.
pub proof fn law_no_other_names(name: Seq<char>)
    requires
        keys::key_named(name) is Some,
    ensures
        ({
            ||| name.len() == 1 && ('0' <= name[0] <= '9' || 'A' <= name[0] <= 'Z')
            ||| name == "SUPER"@
            ||| name == "META"@
            ||| name == "WIN"@
            ||| name == "WINDOWS"@
            ||| name == "CTRL"@
            ||| name == "CONTROL"@
            ||| name == "ENTER"@
            ||| name == "RETURN"@
            ||| name == "ESC"@
            ||| name == "ESCAPE"@
            ||| name == "DELETE"@
            ||| name == "DEL"@
            ||| name == "INSERT"@
            ||| name == "INS"@
            ||| name == "PAGEUP"@
            ||| name == "PGUP"@
            ||| name == "PAGEDOWN"@
            ||| name == "PGDOWN"@
            ||| name == "SPACE"@
            ||| name == "TAB"@
            ||| name == "BACKSPACE"@
            ||| name == "HOME"@
            ||| name == "END"@
            ||| name == "UP"@
            ||| name == "DOWN"@
            ||| name == "LEFT"@
            ||| name == "RIGHT"@
            ||| name == "ALT"@
            ||| name == "SHIFT"@
            ||| name == "F1"@
            ||| name == "F2"@
            ||| name == "F3"@
            ||| name == "F4"@
            ||| name == "F5"@
            ||| name == "F6"@
            ||| name == "F7"@
            ||| name == "F8"@
            ||| name == "F9"@
            ||| name == "F10"@
            ||| name == "F11"@
            ||| name == "F12"@
        }),
{
    lemma_short_names();
}

/// A shortcut without plus signs is accepted if and only if what it says names
/// a key, white space around it and its case apart. It then has that key alone.
pub proof fn law_one_part(s: Seq<char>)
    requires
        forall|i: int| 0 <= i < s.len() ==> #[trigger] s[i] != '+',
    ensures
        keys::shortcut_keys(s) == match keys::key_named(text::uppercase(text::trimmed(s))) {
            Some(key) => Ok(set![key]),
            None => Err(text::uppercase(text::trimmed(s))),
        },
{
    text_laws::law_piece(s, '+');
    let part = text::uppercase(text::trimmed(s));
    assert(keys::shortcut_parts(s) =~= seq![part]);
    reveal_with_fuel(keys::keys_of, 2);
    assert(seq![part].drop_last() =~= Seq::empty());
    assert(seq![part].last() == part);
}

/// A refused shortcut is told of by the part that names no key, and the cause
/// is that very part.
pub proof fn law_bad_part(part: Seq<char>)
    ensures
        keys::bad_part(part).part == part,
        keys::bad_part(part).cause == part,
{
}

} // verus!
