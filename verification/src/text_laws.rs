//! What holds of split and trimmed text.

use crate::text;
use vstd::prelude::*;

verus! {

/// Trimmed text is what is left between white space: where it begins and ends
/// in the text is returned. All before and after it is white space, and what is
/// left neither begins nor ends with any.
pub proof fn law_trimmed(s: Seq<char>) -> (r: (int, int))
    ensures
        0 <= r.0 <= r.1 <= s.len(),
        text::trimmed(s) == s.subrange(r.0, r.1),
        forall|i: int| 0 <= i < r.0 ==> text::white_space(#[trigger] s[i]),
        forall|i: int| r.1 <= i < s.len() ==> text::white_space(#[trigger] s[i]),
        r.0 < r.1 ==> !text::white_space(s[r.0]) && !text::white_space(s[r.1 - 1]),
{
    text::lemma_leading_space(s);
    let n = text::leading_space(s) as int;
    let t = text::trimmed_start(s);
    text::lemma_trimmed_end_shape(t);
    let m = text::trimmed(s).len() as int;
    assert forall|i: int| n + m <= i < s.len() implies text::white_space(#[trigger] s[i]) by {
        assert(s[i] == t[i - n]);
    }
    if m > 0 {
        assert(text::trimmed(s).last() == s[n + m - 1]);
    }
    assert(text::trimmed(s) =~= s.subrange(n, n + m));
    (n, n + m)
}

/// White space anywhere in a text parts the words before it from those after.
pub proof fn law_words_apart(a: Seq<char>, c: char, b: Seq<char>)
    requires
        text::white_space(c),
    ensures
        text::words(a + seq![c] + b) == text::words(a) + text::words(b),
    decreases a.len(),
{
    let s = a + seq![c] + b;
    if a.len() == 0 {
        text::lemma_words_blank(a);
        text::lemma_words_leading_space(c, b);
        assert(s =~= seq![c] + b);
        assert(text::words(s) =~= text::words(a) + text::words(b));
    } else if text::white_space(a[0]) {
        let rest = a.drop_first();
        law_words_apart(rest, c, b);
        assert(a =~= seq![a[0]] + rest);
        assert(s =~= seq![a[0]] + (rest + seq![c] + b));
        text::lemma_words_leading_space(a[0], rest);
        text::lemma_words_leading_space(a[0], rest + seq![c] + b);
    } else {
        text::lemma_leading_word(a);
        let n = text::leading_word(a) as int;
        let w = a.take(n);
        let rest = a.skip(n);
        law_words_apart(rest, c, b);
        assert(a =~= w + rest);
        assert(s =~= w + (rest + seq![c] + b));
        text::lemma_words_first(w, rest);
        text::lemma_words_first(w, rest + seq![c] + b);
        assert(text::words(s) =~= text::words(a) + text::words(b));
    }
}

/// A text without white space is one word, unless there is nothing in it.
pub proof fn law_word(w: Seq<char>)
    requires
        forall|i: int| 0 <= i < w.len() ==> !text::white_space(#[trigger] w[i]),
    ensures
        text::words(w) == if w.len() == 0 {
            Seq::empty()
        } else {
            seq![w]
        },
{
    let none = Seq::<char>::empty();
    text::lemma_words_blank(none);
    if w.len() == 0 {
        assert(w =~= none);
    } else {
        text::lemma_words_first(w, none);
        assert(w + none =~= w);
        assert(text::words(w) =~= seq![w]);
    }
}

/// A separator anywhere in a text parts the pieces before it from those after.
pub proof fn law_pieces_apart(a: Seq<char>, sep: char, b: Seq<char>)
    ensures
        text::pieces(a + seq![sep] + b, sep) == text::pieces(a, sep) + text::pieces(b, sep),
    decreases a.len(),
{
    let s = a + seq![sep] + b;
    text::lemma_leading_until(a, sep);
    let n = text::leading_until(a, sep) as int;
    assert forall|i: int| 0 <= i < n implies #[trigger] s[i] != sep by {
        assert(s[i] == a[i]);
    }
    assert(s[n] == sep);
    text::lemma_leading_until_unique(s, sep, n);
    assert(s.take(n) =~= a.take(n));
    if n < a.len() {
        law_pieces_apart(a.skip(n + 1), sep, b);
        assert(s.skip(n + 1) =~= a.skip(n + 1) + seq![sep] + b);
    } else {
        assert(a.take(n) =~= a);
        assert(s.skip(n + 1) =~= b);
    }
    assert(text::pieces(s, sep) =~= text::pieces(a, sep) + text::pieces(b, sep));
}

/// A text without separators is one piece, also where there is nothing in it.
pub proof fn law_piece(s: Seq<char>, sep: char)
    requires
        forall|i: int| 0 <= i < s.len() ==> #[trigger] s[i] != sep,
    ensures
        text::pieces(s, sep) == seq![s],
{
    text::lemma_leading_until_unique(s, sep, s.len() as int);
}

/// A text begins with a prefix if and only if it is the prefix and some rest.
pub proof fn law_prefix(prefix: Seq<char>, rest: Seq<char>, s: Seq<char>)
    ensures
        text::begins_with(prefix + rest, prefix),
        (prefix + rest).skip(prefix.len() as int) == rest,
        text::begins_with(s, prefix) ==> s == prefix + s.skip(prefix.len() as int),
{
    assert((prefix + rest).take(prefix.len() as int) =~= prefix);
    assert((prefix + rest).skip(prefix.len() as int) =~= rest);
    if text::begins_with(s, prefix) {
        assert(s =~= s.take(prefix.len() as int) + s.skip(prefix.len() as int));
    }
}

/// In upper case a text of ASCII has as many characters as before. Each small
/// letter is 32 lower than it was, and all else is as it was.
pub proof fn law_uppercase(s: Seq<char>, i: int)
    requires
        vstd::utf8::is_ascii_chars(s),
        0 <= i < s.len(),
    ensures
        text::uppercase(s).len() == s.len(),
        text::uppercase(s)[i] as int == if 97 <= s[i] as int <= 122 {
            s[i] as int - 32
        } else {
            s[i] as int
        },
{
    assert('\0' <= s[i] <= '\u{7f}');
}

/// The views of strings are their characters, one by one.
pub proof fn law_views(v: Seq<&str>)
    ensures
        text::views(v).len() == v.len(),
        forall|i: int| 0 <= i < v.len() ==> (#[trigger] text::views(v)[i]) == v[i]@,
{
}

/// A text is blank where all of it is white space, and unspaced where none is.
pub proof fn law_blank(s: Seq<char>)
    ensures
        text::blank(s) <==> forall|i: int| 0 <= i < s.len() ==> text::white_space(#[trigger] s[i]),
        text::unspaced(s) <==> forall|i: int|
            0 <= i < s.len() ==> !text::white_space(#[trigger] s[i]),
{
}

/// Text that was written as UTF-8 is read back, whatever it holds.
pub proof fn law_text_is_read_back(s: Seq<char>)
    ensures
        text::lossy_text(vstd::utf8::encode_utf8(s)) == s,
{
    vstd::utf8::encode_utf8_valid_utf8(s);
    vstd::utf8::encode_utf8_decode_utf8(s);
}

/// The upper case of other text than ASCII is that of Unicode.
pub proof fn law_unicode_uppercase(s: Seq<char>)
    requires
        !vstd::utf8::is_ascii_chars(s),
    ensures
        text::uppercase(s) == text::unicode_uppercase(s),
{
}

/// Bytes are read as the text that they encode, and with replacements if and
/// only if they encode none.
pub proof fn law_lossy_text(bytes: Seq<u8>)
    ensures
        vstd::utf8::valid_utf8(bytes) ==> text::lossy_text(bytes) == vstd::utf8::decode_utf8(bytes),
        !vstd::utf8::valid_utf8(bytes) ==> text::lossy_text(bytes) == text::utf8_with_replacements(
            bytes,
        ),
{
}

} // verus!
