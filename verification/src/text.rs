//! Splitting and trimming of text, specified over sequences of characters.

use vstd::prelude::*;
use vstd::string::StrSliceExecFns;
use vstd::utf8::*;

verus! {

/// The characters with the Unicode property `White_Space`.
pub open spec fn white_space(c: char) -> bool {
    ||| '\u{9}' <= c <= '\u{d}'
    ||| c == ' '
    ||| c == '\u{85}'
    ||| c == '\u{a0}'
    ||| c == '\u{1680}'
    ||| '\u{2000}' <= c <= '\u{200a}'
    ||| c == '\u{2028}'
    ||| c == '\u{2029}'
    ||| c == '\u{202f}'
    ||| c == '\u{205f}'
    ||| c == '\u{3000}'
}

/// `char::is_whitespace` is documented to tell the characters that have the
/// property `White_Space`, as the Unicode Character Database lists them.
pub assume_specification[ char::is_whitespace ](c: char) -> (r: bool)
    ensures
        r == white_space(c),
;

/// No character of `s` is white space.
pub open spec fn unspaced(s: Seq<char>) -> bool {
    forall|i: int| 0 <= i < s.len() ==> !white_space(#[trigger] s[i])
}

/// Every character of `s` is white space.
pub open spec fn blank(s: Seq<char>) -> bool {
    forall|i: int| 0 <= i < s.len() ==> white_space(#[trigger] s[i])
}

/// The number of leading characters of `s` that are white space.
pub open spec fn leading_space(s: Seq<char>) -> nat
    decreases s.len(),
{
    if s.len() > 0 && white_space(s[0]) {
        1 + leading_space(s.drop_first())
    } else {
        0
    }
}

/// The number of leading characters of `s` that are not white space.
pub open spec fn leading_word(s: Seq<char>) -> nat
    decreases s.len(),
{
    if s.len() > 0 && !white_space(s[0]) {
        1 + leading_word(s.drop_first())
    } else {
        0
    }
}

/// The number of characters of `s` before the first `sep`, or all of them.
pub open spec fn leading_until(s: Seq<char>, sep: char) -> nat
    decreases s.len(),
{
    if s.len() > 0 && s[0] != sep {
        1 + leading_until(s.drop_first(), sep)
    } else {
        0
    }
}

/// `s` without its leading white space.
pub open spec fn trimmed_start(s: Seq<char>) -> Seq<char> {
    s.skip(leading_space(s) as int)
}

/// `s` without its trailing white space.
pub open spec fn trimmed_end(s: Seq<char>) -> Seq<char>
    decreases s.len(),
{
    if s.len() > 0 && white_space(s.last()) {
        trimmed_end(s.drop_last())
    } else {
        s
    }
}

/// `s` without its leading and trailing white space.
pub open spec fn trimmed(s: Seq<char>) -> Seq<char> {
    trimmed_end(trimmed_start(s))
}

/// The maximal runs of characters of `s` that hold no white space, in order.
pub open spec fn words(s: Seq<char>) -> Seq<Seq<char>>
    decreases s.len(),
{
    let t = trimmed_start(s);
    if t.len() == 0 {
        seq![]
    } else {
        proof {
            lemma_leading_space(s);
            lemma_leading_word(t);
        }
        seq![t.take(leading_word(t) as int)] + words(t.skip(leading_word(t) as int))
    }
}

/// The pieces of `s` between the occurrences of `sep`, in order.
pub open spec fn pieces(s: Seq<char>, sep: char) -> Seq<Seq<char>>
    decreases s.len(),
{
    let n = leading_until(s, sep);
    if n >= s.len() {
        seq![s]
    } else {
        seq![s.take(n as int)] + pieces(s.skip(n as int + 1), sep)
    }
}

/// `s` begins with `prefix`.
pub open spec fn begins_with(s: Seq<char>, prefix: Seq<char>) -> bool {
    prefix.len() <= s.len() && s.take(prefix.len() as int) == prefix
}

/// The characters of each string of `v`.
pub open spec fn views(v: Seq<&str>) -> Seq<Seq<char>> {
    v.map_values(|w: &str| w@)
}

/// The leading white space is a maximal blank prefix.
pub proof fn lemma_leading_space(s: Seq<char>)
    ensures
        leading_space(s) <= s.len(),
        forall|i: int| 0 <= i < leading_space(s) ==> white_space(#[trigger] s[i]),
        leading_space(s) < s.len() ==> !white_space(s[leading_space(s) as int]),
    decreases s.len(),
{
    if s.len() > 0 && white_space(s[0]) {
        let t = s.drop_first();
        lemma_leading_space(t);
        assert forall|i: int| 0 <= i < leading_space(s) implies white_space(#[trigger] s[i]) by {
            if i > 0 {
                assert(s[i] == t[i - 1]);
            }
        }
    }
}

/// A maximal blank prefix has the length of the leading white space.
pub proof fn lemma_leading_space_unique(s: Seq<char>, n: int)
    requires
        0 <= n <= s.len(),
        forall|i: int| 0 <= i < n ==> white_space(#[trigger] s[i]),
        n < s.len() ==> !white_space(s[n]),
    ensures
        leading_space(s) == n,
{
    lemma_leading_space(s);
    let m = leading_space(s) as int;
    if m < n {
        assert(white_space(s[m]));
    }
    if n < m {
        assert(white_space(s[n]));
    }
}

/// The leading word is a maximal prefix without white space.
pub proof fn lemma_leading_word(s: Seq<char>)
    ensures
        leading_word(s) <= s.len(),
        forall|i: int| 0 <= i < leading_word(s) ==> !white_space(#[trigger] s[i]),
        leading_word(s) < s.len() ==> white_space(s[leading_word(s) as int]),
    decreases s.len(),
{
    if s.len() > 0 && !white_space(s[0]) {
        let t = s.drop_first();
        lemma_leading_word(t);
        assert forall|i: int| 0 <= i < leading_word(s) implies !white_space(#[trigger] s[i]) by {
            if i > 0 {
                assert(s[i] == t[i - 1]);
            }
        }
    }
}

/// A maximal prefix without white space has the length of the leading word.
pub proof fn lemma_leading_word_unique(s: Seq<char>, n: int)
    requires
        0 <= n <= s.len(),
        forall|i: int| 0 <= i < n ==> !white_space(#[trigger] s[i]),
        n < s.len() ==> white_space(s[n]),
    ensures
        leading_word(s) == n,
{
    lemma_leading_word(s);
    let m = leading_word(s) as int;
    if m < n {
        assert(!white_space(s[m]));
    }
    if n < m {
        assert(!white_space(s[n]));
    }
}

/// The characters before the first separator are a maximal prefix without it.
pub proof fn lemma_leading_until(s: Seq<char>, sep: char)
    ensures
        leading_until(s, sep) <= s.len(),
        forall|i: int| 0 <= i < leading_until(s, sep) ==> #[trigger] s[i] != sep,
        leading_until(s, sep) < s.len() ==> s[leading_until(s, sep) as int] == sep,
    decreases s.len(),
{
    if s.len() > 0 && s[0] != sep {
        let t = s.drop_first();
        lemma_leading_until(t, sep);
        assert forall|i: int| 0 <= i < leading_until(s, sep) implies #[trigger] s[i] != sep by {
            if i > 0 {
                assert(s[i] == t[i - 1]);
            }
        }
    }
}

/// A maximal prefix without the separator ends where the separator first is.
pub proof fn lemma_leading_until_unique(s: Seq<char>, sep: char, n: int)
    requires
        0 <= n <= s.len(),
        forall|i: int| 0 <= i < n ==> #[trigger] s[i] != sep,
        n < s.len() ==> s[n] == sep,
    ensures
        leading_until(s, sep) == n,
{
    lemma_leading_until(s, sep);
    let m = leading_until(s, sep) as int;
    if m < n {
        assert(s[m] != sep);
    }
    if n < m {
        assert(s[n] != sep);
    }
}

/// The trailing white space is a maximal blank suffix.
pub proof fn lemma_trimmed_end(s: Seq<char>, n: int)
    requires
        0 <= n <= s.len(),
        forall|i: int| n <= i < s.len() ==> white_space(#[trigger] s[i]),
        n > 0 ==> !white_space(s[n - 1]),
    ensures
        trimmed_end(s) == s.take(n),
    decreases s.len(),
{
    if n == s.len() {
        assert(s.take(n) =~= s);
    } else {
        assert(white_space(s[s.len() - 1]));
        lemma_trimmed_end(s.drop_last(), n);
        assert(s.drop_last().take(n) =~= s.take(n));
    }
}

/// What is left without the trailing white space is a prefix that ends in no
/// white space, and nothing else follows it.
pub proof fn lemma_trimmed_end_shape(s: Seq<char>)
    ensures
        trimmed_end(s).len() <= s.len(),
        trimmed_end(s) == s.take(trimmed_end(s).len() as int),
        forall|i: int| trimmed_end(s).len() <= i < s.len() ==> white_space(#[trigger] s[i]),
        trimmed_end(s).len() > 0 ==> !white_space(trimmed_end(s).last()),
    decreases s.len(),
{
    if s.len() > 0 && white_space(s.last()) {
        let t = s.drop_last();
        lemma_trimmed_end_shape(t);
        assert(s.take(trimmed_end(s).len() as int) =~= t.take(trimmed_end(t).len() as int));
        assert forall|i: int| trimmed_end(s).len() <= i < s.len() implies white_space(
            #[trigger] s[i],
        ) by {
            if i < t.len() {
                assert(s[i] == t[i]);
            }
        }
    } else {
        assert(s.take(s.len() as int) =~= s);
    }
}

/// White space around a text that neither begins nor ends with any is trimmed
/// away.
pub proof fn lemma_trimmed_padded(before: Seq<char>, core: Seq<char>, after: Seq<char>)
    requires
        blank(before),
        blank(after),
        core.len() > 0,
        !white_space(core.first()),
        !white_space(core.last()),
    ensures
        trimmed(before + core + after) == core,
{
    let s = before + core + after;
    let n = before.len() as int;
    assert forall|i: int| 0 <= i < n implies white_space(#[trigger] s[i]) by {
        assert(s[i] == before[i]);
    }
    assert(s[n] == core[0]);
    lemma_leading_space_unique(s, n);
    let t = trimmed_start(s);
    assert(t =~= core + after);
    assert forall|i: int| core.len() <= i < t.len() implies white_space(#[trigger] t[i]) by {
        assert(t[i] == after[i - core.len()]);
    }
    lemma_trimmed_end(t, core.len() as int);
    assert(t.take(core.len() as int) =~= core);
}

/// The first word of a text that begins with one, and the words after it.
pub proof fn lemma_words_first(w: Seq<char>, rest: Seq<char>)
    requires
        w.len() > 0,
        unspaced(w),
        rest.len() > 0 ==> white_space(rest[0]),
    ensures
        words(w + rest) == seq![w] + words(rest),
{
    let s = w + rest;
    lemma_leading_space(s);
    assert(!white_space(s[0])) by {
        assert(s[0] == w[0]);
    }
    lemma_leading_space_unique(s, 0);
    assert(trimmed_start(s) =~= s);
    assert forall|i: int| 0 <= i < w.len() implies !white_space(#[trigger] s[i]) by {
        assert(s[i] == w[i]);
    }
    if rest.len() > 0 {
        assert(s[w.len() as int] == rest[0]);
    }
    lemma_leading_word_unique(s, w.len() as int);
    assert(s.take(w.len() as int) =~= w);
    assert(s.skip(w.len() as int) =~= rest);
    lemma_leading_word(trimmed_start(s));
}

/// White space before a text leaves its words as they are.
pub proof fn lemma_words_leading_space(c: char, s: Seq<char>)
    requires
        white_space(c),
    ensures
        words(seq![c] + s) == words(s),
{
    let t = seq![c] + s;
    assert(t.drop_first() =~= s);
    lemma_leading_space(s);
    lemma_leading_space(t);
    assert(trimmed_start(t) =~= trimmed_start(s));
    lemma_leading_word(trimmed_start(s));
}

/// A blank text has no words.
pub proof fn lemma_words_blank(s: Seq<char>)
    requires
        blank(s),
    ensures
        words(s) == Seq::<Seq<char>>::empty(),
{
    lemma_leading_space_unique(s, s.len() as int);
    lemma_leading_word(trimmed_start(s));
}

/// Every word is nonempty and holds no white space.
pub proof fn lemma_words_unspaced(s: Seq<char>)
    ensures
        forall|i: int|
            0 <= i < words(s).len() ==> unspaced(#[trigger] words(s)[i]) && words(s)[i].len() > 0,
    decreases s.len(),
{
    lemma_leading_space(s);
    let t = trimmed_start(s);
    lemma_leading_word(t);
    let n = leading_word(t) as int;
    if t.len() > 0 && n > 0 {
        lemma_words_unspaced(t.skip(n));
        let rest = words(t.skip(n));
        assert forall|i: int| 0 <= i < words(s).len() implies unspaced(#[trigger] words(s)[i])
            && words(s)[i].len() > 0 by {
            if i > 0 {
                assert(words(s)[i] == rest[i - 1]);
            }
        }
    }
}

/// The characters of `s`.
pub fn chars(s: &str) -> (r: Vec<char>)
    ensures
        r@ == s@,
{
    let mut r: Vec<char> = Vec::new();
    for c in it: s.chars()
        invariant
            it.seq() == s@,
            r@ == it.seq().take(it.index() as int),
    {
        r.push(c);
    }
    assert(s@.take(s@.len() as int) =~= s@);
    r
}

/// Tells whether `a` and `b` hold the same characters.
pub fn same(a: &str, b: &str) -> (r: bool)
    ensures
        r == (a@ == b@),
{
    let x = a.as_bytes();
    let y = b.as_bytes();
    proof {
        encode_utf8_decode_utf8(a@);
        encode_utf8_decode_utf8(b@);
    }
    if x.len() != y.len() {
        return false;
    }
    let mut i: usize = 0;
    while i < x.len()
        invariant
            i <= x@.len(),
            x@.len() == y@.len(),
            x@ == encode_utf8(a@),
            y@ == encode_utf8(b@),
            forall|j: int| 0 <= j < i ==> x@[j] == y@[j],
        decreases x@.len() - i,
    {
        if x[i] != y[i] {
            return false;
        }
        i += 1;
    }
    assert(x@ =~= y@);
    true
}

/// `s` without its leading and trailing white space.
pub fn trim(s: &str) -> (r: &str)
    ensures
        r@ == trimmed(s@),
{
    let cs = chars(s);
    let mut i: usize = 0;
    while i < cs.len() && cs[i].is_whitespace()
        invariant
            i <= cs@.len(),
            forall|j: int| 0 <= j < i ==> white_space(#[trigger] cs@[j]),
        decreases cs@.len() - i,
    {
        i += 1;
    }
    proof {
        lemma_leading_space_unique(s@, i as int);
    }
    let mut k: usize = cs.len();
    while k > i && cs[k - 1].is_whitespace()
        invariant
            i <= k <= cs@.len(),
            forall|j: int| k <= j < cs@.len() ==> white_space(#[trigger] cs@[j]),
        decreases k,
    {
        k -= 1;
    }
    proof {
        lemma_trimmed_end(trimmed_start(s@), k - i);
        assert(trimmed_start(s@).take(k - i) =~= s@.subrange(i as int, k as int));
    }
    s.substring_char(i, k)
}

/// What follows `prefix` in `s`, if `s` begins with it.
pub fn strip_prefix<'a>(s: &'a str, prefix: &str) -> (r: Option<&'a str>)
    ensures
        match r {
            Some(rest) => begins_with(s@, prefix@) && rest@ == s@.skip(prefix@.len() as int),
            None => !begins_with(s@, prefix@),
        },
{
    let cs = chars(s);
    let ps = chars(prefix);
    if ps.len() > cs.len() {
        return None;
    }
    let mut i: usize = 0;
    while i < ps.len()
        invariant
            i <= ps@.len() <= cs@.len(),
            cs@ == s@,
            ps@ == prefix@,
            forall|j: int| 0 <= j < i ==> cs@[j] == ps@[j],
        decreases ps@.len() - i,
    {
        if cs[i] != ps[i] {
            assert(s@.take(ps@.len() as int)[i as int] != prefix@[i as int]);
            return None;
        }
        i += 1;
    }
    assert(s@.take(ps@.len() as int) =~= prefix@);
    assert(s@.subrange(i as int, cs@.len() as int) =~= s@.skip(ps@.len() as int));
    Some(s.substring_char(ps.len(), cs.len()))
}

/// The text before and the text after the first `sep` of `s`.
pub fn split_once(s: &str, sep: char) -> (r: Option<(&str, &str)>)
    ensures
        match r {
            Some((before, after)) => {
                &&& leading_until(s@, sep) < s@.len()
                &&& before@ == s@.take(leading_until(s@, sep) as int)
                &&& after@ == s@.skip(leading_until(s@, sep) as int + 1)
            },
            None => leading_until(s@, sep) == s@.len(),
        },
{
    let cs = chars(s);
    let mut i: usize = 0;
    while i < cs.len() && cs[i] != sep
        invariant
            i <= cs@.len(),
            forall|j: int| 0 <= j < i ==> #[trigger] cs@[j] != sep,
        decreases cs@.len() - i,
    {
        i += 1;
    }
    proof {
        lemma_leading_until_unique(s@, sep, i as int);
    }
    if i < cs.len() {
        assert(s@.subrange(0, i as int) =~= s@.take(i as int));
        assert(s@.subrange(i + 1, cs@.len() as int) =~= s@.skip(i + 1));
        Some((s.substring_char(0, i), s.substring_char(i + 1, cs.len())))
    } else {
        None
    }
}

/// The pieces of `s` between the occurrences of `sep`.
pub fn split(s: &str, sep: char) -> (r: Vec<&str>)
    ensures
        views(r@) == pieces(s@, sep),
{
    let cs = chars(s);
    let mut r: Vec<&str> = Vec::new();
    let mut from: usize = 0;
    let mut i: usize = 0;
    assert(s@.skip(0) =~= s@);
    while i < cs.len()
        invariant
            from <= i <= cs@.len(),
            cs@ == s@,
            forall|j: int| from <= j < i ==> #[trigger] cs@[j] != sep,
            pieces(s@, sep) =~= views(r@) + pieces(s@.skip(from as int), sep),
        decreases cs@.len() - i,
    {
        if cs[i] == sep {
            let ghost t = s@.skip(from as int);
            proof {
                lemma_leading_until_unique(t, sep, i - from);
                assert(t.take(i - from) =~= s@.subrange(from as int, i as int));
                assert(t.skip(i - from + 1) =~= s@.skip(i + 1));
            }
            let ghost before = r@;
            let piece = s.substring_char(from, i);
            r.push(piece);
            assert(views(r@) =~= views(before) + seq![piece@]);
            from = i + 1;
        }
        i += 1;
    }
    let ghost t = s@.skip(from as int);
    proof {
        lemma_leading_until_unique(t, sep, i - from);
        assert(t =~= s@.subrange(from as int, i as int));
    }
    let ghost before = r@;
    let piece = s.substring_char(from, cs.len());
    r.push(piece);
    assert(views(r@) =~= views(before) + seq![piece@]);
    r
}

/// The words of `s`: its maximal runs of characters that are not white space.
pub fn split_whitespace(s: &str) -> (r: Vec<&str>)
    ensures
        views(r@) == words(s@),
{
    let cs = chars(s);
    let mut r: Vec<&str> = Vec::new();
    let mut i: usize = 0;
    assert(s@.skip(0) =~= s@);
    while i < cs.len()
        invariant
            i <= cs@.len(),
            cs@ == s@,
            words(s@) =~= views(r@) + words(s@.skip(i as int)),
        decreases cs@.len() - i,
    {
        let ghost rest = s@.skip(i as int);
        if cs[i].is_whitespace() {
            proof {
                assert(rest =~= seq![cs@[i as int]] + s@.skip(i + 1));
                lemma_words_leading_space(cs@[i as int], s@.skip(i + 1));
            }
            i += 1;
        } else {
            let from = i;
            while i < cs.len() && !cs[i].is_whitespace()
                invariant
                    from <= i <= cs@.len(),
                    cs@ == s@,
                    forall|j: int| from <= j < i ==> !white_space(#[trigger] cs@[j]),
                decreases cs@.len() - i,
            {
                i += 1;
            }
            let ghost before = r@;
            let word = s.substring_char(from, i);
            r.push(word);
            proof {
                assert(rest =~= word@ + s@.skip(i as int));
                lemma_words_first(word@, s@.skip(i as int));
                assert(views(r@) =~= views(before) + seq![word@]);
            }
        }
    }
    proof {
        lemma_words_blank(s@.skip(i as int));
    }
    r
}

/// What `str::to_uppercase` returns for a text that is not all ASCII.
pub uninterp spec fn unicode_uppercase(s: Seq<char>) -> Seq<char>;

/// The upper case of an ASCII character.
pub open spec fn ascii_uppercase(c: char) -> char {
    if 'a' <= c <= 'z' {
        (c as u8 - 32) as char
    } else {
        c
    }
}

/// The upper case of `s`.
pub open spec fn uppercase(s: Seq<char>) -> Seq<char> {
    if is_ascii_chars(s) {
        s.map_values(|c: char| ascii_uppercase(c))
    } else {
        unicode_uppercase(s)
    }
}

/// Calls `str::to_uppercase`. It maps every character by the case mappings of
/// Unicode, which turn the ASCII letters `a` to `z` into `A` to `Z` and leave
/// the rest of ASCII alone; on a text with other characters the result is a
/// function of the text, under the name `unicode_uppercase`.
#[verifier::external_body]
pub(crate) fn to_uppercase(s: &str) -> (r: String)
    ensures
        r@ == (if is_ascii_chars(s@) {
            s@.map_values(|c: char| ascii_uppercase(c))
        } else {
            unicode_uppercase(s@)
        }),
{
    s.to_uppercase()
}

/// What `String::from_utf8_lossy` returns for bytes that are not UTF-8.
pub uninterp spec fn utf8_with_replacements(bytes: Seq<u8>) -> Seq<char>;

/// The text that `bytes` hold, with replacement characters where they are not
/// UTF-8.
pub open spec fn lossy_text(bytes: Seq<u8>) -> Seq<char> {
    if valid_utf8(bytes) {
        decode_utf8(bytes)
    } else {
        utf8_with_replacements(bytes)
    }
}

/// Calls `String::from_utf8_lossy`. It decodes bytes that are UTF-8; of other
/// bytes the result is a function, under the name `utf8_with_replacements`.
#[verifier::external_body]
pub(crate) fn from_utf8_lossy(bytes: &[u8]) -> (r: String)
    ensures
        r@ == (if valid_utf8(bytes@) {
            decode_utf8(bytes@)
        } else {
            utf8_with_replacements(bytes@)
        }),
{
    String::from_utf8_lossy(bytes).into_owned()
}

} // verus!
