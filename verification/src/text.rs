//! Character-level text operations, stated over `Seq<char>` and implemented
//! on `&str`.
//!
//! Everything here is verified except two calls into `std`: building a
//! `String` from characters, and Unicode lower-casing.

use vstd::prelude::*;

verus! {

// ---------------------------------------------------------------------------
// Lexicographic order
// ---------------------------------------------------------------------------

/// `a` comes no later than `b` in lexicographic order by code point.
///
/// A proper prefix sorts before the longer text.
pub open spec fn lex_le(a: Seq<char>, b: Seq<char>) -> bool
    decreases a.len(),
{
    if a.len() == 0 {
        true
    } else if b.len() == 0 {
        false
    } else if a[0] == b[0] {
        lex_le(a.drop_first(), b.drop_first())
    } else {
        a[0] < b[0]
    }
}

/// Any two texts are ordered one way or the other.
pub proof fn lemma_lex_le_total(a: Seq<char>, b: Seq<char>)
    ensures
        lex_le(a, b) || lex_le(b, a),
    decreases a.len(),
{
    if a.len() > 0 && b.len() > 0 && a[0] == b[0] {
        lemma_lex_le_total(a.drop_first(), b.drop_first());
    }
}

/// Two texts ordered both ways are the same text.
pub proof fn lemma_lex_le_antisymmetric(a: Seq<char>, b: Seq<char>)
    requires
        lex_le(a, b),
        lex_le(b, a),
    ensures
        a == b,
    decreases a.len(),
{
    if a.len() > 0 && b.len() > 0 {
        lemma_lex_le_antisymmetric(a.drop_first(), b.drop_first());
        assert(a =~= seq![a[0]] + a.drop_first());
    }
}

/// The order is transitive.
pub proof fn lemma_lex_le_transitive(a: Seq<char>, b: Seq<char>, c: Seq<char>)
    requires
        lex_le(a, b),
        lex_le(b, c),
    ensures
        lex_le(a, c),
    decreases a.len(),
{
    if a.len() > 0 && b.len() > 0 && c.len() > 0 && a[0] == b[0] && b[0] == c[0] {
        lemma_lex_le_transitive(a.drop_first(), b.drop_first(), c.drop_first());
    }
}

/// The characters of a string slice, in order.
pub fn chars_of(s: &str) -> (v: Vec<char>)
    ensures
        v@ == s@,
{
    let mut v: Vec<char> = Vec::new();
    for c in it: s.chars()
        invariant
            v@ == it.seq().take(it.index() as int),
            it.seq() == s@,
    {
        v.push(c);
    }
    v
}

/// Builds a `String` out of characters with `String::from_iter`. The contract
/// claims that the string holds exactly the characters given, in order.
#[verifier::external_body]
pub(crate) fn string_of(v: &Vec<char>) -> (s: String)
    ensures
        s@ == v@,
{
    String::from_iter(v)
}

/// Decides `lex_le` on character vectors.
pub fn chars_le(x: &Vec<char>, y: &Vec<char>) -> (r: bool)
    ensures
        r == lex_le(x@, y@),
{
    let mut i: usize = 0;
    proof {
        assert(x@.skip(0) =~= x@);
        assert(y@.skip(0) =~= y@);
    }
    while i < x.len() && i < y.len()
        invariant
            i <= x.len(),
            i <= y.len(),
            lex_le(x@, y@) == lex_le(x@.skip(i as int), y@.skip(i as int)),
        decreases x.len() - i,
    {
        proof {
            assert(x@.skip(i as int).drop_first() =~= x@.skip(i + 1));
            assert(y@.skip(i as int).drop_first() =~= y@.skip(i + 1));
        }
        if x[i] != y[i] {
            return x[i] < y[i];
        }
        i += 1;
    }
    i == x.len()
}

/// Decides `lex_le` on string slices.
pub fn str_le(a: &str, b: &str) -> (r: bool)
    ensures
        r == lex_le(a@, b@),
{
    let x = chars_of(a);
    let y = chars_of(b);
    chars_le(&x, &y)
}

// ---------------------------------------------------------------------------
// Substring search
// ---------------------------------------------------------------------------

/// `pat` stands in `text` starting at position `i`.
pub open spec fn occurs_at(text: Seq<char>, pat: Seq<char>, i: int) -> bool {
    0 <= i && i + pat.len() <= text.len() && text.subrange(i, i + pat.len()) == pat
}

/// `pat` stands somewhere in `text`. The empty pattern stands in every text.
pub open spec fn contains(text: Seq<char>, pat: Seq<char>) -> bool {
    exists|i: int| occurs_at(text, pat, i)
}

/// Decides whether `p` stands in `t` at position `i`.
fn occurs_at_chars(t: &Vec<char>, p: &Vec<char>, i: usize) -> (r: bool)
    requires
        i + p.len() <= t.len(),
    ensures
        r == occurs_at(t@, p@, i as int),
{
    let mut k: usize = 0;
    while k < p.len()
        invariant
            k <= p.len(),
            i + p.len() <= t.len(),
            forall|j: int| 0 <= j < k ==> t@[i + j] == p@[j],
        decreases p.len() - k,
    {
        if t[i + k] != p[k] {
            return false;
        }
        k += 1;
    }
    proof {
        assert(t@.subrange(i as int, i + p.len()) =~= p@);
    }
    true
}

/// Decides whether `pat` stands somewhere in `text`.
pub fn contains_text(text: &str, pat: &str) -> (r: bool)
    ensures
        r == contains(text@, pat@),
{
    let t = chars_of(text);
    let p = chars_of(pat);
    if p.len() > t.len() {
        return false;
    }
    let last: usize = t.len() - p.len();
    let mut i: usize = 0;
    loop
        invariant
            t@ == text@,
            p@ == pat@,
            last == t.len() - p.len(),
            i <= last,
            forall|j: int| 0 <= j < i ==> !occurs_at(t@, p@, j),
        decreases last - i,
    {
        if occurs_at_chars(&t, &p, i) {
            return true;
        }
        if i == last {
            return false;
        }
        i += 1;
    }
}

// ---------------------------------------------------------------------------
// Trimming
// ---------------------------------------------------------------------------

/// The character has the Unicode property `White_Space`.
pub open spec fn is_white_space(c: char) -> bool {
    ||| '\u{09}' <= c <= '\u{0D}'
    ||| c == ' '
    ||| c == '\u{85}'
    ||| c == '\u{A0}'
    ||| c == '\u{1680}'
    ||| '\u{2000}' <= c <= '\u{200A}'
    ||| c == '\u{2028}'
    ||| c == '\u{2029}'
    ||| c == '\u{202F}'
    ||| c == '\u{205F}'
    ||| c == '\u{3000}'
}

/// `s` without its leading white space.
pub open spec fn trimmed_start(s: Seq<char>) -> Seq<char>
    decreases s.len(),
{
    if s.len() > 0 && is_white_space(s[0]) {
        trimmed_start(s.drop_first())
    } else {
        s
    }
}

/// `s` without its trailing white space.
pub open spec fn trimmed_end(s: Seq<char>) -> Seq<char>
    decreases s.len(),
{
    if s.len() > 0 && is_white_space(s.last()) {
        trimmed_end(s.drop_last())
    } else {
        s
    }
}

/// `s` without the white space around it.
pub open spec fn trimmed(s: Seq<char>) -> Seq<char> {
    trimmed_end(trimmed_start(s))
}

/// Decides `is_white_space`.
pub fn is_space(c: char) -> (r: bool)
    ensures
        r == is_white_space(c),
{
    ('\u{09}' <= c && c <= '\u{0D}') || c == ' ' || c == '\u{85}' || c == '\u{A0}' || c
        == '\u{1680}' || ('\u{2000}' <= c && c <= '\u{200A}') || c == '\u{2028}' || c
        == '\u{2029}' || c == '\u{202F}' || c == '\u{205F}' || c == '\u{3000}'
}

/// Strips the white space around `text`.
pub fn trim(text: &str) -> (r: String)
    ensures
        r@ == trimmed(text@),
{
    let t = chars_of(text);
    let mut start: usize = 0;
    proof {
        assert(t@.skip(0) =~= t@);
    }
    while start < t.len() && is_space(t[start])
        invariant
            start <= t.len(),
            trimmed_start(t@) == trimmed_start(t@.skip(start as int)),
        decreases t.len() - start,
    {
        proof {
            assert(t@.skip(start as int).drop_first() =~= t@.skip(start + 1));
        }
        start += 1;
    }
    let mut end: usize = t.len();
    while end > start && is_space(t[end - 1])
        invariant
            start <= end <= t.len(),
            trimmed_end(t@.skip(start as int)) == trimmed_end(
                t@.subrange(start as int, end as int),
            ),
        decreases end,
    {
        proof {
            assert(t@.subrange(start as int, end as int).drop_last() =~= t@.subrange(
                start as int,
                end - 1,
            ));
        }
        end -= 1;
    }
    let mut out: Vec<char> = Vec::new();
    let mut i: usize = start;
    while i < end
        invariant
            start <= i <= end <= t.len(),
            out@ == t@.subrange(start as int, i as int),
        decreases end - i,
    {
        out.push(t[i]);
        i += 1;
    }
    string_of(&out)
}

// ---------------------------------------------------------------------------
// Lower-casing
// ---------------------------------------------------------------------------

/// The lower-case form that `str::to_lowercase` gives a text.
pub uninterp spec fn lowercase_of(text: Seq<char>) -> Seq<char>;

/// Lower-cases a text with `str::to_lowercase`, which follows the Unicode
/// case mappings. The contract only gives the result its name: it is a
/// function of the text alone.
#[verifier::external_body]
pub(crate) fn lowercase(text: &str) -> (r: String)
    ensures
        r@ == lowercase_of(text@),
{
    text.to_lowercase()
}

// ---------------------------------------------------------------------------
// Removal whatever the case
// ---------------------------------------------------------------------------

/// The length of the shortest window at the start of `text`, at least `from`
/// characters and no longer than `word`, whose lower-case form is `word`;
/// 0 where there is none.
pub open spec fn folded_window(text: Seq<char>, word: Seq<char>, from: int) -> int
    decreases word.len() + 1 - from,
{
    if from < 1 || from > word.len() || from > text.len() {
        0
    } else if lowercase_of(text.take(from)) == word {
        from
    } else {
        folded_window(text, word, from + 1)
    }
}

/// `text` with every window taken out whose lower-case form is `word`,
/// scanning from the left; windows do not overlap, and where several start at
/// one place the shortest goes.
pub open spec fn without_all_folded(text: Seq<char>, word: Seq<char>) -> Seq<char>
    decreases text.len(),
{
    if text.len() == 0 {
        text
    } else {
        let n = folded_window(text, word, 1);
        if 0 < n <= text.len() {
            without_all_folded(text.skip(n), word)
        } else {
            seq![text[0]] + without_all_folded(text.drop_first(), word)
        }
    }
}

/// Finds the window at position `i` of `t` whose lower-case form is `word`.
fn folded_window_at(t: &Vec<char>, i: usize, word: &String, word_len: usize) -> (n: usize)
    requires
        i < t.len(),
        word_len == word@.len(),
    ensures
        n == folded_window(t@.skip(i as int), word@, 1),
        n <= t.len() - i,
{
    let ghost rest = t@.skip(i as int);
    let mut window: Vec<char> = Vec::new();
    let mut len: usize = 1;
    while len <= word_len && len <= t.len() - i
        invariant
            1 <= len,
            i < t.len(),
            word_len == word@.len(),
            rest == t@.skip(i as int),
            window@ == rest.take(len - 1),
            folded_window(rest, word@, 1) == folded_window(rest, word@, len as int),
        decreases t.len() - i + 1 - len,
    {
        window.push(t[i + len - 1]);
        proof {
            assert(window@ =~= rest.take(len as int));
        }
        let low = lowercase(string_of(&window).as_str());
        if low == *word {
            return len;
        }
        if len == word_len || len == t.len() - i {
            proof {
                assert(rest.len() == t.len() - i);
                assert(folded_window(rest, word@, len + 1) == 0);
            }
            return 0;
        }
        len += 1;
    }
    0
}

/// Takes every window out of `text` whose lower-case form is `word`.
pub fn remove_all_folded(text: &str, word: &str) -> (r: String)
    ensures
        r@ == without_all_folded(text@, word@),
{
    let t = chars_of(text);
    let w = word.to_owned();
    let word_len = word.unicode_len();
    let mut out: Vec<char> = Vec::new();
    let mut i: usize = 0;
    proof {
        assert(t@.skip(0) =~= t@);
    }
    while i < t.len()
        invariant
            i <= t.len(),
            w@ == word@,
            word_len == word@.len(),
            out@ + without_all_folded(t@.skip(i as int), word@) == without_all_folded(t@, word@),
        decreases t.len() - i,
    {
        let ghost rest = t@.skip(i as int);
        let n = folded_window_at(&t, i, &w, word_len);
        if n > 0 {
            proof {
                assert(rest.skip(n as int) =~= t@.skip(i + n));
            }
            i += n;
        } else {
            proof {
                assert(rest.drop_first() =~= t@.skip(i + 1));
                assert(out@.push(t@[i as int]) + without_all_folded(t@.skip(i + 1), word@) =~= out@
                    + (seq![rest[0]] + without_all_folded(rest.drop_first(), word@)));
            }
            out.push(t[i]);
            i += 1;
        }
    }
    string_of(&out)
}

} // verus!
