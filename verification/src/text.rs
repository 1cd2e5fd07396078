//! Character-level text handling: substring search, trimming and the
//! Unicode character classes that the planner relies on.

use vstd::prelude::*;
use vstd::string::*;

verus! {

broadcast use vstd::string::group_string_axioms;

/// An ASCII letter.
pub open spec fn is_ascii_letter(c: char) -> bool {
    ('a' <= c && c <= 'z') || ('A' <= c && c <= 'Z')
}

/// An ASCII digit.
pub open spec fn is_ascii_digit(c: char) -> bool {
    '0' <= c && c <= '9'
}

/// A character of the ASCII range.
pub open spec fn is_ascii_char(c: char) -> bool {
    c <= '\x7f'
}

/// A CJK unified ideograph of the basic block (U+4E00 to U+9FFF): every one
/// of them is a letter (general category Lo), with no case mapping.
pub open spec fn is_cjk_ideograph(c: char) -> bool {
    '\u{4e00}' <= c && c <= '\u{9fff}'
}

/// What `char::is_alphanumeric` returns for a character that is neither ASCII
/// nor a CJK unified ideograph (Unicode Alphabetic or Numeric).
pub uninterp spec fn other_alphanumeric(c: char) -> bool;

/// What `char::is_numeric` returns for a character that is neither ASCII nor
/// a CJK unified ideograph (Unicode general categories Nd, Nl, No).
pub uninterp spec fn other_numeric(c: char) -> bool;

/// What `str::to_lowercase` returns for a text that holds a character that
/// is neither ASCII nor a CJK unified ideograph.
pub uninterp spec fn other_lowercase(s: Seq<char>) -> Seq<char>;

/// Whether `char::is_alphanumeric` holds of `c`: on ASCII exactly the
/// letters and digits, every CJK unified ideograph, and beyond those the
/// Unicode classes.
pub open spec fn is_alphanumeric_char(c: char) -> bool {
    if is_ascii_char(c) {
        is_ascii_letter(c) || is_ascii_digit(c)
    } else if is_cjk_ideograph(c) {
        true
    } else {
        other_alphanumeric(c)
    }
}

/// Whether `char::is_whitespace` holds of `c`: the Unicode White_Space
/// characters, tab to carriage return, space, U+85, U+A0, U+1680,
/// U+2000 to U+200A, U+2028, U+2029, U+202F, U+205F and U+3000.
pub open spec fn is_whitespace_char(c: char) -> bool {
    c == ' ' || ('\t' <= c && c <= '\r') || c == '\u{85}' || c == '\u{a0}' || c == '\u{1680}' || (
    '\u{2000}' <= c && c <= '\u{200a}') || c == '\u{2028}' || c == '\u{2029}' || c == '\u{202f}' || c
        == '\u{205f}' || c == '\u{3000}'
}

/// Whether `char::is_numeric` holds of `c`: on ASCII exactly the digits, no
/// CJK unified ideograph, and beyond those the Unicode number categories.
pub open spec fn is_numeric_char(c: char) -> bool {
    if is_ascii_char(c) {
        is_ascii_digit(c)
    } else if is_cjk_ideograph(c) {
        false
    } else {
        other_numeric(c)
    }
}

/// A character whose lowercase form `str::to_lowercase` gives by the ASCII
/// rule: an ASCII character or a CJK unified ideograph.
pub open spec fn has_simple_case(c: char) -> bool {
    is_ascii_char(c) || is_cjk_ideograph(c)
}

/// The lowercase form of a character with a simple case: `A` to `Z` become
/// `a` to `z`, every other character stays.
pub open spec fn lower_simple(c: char) -> char {
    if 'A' <= c && c <= 'Z' {
        ((c as u32) + 32) as char
    } else {
        c
    }
}

/// What `str::to_lowercase` returns for a text: character by character by
/// the ASCII rule where every character has a simple case, else the Unicode
/// lowercase mapping.
pub open spec fn lowercase(s: Seq<char>) -> Seq<char> {
    if forall|i: int| 0 <= i < s.len() ==> has_simple_case(#[trigger] s[i]) {
        s.map_values(|c: char| lower_simple(c))
    } else {
        other_lowercase(s)
    }
}

/// Calls `char::is_alphanumeric`: true of ASCII letters and digits only
/// within ASCII, of every CJK unified ideograph, and of the Unicode
/// Alphabetic and Numeric characters beyond.
#[verifier::external_body]
pub(crate) fn char_is_alphanumeric(c: char) -> (r: bool)
    ensures
        is_ascii_char(c) ==> r == (is_ascii_letter(c) || is_ascii_digit(c)),
        is_cjk_ideograph(c) ==> r,
        !is_ascii_char(c) && !is_cjk_ideograph(c) ==> r == other_alphanumeric(c),
{
    c.is_alphanumeric()
}

/// Calls `char::is_whitespace`: true exactly of the Unicode White_Space
/// characters listed above.
#[verifier::external_body]
pub(crate) fn char_is_whitespace(c: char) -> (r: bool)
    ensures
        r == is_whitespace_char(c),
{
    c.is_whitespace()
}

/// Calls `char::is_numeric`: true of the ASCII digits only within ASCII, of
/// no CJK unified ideograph, and of the Unicode number categories beyond.
#[verifier::external_body]
pub(crate) fn char_is_numeric(c: char) -> (r: bool)
    ensures
        is_ascii_char(c) ==> r == is_ascii_digit(c),
        is_cjk_ideograph(c) ==> !r,
        !is_ascii_char(c) && !is_cjk_ideograph(c) ==> r == other_numeric(c),
{
    c.is_numeric()
}

/// Calls `str::to_lowercase`. A text of ASCII characters and CJK unified
/// ideographs is lowered character by character, `A` to `Z` becoming `a` to
/// `z` and every other character kept; of any other text the result is the
/// named Unicode lowercase form.
#[verifier::external_body]
pub(crate) fn to_lowercase(s: &str) -> (r: String)
    ensures
        (forall|i: int| 0 <= i < s@.len() ==> has_simple_case(#[trigger] s@[i])) ==> r@ == s@.map_values(
            |c: char| lower_simple(c),
        ),
        !(forall|i: int| 0 <= i < s@.len() ==> has_simple_case(#[trigger] s@[i])) ==> r@ == other_lowercase(
            s@,
        ),
{
    s.to_lowercase()
}

/// Calls `String::push`, which appends one character at the end.
#[verifier::external_body]
fn push_char(s: &mut String, c: char)
    ensures
        final(s)@ == old(s)@.push(c),
{
    s.push(c)
}

/// The characters of a text.
pub fn chars_of(s: &str) -> (r: Vec<char>)
    ensures
        r@ == s@,
{
    let mut r: Vec<char> = Vec::new();
    for c in it: s.chars()
        invariant
            r@ == it.seq().take(it.index()),
    {
        r.push(c);
        assert(r@ =~= it.seq().take(it.index() + 1));
    }
    assert(r@ =~= s@);
    r
}

/// The text made of the given characters.
pub fn string_of(v: &Vec<char>) -> (r: String)
    ensures
        r@ == v@,
{
    let mut r = String::new();
    let mut i: usize = 0;
    while i < v.len()
        invariant
            i <= v.len(),
            r@ == v@.take(i as int),
        decreases v.len() - i,
    {
        push_char(&mut r, v[i]);
        assert(r@ =~= v@.take(i + 1));
        i = i + 1;
    }
    assert(r@ =~= v@);
    r
}

/// `needle` occurs in `hay` starting at position `i`.
pub open spec fn occurs_at(hay: Seq<char>, needle: Seq<char>, i: int) -> bool {
    0 <= i && i + needle.len() <= hay.len() && hay.subrange(i, i + needle.len()) == needle
}

/// `needle` occurs somewhere in `hay` (the empty text occurs in every text).
pub open spec fn contains_text(hay: Seq<char>, needle: Seq<char>) -> bool {
    exists|i: int| occurs_at(hay, needle, i)
}

/// Whether `needle` occurs in `hay` at position `i`.
fn occurs_at_exec(hay: &Vec<char>, needle: &Vec<char>, i: usize) -> (r: bool)
    requires
        i <= hay.len(),
    ensures
        r == occurs_at(hay@, needle@, i as int),
{
    if needle.len() > hay.len() - i {
        return false;
    }
    let mut k: usize = 0;
    while k < needle.len()
        invariant
            i + needle.len() <= hay.len(),
            k <= needle.len(),
            forall|m: int| 0 <= m < k ==> hay@[i + m] == needle@[m],
        decreases needle.len() - k,
    {
        if hay[i + k] != needle[k] {
            assert(hay@.subrange(i as int, i + needle.len())[k as int] != needle@[k as int]);
            return false;
        }
        k = k + 1;
    }
    assert(hay@.subrange(i as int, i + needle.len()) =~= needle@);
    true
}

/// Whether the characters `needle` occur in the characters `hay`.
pub fn contains_chars(hay: &Vec<char>, needle: &Vec<char>) -> (r: bool)
    ensures
        r == contains_text(hay@, needle@),
{
    let mut i: usize = 0;
    loop
        invariant
            i <= hay.len(),
            forall|j: int| 0 <= j < i ==> !occurs_at(hay@, needle@, j),
        ensures
            forall|j: int| 0 <= j <= hay@.len() ==> !occurs_at(hay@, needle@, j),
        decreases hay.len() - i,
    {
        if occurs_at_exec(hay, needle, i) {
            return true;
        }
        if i == hay.len() {
            break;
        }
        i = i + 1;
    }
    assert forall|j: int| !occurs_at(hay@, needle@, j) by {
        if 0 <= j <= hay@.len() {
        }
    }
    false
}

/// Whether the text `needle` occurs in the text `hay`.
pub fn contains(hay: &str, needle: &str) -> (r: bool)
    ensures
        r == contains_text(hay@, needle@),
{
    let h = chars_of(hay);
    let n = chars_of(needle);
    contains_chars(&h, &n)
}

/// The text without its leading whitespace.
pub open spec fn trim_start(s: Seq<char>) -> Seq<char>
    decreases s.len(),
{
    if s.len() > 0 && is_whitespace_char(s[0]) {
        trim_start(s.drop_first())
    } else {
        s
    }
}

/// The text without its trailing whitespace.
pub open spec fn trim_end(s: Seq<char>) -> Seq<char>
    decreases s.len(),
{
    if s.len() > 0 && is_whitespace_char(s.last()) {
        trim_end(s.drop_last())
    } else {
        s
    }
}

/// The text without leading and trailing whitespace, as `str::trim` gives it.
pub open spec fn trim(s: Seq<char>) -> Seq<char> {
    trim_end(trim_start(s))
}

/// Trimming the start drops a prefix of whitespace and leaves a text that
/// starts with a non-whitespace character, if any.
pub proof fn lemma_trim_start(s: Seq<char>)
    ensures
        exists|k: int| 0 <= k <= s.len() && trim_start(s) == s.subrange(k, s.len() as int),
        trim_start(s).len() > 0 ==> !is_whitespace_char(trim_start(s)[0]),
    decreases s.len(),
{
    if s.len() > 0 && is_whitespace_char(s[0]) {
        lemma_trim_start(s.drop_first());
        let k = choose|k: int|
            0 <= k <= s.drop_first().len() && trim_start(s.drop_first()) == s.drop_first().subrange(
                k,
                s.drop_first().len() as int,
            );
        assert(s.drop_first().subrange(k, s.drop_first().len() as int) =~= s.subrange(k + 1, s.len() as int));
    } else {
        assert(s.subrange(0, s.len() as int) =~= s);
    }
}

/// Trimming the end drops a suffix of whitespace and leaves a text that ends
/// with a non-whitespace character, if any.
pub proof fn lemma_trim_end(s: Seq<char>)
    ensures
        exists|k: int| 0 <= k <= s.len() && trim_end(s) == s.subrange(0, k),
        trim_end(s).len() > 0 ==> !is_whitespace_char(trim_end(s).last()),
    decreases s.len(),
{
    if s.len() > 0 && is_whitespace_char(s.last()) {
        lemma_trim_end(s.drop_last());
        let k = choose|k: int| 0 <= k <= s.drop_last().len() && trim_end(s.drop_last()) == s.drop_last().subrange(0, k);
        assert(s.drop_last().subrange(0, k) =~= s.subrange(0, k));
    } else {
        assert(s.subrange(0, s.len() as int) =~= s);
    }
}

/// A trimmed text is a piece of the text that neither starts nor ends with
/// whitespace.
pub proof fn lemma_trim(s: Seq<char>)
    ensures
        exists|i: int, j: int| 0 <= i <= j <= s.len() && trim(s) == s.subrange(i, j),
        trim(s).len() > 0 ==> !is_whitespace_char(trim(s)[0]) && !is_whitespace_char(trim(s).last()),
{
    let t = trim_start(s);
    lemma_trim_start(s);
    lemma_trim_end(t);
    let i = choose|k: int| 0 <= k <= s.len() && t == s.subrange(k, s.len() as int);
    let j = choose|k: int| 0 <= k <= t.len() && trim_end(t) == t.subrange(0, k);
    assert(trim(s) =~= s.subrange(i, i + j));
    if trim(s).len() > 0 {
        assert(trim(s)[0] == t[0]);
    }
}

/// The characters without leading and trailing whitespace.
pub fn trim_chars(v: &Vec<char>) -> (r: Vec<char>)
    ensures
        r@ == trim(v@),
{
    let n = v.len();
    let mut i: usize = 0;
    assert(v@.subrange(0, n as int) =~= v@);
    while i < n && char_is_whitespace(v[i])
        invariant
            n == v@.len(),
            i <= n,
            trim_start(v@) == trim_start(v@.subrange(i as int, n as int)),
        decreases n - i,
    {
        assert(v@.subrange(i as int, n as int).drop_first() =~= v@.subrange(i + 1, n as int));
        i = i + 1;
    }
    assert(trim_start(v@) == v@.subrange(i as int, n as int));
    let mut j: usize = n;
    while j > i && char_is_whitespace(v[j - 1])
        invariant
            n == v@.len(),
            i <= j <= n,
            trim_end(v@.subrange(i as int, n as int)) == trim_end(v@.subrange(i as int, j as int)),
        decreases j - i,
    {
        assert(v@.subrange(i as int, j as int).drop_last() =~= v@.subrange(i as int, j - 1));
        j = j - 1;
    }
    let mut r: Vec<char> = Vec::new();
    let mut k: usize = i;
    while k < j
        invariant
            i <= k <= j <= n,
            n == v@.len(),
            r@ == v@.subrange(i as int, k as int),
        decreases j - k,
    {
        r.push(v[k]);
        assert(r@ =~= v@.subrange(i as int, k + 1));
        k = k + 1;
    }
    r
}

} // verus!
