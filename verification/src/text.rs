//! Text primitives on which matching rests: substring search over the
//! characters of a string, and Unicode lower-casing.

use vstd::prelude::*;
use vstd::utf8::is_ascii_chars;

verus! {

/// `pattern` occurs in `text` at position `i`.
pub open spec fn occurs_at(text: Seq<char>, pattern: Seq<char>, i: int) -> bool {
    &&& 0 <= i
    &&& i + pattern.len() <= text.len()
    &&& text.subrange(i, i + pattern.len()) == pattern
}

/// `pattern` occurs somewhere in `text` (the empty pattern occurs everywhere).
pub open spec fn contains_seq(text: Seq<char>, pattern: Seq<char>) -> bool {
    exists|i: int| occurs_at(text, pattern, i)
}

/// The empty pattern occurs in every text.
pub proof fn lemma_empty_pattern_occurs(text: Seq<char>)
    ensures
        contains_seq(text, Seq::empty()),
{
    assert(text.subrange(0, 0) =~= Seq::<char>::empty());
    assert(occurs_at(text, Seq::empty(), 0));
}

/// Every text contains itself.
pub proof fn lemma_contains_itself(text: Seq<char>)
    ensures
        contains_seq(text, text),
{
    assert(text.subrange(0, text.len() as int) =~= text);
    assert(occurs_at(text, text, 0));
}

/// Containment is transitive: a part of a part of `a` is a part of `a`.
pub proof fn lemma_contains_transitive(a: Seq<char>, b: Seq<char>, c: Seq<char>)
    requires
        contains_seq(a, b),
        contains_seq(b, c),
    ensures
        contains_seq(a, c),
{
    let i = choose|i: int| occurs_at(a, b, i);
    let j = choose|j: int| occurs_at(b, c, j);
    assert(a.subrange(i + j, i + j + c.len()) =~= c) by {
        assert forall|k: int| 0 <= k < c.len() implies #[trigger] a.subrange(i + j, i + j + c.len())[k] == c[k] by {
            assert(c[k] == b.subrange(j, j + c.len())[k]);
            assert(b[j + k] == a.subrange(i, i + b.len())[j + k]);
        }
    }
    assert(occurs_at(a, c, i + j));
}

/// The characters of `s`, one per element.
pub fn chars_of(s: &str) -> (v: Vec<char>)
    ensures
        v@ == s@,
{
    broadcast use vstd::string::axiom_spec_iter;
    let mut v: Vec<char> = Vec::new();
    for c in it: s.chars()
        invariant
            it.seq() == s@,
            v@ == s@.take(it.index()),
    {
        v.push(c);
        assert(v@ =~= s@.take(it.index() + 1));
    }
    assert(s@.take(s@.len() as int) =~= s@);
    v
}

/// Whether `pattern` occurs in `text` at position `i`.
fn matches_at(text: &Vec<char>, pattern: &Vec<char>, i: usize) -> (r: bool)
    requires
        i + pattern@.len() <= text@.len(),
    ensures
        r == occurs_at(text@, pattern@, i as int),
{
    let text_len = text.len();
    let mut j: usize = 0;
    while j < pattern.len()
        invariant
            text_len == text@.len(),
            i + pattern@.len() <= text@.len(),
            j <= pattern@.len(),
            forall|k: int| 0 <= k < j ==> text@[i + k] == pattern@[k],
        decreases pattern@.len() - j,
    {
        if text[i + j] != pattern[j] {
            assert(text@.subrange(i as int, i + pattern@.len())[j as int] != pattern@[j as int]);
            return false;
        }
        j = j + 1;
    }
    assert(text@.subrange(i as int, i + pattern@.len()) =~= pattern@);
    true
}

/// Whether `pattern` occurs anywhere in `text`.
pub fn seq_contains(text: &Vec<char>, pattern: &Vec<char>) -> (r: bool)
    ensures
        r == contains_seq(text@, pattern@),
{
    if pattern.len() > text.len() {
        return false;
    }
    let last = text.len() - pattern.len();
    let mut i: usize = 0;
    loop
        invariant
            last == text@.len() - pattern@.len(),
            i <= last,
            forall|k: int| 0 <= k < i ==> !occurs_at(text@, pattern@, k),
        decreases last - i,
    {
        if matches_at(text, pattern, i) {
            return true;
        }
        if i == last {
            return false;
        }
        i = i + 1;
    }
}

/// Whether `pattern` occurs anywhere in `text`, as `str::contains` answers it.
pub fn contains(text: &str, pattern: &str) -> (r: bool)
    ensures
        r == contains_seq(text@, pattern@),
{
    let t = chars_of(text);
    let p = chars_of(pattern);
    seq_contains(&t, &p)
}

/// The ASCII lower case of a character: `A`..=`Z` become `a`..=`z`,
/// every other character stays.
pub open spec fn ascii_lower_char(c: char) -> char {
    if 'A' <= c && c <= 'Z' {
        ((c as u32) + 32) as char
    } else {
        c
    }
}

/// The ASCII upper case of a character: `a`..=`z` become `A`..=`Z`,
/// every other character stays.
pub open spec fn ascii_upper_char(c: char) -> char {
    if 'a' <= c && c <= 'z' {
        ((c as u32) - 32) as char
    } else {
        c
    }
}

/// The ASCII lower case of a text, character by character.
pub open spec fn ascii_lowercase(s: Seq<char>) -> Seq<char> {
    s.map_values(|c: char| ascii_lower_char(c))
}

/// The ASCII upper case of a text, character by character.
pub open spec fn ascii_uppercase(s: Seq<char>) -> Seq<char> {
    s.map_values(|c: char| ascii_upper_char(c))
}

/// The lower-case form of a text that is not all ASCII, as
/// `str::to_lowercase` computes it from Unicode's case tables.
pub uninterp spec fn unicode_lowercase(s: Seq<char>) -> Seq<char>;

/// The lower-case form of a text, as `str::to_lowercase` computes it:
/// on ASCII text it is the ASCII lower case (the Unicode `Lowercase`
/// mapping of `A`..=`Z` is `a`..=`z`, and other ASCII characters have
/// none); on other text it is the Unicode mapping.
pub open spec fn lowercase(s: Seq<char>) -> Seq<char> {
    if is_ascii_chars(s) {
        ascii_lowercase(s)
    } else {
        unicode_lowercase(s)
    }
}

/// Calls `str::to_lowercase`. Its result depends on the characters of
/// `s` alone. On ASCII text (the empty text among it) it is the ASCII
/// lower case; on other text it is named `unicode_lowercase`, and what
/// that mapping is per character (Unicode's `Lowercase` property, with
/// its one-to-many expansions) is left unsaid.
#[verifier::external_body]
pub(crate) fn to_lowercase(s: &str) -> (r: String)
    ensures
        is_ascii_chars(s@) ==> r@ == ascii_lowercase(s@),
        !is_ascii_chars(s@) ==> r@ == unicode_lowercase(s@),
{
    s.to_lowercase()
}

/// The empty text is its own lower case.
pub proof fn lemma_lowercase_of_empty()
    ensures
        lowercase(Seq::empty()) == Seq::<char>::empty(),
{
    assert(is_ascii_chars(Seq::<char>::empty()));
    assert(ascii_lowercase(Seq::empty()) =~= Seq::<char>::empty());
}

/// ASCII upper-casing a text keeps it ASCII and keeps its lower case:
/// `q` and its ASCII upper case have the same lower-case form.
pub proof fn lemma_ascii_uppercase_same_lowercase(q: Seq<char>)
    requires
        is_ascii_chars(q),
    ensures
        is_ascii_chars(ascii_uppercase(q)),
        lowercase(ascii_uppercase(q)) == lowercase(q),
{
    let u = ascii_uppercase(q);
    assert forall|i: int| 0 <= i < u.len() implies '\0' <= #[trigger] u[i] <= '\u{7f}' by {
        let c = q[i];
        assert('\0' <= c <= '\u{7f}');
        if 'a' <= c && c <= 'z' {
            assert(97 <= (c as u32) <= 122);
        }
    }
    assert(lowercase(u) =~= lowercase(q)) by {
        assert forall|i: int| 0 <= i < q.len() implies #[trigger] ascii_lower_char(u[i]) == ascii_lower_char(q[i]) by {
            let c = q[i];
            if 'a' <= c && c <= 'z' {
                assert(97 <= (c as u32) <= 122);
            } else if 'A' <= c && c <= 'Z' {
                assert(65 <= (c as u32) <= 90);
            }
        }
    }
}

} // verus!
