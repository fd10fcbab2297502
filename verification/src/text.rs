//! Bytes of text: the three delimiters of a field specifier, ASCII case
//! folding, searching, white space, and slicing a string at byte positions.

use vstd::prelude::*;
use vstd::string::*;
use vstd::utf8::*;

verus! {

/// `<`, which opens a specifier.
pub const LESS_THAN: u8 = 0x3c;

/// `>`, which closes a specifier.
pub const GREATER_THAN: u8 = 0x3e;

/// `:`, which separates the parts of a specifier.
pub const COLON: u8 = 0x3a;

/// The lower-case form of an ASCII letter; any other byte is left as it is.
pub open spec fn lower(b: u8) -> u8 {
    if 0x41 <= b <= 0x5a {
        (b + 0x20) as u8
    } else {
        b
    }
}

/// `text` with each ASCII letter in lower case.
pub open spec fn lowered(text: Seq<u8>) -> Seq<u8> {
    Seq::new(text.len(), |i: int| lower(text[i]))
}

/// The first position at or after `from` at which `text` holds `b`, or the
/// length of `text` if there is none.
pub open spec fn find_from(text: Seq<u8>, b: u8, from: int) -> int
    decreases text.len() - from,
{
    if from < 0 || from >= text.len() {
        text.len() as int
    } else if text[from] == b {
        from
    } else {
        find_from(text, b, from + 1)
    }
}

/// `find_from` gives the first occurrence: nothing before it matches.
pub proof fn lemma_find_from(text: Seq<u8>, b: u8, from: int)
    requires
        0 <= from <= text.len(),
    ensures
        from <= find_from(text, b, from) <= text.len(),
        find_from(text, b, from) < text.len() ==> text[find_from(text, b, from)] == b,
        forall|j: int| from <= j < find_from(text, b, from) ==> text[j] != b,
    decreases text.len() - from,
{
    if from < text.len() && text[from] != b {
        lemma_find_from(text, b, from + 1);
    }
}

/// A position from which `b` is first found at `at` is where the search
/// ends, whatever lies before it.
pub proof fn lemma_find_from_is(text: Seq<u8>, b: u8, from: int, at: int)
    requires
        0 <= from <= at <= text.len(),
        at < text.len() ==> text[at] == b,
        forall|j: int| from <= j < at ==> text[j] != b,
    ensures
        find_from(text, b, from) == at,
    decreases at - from,
{
    if from < at {
        lemma_find_from_is(text, b, from + 1, at);
    }
}

pub fn to_lower(b: u8) -> (r: u8)
    ensures
        r == lower(b),
{
    if 0x41 <= b && b <= 0x5a {
        b + 0x20
    } else {
        b
    }
}

/// Searches `text` for `b`, starting at `from`.
pub fn find(text: &[u8], b: u8, from: usize) -> (at: usize)
    requires
        from <= text@.len(),
    ensures
        at == find_from(text@, b, from as int),
        from <= at <= text@.len(),
{
    let mut i: usize = from;
    while i < text.len() && text[i] != b
        invariant
            from <= i <= text@.len(),
            find_from(text@, b, from as int) == find_from(text@, b, i as int),
        decreases text@.len() - i,
    {
        i = i + 1;
    }
    proof {
        lemma_find_from(text@, b, i as int);
    }
    i
}

/// Whether `text`, letters folded to lower case, is `word`.
pub fn equals_folded(text: &[u8], word: &[u8]) -> (same: bool)
    ensures
        same == (lowered(text@) == word@),
{
    if text.len() != word.len() {
        return false;
    }
    let mut i: usize = 0;
    while i < text.len()
        invariant
            i <= text@.len() == word@.len(),
            forall|j: int| 0 <= j < i ==> lower(text@[j]) == word@[j],
        decreases text@.len() - i,
    {
        if to_lower(text[i]) != word[i] {
            assert(lowered(text@)[i as int] != word@[i as int]);
            return false;
        }
        i = i + 1;
    }
    assert(lowered(text@) =~= word@);
    true
}

/// Whether two texts are the same, character for character.
pub fn same_text(one: &str, other: &str) -> (same: bool)
    ensures
        same == (one@ == other@),
{
    proof {
        lemma_chars_of(one);
        lemma_chars_of(other);
    }
    let a = one.as_bytes();
    let b = other.as_bytes();
    if a.len() != b.len() {
        return false;
    }
    let mut i: usize = 0;
    while i < a.len()
        invariant
            a@ == one.spec_bytes(),
            b@ == other.spec_bytes(),
            i <= a@.len() == b@.len(),
            forall|j: int| 0 <= j < i ==> a@[j] == b@[j],
        decreases a@.len() - i,
    {
        if a[i] != b[i] {
            return false;
        }
        i = i + 1;
    }
    assert(a@ =~= b@);
    true
}

/// How many bytes of white space stand at the start of the text that `text`
/// encodes: what `str::trim_start` removes from it.
pub uninterp spec fn leading_white_space(text: Seq<u8>) -> nat;

/// `text` without its leading white space.
pub open spec fn trimmed(text: Seq<u8>) -> Seq<u8> {
    if leading_white_space(text) <= text.len() {
        text.skip(leading_white_space(text) as int)
    } else {
        text
    }
}

/// `str::trim_start`: the rest of `s` after its leading white space, as
/// Unicode defines white space. The contract claims that the result is the
/// end of `s`, shorter by `leading_white_space` bytes, and that nothing is
/// removed from a text whose first byte is a visible ASCII character.
#[verifier::external_body]
pub(crate) fn trim_start<'a>(s: &'a str) -> (r: &'a str)
    ensures
        leading_white_space(s.spec_bytes()) + r.spec_bytes().len() == s.spec_bytes().len(),
        r.spec_bytes() == s.spec_bytes().skip(leading_white_space(s.spec_bytes()) as int),
        s.spec_bytes().len() > 0 && 0x21 <= s.spec_bytes()[0] <= 0x7e ==> r.spec_bytes()
            == s.spec_bytes(),
{
    s.trim_start()
}

/// The lower-case form of a text, as Unicode defines it: what
/// `str::to_lowercase` returns.
pub uninterp spec fn lowercase_of(text: Seq<char>) -> Seq<char>;

/// `str::to_lowercase`: a new string that is the lower-case form of `s`.
#[verifier::external_body]
pub(crate) fn to_lowercase(s: &str) -> (r: String)
    ensures
        r@ == lowercase_of(s@),
{
    s.to_lowercase()
}

/// In well-formed UTF-8 an ASCII byte is a character of its own: a character
/// starts at it and another one, or the end, follows it.
pub proof fn lemma_ascii_is_boundary(text: Seq<u8>, i: int)
    requires
        valid_utf8(text),
        0 <= i < text.len(),
        text[i] < 0x80,
    ensures
        is_char_boundary(text, i),
        is_char_boundary(text, i + 1),
{
    is_char_boundary_iff_not_is_continuation_byte(text, i);
    if i + 1 == text.len() {
        is_char_boundary_start_end_of_seq(text);
    } else {
        valid_utf8_split(text, i);
        let tail = text.subrange(i, text.len() as int);
        assert(tail[0] == text[i]);
        assert(length_of_first_scalar(tail) == 1);
        let next = pop_first_scalar(tail);
        assert(valid_utf8(next));
        assert(next.len() > 0);
        assert(next[0] == text[i + 1]);
        assert(valid_first_scalar(next));
        is_char_boundary_iff_not_is_continuation_byte(text, i + 1);
    }
}

/// The part of `s` between two byte positions at which characters start.
pub fn substring<'a>(s: &'a str, from: usize, to: usize) -> (part: &'a str)
    requires
        from <= to <= s.spec_bytes().len(),
        is_char_boundary(s.spec_bytes(), from as int),
        is_char_boundary(s.spec_bytes(), to as int),
    ensures
        part.spec_bytes() == s.spec_bytes().subrange(from as int, to as int),
{
    broadcast use encode_utf8_valid_utf8;

    let (head, _) = s.split_at(to);
    proof {
        let text = s.spec_bytes();
        valid_utf8_split(text, to as int);
        if from < to {
            is_char_boundary_iff_not_is_continuation_byte(text, from as int);
            is_char_boundary_iff_not_is_continuation_byte(head.spec_bytes(), from as int);
        } else {
            is_char_boundary_start_end_of_seq(head.spec_bytes());
        }
    }
    let (_, part) = head.split_at(from);
    part
}

/// The characters of a string are the decoding of its bytes.
pub proof fn lemma_chars_of(s: &str)
    ensures
        s@ == decode_utf8(s.spec_bytes()),
        valid_utf8(s.spec_bytes()),
{
    encode_utf8_decode_utf8(s@);
    encode_utf8_valid_utf8(s@);
}

} // verus!
