//! Searching byte texts for a pattern, and the UTF-8 facts the rest of the
//! crate needs about texts held in strings.

use vstd::prelude::*;
use vstd::utf8::*;

verus! {

/// `pattern` stands in `text` at offset `at`.
pub open spec fn occurs_at(text: Seq<u8>, pattern: Seq<u8>, at: int) -> bool {
    &&& 0 <= at
    &&& at + pattern.len() <= text.len()
    &&& text.subrange(at, at + pattern.len()) == pattern
}

/// `pattern` stands somewhere in `text`.
pub open spec fn occurs(text: Seq<u8>, pattern: Seq<u8>) -> bool {
    exists|at: int| occurs_at(text, pattern, at)
}

/// `pattern` stands in `text` at offset `at` and at no smaller offset.
pub open spec fn first_occurrence(text: Seq<u8>, pattern: Seq<u8>, at: int) -> bool {
    &&& occurs_at(text, pattern, at)
    &&& forall|earlier: int| 0 <= earlier < at ==> !occurs_at(text, pattern, earlier)
}

/// Where `pattern` occurs at all, it occurs somewhere first.
pub proof fn lemma_first_occurrence(text: Seq<u8>, pattern: Seq<u8>, at: int) -> (first: int)
    requires
        occurs_at(text, pattern, at),
    ensures
        first_occurrence(text, pattern, first),
        first <= at,
    decreases at,
{
    if exists|earlier: int| 0 <= earlier < at && occurs_at(text, pattern, earlier) {
        let earlier = choose|earlier: int| 0 <= earlier < at && occurs_at(text, pattern, earlier);
        lemma_first_occurrence(text, pattern, earlier)
    } else {
        at
    }
}

/// Compares `pattern` with the bytes of `text` that start at `at`.
pub fn matches_at(text: &[u8], pattern: &[u8], at: usize) -> (found: bool)
    requires
        at + pattern@.len() <= text@.len(),
    ensures
        found == occurs_at(text@, pattern@, at as int),
{
    let width: usize = pattern.len();
    let length: usize = text.len();
    let mut k: usize = 0;
    while k < width
        invariant
            k <= width == pattern@.len(),
            at + width <= length == text@.len(),
            forall|j: int| 0 <= j < k ==> text@[at + j] == pattern@[j],
        decreases width - k,
    {
        if text[at + k] != pattern[k] {
            assert(text@.subrange(at as int, at + pattern@.len())[k as int] != pattern@[k as int]);
            return false;
        }
        k += 1;
    }
    assert(text@.subrange(at as int, at + pattern@.len()) =~= pattern@);
    true
}

/// Finds the smallest offset at which `pattern` stands in `text`.
pub fn find(text: &[u8], pattern: &[u8]) -> (found: Option<usize>)
    ensures
        match found {
            Some(at) => first_occurrence(text@, pattern@, at as int),
            None => !occurs(text@, pattern@),
        },
{
    let width: usize = pattern.len();
    let length: usize = text.len();
    if width > length {
        return None;
    }
    let last: usize = length - width;
    let mut at: usize = 0;
    loop
        invariant
            width == pattern@.len(),
            length == text@.len(),
            last == length - width,
            at <= last,
            forall|earlier: int| 0 <= earlier < at ==> !occurs_at(text@, pattern@, earlier),
        decreases last - at,
    {
        if matches_at(text, pattern, at) {
            return Some(at);
        }
        if at == last {
            return None;
        }
        at += 1;
    }
}

/// The bytes of two texts put together are the bytes of the first followed
/// by the bytes of the second.
pub proof fn lemma_encode_concat(first: Seq<char>, second: Seq<char>)
    ensures
        encode_utf8(first + second) == encode_utf8(first) + encode_utf8(second),
    decreases first.len(),
{
    if first.len() == 0 {
        assert(first + second =~= second);
        assert(encode_utf8(first) + encode_utf8(second) =~= encode_utf8(second));
    } else {
        lemma_encode_concat(first.drop_first(), second);
        assert((first + second).drop_first() =~= first.drop_first() + second);
        assert(encode_utf8(first + second) =~= encode_utf8(first) + encode_utf8(second));
    }
}

/// In UTF-8 a byte below 0x80 is a character of its own, so a character
/// boundary follows it.
pub proof fn lemma_boundary_after_ascii(bytes: Seq<u8>, at: int)
    requires
        valid_utf8(bytes),
        0 <= at < bytes.len(),
        bytes[at] < 0x80,
    ensures
        is_char_boundary(bytes, at + 1),
{
    assert(is_leading_byte_width_1(bytes[at]));
    is_char_boundary_iff_is_leading_byte(bytes, at);
    valid_utf8_split(bytes, at);
    let tail = bytes.subrange(at, bytes.len() as int);
    assert(tail[0] == bytes[at]);
    assert(length_of_first_scalar(tail) == 1);
    let rest = bytes.subrange(at + 1, bytes.len() as int);
    assert(pop_first_scalar(tail) =~= rest);
    assert(valid_utf8(rest));
    if at + 1 == bytes.len() {
        is_char_boundary_start_end_of_seq(bytes);
    } else {
        assert(valid_first_scalar(rest));
        assert(rest[0] == bytes[at + 1]);
        is_char_boundary_iff_is_leading_byte(bytes, at + 1);
    }
}

} // verus!
