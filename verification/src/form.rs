//! How query parameters are written as a query string: the form encoding of
//! the URL standard, `name=value` pairs joined by `&`.

use vstd::prelude::*;
use vstd::utf8::*;

verus! {

/// The bytes that the encoding leaves as they are: the letters and digits
/// of ASCII, and `*`, `-`, `.` and `_`.
pub open spec fn unchanged(byte: u8) -> bool {
    ||| 0x30 <= byte <= 0x39
    ||| 0x41 <= byte <= 0x5a
    ||| 0x61 <= byte <= 0x7a
    ||| byte == 0x2a
    ||| byte == 0x2d
    ||| byte == 0x2e
    ||| byte == 0x5f
}

/// The digit of base 16 for a number below 16, with capital letters.
pub open spec fn hex_digit(digit: u8) -> u8 {
    if digit < 10 {
        (0x30 + digit) as u8
    } else {
        (0x41 + digit - 10) as u8
    }
}

/// One byte, encoded: itself where it is left unchanged, `+` for a space,
/// and otherwise `%` with the byte's two digits of base 16.
pub open spec fn form_byte(byte: u8) -> Seq<u8> {
    if unchanged(byte) {
        seq![byte]
    } else if byte == 0x20 {
        seq![0x2bu8]
    } else {
        seq![0x25u8, hex_digit(byte / 16), hex_digit(byte % 16)]
    }
}

/// A name or a value, encoded byte by byte.
pub open spec fn form_text(text: Seq<u8>) -> Seq<u8>
    decreases text.len(),
{
    if text.len() == 0 {
        Seq::empty()
    } else {
        form_byte(text[0]) + form_text(text.drop_first())
    }
}

/// One pair, encoded: the name, `=`, the value.
pub open spec fn form_pair(pair: (Seq<u8>, Seq<u8>)) -> Seq<u8> {
    form_text(pair.0) + seq![0x3du8] + form_text(pair.1)
}

/// The pairs, encoded in their order, with `&` between one and the next.
pub open spec fn form_pairs(pairs: Seq<(Seq<u8>, Seq<u8>)>) -> Seq<u8>
    decreases pairs.len(),
{
    if pairs.len() == 0 {
        Seq::empty()
    } else if pairs.len() == 1 {
        form_pair(pairs[0])
    } else {
        form_pairs(pairs.drop_last()) + seq![0x26u8] + form_pair(pairs.last())
    }
}

/// `pairs` lists the entries of `parameters`, each once, in some order.
pub open spec fn walks(pairs: Seq<(String, String)>, parameters: Map<String, String>) -> bool {
    &&& forall|i: int|
        0 <= i < pairs.len() ==> parameters.contains_pair(
            (#[trigger] pairs[i]).0,
            pairs[i].1,
        )
    &&& forall|i: int, j: int|
        0 <= i < j < pairs.len() ==> (#[trigger] pairs[i]).0 != (#[trigger] pairs[j]).0
    &&& forall|name: String| #[trigger]
        parameters.contains_key(name) ==> exists|i: int|
            0 <= i < pairs.len() && (#[trigger] pairs[i]).0 == name
}

/// The bytes of the names and values of `pairs`.
pub open spec fn pair_bytes(pairs: Seq<(String, String)>) -> Seq<(Seq<u8>, Seq<u8>)> {
    Seq::new(pairs.len(), |i: int| (encode_utf8(pairs[i].0@), encode_utf8(pairs[i].1@)))
}

/// `query` is the query string that carries `parameters`: a `?` and then the
/// entries, encoded, in some order.
pub open spec fn attached(query: Seq<u8>, parameters: Map<String, String>) -> bool {
    exists|pairs: Seq<(String, String)>| #[trigger]
        walks(pairs, parameters) && query == seq![0x3fu8] + form_pairs(pair_bytes(pairs))
}

/// A text of bytes that the encoding leaves unchanged is its own encoding.
pub proof fn lemma_form_text_plain(text: Seq<u8>)
    requires
        forall|i: int| 0 <= i < text.len() ==> unchanged(#[trigger] text[i]),
    ensures
        form_text(text) == text,
    decreases text.len(),
{
    if text.len() > 0 {
        let rest = text.drop_first();
        assert forall|i: int| 0 <= i < rest.len() implies unchanged(#[trigger] rest[i]) by {
            assert(rest[i] == text[i + 1]);
        }
        lemma_form_text_plain(rest);
        assert(unchanged(text[0]));
        assert(form_text(text) =~= text);
    } else {
        assert(form_text(text) =~= text);
    }
}

/// Without parameters the query string is the single byte `?`.
pub proof fn lemma_attached_none(query: Seq<u8>, parameters: Map<String, String>)
    requires
        attached(query, parameters),
        forall|name: String| !parameters.contains_key(name),
    ensures
        query == seq![0x3fu8],
{
    let pairs = choose|pairs: Seq<(String, String)>| #[trigger]
        walks(pairs, parameters) && query == seq![0x3fu8] + form_pairs(pair_bytes(pairs));
    if pairs.len() > 0 {
        assert(parameters.contains_pair(pairs[0].0, pairs[0].1));
    }
    assert(query =~= seq![0x3fu8]);
}

/// With one parameter the query string is `?`, the name, `=`, the value,
/// name and value encoded.
pub proof fn lemma_attached_one(
    query: Seq<u8>,
    parameters: Map<String, String>,
    name: String,
    value: String,
)
    requires
        attached(query, parameters),
        parameters.contains_pair(name, value),
        forall|other: String| parameters.contains_key(other) ==> other == name,
    ensures
        query == seq![0x3fu8] + form_text(encode_utf8(name@)) + seq![0x3du8] + form_text(
            encode_utf8(value@),
        ),
{
    let pairs = choose|pairs: Seq<(String, String)>| #[trigger]
        walks(pairs, parameters) && query == seq![0x3fu8] + form_pairs(pair_bytes(pairs));
    assert(parameters.contains_key(name));
    let at = choose|i: int| 0 <= i < pairs.len() && (#[trigger] pairs[i]).0 == name;
    if pairs.len() > 1 {
        let other = if at == 0 {
            1
        } else {
            0
        };
        assert(parameters.contains_pair(pairs[other].0, pairs[other].1));
        assert(pairs[other].0 == pairs[at].0);
    }
    assert(pairs.len() == 1);
    assert(parameters.contains_pair(pairs[0].0, pairs[0].1));
    assert(pairs[0].1 == value);
    assert(pair_bytes(pairs)[0] == (encode_utf8(name@), encode_utf8(value@)));
    assert(query =~= seq![0x3fu8] + form_text(encode_utf8(name@)) + seq![0x3du8] + form_text(
        encode_utf8(value@),
    ));
}

} // verus!
