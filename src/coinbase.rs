//! Finding the coinbase field of a block's first transaction, and reading it
//! as text.
use vstd::prelude::*;
use vstd::string::StringExecFns;
use crate::json::{Json, field, field_of, first, first_of};

verus! {

/// The coinbase string of the first input of the first transaction, if the
/// block has one.
pub open spec fn coinbase_of(block: Json) -> Option<Seq<char>> {
    match field_of(block, seq!['t', 'x']) {
        Some(txs) => match first_of(txs) {
            Some(tx) => match field_of(tx, seq!['v', 'i', 'n']) {
                Some(inputs) => match first_of(inputs) {
                    Some(input) => match field_of(input, seq!['c', 'o', 'i', 'n', 'b', 'a', 's', 'e']) {
                        Some(Json::Str(s)) => Some(s@),
                        _ => None,
                    },
                    None => None,
                },
                None => None,
            },
            None => None,
        },
        None => None,
    }
}

/// Extracts the coinbase field of the block's first transaction; nothing
/// where any step of the path is missing or the field is not a string.
pub fn get_coinbase_data(block_data: &Json) -> (r: Option<String>)
    ensures
        match r {
            Some(s) => coinbase_of(*block_data) == Some(s@),
            None => coinbase_of(*block_data) is None,
        },
{
    proof {
        reveal_strlit("tx");
        reveal_strlit("vin");
        reveal_strlit("coinbase");
    }
    let tx_key = String::from_str("tx");
    let vin_key = String::from_str("vin");
    let coinbase_key = String::from_str("coinbase");
    assert(tx_key@ =~= seq!['t', 'x']);
    assert(vin_key@ =~= seq!['v', 'i', 'n']);
    assert(coinbase_key@ =~= seq!['c', 'o', 'i', 'n', 'b', 'a', 's', 'e']);
    let txs = match field(block_data, &tx_key) {
        Some(x) => x,
        None => return None,
    };
    let tx = match first(txs) {
        Some(x) => x,
        None => return None,
    };
    let inputs = match field(tx, &vin_key) {
        Some(x) => x,
        None => return None,
    };
    let input = match first(inputs) {
        Some(x) => x,
        None => return None,
    };
    match field(input, &coinbase_key) {
        Some(Json::Str(s)) => Some(s.clone()),
        _ => None,
    }
}

/// Extraction depends on the block alone: equal blocks give the same result.
pub proof fn lemma_extraction_deterministic(a: Json, b: Json)
    requires
        a == b,
    ensures
        coinbase_of(a) == coinbase_of(b),
{
}

pub open spec fn is_hex_digit(c: char) -> bool {
    ('0' <= c && c <= '9') || ('a' <= c && c <= 'f') || ('A' <= c && c <= 'F')
}

pub open spec fn hex_digit_value(c: char) -> int {
    if '0' <= c && c <= '9' {
        c as int - '0' as int
    } else if 'a' <= c && c <= 'f' {
        c as int - 'a' as int + 10
    } else {
        c as int - 'A' as int + 10
    }
}

/// The bytes that a hexadecimal text spells, two digits to a byte, high digit
/// first, in either case; nothing for an odd length or a character that is
/// not a hexadecimal digit.
pub open spec fn hex_bytes(s: Seq<char>) -> Option<Seq<u8>> {
    if s.len() % 2 == 0 && forall|i: int| 0 <= i < s.len() ==> is_hex_digit(#[trigger] s[i]) {
        Some(
            Seq::new(
                s.len() / 2,
                |i: int| (hex_digit_value(s[2 * i]) * 16 + hex_digit_value(s[2 * i + 1])) as u8,
            ),
        )
    } else {
        None
    }
}

/// The lowercase digit for a value below sixteen.
pub open spec fn hex_char(d: int) -> char {
    seq!['0', '1', '2', '3', '4', '5', '6', '7', '8', '9', 'a', 'b', 'c', 'd', 'e', 'f'][d]
}

/// Bytes written as lowercase hexadecimal, two digits to a byte.
pub open spec fn hex_text(b: Seq<u8>) -> Seq<char> {
    Seq::new(
        2 * b.len(),
        |i: int|
            if i % 2 == 0 {
                hex_char(b[i / 2] as int / 16)
            } else {
                hex_char(b[i / 2] as int % 16)
            },
    )
}

/// The text that a byte string reads as, where each sequence that is not
/// valid UTF-8 becomes the replacement character.
pub uninterp spec fn utf8_lossy(b: Seq<u8>) -> Seq<char>;

/// Relies on hex::decode: the bytes that the digits spell, or its error's
/// message where the length is odd or a character is not a hexadecimal digit.
#[verifier::external_body]
fn hex_decode(s: &str) -> (r: Result<Vec<u8>, String>)
    ensures
        match r {
            Ok(b) => hex_bytes(s@) == Some(b@),
            Err(_) => hex_bytes(s@) is None,
        },
{
    hex::decode(s).map_err(|e| e.to_string())
}

/// Relies on String::from_utf8_lossy: the text that the bytes read as, with
/// replacement characters for invalid sequences; ASCII reads as itself.
#[verifier::external_body]
pub(crate) fn lossy_text(b: &[u8]) -> (r: String)
    ensures
        r@ == utf8_lossy(b@),
        (forall|i: int| 0 <= i < b@.len() ==> #[trigger] b@[i] < 128) ==> r@ == b@.map_values(
            |x: u8| x as char,
        ),
{
    String::from_utf8_lossy(b).to_string()
}

/// What a coinbase payload reads as: its hexadecimal digits decoded, then
/// read as text, or nothing where the digits are malformed.
pub open spec fn coinbase_text(payload: Seq<char>) -> Option<Seq<char>> {
    match hex_bytes(payload) {
        Some(b) => Some(utf8_lossy(b)),
        None => None,
    }
}

/// Decodes a coinbase payload from hexadecimal and reads the bytes as text,
/// replacing what is not valid UTF-8. Fails with hex's message on malformed
/// digits.
pub fn decode_coinbase(coinbase_hex: &String) -> (r: Result<String, String>)
    ensures
        match r {
            Ok(t) => coinbase_text(coinbase_hex@) == Some(t@),
            Err(_) => coinbase_text(coinbase_hex@) is None,
        },
{
    let bytes = hex_decode(coinbase_hex.as_str())?;
    Ok(lossy_text(bytes.as_slice()))
}

proof fn lemma_hex_digit(d: int)
    requires
        0 <= d < 16,
    ensures
        is_hex_digit(hex_char(d)),
        hex_digit_value(hex_char(d)) == d,
{
    let t = seq!['0', '1', '2', '3', '4', '5', '6', '7', '8', '9', 'a', 'b', 'c', 'd', 'e', 'f'];
    assert(hex_char(d) == t[d]);
    if d < 10 {
        assert(t[d] as int == '0' as int + d);
    } else {
        assert(t[d] as int == 'a' as int + d - 10);
    }
}

/// Writing bytes as hexadecimal and decoding the text gives the bytes back.
pub proof fn lemma_hex_round_trip(b: Seq<u8>)
    ensures
        hex_bytes(hex_text(b)) == Some(b),
        coinbase_text(hex_text(b)) == Some(utf8_lossy(b)),
{
    let s = hex_text(b);
    assert forall|i: int| 0 <= i < s.len() implies is_hex_digit(#[trigger] s[i]) by {
        if i % 2 == 0 {
            lemma_hex_digit(b[i / 2] as int / 16);
        } else {
            lemma_hex_digit(b[i / 2] as int % 16);
        }
    }
    assert(s.len() % 2 == 0);
    let d = hex_bytes(s)->Some_0;
    assert forall|i: int| 0 <= i < b.len() implies d[i] == b[i] by {
        assert((2 * i) / 2 == i);
        assert((2 * i + 1) / 2 == i);
        assert((2 * i) % 2 == 0);
        assert((2 * i + 1) % 2 == 1);
        lemma_hex_digit(b[i] as int / 16);
        lemma_hex_digit(b[i] as int % 16);
        assert((b[i] as int / 16) * 16 + b[i] as int % 16 == b[i] as int);
    }
    assert(d =~= b);
}

/// A text of odd length, or one that holds a character other than a
/// hexadecimal digit, is refused.
pub proof fn lemma_malformed_hex_refused(s: Seq<char>)
    requires
        s.len() % 2 == 1 || exists|i: int| 0 <= i < s.len() && !is_hex_digit(#[trigger] s[i]),
    ensures
        hex_bytes(s) is None,
        coinbase_text(s) is None,
{
}

} // verus!
