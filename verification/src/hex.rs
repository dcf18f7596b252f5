//! Lowercase hexadecimal encoding of byte strings.
use crate::error::SqlitePersistenceError;
use crate::text::{empty_string, push_char};
use vstd::string::StringSliceAdditionalSpecFns;
use vstd::prelude::*;

verus! {

/// The lowercase hexadecimal digit of a nibble.
pub open spec fn hex_digit(nibble: int) -> char {
    if nibble < 10 {
        (nibble + 0x30) as char
    } else {
        (nibble - 10 + 0x61) as char
    }
}

/// Two lowercase digits per byte, high nibble first.
pub open spec fn hex_chars(bytes: Seq<u8>) -> Seq<char>
    decreases bytes.len(),
{
    if bytes.len() == 0 {
        seq![]
    } else {
        hex_chars(bytes.drop_last()).push(hex_digit((bytes.last() / 16) as int)).push(
            hex_digit((bytes.last() % 16) as int),
        )
    }
}

/// The value of a lowercase hexadecimal digit byte, if it is one.
pub open spec fn hex_value(b: u8) -> Option<u8> {
    if 0x30 <= b <= 0x39 {
        Some((b - 0x30) as u8)
    } else if 0x61 <= b <= 0x66 {
        Some((b - 0x61 + 10) as u8)
    } else {
        None
    }
}

/// Bytes of an even-length lowercase hexadecimal text, if it is one.
pub open spec fn hex_decode(text: Seq<u8>) -> Option<Seq<u8>>
    decreases text.len(),
{
    if text.len() % 2 != 0 {
        None
    } else if text.len() == 0 {
        Some(seq![])
    } else {
        let n = text.len() as int;
        match (hex_decode(text.subrange(0, n - 2)), hex_value(text[n - 2]), hex_value(text[n - 1])) {
            (Some(prefix), Some(high), Some(low)) => Some(prefix.push((high * 16 + low) as u8)),
            _ => None,
        }
    }
}

fn digit_char(nibble: u8) -> (r: char)
    requires
        nibble < 16,
    ensures
        r == hex_digit(nibble as int),
{
    if nibble < 10 {
        (nibble + 0x30) as char
    } else {
        (nibble - 10 + 0x61) as char
    }
}

/// Encodes bytes as lowercase hexadecimal, two digits per byte.
pub fn encode_hex(bytes: &[u8]) -> (r: String)
    ensures
        r@ == hex_chars(bytes@),
        r@.len() == 2 * bytes@.len(),
{
    let mut value = empty_string();
    let mut i: usize = 0;
    while i < bytes.len()
        invariant
            0 <= i <= bytes@.len(),
            value@ == hex_chars(bytes@.take(i as int)),
            value@.len() == 2 * i,
        decreases bytes@.len() - i,
    {
        let byte = bytes[i];
        push_char(&mut value, digit_char(byte / 16));
        push_char(&mut value, digit_char(byte % 16));
        proof {
            assert(bytes@.take(i + 1).drop_last() =~= bytes@.take(i as int));
        }
        i = i + 1;
    }
    proof {
        assert(bytes@.take(bytes@.len() as int) =~= bytes@);
    }
    value
}

/// Decodes one lowercase hexadecimal digit.
///
/// # Errors
///
/// Returns [`SqlitePersistenceError::AuthorizationGrantEncryption`] for any
/// other byte.
pub fn decode_hex(value: u8) -> (r: Result<u8, SqlitePersistenceError>)
    ensures
        match hex_value(value) {
            Some(v) => r == Ok::<u8, SqlitePersistenceError>(v),
            None => r == Err::<u8, SqlitePersistenceError>(
                SqlitePersistenceError::AuthorizationGrantEncryption,
            ),
        },
{
    if value >= 0x30 && value <= 0x39 {
        Ok(value - 0x30)
    } else if value >= 0x61 && value <= 0x66 {
        Ok(value - 0x61 + 10)
    } else {
        Err(SqlitePersistenceError::AuthorizationGrantEncryption)
    }
}

/// Decodes an even-length lowercase hexadecimal text.
///
/// # Errors
///
/// Returns [`SqlitePersistenceError::AuthorizationGrantEncryption`] for an odd
/// length or any byte that is not a lowercase hexadecimal digit.
pub fn decode_hex_bytes(value: &str) -> (r: Result<Vec<u8>, SqlitePersistenceError>)
    ensures
        match hex_decode(value.spec_bytes()) {
            Some(bytes) => r matches Ok(v) && v@ == bytes,
            None => r == Err::<Vec<u8>, SqlitePersistenceError>(
                SqlitePersistenceError::AuthorizationGrantEncryption,
            ),
        },
{
    let text = value.as_bytes();
    if text.len() % 2 != 0 {
        return Err(SqlitePersistenceError::AuthorizationGrantEncryption);
    }
    let mut out: Vec<u8> = Vec::new();
    let mut i: usize = 0;
    while i < text.len()
        invariant
            0 <= i <= text@.len(),
            i % 2 == 0,
            text@.len() % 2 == 0,
            text@ == value.spec_bytes(),
            hex_decode(text@.subrange(0, i as int)) == Some(out@),
        decreases text@.len() - i,
    {
        proof {
            let next = text@.subrange(0, i + 2);
            assert(next.subrange(0, i as int) =~= text@.subrange(0, i as int));
        }
        let high = match decode_hex(text[i]) {
            Ok(v) => v,
            Err(e) => {
                proof {
                    lemma_hex_decode_prefix_fails(text@, i as int);
                }
                return Err(e);
            },
        };
        let low = match decode_hex(text[i + 1]) {
            Ok(v) => v,
            Err(e) => {
                proof {
                    lemma_hex_decode_prefix_fails(text@, i as int);
                }
                return Err(e);
            },
        };
        out.push(high * 16 + low);
        i = i + 2;
    }
    proof {
        assert(text@.subrange(0, text@.len() as int) =~= text@);
    }
    Ok(out)
}

/// A pair of non-digits at an even position makes the whole text undecodable.
proof fn lemma_hex_decode_prefix_fails(text: Seq<u8>, i: int)
    requires
        0 <= i,
        i + 2 <= text.len(),
        i % 2 == 0,
        text.len() % 2 == 0,
        hex_value(text[i]) is None || hex_value(text[i + 1]) is None,
    ensures
        hex_decode(text) is None,
    decreases text.len(),
{
    let n = text.len() as int;
    let prefix = text.subrange(0, n - 2);
    if i + 2 < n {
        assert(prefix[i] == text[i] && prefix[i + 1] == text[i + 1]);
        lemma_hex_decode_prefix_fails(prefix, i);
    }
}

/// Law: decoding an encoding gives back the bytes.
pub proof fn law_hex_round_trip(bytes: Seq<u8>)
    ensures
        hex_decode(hex_chars(bytes).map_values(|c: char| c as u8)) == Some(bytes),
    decreases bytes.len(),
{
    let enc = hex_chars(bytes).map_values(|c: char| c as u8);
    lemma_hex_chars_len(bytes);
    if bytes.len() > 0 {
        let rest = bytes.drop_last();
        law_hex_round_trip(rest);
        lemma_hex_chars_len(rest);
        let rest_enc = hex_chars(rest).map_values(|c: char| c as u8);
        let n = enc.len() as int;
        assert(enc.subrange(0, n - 2) =~= rest_enc);
        let b = bytes.last();
        assert(hex_value(enc[n - 2]) == Some((b / 16) as u8));
        assert(hex_value(enc[n - 1]) == Some((b % 16) as u8));
        assert(((b / 16) * 16 + b % 16) as u8 == b);
        assert(rest.push(b) =~= bytes);
    }
}

proof fn lemma_hex_chars_len(bytes: Seq<u8>)
    ensures
        hex_chars(bytes).len() == 2 * bytes.len(),
    decreases bytes.len(),
{
    if bytes.len() > 0 {
        lemma_hex_chars_len(bytes.drop_last());
    }
}

/// Bytes of 256-bit key material.
pub const KEY_BYTES: usize = 32;

/// Parses 256-bit key material written as 64 lowercase hexadecimal digits.
///
/// # Errors
///
/// Returns `error` for any other text.
pub fn key_from_hex(value: &str, error: SqlitePersistenceError) -> (r: Result<
    Vec<u8>,
    SqlitePersistenceError,
>)
    ensures
        value.spec_bytes().len() == 2 * KEY_BYTES && hex_decode(value.spec_bytes()) is Some
            ==> (r matches Ok(key) && key@ == hex_decode(value.spec_bytes())->0 && key@.len()
            == KEY_BYTES),
        !(value.spec_bytes().len() == 2 * KEY_BYTES && hex_decode(value.spec_bytes()) is Some)
            ==> r == Err::<Vec<u8>, SqlitePersistenceError>(error),
{
    if value.as_bytes().len() != 2 * KEY_BYTES {
        return Err(error);
    }
    match decode_hex_bytes(value) {
        Ok(bytes) => {
            proof {
                lemma_hex_decode_len(value.spec_bytes());
            }
            Ok(bytes)
        },
        Err(_) => Err(error),
    }
}

/// Decoding halves the length.
proof fn lemma_hex_decode_len(text: Seq<u8>)
    requires
        hex_decode(text) is Some,
    ensures
        hex_decode(text)->0.len() * 2 == text.len(),
    decreases text.len(),
{
    if text.len() > 0 {
        lemma_hex_decode_len(text.subrange(0, text.len() - 2));
    }
}

/// The fixed app-local grant key: the first 32 bytes of
/// `nimora.authorization-grant.at-rest.v1.device-local-default-key`.
pub open spec fn app_local_key() -> Seq<u8> {
    seq![
        110u8, 105, 109, 111, 114, 97, 46, 97, 117, 116, 104, 111, 114, 105, 122, 97, 116, 105,
        111, 110, 45, 103, 114, 97, 110, 116, 46, 97, 116, 45, 114, 101,
    ]
}

/// Deterministic grant key material for stores opened without an injected
/// key: the leading 32 bytes of the app-local key domain string.
pub fn app_local_default_key() -> (r: [u8; 32])
    ensures
        r@ == app_local_key(),
{
    let key: [u8; 32] = [
        110, 105, 109, 111, 114, 97, 46, 97, 117, 116, 104, 111, 114, 105, 122, 97, 116, 105, 111,
        110, 45, 103, 114, 97, 110, 116, 46, 97, 116, 45, 114, 101,
    ];
    assert(key@ =~= app_local_key());
    key
}

} // verus!
