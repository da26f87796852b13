//! Tokens and keys as bytes, and bytes as hexadecimal text.

use crate::protocol::ClientError;
use crate::scheme::{spend_accepted, token_credits, token_nullifier};
use crate::text::{decimal, decimal_text, digit_char, is_white_space, trim, trimmed};
use anonymous_credit_tokens::{CreditToken, Params, PrivateKey, SpendProof};
use bincode::error::{DecodeError, EncodeError};
use hex::FromHexError;
use vstd::prelude::*;
use vstd::utf8::{encode_utf8, is_ascii_chars_encode_utf8};

verus! {

/// `bincode::error::EncodeError`: why a value could not be turned into bytes.
#[verifier::external_type_specification]
#[verifier::external_body]
pub struct ExEncodeError(EncodeError);

/// `bincode::error::DecodeError`: why a value could not be read from bytes.
#[verifier::external_type_specification]
#[verifier::external_body]
pub struct ExDecodeError(DecodeError);

/// How `EncodeError` describes itself.
pub uninterp spec fn encode_error_text(error: EncodeError) -> Seq<char>;

/// `EncodeError::to_string`: the description of the error.
#[verifier::external_body]
fn describe_encode_error(error: &EncodeError) -> (r: String)
    ensures
        r@ == encode_error_text(*error),
{
    error.to_string()
}

/// How `DecodeError` describes itself.
pub uninterp spec fn decode_error_text(error: DecodeError) -> Seq<char>;

/// `DecodeError::to_string`: the description of the error.
#[verifier::external_body]
fn describe_decode_error(error: &DecodeError) -> (r: String)
    ensures
        r@ == decode_error_text(*error),
{
    error.to_string()
}

/// What an encoding gave, as a mathematical value.
pub open spec fn encoded(result: Result<Vec<u8>, EncodeError>) -> Result<Seq<u8>, EncodeError> {
    match result {
        Ok(bytes) => Ok(bytes@),
        Err(error) => Err(error),
    }
}

/// What `bincode` makes of a token when it turns it into bytes.
pub uninterp spec fn token_encoding(token: CreditToken) -> Result<Seq<u8>, EncodeError>;

/// Whether a token turns into these bytes.
pub open spec fn encodes_to(token: CreditToken, bytes: Seq<u8>) -> bool {
    token_encoding(token) == Ok::<Seq<u8>, EncodeError>(bytes)
}

/// `bincode::serde::encode_to_vec` on a token, in the standard configuration. The outcome is a
/// function of the token. It is left open whether the call can fail.
#[verifier::external_body]
fn encode_token(token: &CreditToken) -> (r: Result<Vec<u8>, EncodeError>)
    ensures
        encoded(r) == token_encoding(*token),
{
    bincode::serde::encode_to_vec(token, bincode::config::standard())
}

/// What `bincode` makes of some bytes when it reads a token.
pub uninterp spec fn token_decoding(bytes: Seq<u8>) -> Result<CreditToken, DecodeError>;

/// Whether the outcome of reading a token is a copy of this one, with the same nullifier and the
/// same credits, which turns into the same bytes again.
pub open spec fn copies<E>(token: CreditToken, read: Result<CreditToken, E>) -> bool {
    &&& read matches Ok(copy)
    &&& token_nullifier(copy) == token_nullifier(token)
    &&& token_credits(copy) == token_credits(token)
    &&& token_encoding(copy) == token_encoding(token)
}

/// `bincode::serde::decode_from_slice` to a token, in the standard configuration. The outcome is
/// a function of the bytes. From the bytes of a token it reads a token with the same nullifier
/// and the same credits, which turns into the same bytes: numbers and points are written in one
/// way only.
#[verifier::external_body]
fn decode_token(bytes: &[u8]) -> (r: Result<CreditToken, DecodeError>)
    ensures
        r == token_decoding(bytes@),
        forall|token: CreditToken|
            #[trigger] encodes_to(token, bytes@) ==> copies(token, r),
{
    bincode::serde::decode_from_slice(bytes, bincode::config::standard()).map(|pair| pair.0)
}

/// What `bincode` makes of a private key when it turns it into bytes.
pub uninterp spec fn key_encoding(key: PrivateKey) -> Result<Seq<u8>, EncodeError>;

/// `bincode::serde::encode_to_vec` on a private key, in the standard configuration. The outcome
/// is a function of the key. It is left open whether the call can fail.
#[verifier::external_body]
fn encode_key(key: &PrivateKey) -> (r: Result<Vec<u8>, EncodeError>)
    ensures
        encoded(r) == key_encoding(*key),
{
    bincode::serde::encode_to_vec(key, bincode::config::standard())
}

/// What `bincode` makes of some bytes when it reads a private key.
pub uninterp spec fn key_decoding(bytes: Seq<u8>) -> Result<PrivateKey, DecodeError>;

/// Whether a private key turns into these bytes.
pub open spec fn key_encodes_to(key: PrivateKey, bytes: Seq<u8>) -> bool {
    key_encoding(key) == Ok::<Seq<u8>, EncodeError>(bytes)
}

/// Whether two private keys accept the same spend proofs.
pub open spec fn accept_the_same(a: PrivateKey, b: PrivateKey) -> bool {
    forall|params: Params, proof: SpendProof|
        spend_accepted(a, params, proof) == #[trigger] spend_accepted(b, params, proof)
}

/// Whether a private key is a copy of another one: it accepts the same spend proofs and turns
/// into the same bytes.
pub open spec fn is_copy_of_key(copy: PrivateKey, key: PrivateKey) -> bool {
    accept_the_same(copy, key) && key_encoding(copy) == key_encoding(key)
}

/// Whether the outcome of reading a private key is a copy of this one.
pub open spec fn copies_key<E>(key: PrivateKey, read: Result<PrivateKey, E>) -> bool {
    read matches Ok(copy) && is_copy_of_key(copy, key)
}

/// `bincode::serde::decode_from_slice` to a private key, in the standard configuration. The
/// outcome is a function of the bytes. From the bytes of a key it reads a key that accepts the
/// same spend proofs and turns into the same bytes: numbers and points are written in one way
/// only.
#[verifier::external_body]
fn decode_key(bytes: &[u8]) -> (r: Result<PrivateKey, DecodeError>)
    ensures
        r == key_decoding(bytes@),
        forall|key: PrivateKey| #[trigger] key_encodes_to(key, bytes@) ==> copies_key(key, r),
{
    bincode::serde::decode_from_slice(bytes, bincode::config::standard()).map(|pair| pair.0)
}

/// Turns a token into bytes.
pub fn token_to_bytes(token: &CreditToken) -> (bytes: Result<Vec<u8>, ClientError>)
    ensures
        match token_encoding(*token) {
            Ok(content) => bytes matches Ok(bytes) && bytes@ == content,
            Err(fault) => bytes matches Err(ClientError::Serialization(detail)) && detail@
                == encode_error_text(fault),
        },
{
    match encode_token(token) {
        Ok(bytes) => Ok(bytes),
        Err(error) => Err(ClientError::Serialization(describe_encode_error(&error))),
    }
}

/// What reading a token from bytes gives.
pub open spec fn reads_token(bytes: Seq<u8>, token: Result<CreditToken, ClientError>) -> bool {
    &&& match token_decoding(bytes) {
        Ok(read) => token == Ok::<CreditToken, ClientError>(read),
        Err(fault) => token matches Err(ClientError::Deserialization(detail)) && detail@
            == decode_error_text(fault),
    }
    &&& forall|kept: CreditToken| #[trigger] encodes_to(kept, bytes) ==> copies(kept, token)
}

/// Reads a token from bytes.
pub fn token_from_bytes(bytes: &[u8]) -> (token: Result<CreditToken, ClientError>)
    ensures
        reads_token(bytes@, token),
{
    match decode_token(bytes) {
        Ok(token) => Ok(token),
        Err(error) => Err(ClientError::Deserialization(describe_decode_error(&error))),
    }
}

/// A private key to work with, and the bytes to keep it in where it is new.
pub struct LoadedKey {
    /// The key.
    pub key: PrivateKey,
    /// The bytes of a new key that are to be written down, where it could be turned into bytes.
    pub save: Option<Vec<u8>>,
}

/// Reads the private key from the bytes that were kept, and makes a new one where there are none
/// or they hold no key. Only a new key is to be written down; read again, it accepts the spend
/// proofs that it accepted before, and turns into the bytes that it was read from.
pub fn load_key(kept: Option<Vec<u8>>) -> (loaded: LoadedKey)
    ensures
        kept matches Some(bytes) && key_decoding(bytes@) is Ok ==> {
            &&& key_decoding(kept->0@) == Ok::<PrivateKey, DecodeError>(loaded.key)
            &&& loaded.save is None
        },
        kept is None || key_decoding(kept->0@) is Err ==> match key_encoding(loaded.key) {
            Ok(content) => loaded.save matches Some(bytes) && bytes@ == content,
            Err(_) => loaded.save is None,
        },
        kept matches Some(bytes) ==> forall|key: PrivateKey| #[trigger]
            key_encodes_to(key, bytes@) ==> is_copy_of_key(loaded.key, key) && loaded.save is None,
{
    if let Some(bytes) = kept {
        if let Ok(key) = decode_key(bytes.as_slice()) {
            return LoadedKey { key, save: None };
        }
    }
    let key = crate::scheme::random_key();
    match encode_key(&key) {
        Ok(bytes) => LoadedKey { key, save: Some(bytes) },
        Err(_) => LoadedKey { key, save: None },
    }
}

/// Bytes as hexadecimal text, two digits in lower case for each.
pub open spec fn hex_text(bytes: Seq<u8>) -> Seq<char> {
    Seq::new(
        2 * bytes.len(),
        |i: int| digit_char((if i % 2 == 0 { bytes[i / 2] / 16 } else { bytes[i / 2] % 16 }) as nat),
    )
}

/// `hex::encode`: two digits in lower case for each byte.
#[verifier::external_body]
fn encode_hex(bytes: &[u8]) -> (r: String)
    ensures
        r@ == hex_text(bytes@),
{
    hex::encode(bytes)
}

/// The value of a hexadecimal digit, upper or lower case, given by its ASCII code.
pub open spec fn digit_value(code: u8) -> Option<nat> {
    if 48 <= code <= 57 {
        Some((code - 48) as nat)
    } else if 97 <= code <= 102 {
        Some((code - 87) as nat)
    } else if 65 <= code <= 70 {
        Some((code - 55) as nat)
    } else {
        None
    }
}

/// Whether every code is one of a hexadecimal digit.
pub open spec fn all_digits(codes: Seq<u8>) -> bool {
    forall|i: int| 0 <= i < codes.len() ==> digit_value(#[trigger] codes[i]) is Some
}

/// The bytes that pairs of hexadecimal digits stand for.
pub open spec fn hex_bytes(codes: Seq<u8>) -> Seq<u8> {
    Seq::new(
        codes.len() / 2,
        |i: int|
            (16 * digit_value(codes[2 * i])->0 + digit_value(codes[2 * i + 1])->0) as u8,
    )
}

/// Why a text is not hexadecimal.
#[derive(Clone, Copy, Debug, PartialEq, Eq, Structural)]
pub enum HexError {
    /// The number of digits is odd.
    OddLength,
    /// There is something else than a digit at this index.
    InvalidHexCharacter { c: char, index: usize },
    /// The text does not have the length that is asked for.
    InvalidStringLength,
}

/// What reading hexadecimal digits gives: an odd number of digits is refused first, then the
/// first code that is no digit; else each pair of digits gives a byte.
pub open spec fn reads_hex(codes: Seq<u8>, read: Result<Vec<u8>, HexError>) -> bool {
    match read {
        Ok(bytes) => codes.len() % 2 == 0 && all_digits(codes) && bytes@ == hex_bytes(codes),
        Err(HexError::OddLength) => codes.len() % 2 == 1,
        Err(HexError::InvalidHexCharacter { c, index }) => {
            &&& codes.len() % 2 == 0
            &&& index < codes.len()
            &&& all_digits(codes.take(index as int))
            &&& digit_value(codes[index as int]) is None
            &&& c as u32 == codes[index as int]
        },
        Err(HexError::InvalidStringLength) => false,
    }
}

/// `hex::decode`: reads pairs of hexadecimal digits. An odd number of digits is refused first,
/// then the first byte that is no digit.
#[verifier::external_body]
fn decode_hex(codes: &[u8]) -> (r: Result<Vec<u8>, HexError>)
    ensures
        reads_hex(codes@, r),
{
    hex::decode(codes).map_err(|error| match error {
        FromHexError::OddLength => HexError::OddLength,
        FromHexError::InvalidHexCharacter { c, index } => HexError::InvalidHexCharacter { c, index },
        FromHexError::InvalidStringLength => HexError::InvalidStringLength,
    })
}

/// How `char` shows itself in single quotes, with escapes.
pub uninterp spec fn quoted(c: char) -> Seq<char>;

/// The `Debug` form of a `char`.
#[verifier::external_body]
fn quote(c: char) -> (r: String)
    ensures
        r@ == quoted(c),
{
    format!("{:?}", c)
}

impl HexError {
    /// The text of an error.
    pub open spec fn text(self) -> Seq<char> {
        match self {
            HexError::OddLength => "Odd number of digits"@,
            HexError::InvalidHexCharacter { c, index } => "Invalid character "@ + quoted(c)
                + " at position "@ + decimal(index as nat),
            HexError::InvalidStringLength => "Invalid string length"@,
        }
    }

    /// The text of an error.
    pub fn message(&self) -> (message: String)
        ensures
            message@ == self.text(),
    {
        match self {
            HexError::OddLength => String::from_str("Odd number of digits"),
            HexError::InvalidHexCharacter { c, index } => {
                let mut message = String::from_str("Invalid character ");
                message.append(quote(*c).as_str());
                message.append(" at position ");
                message.append(decimal_text(*index as u128).as_str());
                message
            },
            HexError::InvalidStringLength => String::from_str("Invalid string length"),
        }
    }
}

/// Writes a token as hexadecimal text.
pub fn export_token(token: &CreditToken) -> (text: Result<String, ClientError>)
    ensures
        match token_encoding(*token) {
            Ok(content) => text matches Ok(text) && text@ == hex_text(content),
            Err(fault) => text matches Err(ClientError::Serialization(detail)) && detail@
                == encode_error_text(fault),
        },
{
    match token_to_bytes(token) {
        Ok(bytes) => Ok(encode_hex(bytes.as_slice())),
        Err(error) => Err(error),
    }
}

/// Reads bytes from hexadecimal text, with white space before and after it.
pub fn bytes_from_text(text: &str) -> (bytes: Result<Vec<u8>, HexError>)
    ensures
        reads_hex(encode_utf8(trimmed(text@)), bytes),
{
    decode_hex(trim(text).as_bytes())
}

/// What reading a token from the codes of a hexadecimal text gives.
pub open spec fn imports(codes: Seq<u8>, token: Result<CreditToken, ClientError>) -> bool {
    if codes.len() % 2 == 0 && all_digits(codes) {
        &&& match token_decoding(hex_bytes(codes)) {
            Ok(read) => token == Ok::<CreditToken, ClientError>(read),
            Err(fault) => {
                &&& token matches Err(ClientError::Io(detail))
                &&& detail@ == "Failed to decode token data: "@ + decode_error_text(fault)
            },
        }
        &&& forall|kept: CreditToken|
            #[trigger] encodes_to(kept, hex_bytes(codes))
                ==> copies(kept, token)
    } else {
        &&& token matches Err(ClientError::Io(detail))
        &&& exists|fault: HexError|
            {
                &&& reads_hex(codes, Err(fault))
                &&& detail@ == "Invalid hex content in file: "@ + #[trigger] fault.text()
            }
    }
}

/// Reads a token from hexadecimal text, with white space before and after it.
pub fn import_token(text: &str) -> (token: Result<CreditToken, ClientError>)
    ensures
        imports(encode_utf8(trimmed(text@)), token),
{
    let bytes = match bytes_from_text(text) {
        Ok(bytes) => bytes,
        Err(error) => {
            let mut detail = String::from_str("Invalid hex content in file: ");
            detail.append(error.message().as_str());
            proof {
                let codes = encode_utf8(trimmed(text@));
                if let HexError::InvalidHexCharacter { index, .. } = error {
                    assert(digit_value(codes[index as int]) is None);
                }
                assert(detail@ == "Invalid hex content in file: "@ + error.text());
            }
            return Err(ClientError::Io(detail));
        },
    };
    match decode_token(bytes.as_slice()) {
        Ok(token) => Ok(token),
        Err(error) => {
            let mut detail = String::from_str("Failed to decode token data: ");
            detail.append(describe_decode_error(&error).as_str());
            Err(ClientError::Io(detail))
        },
    }
}

proof fn lemma_digit(digit: nat)
    requires
        digit < 16,
    ensures
        (digit_char(digit) as u32) < 128,
        !is_white_space(digit_char(digit)),
        digit_value(digit_char(digit) as u8) == Some(digit),
{
}

/// Hexadecimal text has no white space to trim, and reading it gives the bytes back.
pub proof fn law_hex_text_reads_back(bytes: Seq<u8>)
    ensures
        trimmed(hex_text(bytes)) == hex_text(bytes),
        encode_utf8(hex_text(bytes)).len() % 2 == 0,
        all_digits(encode_utf8(hex_text(bytes))),
        hex_bytes(encode_utf8(hex_text(bytes))) == bytes,
{
    let text = hex_text(bytes);
    assert forall|i: int| 0 <= i < text.len() implies (#[trigger] text[i]) as u32 <= 127
        && !is_white_space(text[i]) && digit_value(text[i] as u8) == Some(
        (if i % 2 == 0 {
            bytes[i / 2] / 16
        } else {
            bytes[i / 2] % 16
        }) as nat,
    ) by {
        lemma_digit(
            (if i % 2 == 0 {
                bytes[i / 2] / 16
            } else {
                bytes[i / 2] % 16
            }) as nat,
        );
    }
    if text.len() > 0 {
        assert(!is_white_space(text[0]));
        assert(!is_white_space(text[text.len() - 1]));
    }
    is_ascii_chars_encode_utf8(text);
    let codes = encode_utf8(text);
    assert(codes =~= Seq::new(text.len(), |i: int| text[i] as u8));
    assert forall|i: int| 0 <= i < bytes.len() implies hex_bytes(codes)[i] == bytes[i] by {
        assert((2 * i) / 2 == i && (2 * i) % 2 == 0);
        assert((2 * i + 1) / 2 == i && (2 * i + 1) % 2 == 1);
        assert(digit_value(text[2 * i] as u8) == Some((bytes[i] / 16) as nat));
        assert(digit_value(text[2 * i + 1] as u8) == Some((bytes[i] % 16) as nat));
    }
    assert(hex_bytes(codes) =~= bytes);
}

/// What is read back is what was written: a token that was turned into bytes and read again has
/// kept its nullifier and its credits, and turns into those bytes once more.
pub proof fn law_bytes_read_back(
    token: CreditToken,
    bytes: Seq<u8>,
    read: Result<CreditToken, ClientError>,
)
    requires
        encodes_to(token, bytes),
        reads_token(bytes, read),
    ensures
        read matches Ok(copy) && {
            &&& token_nullifier(copy) == token_nullifier(token)
            &&& token_credits(copy) == token_credits(token)
            &&& encodes_to(copy, bytes)
        },
{
    assert(copies(token, read));
}

/// A token that is exported and imported again has kept its nullifier and its credits, and is
/// exported as the same text once more.
pub proof fn law_import_undoes_export(
    token: CreditToken,
    bytes: Seq<u8>,
    text: Seq<char>,
    read: Result<CreditToken, ClientError>,
)
    requires
        encodes_to(token, bytes),
        text == hex_text(bytes),
        imports(encode_utf8(trimmed(text)), read),
    ensures
        copies(token, read),
{
    law_hex_text_reads_back(bytes);
}

/// How many digits stand in one line of a long text.
pub const LINE: usize = 64;

/// Cuts a text into lines of `LINE` characters; the last one may be shorter.
pub fn hex_lines(text: &str) -> (lines: Vec<String>)
    ensures
        lines.len() == (text@.len() + LINE - 1) / LINE as int,
        forall|i: int|
            0 <= i < lines.len() ==> (#[trigger] lines@[i])@ == text@.subrange(
                LINE * i,
                if LINE * (i + 1) < text@.len() {
                    LINE * (i + 1)
                } else {
                    text@.len() as int
                },
            ),
{
    let len: usize = text.unicode_len();
    let mut lines: Vec<String> = Vec::new();
    let mut start: usize = 0;
    while start < len
        invariant
            len == text@.len(),
            start <= len,
            start < len ==> start == LINE * lines.len(),
            start == len ==> lines.len() == (text@.len() + LINE - 1) / LINE as int,
            forall|i: int|
                0 <= i < lines.len() ==> (#[trigger] lines@[i])@ == text@.subrange(
                    LINE * i,
                    if LINE * (i + 1) < text@.len() {
                        LINE * (i + 1)
                    } else {
                        text@.len() as int
                    },
                ),
        decreases len - start,
    {
        let end: usize = if len - start > LINE {
            start + LINE
        } else {
            len
        };
        lines.push(text.substring_char(start, end).to_owned());
        start = end;
    }
    lines
}

/// The key of the server survives a restart: a new key whose bytes were written down is read back
/// from them, accepts what it accepted, and is not written down again.
pub proof fn law_key_survives_a_restart(
    first: LoadedKey,
    bytes: Vec<u8>,
    again: LoadedKey,
)
    requires
        call_ensures(load_key, (None::<Vec<u8>>,), first),
        first.save == Some(bytes),
        call_ensures(load_key, (Some(bytes),), again),
    ensures
        is_copy_of_key(again.key, first.key),
        again.save is None,
{
    assert(key_encodes_to(first.key, bytes@));
}

/// The text that exporting a token gives is one from which importing makes a copy of that token.
pub proof fn law_exported_text_can_be_imported(
    token: CreditToken,
    text: String,
    given: &str,
    read: Result<CreditToken, ClientError>,
)
    requires
        call_ensures(export_token, (&token,), Ok(text)),
        given@ == text@,
        call_ensures(import_token, (given,), read),
    ensures
        copies(token, read),
{
    if let Ok(bytes) = token_encoding(token) {
        assert(encodes_to(token, bytes));
        law_import_undoes_export(token, bytes, text@, read);
    }
}

} // verus!
