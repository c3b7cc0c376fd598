//! Keys as the CLI reads and writes them: the encodings of a key's bytes,
//! and where a signing key and its account address come from (the command
//! line, then the profile, then derivation from the key). Building the key
//! from its bytes and deriving an address are the caller's.

use vstd::prelude::*;
use crate::address::AccountAddress;
use crate::bcs_codec::{bcs_decode_bytes, bcs_encode_bytes, bcs_seq, bcs_seq_decode};
use crate::errors::CliError;
use crate::bcs_codec::MAX_SEQUENCE_LENGTH;
use crate::hex_codec::{all_hex, hex_char_value, hex_decode, is_hex_char, spec_hex_decode};
use crate::options::EncodingType;
use crate::options::{PrivateKeyInputOptions, PublicKeyInputOptions};
use crate::text::{is_unicode_whitespace, lemma_trim_no_space, spec_trim, starts_with, trim};
use vstd::string::StringSliceAdditionalSpecFns;
use vstd::utf8::{
    decode_utf8, encode_utf8, encode_utf8_decode_utf8, encode_utf8_valid_utf8, is_ascii_chars,
    is_ascii_chars_encode_utf8, valid_utf8,
};

verus! {

/// The upper-case hexadecimal digit for `v < 16`.
pub open spec fn hex_digit_upper(v: nat) -> char {
    if v < 10 {
        ((v + ('0' as u32)) as u32) as char
    } else {
        ((v - 10 + ('A' as u32)) as u32) as char
    }
}

/// Upper-case hexadecimal text of `b`, two digits per byte.
pub open spec fn spec_hex_encode_upper(b: Seq<u8>) -> Seq<char> {
    Seq::new(
        2 * b.len(),
        |i: int|
            if i % 2 == 0 {
                hex_digit_upper((b[i / 2] / 16) as nat)
            } else {
                hex_digit_upper((b[i / 2] % 16) as nat)
            },
    )
}

/// Calls `hex::encode_upper`: upper-case hexadecimal text of the bytes.
#[verifier::external_body]
fn hex_encode_upper(b: &[u8]) -> (r: String)
    ensures
        r@ == spec_hex_encode_upper(b@),
{
    hex::encode_upper(b)
}

/// The character of the standard base64 alphabet for the six bits `v`.
pub open spec fn base64_digit(v: nat) -> char {
    if v < 26 {
        ((v + ('A' as u32)) as u32) as char
    } else if v < 52 {
        ((v - 26 + ('a' as u32)) as u32) as char
    } else if v < 62 {
        ((v - 52 + ('0' as u32)) as u32) as char
    } else if v == 62 {
        '+'
    } else {
        '/'
    }
}

/// Standard base64 of bytes, as `base64::encode` writes it: each group of
/// three bytes as four characters of six bits each, a last group of one or
/// two bytes padded with `=` to four characters.
pub open spec fn spec_base64_encode(b: Seq<u8>) -> Seq<char>
    decreases b.len(),
{
    if b.len() == 0 {
        Seq::empty()
    } else if b.len() == 1 {
        seq![base64_digit((b[0] / 4) as nat), base64_digit(((b[0] % 4) * 16) as nat), '=', '=']
    } else if b.len() == 2 {
        seq![
            base64_digit((b[0] / 4) as nat),
            base64_digit(((b[0] % 4) * 16 + b[1] / 16) as nat),
            base64_digit(((b[1] % 16) * 4) as nat),
            '=',
        ]
    } else {
        seq![
            base64_digit((b[0] / 4) as nat),
            base64_digit(((b[0] % 4) * 16 + b[1] / 16) as nat),
            base64_digit(((b[1] % 16) * 4 + b[2] / 64) as nat),
            base64_digit((b[2] % 64) as nat),
        ] + spec_base64_encode(b.subrange(3, b.len() as int))
    }
}

/// Every base64 digit is a character of the base64 alphabet.
proof fn lemma_base64_digit(v: nat)
    requires
        v < 64,
    ensures
        is_base64_char(base64_digit(v)),
{
    if v < 26 {
        let x: u32 = (v + ('A' as u32)) as u32;
        assert((x as char) as u32 == x);
    } else if v < 52 {
        let x: u32 = (v - 26 + ('a' as u32)) as u32;
        assert((x as char) as u32 == x);
    } else if v < 62 {
        let x: u32 = (v - 52 + ('0' as u32)) as u32;
        assert((x as char) as u32 == x);
    }
}

/// Base64 text is written in the base64 alphabet.
pub proof fn lemma_base64_alphabet(b: Seq<u8>)
    ensures
        all_base64(spec_base64_encode(b)),
    decreases b.len(),
{
    let t = spec_base64_encode(b);
    if b.len() >= 1 {
        lemma_base64_digit((b[0] / 4) as nat);
    }
    if b.len() == 1 {
        lemma_base64_digit(((b[0] % 4) * 16) as nat);
    } else if b.len() == 2 {
        lemma_base64_digit(((b[0] % 4) * 16 + b[1] / 16) as nat);
        lemma_base64_digit(((b[1] % 16) * 4) as nat);
    } else if b.len() >= 3 {
        lemma_base64_digit(((b[0] % 4) * 16 + b[1] / 16) as nat);
        lemma_base64_digit(((b[1] % 16) * 4 + b[2] / 64) as nat);
        lemma_base64_digit((b[2] % 64) as nat);
        let rest = b.subrange(3, b.len() as int);
        lemma_base64_alphabet(rest);
        let head = seq![
            base64_digit((b[0] / 4) as nat),
            base64_digit(((b[0] % 4) * 16 + b[1] / 16) as nat),
            base64_digit(((b[1] % 16) * 4 + b[2] / 64) as nat),
            base64_digit((b[2] % 64) as nat),
        ];
        assert forall|i: int| 0 <= i < t.len() implies is_base64_char(#[trigger] t[i]) by {
            if i >= 4 {
                assert(t[i] == spec_base64_encode(rest)[i - 4]);
            } else {
                assert(t[i] == head[i]);
            }
        }
    }
}

/// What `base64::decode` makes of a text: the bytes, or the error's text.
pub uninterp spec fn spec_base64_decode(text: Seq<char>) -> Result<Seq<u8>, Seq<char>>;

/// A character of the standard base64 alphabet, padding included.
pub open spec fn is_base64_char(c: char) -> bool {
    ||| ('A' <= c && c <= 'Z')
    ||| ('a' <= c && c <= 'z')
    ||| ('0' <= c && c <= '9')
    ||| c == '+'
    ||| c == '/'
    ||| c == '='
}

/// Text written in the standard base64 alphabet.
pub open spec fn all_base64(t: Seq<char>) -> bool {
    forall|i: int| 0 <= i < t.len() ==> is_base64_char(#[trigger] t[i])
}

/// Calls `base64::encode` (the standard alphabet, with padding). Claimed:
/// the result is the standard base64 text of the bytes.
#[verifier::external_body]
fn base64_encode(bytes: &[u8]) -> (r: String)
    ensures
        r@ == spec_base64_encode(bytes@),
{
    base64::encode(bytes)
}

/// `r` reads the text `base64::encode` writes for some bytes back as
/// those bytes.
pub open spec fn reads_back_encodings(text: Seq<char>, r: Result<Vec<u8>, String>) -> bool {
    forall|k: Seq<u8>| text == spec_base64_encode(k) ==> (r matches Ok(b) && b@ == k)
}

/// Calls `base64::decode` (the standard alphabet) and writes a failure as
/// its text. Claimed: the result is the named function of the text, and
/// the text `base64::encode` writes for some bytes is read back as those
/// bytes.
#[verifier::external_body]
fn base64_decode(text: &str) -> (r: Result<Vec<u8>, String>)
    ensures
        match r {
            Ok(b) => spec_base64_decode(text@) == Ok::<Seq<u8>, Seq<char>>(b@),
            Err(m) => spec_base64_decode(text@) == Err::<Seq<u8>, Seq<char>>(m@),
        },
        reads_back_encodings(text@, r),
{
    match base64::decode(text) {
        Ok(b) => Ok(b),
        Err(e) => Err(e.to_string()),
    }
}

/// The text of the error `String::from_utf8` gives for bytes that are not
/// UTF-8.
pub uninterp spec fn spec_utf8_error(b: Seq<u8>) -> Seq<char>;

/// Calls `String::from_utf8` and writes a failure as its text. Claimed:
/// success exactly on valid UTF-8, giving the characters it encodes (std's
/// documentation); the error's text is the named function of the bytes.
#[verifier::external_body]
pub(crate) fn utf8_decode(bytes: Vec<u8>) -> (r: Result<String, String>)
    ensures
        r is Ok <==> valid_utf8(bytes@),
        r matches Ok(s) ==> s@ == decode_utf8(bytes@),
        r matches Err(m) ==> m@ == spec_utf8_error(bytes@),
{
    match String::from_utf8(bytes) {
        Ok(s) => Ok(s),
        Err(e) => Err(e.to_string()),
    }
}

/// The encoded form of a key's bytes.
pub open spec fn spec_encode_key(e: EncodingType, key: Seq<u8>) -> Seq<char> {
    match e {
        EncodingType::Hex => spec_hex_encode_upper(key),
        EncodingType::Base64 => spec_base64_encode(key),
        EncodingType::BCS => Seq::empty(),
    }
}

/// The hexadecimal digits of a key's text: trimmed, without a leading `0x`.
pub open spec fn key_hex_digits(text: Seq<char>) -> Seq<char> {
    let t = spec_trim(text);
    if t.len() >= 2 && t[0] == '0' && t[1] == 'x' {
        t.subrange(2, t.len() as int)
    } else {
        t
    }
}

impl EncodingType {
    /// Encodes a key, given its bytes: upper-case hex, standard base64, or
    /// BCS, where a key is written as a byte sequence (its length, then its
    /// bytes).
    pub fn encode_key(&self, key: &[u8]) -> (r: Result<Vec<u8>, bcs::Error>)
        ensures
            *self == EncodingType::BCS ==> (r is Ok <==> key@.len() <= MAX_SEQUENCE_LENGTH),
            *self == EncodingType::BCS ==> (r is Ok ==> r->Ok_0@ == bcs_seq(key@)),
            *self != EncodingType::BCS ==> (r matches Ok(b) && b@ == spec_encode_key(
                *self,
                key@,
            ).map_values(|c: char| c as u8)),
    {
        match self {
            EncodingType::Hex => {
                let s = hex_encode_upper(key);
                Ok(ascii_text_bytes(s.as_str()))
            },
            EncodingType::Base64 => {
                let s = base64_encode(key);
                Ok(ascii_text_bytes(s.as_str()))
            },
            EncodingType::BCS => {
                let v = key_vec(key);
                bcs_encode_bytes(&v)
            },
        }
    }

    /// Decodes a key's bytes from what was read for the argument `name`:
    /// BCS of a byte sequence; or UTF-8 text, trimmed, that is hexadecimal
    /// (after an optional `0x`) or base64.
    /// Whatever `encode_key` wrote for a key is read back as that key, hex
    /// and base64 text also with whitespace around it.
    pub fn decode_key(&self, name: &'static str, data: Vec<u8>) -> (r: Result<Vec<u8>, CliError>)
        ensures
            match *self {
                EncodingType::BCS => match bcs_seq_decode(data@) {
                    Some(b) => r matches Ok(k) && k@ == b,
                    None => r matches Err(e) && e matches CliError::BCS(l, _) && l == name,
                },
                EncodingType::Hex => if !valid_utf8(data@) {
                    r matches Err(e) && e matches CliError::UnexpectedError(t) && t@ == spec_utf8_error(
                        data@,
                    )
                } else {
                    let text = decode_utf8(data@);
                    match spec_hex_decode(key_hex_digits(text)) {
                        Some(b) => r matches Ok(k) && k@ == b,
                        None => r matches Err(e) && e matches CliError::UnableToParse(l, _) && l
                            == name,
                    }
                },
                EncodingType::Base64 => if !valid_utf8(data@) {
                    r matches Err(e) && e matches CliError::UnexpectedError(t) && t@ == spec_utf8_error(
                        data@,
                    )
                } else {
                    match spec_base64_decode(spec_trim(decode_utf8(data@))) {
                        Ok(b) => r matches Ok(k) && k@ == b,
                        Err(m) => r matches Err(e) && e matches CliError::UnableToParse(l, t) && l
                            == name && t@ == m,
                    }
                },
            },
            forall|key: Seq<u8>, a: Seq<char>, b: Seq<char>|
                #![trigger encode_utf8(a + spec_encode_key(*self, key) + b)]
                *self != EncodingType::BCS && all_whitespace(a) && all_whitespace(b) && data@
                    == encode_utf8(a + spec_encode_key(*self, key) + b) ==> (r matches Ok(k) && k@
                    == key),
            forall|key: Seq<u8>|
                *self == EncodingType::BCS && key.len() <= MAX_SEQUENCE_LENGTH && data@ == #[trigger] bcs_seq(key)
                    ==> (r matches Ok(k) && k@ == key),
    {
        let ghost d = data@;
        let r = self.decode_key_text(name, data);
        proof {
            assert forall|key: Seq<u8>, a: Seq<char>, b: Seq<char>|
                #![trigger encode_utf8(a + spec_encode_key(*self, key) + b)]
                *self != EncodingType::BCS && all_whitespace(a) && all_whitespace(b) && d
                    == encode_utf8(a + spec_encode_key(*self, key) + b) implies (r matches Ok(k) && k@
                    == key) by {
                lemma_key_text_roundtrip(*self, key, a, b);
            }
            assert forall|key: Seq<u8>|
                *self == EncodingType::BCS && key.len() <= MAX_SEQUENCE_LENGTH && d == #[trigger] bcs_seq(key)
                    implies (r matches Ok(k) && k@ == key) by {
                crate::bcs_codec::lemma_bcs_seq_roundtrip(key);
            }
        }
        r
    }

    /// Decodes a key's bytes, as `decode_key` does.
    fn decode_key_text(&self, name: &'static str, data: Vec<u8>) -> (r: Result<Vec<u8>, CliError>)
        ensures
            match *self {
                EncodingType::BCS => match bcs_seq_decode(data@) {
                    Some(b) => r matches Ok(k) && k@ == b,
                    None => r matches Err(e) && e matches CliError::BCS(l, _) && l == name,
                },
                EncodingType::Hex => if !valid_utf8(data@) {
                    r matches Err(e) && e matches CliError::UnexpectedError(t) && t@ == spec_utf8_error(
                        data@,
                    )
                } else {
                    let text = decode_utf8(data@);
                    match spec_hex_decode(key_hex_digits(text)) {
                        Some(b) => r matches Ok(k) && k@ == b,
                        None => r matches Err(e) && e matches CliError::UnableToParse(l, _) && l
                            == name,
                    }
                },
                EncodingType::Base64 => if !valid_utf8(data@) {
                    r matches Err(e) && e matches CliError::UnexpectedError(t) && t@ == spec_utf8_error(
                        data@,
                    )
                } else {
                    match spec_base64_decode(spec_trim(decode_utf8(data@))) {
                        Ok(b) => r matches Ok(k) && k@ == b,
                        Err(m) => r matches Err(e) && e matches CliError::UnableToParse(l, t) && l
                            == name && t@ == m,
                    }
                },
            },
            *self == EncodingType::Base64 && valid_utf8(data@) ==> forall|k: Seq<u8>|
                spec_trim(decode_utf8(data@)) == spec_base64_encode(k) ==> (r matches Ok(v) && v@
                    == k),
    {
        match self {
            EncodingType::BCS => match bcs_decode_bytes(data.as_slice()) {
                Ok(k) => Ok(k),
                Err(e) => Err(CliError::BCS(name, e)),
            },
            EncodingType::Hex => {
                let text = match utf8_decode(data) {
                    Ok(t) => t,
                    Err(m) => {
                        return Err(CliError::UnexpectedError(m));
                    },
                };
                let t = trim(text.as_str());
                proof {
                    reveal_strlit("0x");
                }
                let has_prefix = starts_with(t, "0x");
                proof {
                    if has_prefix {
                        assert(t@.subrange(0, 2)[0] == '0');
                        assert(t@.subrange(0, 2)[1] == 'x');
                    } else if t@.len() >= 2 && t@[0] == '0' && t@[1] == 'x' {
                        assert(t@.subrange(0, 2) =~= "0x"@);
                    }
                }
                let digits = if has_prefix {
                    t.substring_char(2, t.unicode_len())
                } else {
                    t
                };
                match hex_decode(digits) {
                    Ok(k) => Ok(k),
                    Err(_) => Err(
                        CliError::UnableToParse(name, String::from_str("Invalid hexadecimal key")),
                    ),
                }
            },
            EncodingType::Base64 => {
                let text = match utf8_decode(data) {
                    Ok(t) => t,
                    Err(m) => {
                        return Err(CliError::UnexpectedError(m));
                    },
                };
                match base64_decode(trim(text.as_str())) {
                    Ok(k) => Ok(k),
                    Err(m) => Err(CliError::UnableToParse(name, m)),
                }
            },
        }
    }
}

/// The bytes of an ASCII text, one per character.
fn ascii_text_bytes(s: &str) -> (r: Vec<u8>)
    ensures
        r@ == s@.map_values(|c: char| c as u8),
{
    let n = s.unicode_len();
    let mut out: Vec<u8> = Vec::new();
    let mut i: usize = 0;
    while i < n
        invariant
            n == s@.len(),
            i <= n,
            out@ == s@.subrange(0, i as int).map_values(|c: char| c as u8),
        decreases n - i,
    {
        let c = s.get_char(i);
        let b: u32 = c as u32;
        #[verifier::truncate]
        let byte: u8 = b as u8;
        out.push(byte);
        proof {
            assert(s@.subrange(0, i + 1).map_values(|c: char| c as u8) =~= s@.subrange(
                0,
                i as int,
            ).map_values(|c: char| c as u8).push(c as u8));
        }
        i = i + 1;
    }
    proof {
        assert(s@.subrange(0, n as int) =~= s@);
    }
    out
}

fn key_vec(key: &[u8]) -> (r: Vec<u8>)
    ensures
        r@ == key@,
{
    let mut out: Vec<u8> = Vec::new();
    let mut i: usize = 0;
    while i < key.len()
        invariant
            i <= key@.len(),
            out@ == key@.subrange(0, i as int),
        decreases key@.len() - i,
    {
        out.push(key[i]);
        i = i + 1;
        proof {
            assert(out@ =~= key@.subrange(0, i as int));
        }
    }
    proof {
        assert(key@.subrange(0, key@.len() as int) =~= key@);
    }
    out
}

/// Where the account address of a signing key comes from.
#[derive(Clone, Copy, Debug)]
pub enum AddressSource {
    /// The address given on the command line or found in the profile.
    Known(AccountAddress),
    /// The address derived from the key.
    Derive,
}

/// What the selected profile holds of a signing identity.
pub struct ProfileKey<K> {
    pub private_key: Option<K>,
    pub account: Option<AccountAddress>,
}

/// The key and address to sign with: the key from the command line, with
/// the address given or else derived; otherwise the profile's key, with
/// the address given, else the profile's, else derived; with neither key,
/// an error. `cli_key` is what reading the command-line key gave, and
/// `profile` what loading the selected profile gave (only looked at when
/// the command line has no key).
pub fn key_and_address<K>(
    cli_key: Result<Option<K>, CliError>,
    maybe_address: Option<AccountAddress>,
    profile: Result<Option<ProfileKey<K>>, CliError>,
) -> (r: Result<(K, AddressSource), CliError>)
    ensures
        match cli_key {
            Err(e) => r == Err::<(K, AddressSource), CliError>(e),
            Ok(Some(k)) => r == Ok::<(K, AddressSource), CliError>(
                (
                    k,
                    match maybe_address {
                        Some(a) => AddressSource::Known(a),
                        None => AddressSource::Derive,
                    },
                ),
            ),
            Ok(None) => match profile {
                Err(e) => r == Err::<(K, AddressSource), CliError>(e),
                Ok(Some(p)) if p.private_key is Some => r == Ok::<(K, AddressSource), CliError>(
                    (
                        p.private_key->0,
                        match (maybe_address, p.account) {
                            (Some(a), _) => AddressSource::Known(a),
                            (None, Some(a)) => AddressSource::Known(a),
                            (None, None) => AddressSource::Derive,
                        },
                    ),
                ),
                _ => r matches Err(e) && e matches CliError::CommandArgumentError(m) && m@
                    == "One of ['--private-key', '--private-key-file'] must be used"@,
            },
        },
{
    match cli_key {
        Err(e) => Err(e),
        Ok(Some(k)) => Ok(
            (
                k,
                match maybe_address {
                    Some(a) => AddressSource::Known(a),
                    None => AddressSource::Derive,
                },
            ),
        ),
        Ok(None) => match profile {
            Err(e) => Err(e),
            Ok(Some(p)) => match p.private_key {
                Some(k) => {
                    let src = match (maybe_address, p.account) {
                        (Some(a), _) => AddressSource::Known(a),
                        (None, Some(a)) => AddressSource::Known(a),
                        (None, None) => AddressSource::Derive,
                    };
                    Ok((k, src))
                },
                None => Err(no_key_error()),
            },
            Ok(None) => Err(no_key_error()),
        },
    }
}

fn no_key_error() -> (e: CliError)
    ensures
        e matches CliError::CommandArgumentError(m) && m@
            == "One of ['--private-key', '--private-key-file'] must be used"@,
{
    CliError::CommandArgumentError(
        String::from_str("One of ['--private-key', '--private-key-file'] must be used"),
    )
}


/// Where a key is read from on the command line.
pub enum KeyInput {
    /// A file holding the encoded key.
    File(std::path::PathBuf),
    /// The encoded key given as text, by its UTF-8 bytes.
    Text(Vec<u8>),
    /// No key on the command line.
    Nothing,
}

fn text_input(k: String) -> (r: KeyInput)
    ensures
        r matches KeyInput::Text(b) && b@ == encode_utf8(k@),
{
    KeyInput::Text(key_vec(k.as_str().as_bytes()))
}

impl PrivateKeyInputOptions {
    /// Where the private key is read from: the file first, then the text.
    pub fn into_key_input(self) -> (r: KeyInput)
        ensures
            match self.private_key_file {
                Some(f) => r == KeyInput::File(f),
                None => match self.private_key {
                    Some(k) => r matches KeyInput::Text(b) && b@ == encode_utf8(k@),
                    None => r is Nothing,
                },
            },
    {
        match self.private_key_file {
            Some(f) => KeyInput::File(f),
            None => match self.private_key {
                Some(k) => text_input(k),
                None => KeyInput::Nothing,
            },
        }
    }
}

impl PublicKeyInputOptions {
    /// Where the public key is read from: the file first, then the text.
    pub fn into_key_input(self) -> (r: KeyInput)
        ensures
            match self.public_key_file {
                Some(f) => r == KeyInput::File(f),
                None => match self.public_key {
                    Some(k) => r matches KeyInput::Text(b) && b@ == encode_utf8(k@),
                    None => r is Nothing,
                },
            },
    {
        match self.public_key_file {
            Some(f) => KeyInput::File(f),
            None => match self.public_key {
                Some(k) => text_input(k),
                None => KeyInput::Nothing,
            },
        }
    }
}

/// The private key to sign with: the one from the command line, else the
/// selected profile's; `profile_key` is what loading the profile gave (its
/// key, if it has one), only looked at when the command line has no key.
pub fn extract_private_key<K>(
    cli_key: Result<Option<K>, CliError>,
    profile_key: Result<Option<Option<K>>, CliError>,
) -> (r: Result<K, CliError>)
    ensures
        match cli_key {
            Err(e) => r == Err::<K, CliError>(e),
            Ok(Some(k)) => r == Ok::<K, CliError>(k),
            Ok(None) => match profile_key {
                Err(e) => r == Err::<K, CliError>(e),
                Ok(Some(Some(k))) => r == Ok::<K, CliError>(k),
                _ => r matches Err(e) && e matches CliError::CommandArgumentError(m) && m@
                    == "One of ['--private-key', '--private-key-file'] must be used"@,
            },
        },
{
    match cli_key {
        Err(e) => Err(e),
        Ok(Some(k)) => Ok(k),
        Ok(None) => match profile_key {
            Err(e) => Err(e),
            Ok(Some(Some(k))) => Ok(k),
            _ => Err(no_key_error()),
        },
    }
}

/// The public key: the one read from the command line (`from_input`, when
/// a file or text was given), else the selected profile's; `profile_key`
/// is what loading the profile gave, only looked at without a command-line
/// key.
pub fn extract_public_key<K>(
    from_input: Option<Result<K, CliError>>,
    profile_key: Result<Option<Option<K>>, CliError>,
) -> (r: Result<K, CliError>)
    ensures
        match from_input {
            Some(x) => r == x,
            None => match profile_key {
                Err(e) => r == Err::<K, CliError>(e),
                Ok(Some(Some(k))) => r == Ok::<K, CliError>(k),
                _ => r matches Err(e) && e matches CliError::CommandArgumentError(m) && m@
                    == "One of ['--public-key', '--public-key-file', '--profile'] must be used"@,
            },
        },
{
    match from_input {
        Some(x) => x,
        None => match profile_key {
            Err(e) => Err(e),
            Ok(Some(Some(k))) => Ok(k),
            _ => Err(
                CliError::CommandArgumentError(
                    String::from_str(
                        "One of ['--public-key', '--public-key-file', '--profile'] must be used",
                    ),
                ),
            ),
        },
    }
}


/// An upper-case digit is a hexadecimal digit of its value.
proof fn lemma_hex_digit_upper(v: nat)
    requires
        v < 16,
    ensures
        is_hex_char(hex_digit_upper(v)),
        hex_char_value(hex_digit_upper(v)) == v,
        (hex_digit_upper(v) as u32) < 0x80,
        !is_unicode_whitespace(hex_digit_upper(v)),
        hex_digit_upper(v) != 'x',
{
    if v < 10 {
        let x: u32 = (v + ('0' as u32)) as u32;
        assert((x as char) as u32 == x);
    } else {
        let x: u32 = (v - 10 + ('A' as u32)) as u32;
        assert((x as char) as u32 == x);
    }
}

/// A key written in hex (as `encode_key` writes it) or in BCS is read back
/// by `decode_key` as the same key: the hex text is valid UTF-8 that trims
/// to itself, has no `0x` to strip, and decodes to the key's bytes.
pub proof fn lemma_key_encoding_roundtrip(key: Seq<u8>)
    requires
        key.len() <= MAX_SEQUENCE_LENGTH,
    ensures
        valid_utf8(spec_hex_encode_upper(key).map_values(|c: char| c as u8)),
        spec_hex_decode(
            key_hex_digits(decode_utf8(spec_hex_encode_upper(key).map_values(|c: char| c as u8))),
        ) == Some(key),
        bcs_seq_decode(bcs_seq(key)) == Some(key),
{
    let t = spec_hex_encode_upper(key);
    let e = Seq::<char>::empty();
    lemma_key_text_roundtrip(EncodingType::Hex, key, e, e);
    assert(e + t + e =~= t);
    crate::bcs_codec::lemma_bcs_seq_roundtrip(key);
}

/// Text whose characters are all ASCII and none whitespace, between runs
/// of whitespace, is valid UTF-8 once encoded and trims back to itself.
proof fn lemma_padded_text(a: Seq<char>, t: Seq<char>, b: Seq<char>)
    requires
        forall|i: int| 0 <= i < a.len() ==> is_unicode_whitespace(#[trigger] a[i]),
        forall|i: int| 0 <= i < b.len() ==> is_unicode_whitespace(#[trigger] b[i]),
        forall|i: int|
            0 <= i < t.len() ==> !is_unicode_whitespace(#[trigger] t[i]) && '\0' <= t[i] <= '\u{7f}',
    ensures
        valid_utf8(encode_utf8(a + t + b)),
        spec_trim(decode_utf8(encode_utf8(a + t + b))) == t,
        encode_utf8(t) == t.map_values(|c: char| c as u8),
{
    encode_utf8_valid_utf8(a + t + b);
    encode_utf8_decode_utf8(a + t + b);
    crate::text::lemma_trim_padded(a, t, b);
    assert(is_ascii_chars(t));
    is_ascii_chars_encode_utf8(t);
    assert(encode_utf8(t) =~= t.map_values(|c: char| c as u8));
}

/// All characters of `s` are whitespace.
pub open spec fn all_whitespace(s: Seq<char>) -> bool {
    forall|i: int| 0 <= i < s.len() ==> is_unicode_whitespace(#[trigger] s[i])
}

/// The text `encode_key` writes for a key (hex or base64),
/// with any whitespace around it, is valid UTF-8 and trims back to what
/// was written; hex text decodes to the key's bytes.
pub proof fn lemma_key_text_roundtrip(e: EncodingType, key: Seq<u8>, a: Seq<char>, b: Seq<char>)
    requires
        e != EncodingType::BCS,
        all_whitespace(a),
        all_whitespace(b),
    ensures
        encode_utf8(spec_encode_key(e, key)) == spec_encode_key(e, key).map_values(
            |c: char| c as u8,
        ),
        valid_utf8(encode_utf8(a + spec_encode_key(e, key) + b)),
        spec_trim(decode_utf8(encode_utf8(a + spec_encode_key(e, key) + b))) == spec_encode_key(
            e,
            key,
        ),
        e == EncodingType::Hex ==> spec_hex_decode(
            key_hex_digits(decode_utf8(encode_utf8(a + spec_encode_key(e, key) + b))),
        ) == Some(key),
{
    let t = spec_encode_key(e, key);
    if e == EncodingType::Hex {
        assert forall|i: int| 0 <= i < t.len() implies !is_unicode_whitespace(#[trigger] t[i])
            && '\0' <= t[i] <= '\u{7f}' by {
            lemma_hex_digit_upper((key[i / 2] / 16) as nat);
            lemma_hex_digit_upper((key[i / 2] % 16) as nat);
            assert(is_hex_char(t[i]));
        }
        lemma_padded_text(a, t, b);
        lemma_key_encoding_roundtrip_hex_text(key);
    } else {
        lemma_base64_alphabet(key);
        assert forall|i: int| 0 <= i < t.len() implies !is_unicode_whitespace(#[trigger] t[i])
            && '\0' <= t[i] <= '\u{7f}' by {
            assert(is_base64_char(t[i]));
        }
        lemma_padded_text(a, t, b);
    }
}

/// The upper-case hex text of a key has no `0x` to strip and decodes to
/// the key's bytes.
proof fn lemma_key_encoding_roundtrip_hex_text(key: Seq<u8>)
    ensures
        key_hex_digits(spec_hex_encode_upper(key)) == spec_hex_encode_upper(key),
        spec_hex_decode(spec_hex_encode_upper(key)) == Some(key),
{
    let t = spec_hex_encode_upper(key);
    assert forall|i: int| 0 <= i < t.len() implies is_hex_char(#[trigger] t[i]) && (t[i] as u32)
        < 0x80 && !is_unicode_whitespace(t[i]) && t[i] != 'x' by {
        lemma_hex_digit_upper((key[i / 2] / 16) as nat);
        lemma_hex_digit_upper((key[i / 2] % 16) as nat);
    }
    if t.len() > 0 {
        lemma_trim_no_space(t);
    } else {
        assert(spec_trim(t) =~= t);
    }
    assert(key_hex_digits(t) == t);
    let d = spec_hex_decode(t)->0;
    assert(all_hex(t));
    assert forall|i: int| 0 <= i < key.len() implies d[i] == key[i] by {
        assert(t[2 * i] == hex_digit_upper((key[i] / 16) as nat));
        assert(t[2 * i + 1] == hex_digit_upper((key[i] % 16) as nat));
        lemma_hex_digit_upper((key[i] / 16) as nat);
        lemma_hex_digit_upper((key[i] % 16) as nat);
    }
    assert(d =~= key);
}

} // verus!
