//! The wallet's keys: from the secret key as the settings hold it to the
//! public key and the address, and the digest of a message that is signed.

use crate::text::{decimal, decimal_chars, from_chars};
use vstd::prelude::*;
use vstd::utf8::encode_utf8;

verus! {

/// The Keccak digest of 256 bits of some bytes.
pub uninterp spec fn keccak256(data: Seq<u8>) -> Seq<u8>;

/// Thirty-two bytes as a message of the curve secp256k1: the number that
/// they write, brought below the order of the curve, in thirty-two bytes.
pub uninterp spec fn secp256k1_message(digest: Seq<u8>) -> Seq<u8>;

/// The public key of a secret key of the curve secp256k1, in sixty-five
/// bytes, if the bytes given are a secret key.
pub uninterp spec fn secp256k1_public_key(secret: Seq<u8>) -> Option<Seq<u8>>;

/// The signature of a message with a secret key of the curve secp256k1, in
/// sixty-four bytes, and the number that tells which public key it is of; if
/// the bytes given are a secret key.
pub uninterp spec fn secp256k1_signature(message: Seq<u8>, secret: Seq<u8>) -> Option<
    (Seq<u8>, u8),
>;

/// The character of a number below sixteen in small hexadecimal digits.
pub open spec fn hex_digit(n: nat) -> char {
    if n < 10 {
        crate::text::digit_char(n)
    } else if n == 10 {
        'a'
    } else if n == 11 {
        'b'
    } else if n == 12 {
        'c'
    } else if n == 13 {
        'd'
    } else if n == 14 {
        'e'
    } else {
        'f'
    }
}

/// The number that a hexadecimal digit writes, small or capital.
pub open spec fn hex_value(c: char) -> Option<nat> {
    if c == 'a' || c == 'A' {
        Some(10)
    } else if c == 'b' || c == 'B' {
        Some(11)
    } else if c == 'c' || c == 'C' {
        Some(12)
    } else if c == 'd' || c == 'D' {
        Some(13)
    } else if c == 'e' || c == 'E' {
        Some(14)
    } else if c == 'f' || c == 'F' {
        Some(15)
    } else {
        crate::text::digit_value(c)
    }
}

/// Bytes in hexadecimal: two small digits for each byte.
pub open spec fn hex_text(bytes: Seq<u8>) -> Seq<char>
    decreases bytes.len(),
{
    if bytes.len() == 0 {
        seq![]
    } else {
        hex_text(bytes.drop_last()).push(hex_digit(bytes.last() as nat / 16)).push(
            hex_digit(bytes.last() as nat % 16),
        )
    }
}

/// The bytes that a text writes in hexadecimal, if it holds an even number
/// of hexadecimal digits and nothing else.
pub open spec fn hex_bytes(text: Seq<char>) -> Option<Seq<u8>>
    decreases text.len(),
{
    if text.len() == 0 {
        Some(seq![])
    } else if text.len() == 1 {
        None
    } else {
        match (
            hex_bytes(text.take(text.len() - 2)),
            hex_value(text[text.len() - 2]),
            hex_value(text[text.len() - 1]),
        ) {
            (Some(bytes), Some(high), Some(low)) => Some(bytes.push((high * 16 + low) as u8)),
            _ => None,
        }
    }
}

/// `sha3::Keccak256::digest`: the Keccak digest of the bytes, which has
/// thirty-two bytes. The digest is given the name [`keccak256`].
#[verifier::external_body]
fn keccak256_digest(data: &Vec<u8>) -> (digest: Vec<u8>)
    ensures
        digest@ == keccak256(data@),
        digest@.len() == 32,
{
    <sha3::Keccak256 as sha3::Digest>::digest(data).to_vec()
}

/// `libsecp256k1::Message::parse_slice`, written out again by
/// `Message::serialize`: thirty-two bytes go in, and thirty-two come out.
/// They are given the name [`secp256k1_message`].
#[verifier::external_body]
fn message_bytes(digest: &Vec<u8>) -> (message: Vec<u8>)
    requires
        digest@.len() == 32,
    ensures
        message@ == secp256k1_message(digest@),
        message@.len() == 32,
{
    match libsecp256k1::Message::parse_slice(digest) {
        Ok(message) => message.serialize().to_vec(),
        Err(_) => Vec::new(),
    }
}

/// `libsecp256k1::PublicKey::from_secret_key` of the key that
/// `SecretKey::parse_slice` reads, written out by `PublicKey::serialize`:
/// sixty-five bytes. A secret key has thirty-two bytes; other bytes, and
/// some of thirty-two, are refused. The result is given the name
/// [`secp256k1_public_key`].
#[verifier::external_body]
fn derive_public_key(secret: &Vec<u8>) -> (public: Option<[u8; 65]>)
    ensures
        match public {
            Some(key) => secp256k1_public_key(secret@) == Some(key@) && secret@.len() == 32,
            None => secp256k1_public_key(secret@) is None,
        },
{
    match libsecp256k1::SecretKey::parse_slice(secret) {
        Ok(key) => Some(libsecp256k1::PublicKey::from_secret_key(&key).serialize()),
        Err(_) => None,
    }
}

/// `libsecp256k1::sign` of the message that `Message::parse_slice` reads
/// with the key that `SecretKey::parse_slice` reads, written out by
/// `Signature::serialize` and `RecoveryId::serialize`: sixty-four bytes and
/// a number below four. The message has thirty-two bytes. The result is
/// given the name [`secp256k1_signature`].
#[verifier::external_body]
fn sign_bytes(message: &Vec<u8>, secret: &Vec<u8>) -> (signed: Option<(Vec<u8>, u8)>)
    requires
        message@.len() == 32,
    ensures
        match signed {
            Some(s) => secp256k1_signature(message@, secret@) == Some((s.0@, s.1)) && s.0@.len()
                == 64 && s.1 < 4,
            None => secp256k1_signature(message@, secret@) is None,
        },
        signed is Some <==> secp256k1_public_key(secret@) is Some,
{
    match (
        libsecp256k1::Message::parse_slice(message),
        libsecp256k1::SecretKey::parse_slice(secret),
    ) {
        (Ok(message), Ok(key)) => {
            let (signature, recovery) = libsecp256k1::sign(&message, &key);
            Some((signature.serialize().to_vec(), recovery.serialize()))
        },
        _ => None,
    }
}

/// `hex::encode`: two small hexadecimal digits for each byte, in order.
#[verifier::external_body]
fn hex_encode(bytes: &Vec<u8>) -> (text: String)
    ensures
        text@ == hex_text(bytes@),
{
    hex::encode(bytes)
}

/// `hex::decode`: the bytes that a text of hexadecimal digits writes, two
/// digits to a byte, small or capital. A text with an odd number of
/// characters, or with any other character, is refused.
#[verifier::external_body]
fn hex_decode(text: &str) -> (bytes: Option<Vec<u8>>)
    ensures
        match bytes {
            Some(b) => hex_bytes(text@) == Some(b@),
            None => hex_bytes(text@) is None,
        },
{
    hex::decode(text).ok()
}

/// The address of a public key of sixty-five bytes: of the Keccak digest of
/// all its bytes but the first, taken as a message of the curve, the last
/// twenty bytes.
pub open spec fn address_of(public_key: Seq<u8>) -> Seq<u8> {
    secp256k1_message(keccak256(public_key.skip(1))).subrange(12, 32)
}

/// The address of a public key, in small hexadecimal digits.
pub fn public_key_to_address(public_key: &[u8; 65]) -> (address: String)
    ensures
        address@ == hex_text(address_of(public_key@)),
{
    let mut point: Vec<u8> = Vec::new();
    let mut i: usize = 1;
    while i < 65
        invariant
            1 <= i <= 65,
            point@ == public_key@.subrange(1, i as int),
        decreases 65 - i,
    {
        point.push(public_key[i]);
        i += 1;
    }
    let digest = message_bytes(&keccak256_digest(&point));
    let mut address: Vec<u8> = Vec::new();
    let mut j: usize = 12;
    while j < 32
        invariant
            12 <= j <= 32,
            digest@.len() == 32,
            address@ == digest@.subrange(12, j as int),
        decreases 32 - j,
    {
        address.push(digest[j]);
        j += 1;
    }
    hex_encode(&address)
}

/// Why a text is no secret key.
#[derive(Debug, Clone, Copy, PartialEq, Eq, Structural)]
pub enum KeyError {
    /// It is no even number of hexadecimal digits.
    NotHexadecimal,
    /// The bytes that it writes are no secret key of the curve.
    NotASecretKey,
}

/// A wallet: its secret key, its public key and its address.
pub struct Account {
    /// The secret key, in thirty-two bytes.
    pub secret_key: Vec<u8>,
    /// The public key, in sixty-five bytes.
    pub public_key: [u8; 65],
    /// The address, in forty small hexadecimal digits.
    pub address: String,
}

/// The wallet of a secret key that is written in hexadecimal digits.
pub fn parse_key_to_account(key: &str) -> (account: Result<Account, KeyError>)
    ensures
        match account {
            Ok(a) => hex_bytes(key@) == Some(a.secret_key@) && secp256k1_public_key(a.secret_key@)
                == Some(a.public_key@) && a.address@ == hex_text(address_of(a.public_key@)),
            Err(KeyError::NotHexadecimal) => hex_bytes(key@) is None,
            Err(KeyError::NotASecretKey) => hex_bytes(key@) is Some && secp256k1_public_key(
                hex_bytes(key@).unwrap(),
            ) is None,
        },
{
    match hex_decode(key) {
        None => Err(KeyError::NotHexadecimal),
        Some(secret_key) => match derive_public_key(&secret_key) {
            None => Err(KeyError::NotASecretKey),
            Some(public_key) => {
                let address = public_key_to_address(&public_key);
                Ok(Account { secret_key, public_key, address })
            },
        },
    }
}

/// What is hashed for a message that is signed: a fixed beginning, the
/// number of the message's bytes in decimal, and the message.
pub open spec fn eip191_payload(message: Seq<char>) -> Seq<u8> {
    encode_utf8("\x19Ethereum Signed Message:\n"@) + encode_utf8(
        decimal(encode_utf8(message).len()),
    ) + encode_utf8(message)
}

/// The digest of a message that is signed, as a message of the curve: the
/// Keccak digest of the message with a fixed beginning and its length before
/// it.
pub fn eip191_hash(message: &str) -> (digest: Vec<u8>)
    ensures
        digest@ == secp256k1_message(keccak256(eip191_payload(message@))),
        digest@.len() == 32,
{
    let count = message.as_bytes().len();
    let length = from_chars(&decimal_chars(count as u64));
    let mut data: Vec<u8> = Vec::new();
    append_bytes(&mut data, "\x19Ethereum Signed Message:\n");
    append_bytes(&mut data, length.as_str());
    append_bytes(&mut data, message);
    message_bytes(&keccak256_digest(&data))
}

/// Adds the bytes of a text to the end of `out`.
fn append_bytes(out: &mut Vec<u8>, text: &str)
    ensures
        final(out)@ == old(out)@ + encode_utf8(text@),
{
    let bytes = text.as_bytes();
    let mut i: usize = 0;
    while i < bytes.len()
        invariant
            i <= bytes.len(),
            bytes@ == encode_utf8(text@),
            out@ == old(out)@ + bytes@.take(i as int),
        decreases bytes.len() - i,
    {
        out.push(bytes[i]);
        i += 1;
    }
}

/// A signature as it is sent: sixty-four bytes in hexadecimal digits, and
/// the number that tells which public key it is of.
pub struct SignedMessage {
    pub signature: String,
    pub recovery_id: u8,
}

/// Signs a message with a secret key: the signature of the message's digest,
/// or nothing where the bytes are no secret key.
pub fn sign_message(message: &str, secret_key: &Vec<u8>) -> (signed: Option<SignedMessage>)
    ensures
        match signed {
            Some(s) => match secp256k1_signature(
                secp256k1_message(keccak256(eip191_payload(message@))),
                secret_key@,
            ) {
                Some((signature, recovery_id)) => s.signature@ == hex_text(signature)
                    && s.recovery_id == recovery_id,
                None => false,
            },
            None => secp256k1_public_key(secret_key@) is None,
        },
        signed is Some <==> secp256k1_public_key(secret_key@) is Some,
{
    let digest = eip191_hash(message);
    match sign_bytes(&digest, secret_key) {
        Some((signature, recovery_id)) => Some(
            SignedMessage { signature: hex_encode(&signature), recovery_id },
        ),
        None => None,
    }
}

} // verus!
