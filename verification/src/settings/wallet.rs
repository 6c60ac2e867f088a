//! The wallet's secret key as the user types it.

use crate::env::{is_known_key, key_names, lemma_key_names, DriaEnv};
use crate::text::{from_chars, to_chars, trim_prefixes, trim_start_matches};
use vstd::prelude::*;
use vstd::string::StringExecFns;
use vstd::utf8::{decode_utf8, encode_utf8, encode_utf8_decode_utf8, is_char_boundary};

verus! {

/// Whether an answer to the question for the secret key is taken: it is if,
/// without any `0x` before it, it has sixty-four bytes; and the empty answer
/// is taken where the question may be skipped or a key is there already.
pub open spec fn is_acceptable_secret(secret: Seq<char>, skippable: bool, has_existing: bool) -> bool {
    encode_utf8(trim_start_matches(secret, "0x"@)).len() == 64 || (secret.len() == 0 && (skippable
        || has_existing))
}

/// Whether an answer to the question for the secret key is taken.
pub fn validate_secret(secret: &str, skippable: bool, has_existing: bool) -> (taken: bool)
    ensures
        taken == is_acceptable_secret(secret@, skippable, has_existing),
{
    let bare = from_chars(&trim_prefixes(&to_chars(secret), &to_chars("0x")));
    if bare.as_str().as_bytes().len() == 64 {
        true
    } else {
        secret.is_empty() && (skippable || has_existing)
    }
}

/// What an answer to the question for the secret key does to the settings:
/// an answer that is taken and not empty becomes the secret key; the empty
/// answer, and one that is not taken, change nothing. Tells whether the
/// answer was taken; where it was not, the question is to be asked again.
pub fn edit_wallet(dria_env: &mut DriaEnv, skippable: bool, new_secret: String) -> (taken: bool)
    ensures
        taken == is_acceptable_secret(
            new_secret@,
            skippable,
            old(dria_env)@.contains_key("DKN_WALLET_SECRET_KEY"@),
        ),
        final(dria_env)@ == if taken && new_secret@.len() > 0 {
            old(dria_env)@.insert("DKN_WALLET_SECRET_KEY"@, new_secret@)
        } else {
            old(dria_env)@
        },
        final(dria_env).changed() == (old(dria_env).changed() || (taken && new_secret@.len() > 0)),
{
    let has_existing = dria_env.get(DriaEnv::DKN_WALLET_KEY).is_some();
    if !validate_secret(new_secret.as_str(), skippable, has_existing) {
        return false;
    }
    if !new_secret.as_str().is_empty() {
        proof {
            lemma_key_names();
        }
        dria_env.set(DriaEnv::DKN_WALLET_KEY, new_secret);
    }
    true
}

/// A run of `n` asterisks.
pub open spec fn stars(n: int) -> Seq<char> {
    Seq::new(
        if n > 0 {
            n as nat
        } else {
            0
        },
        |i: int| '*',
    )
}

/// Whether a secret can be shown masked: it can if it has at most four
/// bytes, or else if its first two bytes after any `0x`, and its last two
/// bytes, are whole characters.
pub open spec fn can_mask(secret: Seq<char>) -> bool {
    let bytes = encode_utf8(secret);
    let bare = encode_utf8(trim_start_matches(secret, "0x"@));
    bytes.len() <= 4 || (is_char_boundary(bare, 2) && is_char_boundary(bytes, bytes.len() - 2))
}

/// A secret as it is shown: one of at most four bytes as it is; a longer
/// one as its first two bytes after any `0x`, an asterisk for each of its
/// bytes but four, and its last two bytes.
pub open spec fn masked(secret: Seq<char>) -> Seq<char> {
    let bytes = encode_utf8(secret);
    let bare = encode_utf8(trim_start_matches(secret, "0x"@));
    if bytes.len() <= 4 {
        secret
    } else {
        decode_utf8(bare.subrange(0, 2)) + stars(bytes.len() - 4) + decode_utf8(
            bytes.subrange(bytes.len() - 2, bytes.len() as int),
        )
    }
}

/// Whether a secret can be shown masked.
pub fn is_maskable(secret: &str) -> (can: bool)
    ensures
        can == can_mask(secret@),
{
    let count = secret.as_bytes().len();
    if count <= 4 {
        return true;
    }
    let bare = from_chars(&trim_prefixes(&to_chars(secret), &to_chars("0x")));
    bare.as_str().is_char_boundary(2) && secret.is_char_boundary(count - 2)
}

/// A secret as it is shown to the user.
pub fn mask(secret: &str) -> (shown: String)
    requires
        can_mask(secret@),
    ensures
        shown@ == masked(secret@),
{
    let count = secret.as_bytes().len();
    if count <= 4 {
        return String::from_str(secret);
    }
    let bare = from_chars(&trim_prefixes(&to_chars(secret), &to_chars("0x")));
    let (head, _) = bare.as_str().split_at(2);
    let (_, tail) = secret.split_at(count - 2);
    proof {
        encode_utf8_decode_utf8(head@);
        encode_utf8_decode_utf8(tail@);
    }
    let mut shown = String::from_str(head);
    let mut i: usize = 0;
    while i < count - 4
        invariant
            i <= count - 4,
            count > 4,
            shown@ == head@ + stars(i as int),
        decreases count - 4 - i,
    {
        shown.push('*');
        i += 1;
    }
    shown.append(tail);
    shown
}

} // verus!
