//! Referral codes: the addresses of the service that hands them out, what is
//! sent to it, and what is shown to the user.

use crate::crypto::{
    eip191_payload, hex_text, keccak256, secp256k1_message, secp256k1_public_key,
    secp256k1_signature, sign_message,
};
use crate::text::{decimal, decimal_chars, extend_chars, from_chars, to_chars};
use vstd::prelude::*;
use vstd::utf8::encode_utf8;

verus! {

/// A text as JSON writes it: between double quotes, with what JSON cannot
/// hold as it is written as an escape.
pub uninterp spec fn json_string(text: Seq<char>) -> Seq<char>;

/// `serde_json::Value::String` written out by `to_string`: the text as a
/// JSON string. The result is given the name [`json_string`].
#[verifier::external_body]
fn to_json_string(text: &str) -> (json: Vec<char>)
    ensures
        json@ == json_string(text@),
{
    serde_json::Value::String(text.to_owned()).to_string().chars().collect()
}

/// Whether a byte stands for itself in an address: a letter or a digit of
/// ASCII, or one of `-`, `.`, `_` and `~`.
pub open spec fn is_unreserved(byte: u8) -> bool {
    (0x30 <= byte <= 0x39) || (0x41 <= byte <= 0x5a) || (0x61 <= byte <= 0x7a) || byte == 0x2d
        || byte == 0x2e || byte == 0x5f || byte == 0x7e
}

/// The character of a number below sixteen in capital hexadecimal digits.
pub open spec fn capital_hex_digit(n: nat) -> char {
    if n < 10 {
        crate::text::digit_char(n)
    } else if n == 10 {
        'A'
    } else if n == 11 {
        'B'
    } else if n == 12 {
        'C'
    } else if n == 13 {
        'D'
    } else if n == 14 {
        'E'
    } else {
        'F'
    }
}

/// Bytes as they are written into an address: a byte that stands for itself
/// as it is, any other as `%` and its two capital hexadecimal digits.
pub open spec fn percent_encoded(bytes: Seq<u8>) -> Seq<char>
    decreases bytes.len(),
{
    if bytes.len() == 0 {
        seq![]
    } else {
        let byte = bytes.last();
        if is_unreserved(byte) {
            percent_encoded(bytes.drop_last()).push(byte as char)
        } else {
            percent_encoded(bytes.drop_last()).push('%').push(
                capital_hex_digit(byte as nat / 16),
            ).push(capital_hex_digit(byte as nat % 16))
        }
    }
}

/// `urlencoding::encode`: the bytes of the text, each as it is if it is a
/// letter or a digit of ASCII or one of `-`, `.`, `_` and `~`, and else as
/// `%` and its two capital hexadecimal digits.
#[verifier::external_body]
fn url_encode(text: &str) -> (encoded: Vec<char>)
    ensures
        encoded@ == percent_encoded(encode_utf8(text@)),
{
    urlencoding::encode(text).chars().collect()
}

/// The address of the referral service on the given network.
pub open spec fn referrals_api_base_url(network: Seq<char>) -> Seq<char> {
    "https://"@ + network + ".dkn.dria.co/referral/v0"@
}

/// The address of the referral service on the given network.
pub fn get_referrals_api_base_url(network: &str) -> (url: String)
    ensures
        url@ == referrals_api_base_url(network@),
{
    let mut text = to_chars("https://");
    extend_chars(&mut text, &to_chars(network));
    extend_chars(&mut text, &to_chars(".dkn.dria.co/referral/v0"));
    from_chars(&text)
}

/// What the user can do about referrals.
#[derive(Debug, Clone, Copy, PartialEq, Eq, Structural)]
pub enum ReferralCommands {
    GetReferralCode,
    EnterReferralCode,
    ShowReferrals,
    ShowReferredBy,
}

impl ReferralCommands {
    /// All commands, in the order of the menu.
    pub fn all() -> (commands: Vec<ReferralCommands>)
        ensures
            commands@ == seq![
                ReferralCommands::GetReferralCode,
                ReferralCommands::EnterReferralCode,
                ReferralCommands::ShowReferrals,
                ReferralCommands::ShowReferredBy,
            ],
    {
        let mut commands: Vec<ReferralCommands> = Vec::new();
        commands.push(ReferralCommands::GetReferralCode);
        commands.push(ReferralCommands::EnterReferralCode);
        commands.push(ReferralCommands::ShowReferrals);
        commands.push(ReferralCommands::ShowReferredBy);
        assert(commands@ =~= seq![
            ReferralCommands::GetReferralCode,
            ReferralCommands::EnterReferralCode,
            ReferralCommands::ShowReferrals,
            ReferralCommands::ShowReferredBy,
        ]);
        commands
    }

    /// The command as the menu shows it.
    pub fn label(&self) -> (text: &'static str)
        ensures
            text@ == match *self {
                ReferralCommands::GetReferralCode => "Get referral code to refer someone"@,
                ReferralCommands::EnterReferralCode => "Enter referral code to be referred"@,
                ReferralCommands::ShowReferrals => "List addresses referred by you"@,
                ReferralCommands::ShowReferredBy => "Show the address that referred you"@,
            },
    {
        match self {
            ReferralCommands::GetReferralCode => "Get referral code to refer someone",
            ReferralCommands::EnterReferralCode => "Enter referral code to be referred",
            ReferralCommands::ShowReferrals => "List addresses referred by you",
            ReferralCommands::ShowReferredBy => "Show the address that referred you",
        }
    }
}

/// Talks to the referral service at one address. It makes the addresses to
/// ask and the bodies to send; the asking itself is done by whoever uses it.
pub struct ReferralsClient {
    base_url: String,
}

impl View for ReferralsClient {
    type V = Seq<char>;

    /// The address of the service.
    closed spec fn view(&self) -> Seq<char> {
        self.base_url@
    }
}

/// What is sent to ask for a challenge: the address of the wallet.
pub open spec fn challenge_body(address: Seq<char>) -> Seq<char> {
    "{\"address\":"@ + json_string(address) + "}"@
}

/// What is sent with a signature: the signed text under the given name, and
/// the signature with the number that tells which public key it is of.
pub open spec fn signed_body(name: Seq<char>, text: Seq<char>, signature: Seq<char>, recovery_id: u8) -> Seq<
    char,
> {
    "{"@ + json_string(name) + ":"@ + json_string(text) + ",\"sig\":{\"recoveryId\":"@ + decimal(
        recovery_id as nat,
    ) + ",\"signature\":"@ + json_string(signature) + "}}"@
}

impl ReferralsClient {
    /// A client of the service at `base_url`.
    pub fn new(base_url: String) -> (client: ReferralsClient)
        ensures
            client@ == base_url@,
    {
        ReferralsClient { base_url }
    }

    /// The address of the service with `path` and `last` after it.
    fn url(&self, path: &str, last: &str) -> (url: String)
        ensures
            url@ == self@ + path@ + last@,
    {
        let mut text = to_chars(self.base_url.as_str());
        extend_chars(&mut text, &to_chars(path));
        extend_chars(&mut text, &to_chars(last));
        from_chars(&text)
    }

    /// The address of the service with `path` after it.
    fn endpoint(&self, path: &str) -> (url: String)
        ensures
            url@ == self@ + path@,
    {
        let mut text = to_chars(self.base_url.as_str());
        extend_chars(&mut text, &to_chars(path));
        from_chars(&text)
    }

    /// Where to ask whom the wallet at `address` has referred.
    pub fn get_referrals(&self, address: &str) -> (url: String)
        ensures
            url@ == self@ + "/get_referrals/"@ + address@,
    {
        self.url("/get_referrals/", address)
    }

    /// Where to ask who has referred the wallet at `address`.
    pub fn get_referred_by(&self, address: &str) -> (url: String)
        ensures
            url@ == self@ + "/get_referred_by/"@ + address@,
    {
        self.url("/get_referred_by/", address)
    }

    /// Where to ask how often the code of the wallet at `address` can be
    /// used.
    pub fn get_max_uses(&self, address: &str) -> (url: String)
        ensures
            url@ == self@ + "/get_max_uses/"@ + address@,
    {
        self.url("/get_max_uses/", address)
    }

    /// Where to ask for a challenge, and what to send: the address of the
    /// wallet.
    pub fn get_challenge(&self, address: &str) -> (request: (String, String))
        ensures
            request.0@ == self@ + "/get_challenge"@,
            request.1@ == challenge_body(address@),
    {
        let mut body = to_chars("{\"address\":");
        extend_chars(&mut body, &to_json_string(address));
        extend_chars(&mut body, &to_chars("}"));
        (self.endpoint("/get_challenge"), from_chars(&body))
    }

    /// Where to ask for the referral code once the challenge is there, and
    /// what to send: the challenge and its signature with the wallet's
    /// secret key. Nothing where the bytes given are no secret key.
    pub fn get_referral_code(&self, secret_key: &Vec<u8>, challenge: &str) -> (request: Option<
        (String, String),
    >)
        ensures
            match request {
                Some(r) => r.0@ == self@ + "/get_code"@ && match secp256k1_signature(
                    secp256k1_message(keccak256(eip191_payload(challenge@))),
                    secret_key@,
                ) {
                    Some((signature, recovery_id)) => r.1@ == signed_body(
                        "challenge"@,
                        challenge@,
                        hex_text(signature),
                        recovery_id,
                    ),
                    None => false,
                },
                None => secp256k1_public_key(secret_key@) is None,
            },
    {
        match signed(secret_key, "challenge", challenge) {
            Some(body) => Some((self.endpoint("/get_code"), body)),
            None => None,
        }
    }

    /// Where to enter a referral code, and what to send: the code and its
    /// signature with the wallet's secret key. Nothing where the bytes given
    /// are no secret key.
    pub fn enter_referral_code(&self, secret_key: &Vec<u8>, code: &str) -> (request: Option<
        (String, String),
    >)
        ensures
            match request {
                Some(r) => r.0@ == self@ + "/refer"@ && match secp256k1_signature(
                    secp256k1_message(keccak256(eip191_payload(code@))),
                    secret_key@,
                ) {
                    Some((signature, recovery_id)) => r.1@ == signed_body(
                        "code"@,
                        code@,
                        hex_text(signature),
                        recovery_id,
                    ),
                    None => false,
                },
                None => secp256k1_public_key(secret_key@) is None,
            },
    {
        match signed(secret_key, "code", code) {
            Some(body) => Some((self.endpoint("/refer"), body)),
            None => None,
        }
    }
}

/// The body that holds `text` under `name`, and its signature.
fn signed(secret_key: &Vec<u8>, name: &str, text: &str) -> (body: Option<String>)
    ensures
        match body {
            Some(b) => match secp256k1_signature(
                secp256k1_message(keccak256(eip191_payload(text@))),
                secret_key@,
            ) {
                Some((signature, recovery_id)) => b@ == signed_body(
                    name@,
                    text@,
                    hex_text(signature),
                    recovery_id,
                ),
                None => false,
            },
            None => secp256k1_public_key(secret_key@) is None,
        },
{
    match sign_message(text, secret_key) {
        None => None,
        Some(signed) => {
            let mut body = to_chars("{");
            extend_chars(&mut body, &to_json_string(name));
            extend_chars(&mut body, &to_chars(":"));
            extend_chars(&mut body, &to_json_string(text));
            extend_chars(&mut body, &to_chars(",\"sig\":{\"recoveryId\":"));
            extend_chars(&mut body, &decimal_chars(signed.recovery_id as u64));
            extend_chars(&mut body, &to_chars(",\"signature\":"));
            extend_chars(&mut body, &to_json_string(signed.signature.as_str()));
            extend_chars(&mut body, &to_chars("}}"));
            Some(from_chars(&body))
        },
    }
}

/// Whether an answer from the service says that the asker is at fault: its
/// status is from 400 to 499.
pub fn is_client_error(status: u16) -> (yes: bool)
    ensures
        yes == (400 <= status < 500),
{
    400 <= status && status < 500
}

/// Whether an answer from the service reports success: its status is from
/// 200 to 299.
pub fn is_success(status: u16) -> (yes: bool)
    ensures
        yes == (200 <= status < 300),
{
    200 <= status && status < 300
}

/// Whether a text can be a referral code: it can if it has twenty bytes.
pub fn validate_referral_code(code: &str) -> (valid: bool)
    ensures
        valid == (encode_utf8(code@).len() == 20),
{
    code.as_bytes().len() == 20
}

/// Whether no more users can be referred: as many were referred as the code
/// can be used.
pub fn has_reached_max_uses(referred: usize, max_uses: usize) -> (reached: bool)
    ensures
        reached == (referred >= max_uses),
{
    referred >= max_uses
}

/// The text of the message that invites to use a referral code.
pub open spec fn tweet_text(code: Seq<char>) -> Seq<char> {
    "The edges are waking up.\n\nDria is building a decentralized AI network, and you can be part of it.\n\nRun a node, contribute to AI inference, and earn $DRIA Points along the way.\n\nUse my referral code "@
        + code + " to get started: https://dria.co/join"@
}

/// The address that opens a message to share a referral code.
pub fn tweet_url(code: &str) -> (url: String)
    ensures
        url@ == "https://x.com/intent/tweet?text="@ + percent_encoded(
            encode_utf8(tweet_text(code@)),
        ) + "&related=driaforall"@,
{
    let mut text = to_chars(
        "The edges are waking up.\n\nDria is building a decentralized AI network, and you can be part of it.\n\nRun a node, contribute to AI inference, and earn $DRIA Points along the way.\n\nUse my referral code ",
    );
    extend_chars(&mut text, &to_chars(code));
    extend_chars(&mut text, &to_chars(" to get started: https://dria.co/join"));
    let message = from_chars(&text);
    let mut url = to_chars("https://x.com/intent/tweet?text=");
    extend_chars(&mut url, &url_encode(message.as_str()));
    extend_chars(&mut url, &to_chars("&related=driaforall"));
    from_chars(&url)
}

} // verus!
