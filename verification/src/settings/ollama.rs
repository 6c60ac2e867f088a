//! Where the Ollama server is, as the user sets it.

use crate::env::{is_known_key, key_names, lemma_key_names, ollama_host, ollama_port, DriaEnv};
use crate::text::{parse_bounded, parse_chars, str_eq, to_chars};
use vstd::prelude::*;

verus! {

/// Whether a text is read as an absolute address by `Url::parse`.
pub uninterp spec fn url_parses(text: Seq<char>) -> bool;

/// `reqwest::Url::parse`: whether the text is read as an absolute address.
/// The answer is given the name [`url_parses`].
#[verifier::external_body]
fn is_url(text: &str) -> (yes: bool)
    ensures
        yes == url_parses(text@),
{
    reqwest::Url::parse(text).is_ok()
}

/// Why an answer for the Ollama server is refused.
#[derive(Debug, Clone, Copy, PartialEq, Eq, Structural)]
pub enum OllamaSettingError {
    /// The host is no address.
    InvalidHost,
    /// The port is no number of sixteen bits.
    InvalidPort,
}

/// Whether a host is taken: it is if it is read as an absolute address.
pub fn validate_host(host: &str) -> (taken: bool)
    ensures
        taken == url_parses(host@),
{
    is_url(host)
}

/// Whether a port is taken: it is if it is a number of sixteen bits.
pub fn validate_port(port: &str) -> (taken: bool)
    ensures
        taken == parse_bounded(port@, 65535) is Some,
{
    parse_chars(&to_chars(port), 65535).is_some()
}

/// The settings after the answers for the Ollama server are taken in: the
/// host is stored if it differs from the host that was there, and the port
/// is stored if, as a text, it differs from that same host.
pub open spec fn ollama_edit(
    entries: Map<Seq<char>, Seq<char>>,
    new_host: Seq<char>,
    new_port: Seq<char>,
) -> Map<Seq<char>, Seq<char>> {
    let host = ollama_host(entries);
    let with_host = if new_host != host {
        entries.insert("OLLAMA_HOST"@, new_host)
    } else {
        entries
    };
    if new_port != host {
        with_host.insert("OLLAMA_PORT"@, new_port)
    } else {
        with_host
    }
}

/// What the answers to the questions for the Ollama server do to the
/// settings. A host that is no address and a port that is no number of
/// sixteen bits are refused, and then nothing changes. The port that the
/// settings hold must itself be such a number.
pub fn edit_ollama(dria_env: &mut DriaEnv, new_host: String, new_port: String) -> (done: Result<
    (),
    OllamaSettingError,
>)
    requires
        ollama_port(old(dria_env)@) is Some,
    ensures
        match done {
            Ok(()) => url_parses(new_host@) && parse_bounded(new_port@, 65535) is Some && final(dria_env)@ == ollama_edit(old(dria_env)@, new_host@, new_port@),
            Err(OllamaSettingError::InvalidHost) => !url_parses(new_host@) && final(dria_env)@
                == old(dria_env)@,
            Err(OllamaSettingError::InvalidPort) => url_parses(new_host@) && parse_bounded(
                new_port@,
                65535,
            ) is None && final(dria_env)@ == old(dria_env)@,
        },
        final(dria_env).changed() == (old(dria_env).changed() || (done is Ok && (new_host@
            != ollama_host(old(dria_env)@) || new_port@ != ollama_host(old(dria_env)@)))),
{
    if !validate_host(new_host.as_str()) {
        return Err(OllamaSettingError::InvalidHost);
    }
    if !validate_port(new_port.as_str()) {
        return Err(OllamaSettingError::InvalidPort);
    }
    let (existing_host, _) = dria_env.get_ollama_config();
    let host_changed = !str_eq(new_host.as_str(), existing_host);
    let port_differs = !str_eq(new_port.as_str(), existing_host);
    proof {
        lemma_key_names();
    }
    if host_changed {
        dria_env.set(DriaEnv::OLLAMA_HOST_KEY, new_host);
    }
    if port_differs {
        dria_env.set(DriaEnv::OLLAMA_PORT_KEY, new_port);
    }
    Ok(())
}

} // verus!
