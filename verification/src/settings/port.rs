//! The port that the compute node listens on, as part of its listen
//! address.

use crate::env::{is_known_key, key_names, lemma_key_names, DriaEnv};
use crate::text::{
    chars_eq, decimal, decimal_chars, from_chars, join, join_chars, parse_bounded, parse_chars,
    split, split_chars, to_chars, views,
};
use vstd::prelude::*;

verus! {

/// The listen address where the settings hold none.
pub const DEFAULT_LISTEN_ADDR: &'static str = "/ip4/0.0.0.0/tcp/4001";

/// Why a port cannot be read or set.
#[derive(Debug, Clone, Copy, PartialEq, Eq, Structural)]
pub enum PortError {
    /// The listen address does not begin with `/ip4/0.0.0.0/tcp/`.
    NotAListenAddress,
    /// The port is no number of sixteen bits.
    InvalidPort,
}

impl PortError {
    /// What to tell the user.
    pub fn message(&self) -> (text: &'static str)
        ensures
            text@ == match *self {
                PortError::NotAListenAddress =>
                    "The listen address must start with \"/ip4/0.0.0.0/tcp\"."@,
                PortError::InvalidPort => "Port must be a valid 16-bit unsigned integer."@,
            },
    {
        match self {
            PortError::NotAListenAddress =>
                "The listen address must start with \"/ip4/0.0.0.0/tcp\".",
            PortError::InvalidPort => "Port must be a valid 16-bit unsigned integer.",
        }
    }
}

/// The listen address of the settings, or the default one.
pub open spec fn listen_address(entries: Map<Seq<char>, Seq<char>>) -> Seq<char> {
    if entries.contains_key("DKN_P2P_LISTEN_ADDR"@) {
        entries["DKN_P2P_LISTEN_ADDR"@]
    } else {
        "/ip4/0.0.0.0/tcp/4001"@
    }
}

/// Whether the parts of an address between its slashes are those of a
/// listen address: at least five, of which the second to the fourth are
/// `ip4`, `0.0.0.0` and `tcp`.
pub open spec fn is_listen_address(parts: Seq<Seq<char>>) -> bool {
    parts.len() >= 5 && parts[1] == "ip4"@ && parts[2] == "0.0.0.0"@ && parts[3] == "tcp"@
}

/// The port of a listen address: its fifth part, as a number.
pub open spec fn listen_port(address: Seq<char>) -> Result<nat, PortError> {
    let parts = split(address, '/');
    if !is_listen_address(parts) {
        Err(PortError::NotAListenAddress)
    } else {
        match parse_bounded(parts[4], 65535) {
            Some(port) => Ok(port),
            None => Err(PortError::InvalidPort),
        }
    }
}

/// A listen address with another port: its fifth part is replaced.
pub open spec fn with_port(address: Seq<char>, port: Seq<char>) -> Seq<char> {
    join(split(address, '/').update(4, port), seq!['/'])
}

/// What an answer to the question for the port does to the settings, given
/// the listen address that they hold.
pub open spec fn port_edit(entries: Map<Seq<char>, Seq<char>>, new_port: Seq<char>) -> Result<
    Map<Seq<char>, Seq<char>>,
    PortError,
> {
    match listen_port(listen_address(entries)) {
        Err(e) => Err(e),
        Ok(port) => if parse_bounded(new_port, 65535) is None {
            Err(PortError::InvalidPort)
        } else if new_port == decimal(port) {
            Ok(entries)
        } else {
            Ok(entries.insert("DKN_P2P_LISTEN_ADDR"@, with_port(listen_address(entries), new_port)))
        },
    }
}

/// The parts of the listen address of the settings.
fn address_parts(dria_env: &DriaEnv) -> (parts: Vec<Vec<char>>)
    ensures
        views(parts@) == split(listen_address(dria_env@), '/'),
{
    let address = match dria_env.get(DriaEnv::DKN_P2P_LISTEN_ADDR_KEY) {
        Some(a) => to_chars(a),
        None => to_chars(DEFAULT_LISTEN_ADDR),
    };
    split_chars(&address, '/')
}

/// The port in the parts of a listen address.
fn port_of(parts: &Vec<Vec<char>>) -> (port: Result<u16, PortError>)
    ensures
        match port {
            Ok(p) => is_listen_address(views(parts@)) && parse_bounded(views(parts@)[4], 65535)
                == Some(p as nat),
            Err(PortError::NotAListenAddress) => !is_listen_address(views(parts@)),
            Err(PortError::InvalidPort) => is_listen_address(views(parts@)) && parse_bounded(
                views(parts@)[4],
                65535,
            ) is None,
        },
{
    if parts.len() < 5 {
        return Err(PortError::NotAListenAddress);
    }
    if !chars_eq(&parts[1], &to_chars("ip4")) || !chars_eq(&parts[2], &to_chars("0.0.0.0"))
        || !chars_eq(&parts[3], &to_chars("tcp")) {
        return Err(PortError::NotAListenAddress);
    }
    match parse_chars(&parts[4], 65535) {
        Some(port) => Ok(port as u16),
        None => Err(PortError::InvalidPort),
    }
}

/// The port that the compute node listens on: the fifth part of the listen
/// address of the settings, or of the default one.
pub fn get_port(dria_env: &DriaEnv) -> (port: Result<u16, PortError>)
    ensures
        match port {
            Ok(p) => listen_port(listen_address(dria_env@)) == Ok::<nat, PortError>(p as nat),
            Err(e) => listen_port(listen_address(dria_env@)) == Err::<nat, PortError>(e),
        },
{
    let parts = address_parts(dria_env);
    port_of(&parts)
}

/// What an answer to the question for the port does to the settings. An
/// answer that is no number of sixteen bits is refused, and so is any answer
/// while the listen address is none. An answer that reads as the port does
/// now changes nothing; any other answer replaces the port in the listen
/// address.
pub fn edit_port(dria_env: &mut DriaEnv, new_port: &str) -> (done: Result<(), PortError>)
    ensures
        match done {
            Ok(()) => port_edit(old(dria_env)@, new_port@) == Ok::<
                Map<Seq<char>, Seq<char>>,
                PortError,
            >(final(dria_env)@),
            Err(e) => port_edit(old(dria_env)@, new_port@) == Err::<
                Map<Seq<char>, Seq<char>>,
                PortError,
            >(e) && final(dria_env)@ == old(dria_env)@,
        },
        final(dria_env).changed() == (old(dria_env).changed() || (done is Ok && match listen_port(
            listen_address(old(dria_env)@),
        ) {
            Ok(port) => new_port@ != decimal(port),
            Err(_) => false,
        })),
{
    let mut parts = address_parts(dria_env);
    let port = match port_of(&parts) {
        Ok(p) => p,
        Err(e) => {
            return Err(e);
        },
    };
    let answer = to_chars(new_port);
    if parse_chars(&answer, 65535).is_none() {
        return Err(PortError::InvalidPort);
    }
    if chars_eq(&answer, &decimal_chars(port as u64)) {
        return Ok(());
    }
    let ghost before = views(parts@);
    parts.set(4, answer);
    assert(views(parts@) =~= before.update(4, new_port@));
    let mut slash: Vec<char> = Vec::new();
    slash.push('/');
    let address = join_chars(&parts, &slash);
    proof {
        lemma_key_names();
    }
    dria_env.set(DriaEnv::DKN_P2P_LISTEN_ADDR_KEY, from_chars(&address));
    Ok(())
}

} // verus!
