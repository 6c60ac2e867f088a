//! The commands of the launcher, and the names and addresses that they work
//! with.

use crate::text::{extend_chars, from_chars, to_chars, trim_prefixes, trim_start_matches};
use vstd::prelude::*;

verus! {

/// Whether a character is a letter or a digit, as `char::is_alphanumeric`
/// tells.
pub uninterp spec fn alphanumeric(c: char) -> bool;

/// `char::is_alphanumeric`: whether the character is a letter or a number by
/// the character tables of Unicode. The result is given the name
/// [`alphanumeric`].
#[verifier::external_body]
fn is_alphanumeric(c: char) -> (yes: bool)
    ensures
        yes == alphanumeric(c),
{
    c.is_alphanumeric()
}

/// What the launcher can be asked to do.
#[derive(Debug, Clone, PartialEq, Eq)]
pub enum Commands {
    /// Change the settings of the compute node.
    Settings,
    /// Set up the settings file anew.
    Setup,
    /// Start the latest compute node.
    Start,
    /// Make or enter a referral code.
    Referrals,
    /// Show the points.
    Points,
    /// Remove the launcher and its files.
    Uninstall,
    /// Show the settings that are in use.
    Info,
    /// Update the compute node and the launcher by hand.
    Update,
    /// Download a chosen version of the compute node.
    Specific {
        /// Whether to run it at once.
        run: bool,
        /// The version to download; where none is given, it is asked for.
        tag: Option<String>,
    },
    /// Open the settings file in an editor.
    EnvEditor,
}

impl Commands {
    /// Whether the command starts a compute node and stays with it.
    pub fn runs_compute_node(&self) -> (runs: bool)
        ensures
            runs == match *self {
                Commands::Start => true,
                Commands::Specific { run, tag: _ } => run,
                _ => false,
            },
    {
        match self {
            Commands::Start => true,
            Commands::Specific { run, tag: _ } => *run,
            _ => false,
        }
    }

    /// Whether the compute node that the command starts is kept up to date:
    /// the latest one is, a chosen version is not.
    pub fn checks_updates(&self) -> (checks: bool)
        ensures
            checks == (*self is Start),
    {
        match self {
            Commands::Start => true,
            _ => false,
        }
    }
}

/// Whether a text is a name for a profile: it holds letters, digits, `-`
/// and `_` only.
pub open spec fn is_profile_name(profile: Seq<char>) -> bool {
    forall|i: int|
        0 <= i < profile.len() ==> alphanumeric(#[trigger] profile[i]) || profile[i] == '-'
            || profile[i] == '_'
}

/// A text that is no name for a profile was given as one.
#[derive(Debug, Clone, Copy, PartialEq, Eq, Structural)]
pub struct InvalidProfile;

impl InvalidProfile {
    /// What to tell the user.
    pub fn message(&self) -> (text: &'static str)
        ensures
            text@ == "Profile name must contain only alphanumeric characters, '-', or '_'"@,
    {
        "Profile name must contain only alphanumeric characters, '-', or '_'"
    }
}

/// The name of a profile, as it was given, if it is one.
pub fn parse_profile(profile: &str) -> (parsed: Result<String, InvalidProfile>)
    ensures
        match parsed {
            Ok(name) => is_profile_name(profile@) && name@ == profile@,
            Err(_) => !is_profile_name(profile@),
        },
{
    let text = to_chars(profile);
    let mut i: usize = 0;
    while i < text.len()
        invariant
            i <= text.len(),
            text@ == profile@,
            forall|j: int|
                0 <= j < i ==> alphanumeric(#[trigger] text@[j]) || text@[j] == '-' || text@[j]
                    == '_',
        decreases text.len() - i,
    {
        let c = text[i];
        if !(is_alphanumeric(c) || c == '-' || c == '_') {
            return Err(InvalidProfile);
        }
        i += 1;
    }
    Ok(String::from_str(profile))
}

/// The name of the settings file of a profile: the name of the settings
/// file, a dot and the profile.
pub fn profile_file_name(file_name: &str, profile: &str) -> (name: String)
    ensures
        name@ == file_name@ + seq!['.'] + profile@,
{
    let mut text = to_chars(file_name);
    text.push('.');
    extend_chars(&mut text, &to_chars(profile));
    from_chars(&text)
}

/// The address that tells the points of the node with the given address, on
/// the given network.
pub open spec fn points_api_url(network: Seq<char>, address: Seq<char>) -> Seq<char> {
    "https://"@ + network + ".dkn.dria.co/points/v0/total/node/0x"@ + trim_start_matches(
        address,
        "0x"@,
    )
}

/// The address that tells the points of the node with the given address, on
/// the given network. The node's address may be given with `0x` before it or
/// without.
pub fn get_points_api_url(network: &str, address: &str) -> (url: String)
    ensures
        url@ == points_api_url(network@, address@),
{
    let bare = trim_prefixes(&to_chars(address), &to_chars("0x"));
    let mut text = to_chars("https://");
    extend_chars(&mut text, &to_chars(network));
    extend_chars(&mut text, &to_chars(".dkn.dria.co/points/v0/total/node/0x"));
    extend_chars(&mut text, &bare);
    from_chars(&text)
}

} // verus!
