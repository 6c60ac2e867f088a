//! What the settings menu offers and what its answers do to the settings.

pub mod apikey;
pub mod loglevel;
pub mod ollama;
pub mod port;
pub mod wallet;

use vstd::prelude::*;

verus! {

/// The entries of the settings menu.
#[derive(Debug, Clone, Copy, PartialEq, Eq, Structural)]
pub enum Settings {
    /// The wallet's secret key.
    Wallet,
    /// The port that the compute node listens on.
    Port,
    /// The models that the compute node serves.
    Models,
    /// Where the Ollama server is.
    Ollama,
    /// The keys of the model providers.
    ApiKeys,
    /// How much is logged.
    LogLevels,
    /// Save what was changed and leave the menu.
    SaveExit,
}

impl Settings {
    /// All entries, in the order of the menu.
    pub open spec fn spec_all() -> Seq<Settings> {
        seq![
            Settings::Wallet,
            Settings::Port,
            Settings::Models,
            Settings::Ollama,
            Settings::ApiKeys,
            Settings::LogLevels,
            Settings::SaveExit,
        ]
    }

    /// All entries, in the order of the menu.
    pub fn all() -> (entries: Vec<Settings>)
        ensures
            entries@ == Settings::spec_all(),
    {
        let mut entries: Vec<Settings> = Vec::new();
        entries.push(Settings::Wallet);
        entries.push(Settings::Port);
        entries.push(Settings::Models);
        entries.push(Settings::Ollama);
        entries.push(Settings::ApiKeys);
        entries.push(Settings::LogLevels);
        entries.push(Settings::SaveExit);
        entries
    }

    /// The entry as the menu shows it.
    pub open spec fn spec_label(self) -> Seq<char> {
        match self {
            Settings::Wallet => "Wallet"@,
            Settings::Port => "Port"@,
            Settings::Models => "Models"@,
            Settings::Ollama => "Ollama"@,
            Settings::ApiKeys => "API Keys"@,
            Settings::LogLevels => "Log Levels"@,
            Settings::SaveExit => "Save & Exit"@,
        }
    }

    /// The entry as the menu shows it.
    pub fn label(&self) -> (text: &'static str)
        ensures
            text@ == self.spec_label(),
    {
        match self {
            Settings::Wallet => "Wallet",
            Settings::Port => "Port",
            Settings::Models => "Models",
            Settings::Ollama => "Ollama",
            Settings::ApiKeys => "API Keys",
            Settings::LogLevels => "Log Levels",
            Settings::SaveExit => "Save & Exit",
        }
    }
}

/// What to do when the settings menu is left.
#[derive(Debug, Clone, Copy, PartialEq, Eq, Structural)]
pub enum MenuExit {
    /// Write the settings to their file, then leave.
    Save,
    /// Leave; nothing was changed.
    Leave,
    /// Ask whether the changes may be lost, and leave only if they may.
    Confirm,
}

/// What to do when the menu is left: through its last entry the settings
/// are saved if any was changed; on the way back without that entry, changes
/// are lost only after the user has agreed.
pub fn leave_menu(through_save_exit: bool, is_changed: bool) -> (exit: MenuExit)
    ensures
        exit == if !is_changed {
            MenuExit::Leave
        } else if through_save_exit {
            MenuExit::Save
        } else {
            MenuExit::Confirm
        },
{
    if !is_changed {
        MenuExit::Leave
    } else if through_save_exit {
        MenuExit::Save
    } else {
        MenuExit::Confirm
    }
}

} // verus!
