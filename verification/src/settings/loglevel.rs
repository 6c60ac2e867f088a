//! How much each part of the compute node logs: the value of `RUST_LOG`, a
//! list of `module=level` with commas between.

use crate::env::{is_known_key, key_names, lemma_key_names, DriaEnv};
use crate::text::{
    chars_eq, chars_start_with, extend_chars, from_chars, join, join_chars, split, split_chars,
    starts_with, to_chars, views,
};
use vstd::prelude::*;

verus! {

/// Whether a character is white space, as `char::is_whitespace` tells.
pub uninterp spec fn white_space(c: char) -> bool;

/// `char::is_whitespace`: whether the character has the Unicode property
/// `White_Space`. The result is given the name [`white_space`].
#[verifier::external_body]
fn is_whitespace(c: char) -> (yes: bool)
    ensures
        yes == white_space(c),
{
    c.is_whitespace()
}

/// The parts of the compute node whose logging can be set.
#[derive(Debug, Clone, Copy, PartialEq, Eq, Structural)]
pub enum LogModules {
    DknComputeNode,
    DknP2P,
    DknWorkflows,
    Libp2p,
    OllamaWorkflows,
}

/// How much is logged.
#[derive(Debug, Clone, Copy, PartialEq, Eq, Structural)]
pub enum LogLevels {
    Off,
    Error,
    Warn,
    Info,
    Debug,
    Trace,
}

impl LogModules {
    /// All parts, in their order.
    pub open spec fn spec_all() -> Seq<LogModules> {
        seq![
            LogModules::DknComputeNode,
            LogModules::DknP2P,
            LogModules::DknWorkflows,
            LogModules::Libp2p,
            LogModules::OllamaWorkflows,
        ]
    }

    /// All parts, in their order.
    pub fn all() -> (modules: Vec<LogModules>)
        ensures
            modules@ == LogModules::spec_all(),
    {
        let mut modules: Vec<LogModules> = Vec::new();
        modules.push(LogModules::DknComputeNode);
        modules.push(LogModules::DknP2P);
        modules.push(LogModules::DknWorkflows);
        modules.push(LogModules::Libp2p);
        modules.push(LogModules::OllamaWorkflows);
        modules
    }

    /// The name of the part in `RUST_LOG`.
    pub open spec fn spec_as_rust_log(self) -> Seq<char> {
        match self {
            LogModules::DknComputeNode => "dkn_compute"@,
            LogModules::DknP2P => "dkn_p2p"@,
            LogModules::DknWorkflows => "dkn_workflows"@,
            LogModules::Libp2p => "libp2p"@,
            LogModules::OllamaWorkflows => "ollama_workflows"@,
        }
    }

    /// The name of the part in `RUST_LOG`.
    pub fn as_rust_log(&self) -> (name: &'static str)
        ensures
            name@ == self.spec_as_rust_log(),
    {
        match self {
            LogModules::DknComputeNode => "dkn_compute",
            LogModules::DknP2P => "dkn_p2p",
            LogModules::DknWorkflows => "dkn_workflows",
            LogModules::Libp2p => "libp2p",
            LogModules::OllamaWorkflows => "ollama_workflows",
        }
    }

    /// The part as a list of choices shows it.
    pub fn label(&self) -> (text: &'static str)
        ensures
            text@ == match *self {
                LogModules::DknComputeNode => "Dria Compute Node: Core"@,
                LogModules::DknP2P => "Dria Compute Node: P2P"@,
                LogModules::DknWorkflows => "Dria Compute Node: Workflows"@,
                LogModules::Libp2p => "Low-level Lib2p Modules"@,
                LogModules::OllamaWorkflows => "Ollama Workflows"@,
            },
    {
        match self {
            LogModules::DknComputeNode => "Dria Compute Node: Core",
            LogModules::DknP2P => "Dria Compute Node: P2P",
            LogModules::DknWorkflows => "Dria Compute Node: Workflows",
            LogModules::Libp2p => "Low-level Lib2p Modules",
            LogModules::OllamaWorkflows => "Ollama Workflows",
        }
    }
}

impl LogLevels {
    /// All levels, from the least logging to the most.
    pub open spec fn spec_all() -> Seq<LogLevels> {
        seq![
            LogLevels::Off,
            LogLevels::Error,
            LogLevels::Warn,
            LogLevels::Info,
            LogLevels::Debug,
            LogLevels::Trace,
        ]
    }

    /// All levels, from the least logging to the most.
    pub fn all() -> (levels: Vec<LogLevels>)
        ensures
            levels@ == LogLevels::spec_all(),
    {
        let mut levels: Vec<LogLevels> = Vec::new();
        levels.push(LogLevels::Off);
        levels.push(LogLevels::Error);
        levels.push(LogLevels::Warn);
        levels.push(LogLevels::Info);
        levels.push(LogLevels::Debug);
        levels.push(LogLevels::Trace);
        levels
    }

    /// The name of the level in `RUST_LOG`.
    pub open spec fn spec_as_rust_log(self) -> Seq<char> {
        match self {
            LogLevels::Off => "off"@,
            LogLevels::Error => "error"@,
            LogLevels::Warn => "warn"@,
            LogLevels::Info => "info"@,
            LogLevels::Debug => "debug"@,
            LogLevels::Trace => "trace"@,
        }
    }

    /// The name of the level in `RUST_LOG`.
    pub fn as_rust_log(&self) -> (name: &'static str)
        ensures
            name@ == self.spec_as_rust_log(),
    {
        match self {
            LogLevels::Off => "off",
            LogLevels::Error => "error",
            LogLevels::Warn => "warn",
            LogLevels::Info => "info",
            LogLevels::Debug => "debug",
            LogLevels::Trace => "trace",
        }
    }

    /// The level as a list of choices shows it.
    pub fn label(&self) -> (text: &'static str)
        ensures
            text@ == match *self {
                LogLevels::Off => "off    no logging"@,
                LogLevels::Error => "error  very serious errors"@,
                LogLevels::Warn => "warn   hazardous situations"@,
                LogLevels::Info => "info   useful information"@,
                LogLevels::Debug => "debug  debug-level information"@,
                LogLevels::Trace => "trace  low-level information"@,
            },
    {
        match self {
            LogLevels::Off => "off    no logging",
            LogLevels::Error => "error  very serious errors",
            LogLevels::Warn => "warn   hazardous situations",
            LogLevels::Info => "info   useful information",
            LogLevels::Debug => "debug  debug-level information",
            LogLevels::Trace => "trace  low-level information",
        }
    }
}

/// Whether a text holds nothing but white space.
pub open spec fn is_blank(s: Seq<char>) -> bool {
    forall|i: int| 0 <= i < s.len() ==> white_space(#[trigger] s[i])
}

/// The items of a list that are not blank, in their order.
pub open spec fn not_blank(items: Seq<Seq<char>>) -> Seq<Seq<char>>
    decreases items.len(),
{
    if items.len() == 0 {
        seq![]
    } else if is_blank(items.last()) {
        not_blank(items.drop_last())
    } else {
        not_blank(items.drop_last()).push(items.last())
    }
}

/// The settings of single parts that a value of `RUST_LOG` holds: what
/// stands between its commas, without what is blank.
pub open spec fn log_levels_of(value: Seq<char>) -> Seq<Seq<char>> {
    not_blank(split(value, ','))
}

/// The position of the first setting for `module`, or the number of
/// settings where there is none.
pub open spec fn setting_of(levels: Seq<Seq<char>>, module: Seq<char>) -> int
    decreases levels.len(),
{
    if levels.len() == 0 {
        0
    } else if starts_with(levels[0], module.push('=')) {
        0
    } else {
        1 + setting_of(levels.drop_first(), module)
    }
}

/// The level that is set for `module`: what the first setting for it holds
/// between its first `=` and its second, or `off` where there is none.
pub open spec fn level_of(levels: Seq<Seq<char>>, module: Seq<char>) -> Seq<char> {
    let at = setting_of(levels, module);
    if 0 <= at < levels.len() {
        split(levels[at], '=')[1]
    } else {
        "off"@
    }
}

/// The position of the level with the given name among all levels, or zero
/// where no level has that name.
pub open spec fn cursor_of(name: Seq<char>) -> int {
    if name == "error"@ {
        1
    } else if name == "warn"@ {
        2
    } else if name == "info"@ {
        3
    } else if name == "debug"@ {
        4
    } else if name == "trace"@ {
        5
    } else {
        0
    }
}

/// The settings after `module` is set to `level`: its first setting is
/// replaced, or a setting is added at the end where it had none.
pub open spec fn with_level(levels: Seq<Seq<char>>, module: Seq<char>, level: Seq<char>) -> Seq<
    Seq<char>,
> {
    let at = setting_of(levels, module);
    let setting = module.push('=') + level;
    if 0 <= at < levels.len() {
        levels.update(at, setting)
    } else {
        levels.push(setting)
    }
}

/// The settings of single parts while they are edited.
pub struct LogLevelEditor {
    levels: Vec<Vec<char>>,
    is_changed: bool,
}

impl LogLevelEditor {
    /// The settings, each as a text.
    pub closed spec fn levels(&self) -> Seq<Seq<char>> {
        views(self.levels@)
    }

    /// Whether a level was chosen.
    pub closed spec fn changed(&self) -> bool {
        self.is_changed
    }

    /// The settings that the value of `RUST_LOG` holds, not yet changed.
    pub fn new(dria_env: &DriaEnv) -> (editor: LogLevelEditor)
        ensures
            editor.levels() == log_levels_of(
                if dria_env@.contains_key("RUST_LOG"@) {
                    dria_env@["RUST_LOG"@]
                } else {
                    Seq::<char>::empty()
                },
            ),
            !editor.changed(),
    {
        let value = match dria_env.get(DriaEnv::LOG_LEVEL_KEY) {
            Some(v) => to_chars(v),
            None => Vec::new(),
        };
        let items = split_chars(&value, ',');
        let mut levels: Vec<Vec<char>> = Vec::new();
        let mut i: usize = 0;
        while i < items.len()
            invariant
                i <= items.len(),
                views(levels@) == not_blank(views(items@).take(i as int)),
            decreases items.len() - i,
        {
            let ghost more = views(items@).take(i + 1);
            assert(more.drop_last() == views(items@).take(i as int));
            if !all_whitespace(&items[i]) {
                levels.push(items[i].clone());
            }
            i += 1;
        }
        assert(views(items@).take(items.len() as int) == views(items@));
        LogLevelEditor { levels, is_changed: false }
    }

    /// Whether a level was chosen.
    pub fn is_changed(&self) -> (yes: bool)
        ensures
            yes == self.changed(),
    {
        self.is_changed
    }

    /// The position of the first setting for `module`.
    fn find(&self, module: LogModules) -> (at: usize)
        ensures
            at == setting_of(self.levels(), module.spec_as_rust_log()),
            at <= self.levels@.len(),
            at < self.levels@.len() ==> starts_with(
                self.levels()[at as int],
                module.spec_as_rust_log().push('='),
            ),
    {
        let mut prefix = to_chars(module.as_rust_log());
        prefix.push('=');
        let ghost all = views(self.levels@);
        let mut i: usize = 0;
        assert(all.skip(0) == all);
        while i < self.levels.len()
            invariant
                i <= self.levels.len(),
                all == views(self.levels@),
                prefix@ == module.spec_as_rust_log().push('='),
                setting_of(all, module.spec_as_rust_log()) == i + setting_of(
                    all.skip(i as int),
                    module.spec_as_rust_log(),
                ),
            decreases self.levels.len() - i,
        {
            let ghost rest = all.skip(i as int);
            assert(rest.drop_first() == all.skip(i + 1));
            if chars_start_with(&self.levels[i], &prefix) {
                return i;
            }
            i += 1;
        }
        i
    }

    /// The name of the level that is set for `module`.
    pub fn existing_level(&self, module: LogModules) -> (name: String)
        ensures
            name@ == level_of(self.levels(), module.spec_as_rust_log()),
    {
        let at = self.find(module);
        if at < self.levels.len() {
            let parts = split_chars(&self.levels[at], '=');
            proof {
                lemma_setting_has_two_parts(self.levels@[at as int]@, module.spec_as_rust_log());
            }
            from_chars(&parts[1])
        } else {
            String::from_str("off")
        }
    }

    /// Where the list of levels is opened for `module`: at the level that is
    /// set for it, or at the first where the name that is set is no level's.
    pub fn starting_cursor(&self, module: LogModules) -> (cursor: usize)
        ensures
            cursor == cursor_of(level_of(self.levels(), module.spec_as_rust_log())),
            cursor < LogLevels::spec_all().len(),
    {
        let existing = self.existing_level(module);
        let name = to_chars(existing.as_str());
        if chars_eq(&name, &to_chars("error")) {
            1
        } else if chars_eq(&name, &to_chars("warn")) {
            2
        } else if chars_eq(&name, &to_chars("info")) {
            3
        } else if chars_eq(&name, &to_chars("debug")) {
            4
        } else if chars_eq(&name, &to_chars("trace")) {
            5
        } else {
            0
        }
    }

    /// Sets `module` to `level`.
    pub fn set_level(&mut self, module: LogModules, level: LogLevels)
        ensures
            final(self).levels() == with_level(
                old(self).levels(),
                module.spec_as_rust_log(),
                level.spec_as_rust_log(),
            ),
            final(self).changed(),
    {
        let at = self.find(module);
        let mut setting = to_chars(module.as_rust_log());
        setting.push('=');
        extend_chars(&mut setting, &to_chars(level.as_rust_log()));
        self.is_changed = true;
        if at < self.levels.len() {
            self.levels.set(at, setting);
        } else {
            self.levels.push(setting);
        }
    }

    /// Stores the settings as the value of `RUST_LOG`, with commas between,
    /// if a level was chosen; else the settings stay as they are.
    pub fn finish(self, dria_env: &mut DriaEnv)
        ensures
            final(dria_env)@ == if self.changed() {
                old(dria_env)@.insert("RUST_LOG"@, join(self.levels(), seq![',']))
            } else {
                old(dria_env)@
            },
            final(dria_env).changed() == (old(dria_env).changed() || self.changed()),
    {
        if self.is_changed {
            let mut comma: Vec<char> = Vec::new();
            comma.push(',');
            let value = join_chars(&self.levels, &comma);
            proof {
                lemma_key_names();
            }
            dria_env.set(DriaEnv::LOG_LEVEL_KEY, from_chars(&value));
        }
    }
}

/// Whether a text holds nothing but white space.
fn all_whitespace(s: &Vec<char>) -> (blank: bool)
    ensures
        blank == is_blank(s@),
{
    let mut i: usize = 0;
    while i < s.len()
        invariant
            i <= s.len(),
            forall|j: int| 0 <= j < i ==> white_space(#[trigger] s@[j]),
        decreases s.len() - i,
    {
        if !is_whitespace(s[i]) {
            return false;
        }
        i += 1;
    }
    true
}

/// A setting for a module has a part after its first `=`.
pub proof fn lemma_setting_has_two_parts(setting: Seq<char>, module: Seq<char>)
    requires
        starts_with(setting, module.push('=')),
    ensures
        split(setting, '=').len() >= 2,
{
    let prefix = module.push('=');
    assert(setting.take(prefix.len() as int)[module.len() as int] == '=');
    crate::text::lemma_index_of(setting, '=');
    let at = crate::text::index_of(setting, '=');
    assert(at < setting.len()) by {}
    let rest = setting.skip(at + 1);
    assert(split(rest, '=').len() >= 1) by {
        lemma_split_is_not_empty(rest, '=');
    }
}

/// A split text has at least one part.
pub proof fn lemma_split_is_not_empty(s: Seq<char>, sep: char)
    ensures
        split(s, sep).len() >= 1,
    decreases s.len(),
{
    crate::text::lemma_index_of(s, sep);
    let at = crate::text::index_of(s, sep);
    if at < s.len() {
        lemma_split_is_not_empty(s.skip(at + 1), sep);
    }
}

} // verus!
