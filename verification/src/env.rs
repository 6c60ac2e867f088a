//! The launcher's settings: a closed set of keys with their values, and the
//! merge of those values into the text of a settings file.

use crate::merge::{
    added_lines, assignment, assigns, has_assignment, is_rewritten, lemma_assigns_one_key,
    lemma_has_assignment_push, lemma_rewrites_one_key, merge, merged_line, rewrites,
    rewritten_lines,
};
use crate::text::{
    chars_eq, chars_start_with, extend_chars, from_chars, join_chars, lines, parse_bounded,
    parse_chars, split_lines, to_chars, views,
};
use vstd::prelude::*;

verus! {

/// The number of keys that the launcher knows.
pub const KEY_COUNT: usize = 13;

/// The keys that the launcher knows, in the order in which it writes them.
pub open spec fn key_names() -> Seq<Seq<char>> {
    seq![
        "RUST_LOG"@,
        "DKN_WALLET_SECRET_KEY"@,
        "DKN_MODELS"@,
        "DKN_P2P_LISTEN_ADDR"@,
        "DKN_BATCH_SIZE"@,
        "OPENAI_API_KEY"@,
        "GEMINI_API_KEY"@,
        "OPENROUTER_API_KEY"@,
        "SERPER_API_KEY"@,
        "JINA_API_KEY"@,
        "OLLAMA_HOST"@,
        "OLLAMA_PORT"@,
        "OLLAMA_AUTO_PULL"@,
    ]
}

/// Whether `key` is one of the keys that the launcher knows.
pub open spec fn is_known_key(key: Seq<char>) -> bool {
    exists|i: int| 0 <= i < KEY_COUNT && #[trigger] key_names()[i] == key
}

/// The position of `key` among the known keys.
pub open spec fn key_index(key: Seq<char>) -> Option<int> {
    if is_known_key(key) {
        Some(choose|i: int| 0 <= i < KEY_COUNT && #[trigger] key_names()[i] == key)
    } else {
        None
    }
}

/// A text that holds neither `=` nor a line break.
pub open spec fn is_plain(s: Seq<char>) -> bool {
    forall|i: int| 0 <= i < s.len() ==> s[i] != '=' && s[i] != '\n' && s[i] != '\r'
}

/// The known keys are thirteen different plain texts.
pub proof fn lemma_key_names()
    ensures
        key_names().len() == KEY_COUNT,
        forall|i: int| 0 <= i < KEY_COUNT ==> is_plain(#[trigger] key_names()[i]),
        forall|i: int, j: int|
            0 <= i < KEY_COUNT && 0 <= j < KEY_COUNT && i != j ==> #[trigger] key_names()[i]
                != #[trigger] key_names()[j],
        forall|i: int| 0 <= i < KEY_COUNT ==> key_index(#[trigger] key_names()[i]) == Some(i),
{
    reveal_strlit("RUST_LOG");
    reveal_strlit("DKN_WALLET_SECRET_KEY");
    reveal_strlit("DKN_MODELS");
    reveal_strlit("DKN_P2P_LISTEN_ADDR");
    reveal_strlit("DKN_BATCH_SIZE");
    reveal_strlit("OPENAI_API_KEY");
    reveal_strlit("GEMINI_API_KEY");
    reveal_strlit("OPENROUTER_API_KEY");
    reveal_strlit("SERPER_API_KEY");
    reveal_strlit("JINA_API_KEY");
    reveal_strlit("OLLAMA_HOST");
    reveal_strlit("OLLAMA_PORT");
    reveal_strlit("OLLAMA_AUTO_PULL");
    let names = key_names();
    assert(names[4][0] == 'D' && names[5][0] == 'O' && names[6][0] == 'G' && names[8][0] == 'S');
    assert(names[10][7] == 'H' && names[11][7] == 'P');
    assert forall|i: int, j: int| 0 <= i < KEY_COUNT && 0 <= j < KEY_COUNT && i != j implies names[i]
        != names[j] by {
        if names[i].len() == names[j].len() {
            if names[i].len() == 14 {
                assert(names[i][0] != names[j][0]);
            } else {
                assert(names[i][7] != names[j][7]);
            }
        }
    }
}

/// The known key at position `i`.
pub fn key_name(i: usize) -> (name: &'static str)
    requires
        i < KEY_COUNT,
    ensures
        name@ == key_names()[i as int],
{
    if i == 0 {
        DriaEnv::LOG_LEVEL_KEY
    } else if i == 1 {
        DriaEnv::DKN_WALLET_KEY
    } else if i == 2 {
        DriaEnv::DKN_MODELS_KEY
    } else if i == 3 {
        DriaEnv::DKN_P2P_LISTEN_ADDR_KEY
    } else if i == 4 {
        DriaEnv::DKN_BATCH_SIZE_KEY
    } else if i == 5 {
        DriaEnv::OPENAI_APIKEY_KEY
    } else if i == 6 {
        DriaEnv::GEMINI_APIKEY_KEY
    } else if i == 7 {
        DriaEnv::OPENROUTER_APIKEY_KEY
    } else if i == 8 {
        DriaEnv::SERPER_APIKEY_KEY
    } else if i == 9 {
        DriaEnv::JINA_APIKEY_KEY
    } else if i == 10 {
        DriaEnv::OLLAMA_HOST_KEY
    } else if i == 11 {
        DriaEnv::OLLAMA_PORT_KEY
    } else {
        DriaEnv::OLLAMA_AUTO_PULL_KEY
    }
}

/// The position of `key` among the known keys.
pub fn find_key(key: &str) -> (at: Option<usize>)
    ensures
        match at {
            Some(i) => i < KEY_COUNT && key_index(key@) == Some(i as int),
            None => key_index(key@) is None,
        },
{
    let wanted = to_chars(key);
    let mut i: usize = 0;
    while i < KEY_COUNT
        invariant
            i <= KEY_COUNT,
            wanted@ == key@,
            forall|j: int| 0 <= j < i ==> key_names()[j] != key@,
        decreases KEY_COUNT - i,
    {
        let name = to_chars(key_name(i));
        if chars_eq(&wanted, &name) {
            proof {
                lemma_key_names();
            }
            return Some(i);
        }
        i += 1;
    }
    None
}

/// The name of the settings file that is used where none is given.
pub fn default_env() -> (path: String)
    ensures
        path@ == ".env"@,
{
    String::from_str(".env")
}

/// The value that an environment gives to `name`: that of the first variable
/// of that name.
pub open spec fn lookup(vars: Seq<(Seq<char>, Seq<char>)>, name: Seq<char>) -> Option<Seq<char>>
    decreases vars.len(),
{
    if vars.len() == 0 {
        None
    } else if vars[0].0 == name {
        Some(vars[0].1)
    } else {
        lookup(vars.drop_first(), name)
    }
}

/// The names and values of a list of variables, as texts.
pub open spec fn var_views(vars: Seq<(String, String)>) -> Seq<(Seq<char>, Seq<char>)> {
    Seq::new(vars.len(), |i: int| (vars[i].0@, vars[i].1@))
}

/// The settings that an environment holds: the known keys to which it gives
/// a value that is not empty.
pub open spec fn settings_of(vars: Seq<(Seq<char>, Seq<char>)>) -> Map<Seq<char>, Seq<char>> {
    Map::new(
        |key: Seq<char>|
            is_known_key(key) && lookup(vars, key) is Some && lookup(vars, key).unwrap().len() > 0,
        |key: Seq<char>| lookup(vars, key).unwrap(),
    )
}

/// The host where the Ollama server is expected: the value of `OLLAMA_HOST`,
/// or the local host.
pub open spec fn ollama_host(entries: Map<Seq<char>, Seq<char>>) -> Seq<char> {
    if entries.contains_key("OLLAMA_HOST"@) {
        entries["OLLAMA_HOST"@]
    } else {
        "http://127.0.0.1"@
    }
}

/// The text of the port where the Ollama server is expected: the value of
/// `OLLAMA_PORT`, or `11434`.
pub open spec fn ollama_port_text(entries: Map<Seq<char>, Seq<char>>) -> Seq<char> {
    if entries.contains_key("OLLAMA_PORT"@) {
        entries["OLLAMA_PORT"@]
    } else {
        "11434"@
    }
}

/// The port where the Ollama server is expected, if its text is a number
/// of sixteen bits.
pub open spec fn ollama_port(entries: Map<Seq<char>, Seq<char>>) -> Option<nat> {
    parse_bounded(ollama_port_text(entries), 65535)
}

/// The settings as text: for each known key that has a value, in the order
/// of the first `upto` known keys, the key, `=`, the value and a line feed.
pub open spec fn listing(entries: Map<Seq<char>, Seq<char>>, upto: int) -> Seq<char>
    decreases upto,
{
    if upto <= 0 {
        seq![]
    } else {
        let key = key_names()[upto - 1];
        if entries.contains_key(key) {
            listing(entries, upto - 1) + assignment(key, entries[key]).push('\n')
        } else {
            listing(entries, upto - 1)
        }
    }
}

/// The settings of the launcher: values for some of the known keys, and
/// whether any was set since they were read.
#[derive(Debug, Clone)]
pub struct DriaEnv {
    /// The value of each known key, by the key's position; a position past
    /// the end holds no value.
    values: Vec<Option<String>>,
    is_changed: bool,
}

impl View for DriaEnv {
    type V = Map<Seq<char>, Seq<char>>;

    /// The values by key.
    open spec fn view(&self) -> Map<Seq<char>, Seq<char>> {
        Map::new(
            |key: Seq<char>| key_index(key) is Some && self.slot(key_index(key).unwrap()) is Some,
            |key: Seq<char>| self.slot(key_index(key).unwrap()).unwrap(),
        )
    }
}

impl DriaEnv {
    /// How much is logged.
    pub const LOG_LEVEL_KEY: &'static str = "RUST_LOG";

    /// The wallet's secret key.
    pub const DKN_WALLET_KEY: &'static str = "DKN_WALLET_SECRET_KEY";

    /// The models that the compute node serves, with commas between.
    pub const DKN_MODELS_KEY: &'static str = "DKN_MODELS";

    /// The address that the compute node listens on.
    pub const DKN_P2P_LISTEN_ADDR_KEY: &'static str = "DKN_P2P_LISTEN_ADDR";

    /// How many tasks the compute node takes at once.
    pub const DKN_BATCH_SIZE_KEY: &'static str = "DKN_BATCH_SIZE";

    /// The key for OpenAI.
    pub const OPENAI_APIKEY_KEY: &'static str = "OPENAI_API_KEY";

    /// The key for Gemini.
    pub const GEMINI_APIKEY_KEY: &'static str = "GEMINI_API_KEY";

    /// The key for OpenRouter.
    pub const OPENROUTER_APIKEY_KEY: &'static str = "OPENROUTER_API_KEY";

    /// The key for Serper.
    pub const SERPER_APIKEY_KEY: &'static str = "SERPER_API_KEY";

    /// The key for Jina.
    pub const JINA_APIKEY_KEY: &'static str = "JINA_API_KEY";

    /// The host of the Ollama server.
    pub const OLLAMA_HOST_KEY: &'static str = "OLLAMA_HOST";

    /// The port of the Ollama server.
    pub const OLLAMA_PORT_KEY: &'static str = "OLLAMA_PORT";

    /// Whether the compute node pulls the models that the Ollama server lacks.
    pub const OLLAMA_AUTO_PULL_KEY: &'static str = "OLLAMA_AUTO_PULL";

    /// The host of the Ollama server where the settings name none.
    pub const DEFAULT_OLLAMA_HOST: &'static str = "http://127.0.0.1";

    /// The port of the Ollama server where the settings name none.
    pub const DEFAULT_OLLAMA_PORT: &'static str = "11434";

    /// All the keys that the launcher reads and writes.
    pub const KEY_NAMES: [&'static str; 13] = [
        Self::LOG_LEVEL_KEY,
        Self::DKN_WALLET_KEY,
        Self::DKN_MODELS_KEY,
        Self::DKN_P2P_LISTEN_ADDR_KEY,
        Self::DKN_BATCH_SIZE_KEY,
        Self::OPENAI_APIKEY_KEY,
        Self::GEMINI_APIKEY_KEY,
        Self::OPENROUTER_APIKEY_KEY,
        Self::SERPER_APIKEY_KEY,
        Self::JINA_APIKEY_KEY,
        Self::OLLAMA_HOST_KEY,
        Self::OLLAMA_PORT_KEY,
        Self::OLLAMA_AUTO_PULL_KEY,
    ];

    /// The value of the known key at position `i`.
    pub closed spec fn slot(&self, i: int) -> Option<Seq<char>> {
        if 0 <= i < self.values.len() {
            match self.values[i] {
                Some(value) => Some(value@),
                None => None,
            }
        } else {
            None
        }
    }

    /// Whether a value was set since the settings were read.
    pub closed spec fn changed(&self) -> bool {
        self.is_changed
    }

    /// Whether these settings hold the same values as `other`, and count as
    /// changed exactly if `other` does.
    pub open spec fn holds_what(&self, other: DriaEnv) -> bool {
        self@ == other@ && self.changed() == other.changed()
    }

    /// A known key has a value exactly if its position holds one.
    pub proof fn lemma_slots(&self)
        ensures
            forall|i: int|
                0 <= i < KEY_COUNT ==> (self@.contains_key(#[trigger] key_names()[i]) <==> self.slot(
                    i,
                ) is Some),
            forall|i: int|
                0 <= i < KEY_COUNT && self.slot(i) is Some ==> self@[#[trigger] key_names()[i]]
                    == self.slot(i).unwrap(),
            forall|key: Seq<char>| self@.contains_key(key) ==> is_known_key(key),
    {
        lemma_key_names();
    }

    /// Whether a value was set since the settings were read.
    pub fn is_changed(&self) -> (yes: bool)
        ensures
            yes == self.changed(),
    {
        self.is_changed
    }

    /// The value of `key`, if it is a known key that has one.
    pub fn get(&self, key: &str) -> (value: Option<&str>)
        ensures
            match value {
                Some(v) => self@.contains_key(key@) && v@ == self@[key@],
                None => !self@.contains_key(key@),
            },
    {
        match find_key(key) {
            Some(i) => self.value_at(i),
            None => None,
        }
    }

    /// The value of the known key at position `i`.
    fn value_at(&self, i: usize) -> (value: Option<&str>)
        ensures
            match value {
                Some(v) => self.slot(i as int) == Some(v@),
                None => self.slot(i as int) is None,
            },
    {
        if i < self.values.len() {
            match &self.values[i] {
                Some(v) => Some(v.as_str()),
                None => None,
            }
        } else {
            None
        }
    }

    /// Gives `key` the value `value` if it is a known key; any other key is
    /// never stored. Either way the settings count as changed.
    pub fn set(&mut self, key: &'static str, value: String)
        ensures
            final(self)@ == if is_known_key(key@) {
                old(self)@.insert(key@, value@)
            } else {
                old(self)@
            },
            final(self).changed(),
    {
        self.is_changed = true;
        match find_key(key) {
            Some(i) => {
                while self.values.len() <= i
                    invariant
                        forall|j: int| self.slot(j) == old(self).slot(j),
                        self.is_changed,
                    decreases i + 1 - self.values.len(),
                {
                    let ghost before = *self;
                    self.values.push(None);
                    assert forall|j: int| self.slot(j) == before.slot(j) by {}
                }
                let ghost before = *self;
                self.values.set(i, Some(value));
                proof {
                    lemma_key_names();
                    assert forall|j: int| self.slot(j) == if j == i {
                        Some(value@)
                    } else {
                        before.slot(j)
                    } by {}
                }
            },
            None => {
            },
        }
    }

    /// The text of a settings file after these settings are merged into
    /// `content`. The first line that begins with a key and `=`, for a key
    /// that has a value here, becomes that key, `=` and the value. Every other
    /// line stays as it is and where it is. A key that has a value and that
    /// no line began with gets a line of its own after all the others, in the
    /// order of the known keys. The lines are joined by line feeds.
    pub fn save_to_content(&self, content: &str) -> (merged: String)
        ensures
            merged@ == merge(self@, content@),
    {
        let text = to_chars(content);
        let file_lines = split_lines(&text);
        let ghost ls = lines(content@);
        let mut pending: Vec<bool> = Vec::new();
        let mut prefixes: Vec<Vec<char>> = Vec::new();
        let mut k: usize = 0;
        while k < KEY_COUNT
            invariant
                k <= KEY_COUNT,
                pending.len() == k,
                prefixes.len() == k,
                forall|j: int| 0 <= j < k ==> #[trigger] pending[j] == (self.slot(j) is Some),
                forall|j: int| 0 <= j < k ==> (#[trigger] prefixes[j])@ == key_names()[j].push('='),
            decreases KEY_COUNT - k,
        {
            pending.push(self.value_at(k).is_some());
            let mut prefix = to_chars(key_name(k));
            prefix.push('=');
            prefixes.push(prefix);
            k += 1;
        }
        let mut out: Vec<Vec<char>> = Vec::new();
        let mut i: usize = 0;
        while i < file_lines.len()
            invariant
                i <= file_lines.len(),
                views(file_lines@) == ls,
                pending.len() == KEY_COUNT,
                prefixes.len() == KEY_COUNT,
                forall|j: int|
                    0 <= j < KEY_COUNT ==> (#[trigger] prefixes[j])@ == key_names()[j].push('='),
                forall|j: int|
                    0 <= j < KEY_COUNT ==> #[trigger] pending[j] == (self.slot(j) is Some
                        && !has_assignment(ls.take(i as int), key_names()[j])),
                views(out@) == rewritten_lines(ls, self@).take(i as int),
            decreases file_lines.len() - i,
        {
            let line = &file_lines[i];
            let mut found: Option<usize> = None;
            let mut k: usize = 0;
            while k < KEY_COUNT && found.is_none()
                invariant
                    k <= KEY_COUNT,
                    pending.len() == KEY_COUNT,
                    prefixes.len() == KEY_COUNT,
                    forall|j: int|
                        0 <= j < KEY_COUNT ==> (#[trigger] prefixes[j])@ == key_names()[j].push(
                            '=',
                        ),
                    match found {
                        Some(f) => f < KEY_COUNT && pending[f as int] && assigns(
                            line@,
                            key_names()[f as int],
                        ),
                        None => forall|j: int|
                            0 <= j < k ==> !(#[trigger] pending[j] && assigns(
                                line@,
                                key_names()[j],
                            )),
                    },
                decreases KEY_COUNT - k, found.is_none() as int,
            {
                if pending[k] && chars_start_with(line, &prefixes[k]) {
                    found = Some(k);
                } else {
                    k += 1;
                }
            }
            let ghost seen = ls.take(i as int);
            let ghost more = ls.take(i + 1);
            proof {
                self.lemma_slots();
                assert(more.last() == ls[i as int]);
                assert forall|j: int| 0 <= j < i implies seen[j] == ls[j] by {}
            }
            match found {
                Some(f) => {
                    let value = match self.value_at(f) {
                        Some(v) => to_chars(v),
                        None => Vec::new(),
                    };
                    let mut written = to_chars(key_name(f));
                    written.push('=');
                    extend_chars(&mut written, &value);
                    proof {
                        let key = key_names()[f as int];
                        assert forall|j: int| 0 <= j < i implies !assigns(#[trigger] ls[j], key) by {}
                        lemma_rewrites_one_key(ls, self@, i as int, f as int);
                    }
                    pending.set(f, false);
                    out.push(written);
                    proof {
                        assert forall|j: int| 0 <= j < KEY_COUNT implies #[trigger] pending[j] == (
                        self.slot(j) is Some && !has_assignment(more, key_names()[j])) by {
                            lemma_has_assignment_push(seen, ls[i as int], key_names()[j]);
                            if j != f && assigns(ls[i as int], key_names()[j]) {
                                lemma_key_names();
                                lemma_assigns_one_key(
                                    ls[i as int],
                                    key_names()[j],
                                    key_names()[f as int],
                                );
                            }
                        }
                    }
                },
                None => {
                    proof {
                        assert forall|j: int| 0 <= j < KEY_COUNT implies #[trigger] pending[j] == (
                        self.slot(j) is Some && !has_assignment(more, key_names()[j])) by {
                            lemma_has_assignment_push(seen, ls[i as int], key_names()[j]);
                        }
                        if is_rewritten(ls, self@, i as int) {
                            let r = choose|r: int| rewrites(ls, self@, i as int, r);
                            assert forall|j: int| 0 <= j < seen.len() implies !assigns(
                                #[trigger] seen[j],
                                key_names()[r],
                            ) by {}
                            assert(pending[r]);
                        }
                    }
                    out.push(line.clone());
                },
            }
            proof {
                assert(rewritten_lines(ls, self@).take(i + 1) == rewritten_lines(ls, self@).take(
                    i as int,
                ).push(merged_line(ls, self@, i as int)));
            }
            i += 1;
        }
        proof {
            assert(ls.take(file_lines.len() as int) == ls);
            assert(rewritten_lines(ls, self@).take(file_lines.len() as int) == rewritten_lines(
                ls,
                self@,
            ));
        }
        let mut k: usize = 0;
        while k < KEY_COUNT
            invariant
                k <= KEY_COUNT,
                pending.len() == KEY_COUNT,
                forall|j: int|
                    0 <= j < KEY_COUNT ==> #[trigger] pending[j] == (self.slot(j) is Some
                        && !has_assignment(ls, key_names()[j])),
                views(out@) == rewritten_lines(ls, self@) + added_lines(ls, self@, k as int),
            decreases KEY_COUNT - k,
        {
            proof {
                self.lemma_slots();
            }
            if pending[k] {
                let value = match self.value_at(k) {
                    Some(v) => to_chars(v),
                    None => Vec::new(),
                };
                let mut written = to_chars(key_name(k));
                written.push('=');
                extend_chars(&mut written, &value);
                let ghost before = views(out@);
                out.push(written);
                assert(views(out@) == before.push(written@));
            }
            k += 1;
        }
        let mut feed: Vec<char> = Vec::new();
        feed.push('\n');
        let merged = join_chars(&out, &feed);
        from_chars(&merged)
    }

    /// The host and the port of the Ollama server that these settings name.
    /// The port must be a number of sixteen bits; [`DriaEnv::ollama_config`]
    /// tells whether it is.
    pub fn get_ollama_config(&self) -> (config: (&str, u16))
        requires
            ollama_port(self@) is Some,
        ensures
            config.0@ == ollama_host(self@),
            ollama_port(self@) == Some(config.1 as nat),
    {
        match self.ollama_config() {
            Some(config) => config,
            None => (Self::DEFAULT_OLLAMA_HOST, 0),
        }
    }

    /// The host and the port of the Ollama server that these settings name,
    /// or nothing where the port is no number of sixteen bits.
    pub fn ollama_config(&self) -> (config: Option<(&str, u16)>)
        ensures
            match config {
                Some(c) => c.0@ == ollama_host(self@) && ollama_port(self@) == Some(c.1 as nat),
                None => ollama_port(self@) is None,
            },
    {
        let host = match self.get(Self::OLLAMA_HOST_KEY) {
            Some(h) => h,
            None => Self::DEFAULT_OLLAMA_HOST,
        };
        let port = match self.get(Self::OLLAMA_PORT_KEY) {
            Some(p) => p,
            None => Self::DEFAULT_OLLAMA_PORT,
        };
        let digits = to_chars(port);
        match parse_chars(&digits, 65535) {
            Some(number) => Some((host, number as u16)),
            None => None,
        }
    }

    /// Asks for the wallet's secret key where the settings hold none, and
    /// stores the answer unless it is empty. Where they hold one, nothing is
    /// asked and nothing changes.
    pub fn ask_for_key_if_required<E, F: FnOnce() -> Result<String, E>>(&mut self, ask: F) -> (done:
        Result<(), E>)
        requires
            !old(self)@.contains_key("DKN_WALLET_SECRET_KEY"@) ==> ask.requires(()),
        ensures
            old(self)@.contains_key("DKN_WALLET_SECRET_KEY"@) ==> done is Ok
                && final(self).holds_what(*old(self)),
            !old(self)@.contains_key("DKN_WALLET_SECRET_KEY"@) ==> exists|answer: Result<String, E>|
                #[trigger] ask.ensures((), answer) && match answer {
                    Ok(secret) => done is Ok && if secret@.len() > 0 {
                        final(self)@ == old(self)@.insert("DKN_WALLET_SECRET_KEY"@, secret@)
                            && final(self).changed()
                    } else {
                        final(self).holds_what(*old(self))
                    },
                    Err(e) => done == Err::<(), E>(e) && final(self).holds_what(*old(self)),
                },
    {
        if self.get(Self::DKN_WALLET_KEY).is_some() {
            return Ok(());
        }
        let answer = ask();
        proof {
            lemma_key_names();
        }
        match answer {
            Ok(secret) => {
                if !secret.as_str().is_empty() {
                    self.set(Self::DKN_WALLET_KEY, secret);
                }
                Ok(())
            },
            Err(e) => Err(e),
        }
    }

    /// The settings as text, a line for each key that has a value.
    pub fn to_text(&self) -> (text: String)
        ensures
            text@ == listing(self@, KEY_COUNT as int),
    {
        let mut out: Vec<char> = Vec::new();
        let mut k: usize = 0;
        while k < KEY_COUNT
            invariant
                k <= KEY_COUNT,
                out@ == listing(self@, k as int),
            decreases KEY_COUNT - k,
        {
            proof {
                self.lemma_slots();
            }
            match self.value_at(k) {
                Some(v) => {
                    let value = to_chars(v);
                    let mut line = to_chars(key_name(k));
                    line.push('=');
                    extend_chars(&mut line, &value);
                    line.push('\n');
                    extend_chars(&mut out, &line);
                },
                None => {},
            }
            k += 1;
        }
        from_chars(&out)
    }

    /// The settings that an environment holds: of each known key the value
    /// that `vars` gives it, unless that value is empty.
    pub fn new_from_env(vars: &Vec<(String, String)>) -> (env: DriaEnv)
        ensures
            env@ == settings_of(var_views(vars@)),
            !env.changed(),
    {
        let mut values: Vec<Option<String>> = Vec::new();
        let mut i: usize = 0;
        while i < KEY_COUNT
            invariant
                i <= KEY_COUNT,
                values.len() == i,
                forall|j: int|
                    0 <= j < i ==> match #[trigger] values[j] {
                        Some(v) => lookup(var_views(vars@), key_names()[j]) == Some(v@) && v@.len()
                            > 0,
                        None => lookup(var_views(vars@), key_names()[j]) is None || lookup(
                            var_views(vars@),
                            key_names()[j],
                        ).unwrap().len() == 0,
                    },
            decreases KEY_COUNT - i,
        {
            let found = find_var(vars, key_name(i));
            let kept = match found {
                Some(v) => if v.as_str().is_empty() {
                    None
                } else {
                    Some(v)
                },
                None => None,
            };
            values.push(kept);
            i += 1;
        }
        let env = DriaEnv { values, is_changed: false };
        proof {
            lemma_key_names();
            assert forall|j: int| 0 <= j < KEY_COUNT implies env.slot(j) == match values[j] {
                Some(v) => Some(v@),
                None => None,
            } by {}
        }
        env
    }
}

/// The value that `vars` gives to `name`.
fn find_var(vars: &Vec<(String, String)>, name: &str) -> (value: Option<String>)
    ensures
        match value {
            Some(v) => lookup(var_views(vars@), name@) == Some(v@),
            None => lookup(var_views(vars@), name@) is None,
        },
{
    let wanted = to_chars(name);
    let mut i: usize = 0;
    assert(var_views(vars@).skip(0) == var_views(vars@));
    while i < vars.len()
        invariant
            i <= vars.len(),
            wanted@ == name@,
            lookup(var_views(vars@), name@) == lookup(var_views(vars@).skip(i as int), name@),
        decreases vars.len() - i,
    {
        let ghost rest = var_views(vars@).skip(i as int);
        assert(rest.drop_first() == var_views(vars@).skip(i + 1));
        let this = to_chars(vars[i].0.as_str());
        if chars_eq(&wanted, &this) {
            return Some(vars[i].1.clone());
        }
        i += 1;
    }
    None
}

} // verus!
