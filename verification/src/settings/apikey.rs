//! The keys of the model providers.

use crate::env::{is_known_key, DriaEnv};
use crate::models::ModelProvider;
use crate::text::to_chars;
use vstd::prelude::*;

verus! {

/// The providers that want a key.
#[derive(Debug, Clone, Copy, PartialEq, Eq, Hash, Structural)]
pub enum DriaApiKeyKind {
    OpenAI,
    Gemini,
    OpenRouter,
}

/// Whether `word` is `delete`, in capital or small letters.
pub open spec fn is_delete_word(word: Seq<char>) -> bool {
    &&& word.len() == 6
    &&& (word[0] == 'd' || word[0] == 'D')
    &&& (word[1] == 'e' || word[1] == 'E')
    &&& (word[2] == 'l' || word[2] == 'L')
    &&& (word[3] == 'e' || word[3] == 'E')
    &&& (word[4] == 't' || word[4] == 'T')
    &&& (word[5] == 'e' || word[5] == 'E')
}

impl DriaApiKeyKind {
    /// All kinds, in their order.
    pub open spec fn spec_all() -> Seq<DriaApiKeyKind> {
        seq![DriaApiKeyKind::OpenAI, DriaApiKeyKind::Gemini, DriaApiKeyKind::OpenRouter]
    }

    /// All kinds, in their order.
    pub fn all() -> (kinds: Vec<DriaApiKeyKind>)
        ensures
            kinds@ == DriaApiKeyKind::spec_all(),
    {
        let mut kinds: Vec<DriaApiKeyKind> = Vec::new();
        kinds.push(DriaApiKeyKind::OpenAI);
        kinds.push(DriaApiKeyKind::Gemini);
        kinds.push(DriaApiKeyKind::OpenRouter);
        kinds
    }

    /// The key of the settings that holds the provider's key.
    pub open spec fn spec_name(self) -> Seq<char> {
        match self {
            DriaApiKeyKind::OpenAI => "OPENAI_API_KEY"@,
            DriaApiKeyKind::Gemini => "GEMINI_API_KEY"@,
            DriaApiKeyKind::OpenRouter => "OPENROUTER_API_KEY"@,
        }
    }

    /// The key of the settings that holds the provider's key.
    pub fn name(&self) -> (name: &'static str)
        ensures
            name@ == self.spec_name(),
    {
        match self {
            DriaApiKeyKind::OpenAI => DriaEnv::OPENAI_APIKEY_KEY,
            DriaApiKeyKind::Gemini => DriaEnv::GEMINI_APIKEY_KEY,
            DriaApiKeyKind::OpenRouter => DriaEnv::OPENROUTER_APIKEY_KEY,
        }
    }

    /// Where to get such a key.
    pub fn help_message(&self) -> (help: &'static str)
        ensures
            help@ == match *self {
                DriaApiKeyKind::OpenAI => "Get yours at https://platform.openai.com/api-keys"@,
                DriaApiKeyKind::Gemini => "Get yours at https://aistudio.google.com/app/apikey"@,
                DriaApiKeyKind::OpenRouter => "Get yours at https://openrouter.ai/keys"@,
            },
    {
        match self {
            DriaApiKeyKind::OpenAI => "Get yours at https://platform.openai.com/api-keys",
            DriaApiKeyKind::Gemini => "Get yours at https://aistudio.google.com/app/apikey",
            DriaApiKeyKind::OpenRouter => "Get yours at https://openrouter.ai/keys",
        }
    }

    /// The provider whose key this is.
    pub open spec fn provider(self) -> ModelProvider {
        match self {
            DriaApiKeyKind::OpenAI => ModelProvider::OpenAI,
            DriaApiKeyKind::Gemini => ModelProvider::Gemini,
            DriaApiKeyKind::OpenRouter => ModelProvider::OpenRouter,
        }
    }

    /// The kinds of keys that the given providers want: each kind once, in
    /// the order of the kinds, however often and in whatever order its
    /// provider is named.
    pub open spec fn spec_from_providers(providers: Seq<ModelProvider>) -> Seq<DriaApiKeyKind> {
        let first = if providers.contains(ModelProvider::OpenAI) {
            seq![DriaApiKeyKind::OpenAI]
        } else {
            seq![]
        };
        let second = if providers.contains(ModelProvider::Gemini) {
            seq![DriaApiKeyKind::Gemini]
        } else {
            seq![]
        };
        let third = if providers.contains(ModelProvider::OpenRouter) {
            seq![DriaApiKeyKind::OpenRouter]
        } else {
            seq![]
        };
        first + second + third
    }

    /// The kinds of keys that the given providers want, each once.
    pub fn from_providers(providers: &Vec<ModelProvider>) -> (kinds: Vec<DriaApiKeyKind>)
        ensures
            kinds@ == DriaApiKeyKind::spec_from_providers(providers@),
    {
        let mut openai = false;
        let mut gemini = false;
        let mut openrouter = false;
        let mut i: usize = 0;
        while i < providers.len()
            invariant
                i <= providers.len(),
                openai == providers@.take(i as int).contains(ModelProvider::OpenAI),
                gemini == providers@.take(i as int).contains(ModelProvider::Gemini),
                openrouter == providers@.take(i as int).contains(ModelProvider::OpenRouter),
            decreases providers.len() - i,
        {
            let ghost seen = providers@.take(i as int);
            let ghost more = providers@.take(i + 1);
            proof {
                assert(more == seen.push(providers@[i as int]));
                lemma_contains_push(seen, providers@[i as int], ModelProvider::OpenAI);
                lemma_contains_push(seen, providers@[i as int], ModelProvider::Gemini);
                lemma_contains_push(seen, providers@[i as int], ModelProvider::OpenRouter);
            }
            match providers[i] {
                ModelProvider::OpenAI => {
                    openai = true;
                },
                ModelProvider::Gemini => {
                    gemini = true;
                },
                ModelProvider::OpenRouter => {
                    openrouter = true;
                },
                _ => {},
            }
            i += 1;
        }
        assert(providers@.take(providers.len() as int) == providers@);
        let mut kinds: Vec<DriaApiKeyKind> = Vec::new();
        if openai {
            kinds.push(DriaApiKeyKind::OpenAI);
        }
        if gemini {
            kinds.push(DriaApiKeyKind::Gemini);
        }
        if openrouter {
            kinds.push(DriaApiKeyKind::OpenRouter);
        }
        kinds
    }
}

/// A list with one more item holds what it held before, and that item.
pub proof fn lemma_contains_push(s: Seq<ModelProvider>, added: ModelProvider, wanted: ModelProvider)
    ensures
        s.push(added).contains(wanted) <==> s.contains(wanted) || added == wanted,
{
    let more = s.push(added);
    if s.contains(wanted) {
        let i = choose|i: int| 0 <= i < s.len() && s[i] == wanted;
        assert(more[i] == wanted);
    }
    if added == wanted {
        assert(more[s.len() as int] == wanted);
    }
}

/// The kinds of keys among `kinds` that the settings do not hold.
pub open spec fn missing(kinds: Seq<DriaApiKeyKind>, entries: Map<Seq<char>, Seq<char>>) -> Seq<
    DriaApiKeyKind,
>
    decreases kinds.len(),
{
    if kinds.len() == 0 {
        seq![]
    } else if entries.contains_key(kinds.last().spec_name()) {
        missing(kinds.drop_last(), entries)
    } else {
        missing(kinds.drop_last(), entries).push(kinds.last())
    }
}

/// The keys that must be asked for before the compute node starts: those
/// of the given kinds that the settings do not hold, in their order.
pub fn missing_api_keys(dria_env: &DriaEnv, kinds: &Vec<DriaApiKeyKind>) -> (asked: Vec<
    DriaApiKeyKind,
>)
    ensures
        asked@ == missing(kinds@, dria_env@),
{
    let mut asked: Vec<DriaApiKeyKind> = Vec::new();
    let mut i: usize = 0;
    while i < kinds.len()
        invariant
            i <= kinds.len(),
            asked@ == missing(kinds@.take(i as int), dria_env@),
        decreases kinds.len() - i,
    {
        assert(kinds@.take(i + 1).drop_last() == kinds@.take(i as int));
        if dria_env.get(kinds[i].name()).is_none() {
            asked.push(kinds[i]);
        }
        i += 1;
    }
    assert(kinds@.take(kinds.len() as int) == kinds@);
    asked
}

/// What an answer to the question for a key does to the settings: an empty
/// answer nothing; the word `delete`, in capital or small letters, stores
/// the empty key; any other answer is stored as the key.
pub fn edit_api_key(dria_env: &mut DriaEnv, kind: DriaApiKeyKind, new_value: String)
    ensures
        final(dria_env)@ == if new_value@.len() == 0 {
            old(dria_env)@
        } else if is_delete_word(new_value@) {
            old(dria_env)@.insert(kind.spec_name(), Seq::<char>::empty())
        } else {
            old(dria_env)@.insert(kind.spec_name(), new_value@)
        },
        final(dria_env).changed() == (old(dria_env).changed() || new_value@.len() > 0),
{
    proof {
        crate::env::lemma_key_names();
    }
    if new_value.as_str().is_empty() {
        return ;
    }
    let word = to_chars(new_value.as_str());
    let deletes = word.len() == 6 && (word[0] == 'd' || word[0] == 'D') && (word[1] == 'e'
        || word[1] == 'E') && (word[2] == 'l' || word[2] == 'L') && (word[3] == 'e' || word[3]
        == 'E') && (word[4] == 't' || word[4] == 'T') && (word[5] == 'e' || word[5] == 'E');
    if deletes {
        dria_env.set(kind.name(), String::new());
    } else {
        dria_env.set(kind.name(), new_value);
    }
}

} // verus!
