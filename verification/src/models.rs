//! The models that the compute node serves: who provides them, and how the
//! user's choice of them is kept in the settings.

use crate::env::{is_known_key, key_names, lemma_key_names, DriaEnv};
use crate::text::{chars_eq, from_chars, join, join_chars, to_chars, views};
use vstd::prelude::*;

verus! {

/// Who serves a model.
#[derive(Debug, Clone, Copy, PartialEq, Eq, Hash, Structural)]
pub enum ModelProvider {
    Ollama,
    OpenAI,
    Gemini,
    OpenRouter,
    /// Any other provider: one that needs no key.
    Other,
}

/// A model: its name and who serves it.
#[derive(Debug)]
pub struct Model {
    pub name: String,
    pub provider: ModelProvider,
}

/// What a [`Model`] holds.
pub struct ModelView {
    pub name: Seq<char>,
    pub provider: ModelProvider,
}

impl View for Model {
    type V = ModelView;

    open spec fn view(&self) -> ModelView {
        ModelView { name: self.name@, provider: self.provider }
    }
}

impl Model {
    /// A model that holds the same.
    pub fn duplicate(&self) -> (copy: Model)
        ensures
            copy@ == self@,
    {
        Model { name: self.name.clone(), provider: self.provider }
    }
}

/// The views of a list of models, in order.
pub open spec fn model_views(models: Seq<Model>) -> Seq<ModelView> {
    Seq::new(models.len(), |i: int| models[i]@)
}

/// The providers of a list of models, in order.
pub open spec fn providers_of(models: Seq<ModelView>) -> Seq<ModelProvider> {
    Seq::new(models.len(), |i: int| models[i].provider)
}

/// The names of the models of a list that `provider` serves, in order.
pub open spec fn names_served_by(models: Seq<ModelView>, provider: ModelProvider) -> Seq<Seq<char>>
    decreases models.len(),
{
    if models.len() == 0 {
        seq![]
    } else if models.last().provider == provider {
        names_served_by(models.drop_last(), provider).push(models.last().name)
    } else {
        names_served_by(models.drop_last(), provider)
    }
}

/// The models of a list that `provider` does not serve, in order.
pub open spec fn not_served_by(models: Seq<ModelView>, provider: ModelProvider) -> Seq<ModelView>
    decreases models.len(),
{
    if models.len() == 0 {
        seq![]
    } else if models.last().provider == provider {
        not_served_by(models.drop_last(), provider)
    } else {
        not_served_by(models.drop_last(), provider).push(models.last())
    }
}

/// The names of a list that are not among `have`, in order.
pub open spec fn names_missing(wanted: Seq<Seq<char>>, have: Seq<Seq<char>>) -> Seq<Seq<char>>
    decreases wanted.len(),
{
    if wanted.len() == 0 {
        seq![]
    } else if have.contains(wanted.last()) {
        names_missing(wanted.drop_last(), have)
    } else {
        names_missing(wanted.drop_last(), have).push(wanted.last())
    }
}

/// Whether `a` comes before `b` or is `b`, by their characters from the
/// first on; a text comes before every text that it begins.
pub open spec fn text_le(a: Seq<char>, b: Seq<char>) -> bool
    decreases a.len(),
{
    if a.len() == 0 {
        true
    } else if b.len() == 0 {
        false
    } else if a[0] != b[0] {
        a[0] < b[0]
    } else {
        text_le(a.drop_first(), b.drop_first())
    }
}

/// The names of a list of models, in order.
pub open spec fn model_names(models: Seq<Model>) -> Seq<Seq<char>> {
    Seq::new(models.len(), |i: int| models[i]@.name)
}

/// Whether a list of texts is in order.
pub open spec fn is_sorted(texts: Seq<Seq<char>>) -> bool {
    forall|i: int, j: int| 0 <= i <= j < texts.len() ==> text_le(texts[i], texts[j])
}

/// The providers of the given models, in order.
pub fn get_providers(models: &Vec<Model>) -> (providers: Vec<ModelProvider>)
    ensures
        providers@ == providers_of(model_views(models@)),
{
    let mut providers: Vec<ModelProvider> = Vec::new();
    let mut i: usize = 0;
    while i < models.len()
        invariant
            i <= models.len(),
            providers@ == providers_of(model_views(models@)).take(i as int),
        decreases models.len() - i,
    {
        providers.push(models[i].provider);
        i += 1;
    }
    providers
}

/// The names of the given models that `provider` serves, in order.
pub fn get_names_served_by(models: &Vec<Model>, provider: ModelProvider) -> (names: Vec<String>)
    ensures
        crate::text::string_views(names@) == names_served_by(model_views(models@), provider),
{
    let ghost all = model_views(models@);
    let mut names: Vec<String> = Vec::new();
    let mut i: usize = 0;
    while i < models.len()
        invariant
            i <= models.len(),
            all == model_views(models@),
            crate::text::string_views(names@) == names_served_by(all.take(i as int), provider),
        decreases models.len() - i,
    {
        assert(all.take(i + 1).drop_last() == all.take(i as int));
        if models[i].provider == provider {
            names.push(models[i].name.clone());
        }
        i += 1;
    }
    assert(all.take(models.len() as int) == all);
    names
}

/// Whether `name` is among `names`.
pub fn contains_name(names: &Vec<String>, name: &str) -> (found: bool)
    ensures
        found == crate::text::string_views(names@).contains(name@),
{
    let wanted = to_chars(name);
    let mut i: usize = 0;
    while i < names.len()
        invariant
            i <= names.len(),
            wanted@ == name@,
            forall|j: int| 0 <= j < i ==> names@[j]@ != name@,
        decreases names.len() - i,
    {
        if chars_eq(&to_chars(names[i].as_str()), &wanted) {
            assert(crate::text::string_views(names@)[i as int] == name@);
            return true;
        }
        i += 1;
    }
    assert forall|j: int| 0 <= j < names.len() implies crate::text::string_views(names@)[j]
        != name@ by {}
    false
}

/// The models to be pulled before the compute node starts: of the wanted
/// names those that are not among the names of the models that are there,
/// in order.
pub fn models_to_be_pulled(wanted: &Vec<String>, local: &Vec<String>) -> (missing: Vec<String>)
    ensures
        crate::text::string_views(missing@) == names_missing(
            crate::text::string_views(wanted@),
            crate::text::string_views(local@),
        ),
{
    let ghost all = crate::text::string_views(wanted@);
    let ghost have = crate::text::string_views(local@);
    let mut missing: Vec<String> = Vec::new();
    let mut i: usize = 0;
    while i < wanted.len()
        invariant
            i <= wanted.len(),
            all == crate::text::string_views(wanted@),
            have == crate::text::string_views(local@),
            crate::text::string_views(missing@) == names_missing(all.take(i as int), have),
        decreases wanted.len() - i,
    {
        assert(all.take(i + 1).drop_last() == all.take(i as int));
        if !contains_name(local, wanted[i].as_str()) {
            missing.push(wanted[i].clone());
        }
        i += 1;
    }
    assert(all.take(wanted.len() as int) == all);
    missing
}

/// The chosen models after the user has chosen anew among the models of one
/// provider: those of the other providers as they were, then the newly
/// chosen ones.
pub fn choose_models(chosen: &Vec<Model>, provider: ModelProvider, selected: &Vec<Model>) -> (after:
    Vec<Model>)
    ensures
        model_views(after@) == not_served_by(model_views(chosen@), provider) + model_views(
            selected@,
        ),
{
    let ghost all = model_views(chosen@);
    let mut after: Vec<Model> = Vec::new();
    let mut i: usize = 0;
    while i < chosen.len()
        invariant
            i <= chosen.len(),
            all == model_views(chosen@),
            model_views(after@) == not_served_by(all.take(i as int), provider),
        decreases chosen.len() - i,
    {
        assert(all.take(i + 1).drop_last() == all.take(i as int));
        if chosen[i].provider != provider {
            after.push(chosen[i].duplicate());
        }
        i += 1;
    }
    assert(all.take(chosen.len() as int) == all);
    let ghost kept = model_views(after@);
    let mut j: usize = 0;
    while j < selected.len()
        invariant
            j <= selected.len(),
            model_views(after@) == kept + model_views(selected@).take(j as int),
        decreases selected.len() - j,
    {
        let ghost before = model_views(after@);
        after.push(selected[j].duplicate());
        assert(model_views(after@) == before.push(selected@[j as int]@));
        assert(model_views(selected@).take(j + 1) == model_views(selected@).take(j as int).push(
            selected@[j as int]@,
        ));
        j += 1;
    }
    after
}

/// Whether `a` comes before `b` or is `b`.
pub fn chars_le(a: &Vec<char>, b: &Vec<char>) -> (le: bool)
    ensures
        le == text_le(a@, b@),
{
    let mut i: usize = 0;
    assert(a@.skip(0) == a@ && b@.skip(0) == b@);
    while i < a.len() && i < b.len()
        invariant
            i <= a.len(),
            i <= b.len(),
            text_le(a@, b@) == text_le(a@.skip(i as int), b@.skip(i as int)),
        decreases a.len() - i,
    {
        let ghost ra = a@.skip(i as int);
        let ghost rb = b@.skip(i as int);
        assert(ra.drop_first() == a@.skip(i + 1));
        assert(rb.drop_first() == b@.skip(i + 1));
        if a[i] != b[i] {
            return a[i] < b[i];
        }
        i += 1;
    }
    i == a.len()
}

/// The order of texts is total, and goes on from one text to the next.
pub proof fn lemma_text_le(a: Seq<char>, b: Seq<char>, c: Seq<char>)
    ensures
        text_le(a, b) || text_le(b, a),
        text_le(a, b) && text_le(b, c) ==> text_le(a, c),
        text_le(a, b) && text_le(b, a) ==> a == b,
    decreases a.len(),
{
    if a.len() > 0 && b.len() > 0 {
        if a[0] == b[0] {
            if c.len() > 0 {
                lemma_text_le(a.drop_first(), b.drop_first(), c.drop_first());
            } else {
                lemma_text_le(a.drop_first(), b.drop_first(), c);
            }
            if text_le(a, b) && text_le(b, a) {
                assert(a =~= seq![a[0]] + a.drop_first());
            }
        }
    }
}

/// The given texts in order. Nothing is added and nothing is lost: every
/// text is there as often as it was.
pub fn sort_names(names: &Vec<Vec<char>>) -> (sorted: Vec<Vec<char>>)
    ensures
        is_sorted(views(sorted@)),
        views(sorted@).to_multiset() == views(names@).to_multiset(),
{
    let mut sorted: Vec<Vec<char>> = Vec::new();
    let mut i: usize = 0;
    assert(views(names@).take(0) =~= views(sorted@));
    while i < names.len()
        invariant
            i <= names.len(),
            is_sorted(views(sorted@)),
            views(sorted@).to_multiset() == views(names@).take(i as int).to_multiset(),
        decreases names.len() - i,
    {
        let item = names[i].clone();
        let mut at: usize = 0;
        while at < sorted.len() && chars_le(&sorted[at], &item)
            invariant
                at <= sorted.len(),
                item@ == names@[i as int]@,
                forall|j: int| 0 <= j < at ==> text_le(#[trigger] views(sorted@)[j], item@),
            decreases sorted.len() - at,
        {
            at += 1;
        }
        let ghost before = views(sorted@);
        proof {
            if at < sorted.len() {
                lemma_text_le(before[at as int], item@, item@);
            }
        }
        sorted.insert(at, item);
        proof {
            let after = views(sorted@);
            assert(after =~= before.insert(at as int, item@));
            assert forall|x: int, y: int| 0 <= x <= y < after.len() implies text_le(
                after[x],
                after[y],
            ) by {
                let py = if y < at {
                    y
                } else {
                    y - 1
                };
                if x == at && y == at {
                    lemma_text_le(item@, item@, item@);
                } else if x == at {
                    lemma_text_le(item@, before[at as int], before[py]);
                }
            }
            let seen = views(names@).take(i as int);
            let more = views(names@).take(i + 1);
            assert(more == seen.push(item@));
            vstd::seq_lib::to_multiset_insert(before, at as int, item@);
            vstd::seq_lib::to_multiset_build(seen, item@);
        }
        i += 1;
    }
    assert(views(names@).take(names.len() as int) == views(names@));
    sorted
}

/// The value of the settings for the chosen models: their names in order,
/// with commas between.
pub fn models_value(models: &Vec<Model>) -> (value: String)
    ensures
        exists|sorted: Seq<Seq<char>>|
            is_sorted(sorted) && #[trigger] sorted.to_multiset() == model_names(
                models@,
            ).to_multiset() && value@ == join(sorted, seq![',']),
{
    let mut names: Vec<Vec<char>> = Vec::new();
    let mut i: usize = 0;
    while i < models.len()
        invariant
            i <= models.len(),
            views(names@) == model_names(models@).take(i as int),
        decreases models.len() - i,
    {
        names.push(to_chars(models[i].name.as_str()));
        assert(model_names(models@).take(i + 1) == model_names(models@).take(i as int).push(
            models@[i as int]@.name,
        ));
        i += 1;
    }
    assert(model_names(models@).take(models.len() as int) == model_names(models@));
    let sorted = sort_names(&names);
    let mut comma: Vec<char> = Vec::new();
    comma.push(',');
    let value = join_chars(&sorted, &comma);
    from_chars(&value)
}

/// Stores the chosen models in the settings.
pub fn save_models(dria_env: &mut DriaEnv, models: &Vec<Model>)
    ensures
        exists|sorted: Seq<Seq<char>>|
            is_sorted(sorted) && #[trigger] sorted.to_multiset() == model_names(
                models@,
            ).to_multiset() && final(dria_env)@ == old(dria_env)@.insert(
                "DKN_MODELS"@,
                join(sorted, seq![',']),
            ),
        final(dria_env).changed(),
{
    let value = models_value(models);
    proof {
        lemma_key_names();
    }
    dria_env.set(DriaEnv::DKN_MODELS_KEY, value);
}

} // verus!
