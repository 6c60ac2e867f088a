//! What is settled before the compute node starts: that models are chosen,
//! whether the Ollama server is needed, and what the compute node is told.

use crate::models::{model_views, Model, ModelProvider, ModelView};
use crate::process::{ComputeInstance, InstanceView, Phase};
use crate::text::{extend_chars, from_chars, to_chars};
use vstd::prelude::*;

verus! {

/// The variable that tells the compute node where its settings file is.
pub const DKN_COMPUTE_ENV_KEY: &'static str = "DKN_COMPUTE_ENV";

/// The variable that tells the compute node what started it.
pub const DKN_EXEC_PLATFORM_KEY: &'static str = "DKN_EXEC_PLATFORM";

/// Whether any of the models is served by `provider`.
pub open spec fn any_served_by(models: Seq<ModelView>, provider: ModelProvider) -> bool {
    exists|i: int| 0 <= i < models.len() && (#[trigger] models[i]).provider == provider
}

/// Whether any of the models is served by the Ollama server.
pub fn uses_ollama(models: &Vec<Model>) -> (uses: bool)
    ensures
        uses == any_served_by(model_views(models@), ModelProvider::Ollama),
{
    let mut i: usize = 0;
    while i < models.len()
        invariant
            i <= models.len(),
            forall|j: int| 0 <= j < i ==> models@[j].provider != ModelProvider::Ollama,
        decreases models.len() - i,
    {
        if models[i].provider == ModelProvider::Ollama {
            assert(model_views(models@)[i as int].provider == ModelProvider::Ollama);
            return true;
        }
        i += 1;
    }
    assert forall|j: int| 0 <= j < models.len() implies (#[trigger] model_views(
        models@,
    )[j]).provider != ModelProvider::Ollama by {}
    false
}

/// What the launcher tells the compute node by variables of its environment,
/// beside all that the launcher's own environment holds: where the settings
/// file is, and that the launcher of the given version started it.
pub open spec fn spawn_variables(env_path: Seq<char>, launcher_version: Seq<char>) -> Seq<
    (Seq<char>, Seq<char>),
> {
    seq![
        ("DKN_COMPUTE_ENV"@, env_path),
        ("DKN_EXEC_PLATFORM"@, "launcher/v"@ + launcher_version),
    ]
}

/// What the launcher tells the compute node by variables of its environment.
pub fn compute_variables(env_path: &str, launcher_version: &str) -> (variables: Vec<
    (String, String),
>)
    ensures
        crate::env::var_views(variables@) == spawn_variables(env_path@, launcher_version@),
{
    let mut origin = to_chars("launcher/v");
    extend_chars(&mut origin, &to_chars(launcher_version));
    let mut variables: Vec<(String, String)> = Vec::new();
    variables.push((String::from_str(DKN_COMPUTE_ENV_KEY), String::from_str(env_path)));
    variables.push((String::from_str(DKN_EXEC_PLATFORM_KEY), from_chars(&origin)));
    variables
}

/// The supervision of a compute node that serves the given models, not yet
/// begun: it makes sure of the Ollama server first if any of the models is
/// served by it. Nothing where no model is chosen: a compute node does not
/// start without one.
pub fn run_compute_node(models: &Vec<Model>, launcher_version: String, check_updates: bool) -> (instance:
    Option<ComputeInstance>)
    ensures
        match instance {
            Some(i) => models@.len() > 0 && i@ == (InstanceView {
                phase: Phase::Created,
                check_updates,
                ollama_required: any_served_by(model_views(models@), ModelProvider::Ollama),
                ollama_owned: false,
                compute_alive: false,
                launcher_version: launcher_version@,
                target_version: Seq::<char>::empty(),
                failure: None,
            }),
            None => models@.len() == 0,
        },
{
    if models.len() == 0 {
        return None;
    }
    let ollama_required = uses_ollama(models);
    Some(ComputeInstance::new(launcher_version, check_updates, ollama_required))
}

/// Whether a file in the launcher's directory is one of the compute node:
/// its name begins with `dkn-compute-node`.
pub fn is_compute_node_file(name: &str) -> (yes: bool)
    ensures
        yes == crate::text::starts_with(name@, "dkn-compute-node"@),
{
    crate::text::chars_start_with(&to_chars(name), &to_chars("dkn-compute-node"))
}

} // verus!
