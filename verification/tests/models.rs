use dkn_compute_launcher::env::DriaEnv;
use dkn_compute_launcher::models::{
    chars_le, choose_models, contains_name, get_names_served_by, get_providers, models_to_be_pulled,
    models_value, save_models, sort_names, Model, ModelProvider,
};
use dkn_compute_launcher::text::{from_chars, to_chars};

fn model(name: &str, provider: ModelProvider) -> Model {
    Model { name: name.to_string(), provider }
}

fn names(models: &Vec<Model>) -> Vec<&str> {
    models.iter().map(|m| m.name.as_str()).collect()
}

fn strings(list: &[&str]) -> Vec<String> {
    list.iter().map(|s| s.to_string()).collect()
}

#[test]
fn test_providers_and_names() {
    let models = vec![
        model("llama3.1:latest", ModelProvider::Ollama),
        model("gpt-4o", ModelProvider::OpenAI),
        model("phi3:14b", ModelProvider::Ollama),
    ];
    assert_eq!(
        get_providers(&models),
        vec![ModelProvider::Ollama, ModelProvider::OpenAI, ModelProvider::Ollama]
    );
    assert_eq!(
        get_names_served_by(&models, ModelProvider::Ollama),
        strings(&["llama3.1:latest", "phi3:14b"])
    );
    assert_eq!(get_names_served_by(&models, ModelProvider::Gemini), Vec::<String>::new());
}

#[test]
fn test_models_to_be_pulled() {
    let wanted = strings(&["a", "b", "c", "a"]);
    assert_eq!(models_to_be_pulled(&wanted, &strings(&["b", "x"])), strings(&["a", "c", "a"]));
    assert_eq!(models_to_be_pulled(&wanted, &strings(&["a", "b", "c"])), Vec::<String>::new());
    assert_eq!(models_to_be_pulled(&wanted, &Vec::new()), wanted);
    assert_eq!(models_to_be_pulled(&Vec::new(), &wanted), Vec::<String>::new());
    assert!(contains_name(&wanted, "c"));
    assert!(!contains_name(&wanted, "C"));
    assert!(!contains_name(&wanted, ""));
}

#[test]
fn test_choose_models() {
    let chosen = vec![
        model("llama", ModelProvider::Ollama),
        model("gpt-4o", ModelProvider::OpenAI),
        model("phi3", ModelProvider::Ollama),
        model("gemini", ModelProvider::Gemini),
    ];
    let selected = vec![model("phi3", ModelProvider::Ollama), model("qwen", ModelProvider::Ollama)];
    let after = choose_models(&chosen, ModelProvider::Ollama, &selected);
    assert_eq!(names(&after), vec!["gpt-4o", "gemini", "phi3", "qwen"]);
    let after = choose_models(&chosen, ModelProvider::OpenAI, &Vec::new());
    assert_eq!(names(&after), vec!["llama", "phi3", "gemini"]);
    let after = choose_models(&Vec::new(), ModelProvider::OpenAI, &selected);
    assert_eq!(names(&after), vec!["phi3", "qwen"]);
}

#[test]
fn test_sort_names_is_the_sort_of_std() {
    let lists: Vec<Vec<&str>> = vec![
        vec![],
        vec!["a"],
        vec!["b", "a"],
        vec!["b", "a", "b", "", "ab", "B", "a"],
        vec!["phi3:14b", "gpt-4o", "llama3.1:latest", "gpt-4o-mini", "gemini-1.5-pro", "é", "z"],
    ];
    for list in lists {
        let given: Vec<Vec<char>> = list.iter().map(|n| to_chars(n)).collect();
        let sorted: Vec<String> = sort_names(&given).iter().map(|n| from_chars(n)).collect();
        let mut expected: Vec<String> = list.iter().map(|n| n.to_string()).collect();
        expected.sort();
        assert_eq!(sorted, expected);
    }
    assert!(chars_le(&to_chars(""), &to_chars("")));
    assert!(chars_le(&to_chars("a"), &to_chars("ab")));
    assert!(!chars_le(&to_chars("ab"), &to_chars("a")));
    assert!(chars_le(&to_chars("Z"), &to_chars("a")));
}

#[test]
fn test_models_value() {
    let models = vec![
        model("phi3:14b", ModelProvider::Ollama),
        model("gpt-4o", ModelProvider::OpenAI),
        model("llama3.1:latest", ModelProvider::Ollama),
    ];
    assert_eq!(models_value(&models), "gpt-4o,llama3.1:latest,phi3:14b");
    assert_eq!(models_value(&Vec::new()), "");
    let mut env = DriaEnv::new_from_env(&Vec::new());
    save_models(&mut env, &models);
    assert_eq!(env.get("DKN_MODELS"), Some("gpt-4o,llama3.1:latest,phi3:14b"));
    assert!(env.is_changed());
}
