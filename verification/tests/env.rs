use dkn_compute_launcher::env::{default_env, find_key, key_name, DriaEnv, KEY_COUNT};

fn vars(pairs: &[(&str, &str)]) -> Vec<(String, String)> {
    pairs.iter().map(|(k, v)| (k.to_string(), v.to_string())).collect()
}

fn env_of(pairs: &[(&str, &str)]) -> DriaEnv {
    DriaEnv::new_from_env(&vars(pairs))
}

#[test]
fn test_select_providers() {
    let e = env_of(&[("OPENAI_API_KEY", "sk-test"), ("DKN_MODELS", "gpt-4o")]);
    println!("{}", e.to_text());
    assert_eq!(e.to_text(), "DKN_MODELS=gpt-4o\nOPENAI_API_KEY=sk-test\n");
}

#[test]
fn test_default_env() {
    assert_eq!(default_env(), ".env");
}

#[test]
fn test_key_names() {
    assert_eq!(KEY_COUNT, 13);
    assert_eq!(DriaEnv::KEY_NAMES.len(), KEY_COUNT);
    for i in 0..KEY_COUNT {
        assert_eq!(key_name(i), DriaEnv::KEY_NAMES[i]);
        assert_eq!(find_key(DriaEnv::KEY_NAMES[i]), Some(i));
    }
    assert_eq!(find_key("PATH"), None);
    assert_eq!(find_key(""), None);
    assert_eq!(find_key("RUST_LOG="), None);
}

#[test]
fn test_new_from_env_reads_known_keys_only() {
    let e = env_of(&[
        ("PATH", "/usr/bin"),
        ("RUST_LOG", "info"),
        ("OLLAMA_HOST", ""),
        ("DKN_MODELS", "a,b"),
        ("DKN_MODELS", "shadowed"),
    ]);
    assert!(!e.is_changed());
    assert_eq!(e.get("RUST_LOG"), Some("info"));
    assert_eq!(e.get("DKN_MODELS"), Some("a,b"));
    assert_eq!(e.get("OLLAMA_HOST"), None);
    assert_eq!(e.get("PATH"), None);
    assert_eq!(e.get("DKN_WALLET_SECRET_KEY"), None);
}

#[test]
fn test_set_marks_changed_and_stores_known_keys() {
    let mut e = env_of(&[]);
    assert!(!e.is_changed());
    e.set("RUST_LOG", "debug".to_string());
    assert!(e.is_changed());
    assert_eq!(e.get("RUST_LOG"), Some("debug"));
    e.set("RUST_LOG", "trace".to_string());
    assert_eq!(e.get("RUST_LOG"), Some("trace"));
    e.set("OLLAMA_AUTO_PULL", "true".to_string());
    assert_eq!(e.get("OLLAMA_AUTO_PULL"), Some("true"));
}

#[test]
fn test_set_never_stores_an_unknown_key() {
    let mut e = env_of(&[]);
    e.set("HOME", "/root".to_string());
    assert_eq!(e.get("HOME"), None);
    assert!(e.is_changed());
    assert_eq!(e.save_to_content("A=1"), "A=1");
}

#[test]
fn test_save_to_content_replaces_the_first_match_only() {
    let mut e = env_of(&[]);
    e.set("RUST_LOG", "info".to_string());
    let content = "# settings\nRUST_LOG=off\nOTHER=1\n#RUST_LOG=trace\nRUST_LOG=debug\n";
    assert_eq!(
        e.save_to_content(content),
        "# settings\nRUST_LOG=info\nOTHER=1\n#RUST_LOG=trace\nRUST_LOG=debug"
    );
}

#[test]
fn test_save_to_content_appends_what_was_not_there() {
    let mut e = env_of(&[]);
    e.set("OLLAMA_PORT", "11434".to_string());
    e.set("RUST_LOG", "info".to_string());
    e.set("DKN_MODELS", "m".to_string());
    assert_eq!(
        e.save_to_content("DKN_MODELS=old\n\n# end"),
        "DKN_MODELS=m\n\n# end\nRUST_LOG=info\nOLLAMA_PORT=11434"
    );
    assert_eq!(e.save_to_content(""), "RUST_LOG=info\nDKN_MODELS=m\nOLLAMA_PORT=11434");
}

#[test]
fn test_save_to_content_keeps_other_lines_as_they_are() {
    let e = env_of(&[("RUST_LOG", "info")]);
    let content = "  RUST_LOG=indented\nRUST_LOGS=longer\nrust_log=small\n=\nA=B=C\n\tx";
    assert_eq!(e.save_to_content(content), format!("{}\nRUST_LOG=info", content));
    let empty = env_of(&[]);
    assert_eq!(empty.save_to_content("a\r\nb\nc"), "a\nb\nc");
    assert_eq!(empty.save_to_content("a\n"), "a");
    assert_eq!(empty.save_to_content(""), "");
}

#[test]
fn test_save_to_content_twice_changes_nothing_more() {
    let mut e = env_of(&[("DKN_WALLET_SECRET_KEY", "abc"), ("RUST_LOG", "warn")]);
    e.set("DKN_BATCH_SIZE", "8".to_string());
    for content in ["", "x", "RUST_LOG=off\n# c\nRUST_LOG=x", "a\r\nDKN_BATCH_SIZE=1\r\nb"] {
        let once = e.save_to_content(content);
        let twice = e.save_to_content(&once);
        assert_eq!(once, twice, "merging into {:?}", content);
    }
}

#[test]
fn test_save_to_content_twice_where_the_text_does_not_read_back() {
    // a last line that is empty is lost when the text is read again
    let empty = env_of(&[]);
    let once = empty.save_to_content("a\n\n");
    assert_eq!(once, "a\n");
    assert_eq!(empty.save_to_content(&once), "a");
    // and so is a carriage return at the end of a line that was the last
    let e = env_of(&[("RUST_LOG", "info")]);
    let once = e.save_to_content("a\r");
    assert_eq!(once, "a\r\nRUST_LOG=info");
    assert_eq!(e.save_to_content(&once), "a\nRUST_LOG=info");
    // a value of two lines is written again and again
    let mut e = env_of(&[]);
    e.set("RUST_LOG", "a\nb".to_string());
    let once = e.save_to_content("");
    assert_eq!(once, "RUST_LOG=a\nb");
    assert_eq!(e.save_to_content(&once), "RUST_LOG=a\nb\nb");
}

#[test]
fn test_get_ollama_config() {
    let e = env_of(&[]);
    assert_eq!(e.ollama_config(), Some(("http://127.0.0.1", 11434)));
    assert_eq!(e.get_ollama_config(), ("http://127.0.0.1", 11434));
    let e = env_of(&[("OLLAMA_HOST", "http://localhost"), ("OLLAMA_PORT", "11438")]);
    assert_eq!(e.get_ollama_config(), ("http://localhost", 11438));
    let e = env_of(&[("OLLAMA_PORT", "65536")]);
    assert_eq!(e.ollama_config(), None);
    let e = env_of(&[("OLLAMA_PORT", "port")]);
    assert_eq!(e.ollama_config(), None);
}

#[test]
fn test_ask_for_key_if_required() {
    let mut e = env_of(&[("DKN_WALLET_SECRET_KEY", "abc")]);
    let done: Result<(), String> = e.ask_for_key_if_required(|| panic!("asked"));
    assert_eq!(done, Ok(()));
    assert!(!e.is_changed());

    let mut e = env_of(&[]);
    let done: Result<(), String> = e.ask_for_key_if_required(|| Ok("secret".to_string()));
    assert_eq!(done, Ok(()));
    assert_eq!(e.get("DKN_WALLET_SECRET_KEY"), Some("secret"));
    assert!(e.is_changed());

    let mut e = env_of(&[]);
    let done: Result<(), String> = e.ask_for_key_if_required(|| Ok(String::new()));
    assert_eq!(done, Ok(()));
    assert_eq!(e.get("DKN_WALLET_SECRET_KEY"), None);
    assert!(!e.is_changed());

    let mut e = env_of(&[]);
    let done = e.ask_for_key_if_required(|| Err("cancelled".to_string()));
    assert_eq!(done, Err("cancelled".to_string()));
    assert_eq!(e.get("DKN_WALLET_SECRET_KEY"), None);
}

#[test]
fn test_to_text_lists_values_in_the_order_of_the_keys() {
    let mut e = env_of(&[]);
    assert_eq!(e.to_text(), "");
    e.set("OLLAMA_HOST", "h".to_string());
    e.set("RUST_LOG", "info".to_string());
    assert_eq!(e.to_text(), "RUST_LOG=info\nOLLAMA_HOST=h\n");
}

/// The merge as a plain rewrite of the lines, for settings of one key.
fn rewrite(key: &str, value: &str, content: &str) -> String {
    let mut pending = true;
    let mut lines: Vec<String> = Vec::new();
    for line in content.lines() {
        if pending && line.starts_with(&format!("{}=", key)) {
            lines.push(format!("{}={}", key, value));
            pending = false;
        } else {
            lines.push(line.to_string());
        }
    }
    if pending {
        lines.push(format!("{}={}", key, value));
    }
    lines.join("\n")
}

#[test]
fn test_save_to_content_is_a_plain_rewrite() {
    let pieces = ["", "RUST_LOG=x", "RUST_LOG", "#RUST_LOG=x", "RUST_LOG=", "a=b", " ", "\r"];
    let ends = ["", "\n", "\r\n"];
    for key in ["RUST_LOG", "OLLAMA_AUTO_PULL"] {
        for value in ["", "info", "a=b", "x\r"] {
            let mut e = env_of(&[]);
            e.set(key, value.to_string());
            for first in pieces {
                for second in pieces {
                    for third in pieces {
                        for end in ends {
                            let content = format!("{}\n{}{}{}{}", first, second, end, third, end);
                            assert_eq!(
                                e.save_to_content(&content),
                                rewrite(key, value, &content),
                                "merging {}={:?} into {:?}",
                                key,
                                value,
                                content
                            );
                        }
                    }
                }
            }
        }
    }
}
