use sorry::config::{
    configure_provider, default_base_url, default_model, describe_config, groq_models, mood_menu,
    openai_models, select_mood, Config, Mood, ProviderConfig, ProviderEntry, Providers,
};
use sorry::error::SorryError;

fn provider(api_key: &str, base_url: &str, model: &str) -> ProviderConfig {
    ProviderConfig {
        api_key: api_key.to_string(),
        base_url: base_url.to_string(),
        model: model.to_string(),
    }
}

fn fields(p: &ProviderConfig) -> (String, String, String) {
    (p.api_key.clone(), p.base_url.clone(), p.model.clone())
}

fn sample_config() -> Config {
    let providers = Providers::new()
        .insert("openai", provider("sk-1", "https://api.openai.com/v1", "gpt-4o"))
        .insert("local", provider("", "http://localhost:8080/v1", "tiny"));
    Config { provider: Some("openai".to_string()), mood: Some(Mood::Bro), providers }
}

#[test]
fn moods_have_display_names() {
    assert_eq!(Mood::Princess.display_name(), "Treat me like a princess");
    assert_eq!(Mood::Bro.display_name(), "Treat me like a bro");
    assert_eq!(Mood::Bitch.display_name(), "Treat me like a bitch");
}

#[test]
fn default_mood_is_princess() {
    assert_eq!(Mood::default(), Mood::Princess);
}

#[test]
fn moods_are_listed_in_menu_order() {
    assert_eq!(Mood::all(), vec![Mood::Princess, Mood::Bro, Mood::Bitch]);
    for (i, mood) in Mood::all().iter().enumerate() {
        assert_eq!(Mood::from_index(i + 1), Some(*mood));
    }
}

#[test]
fn mood_index_outside_menu_is_none() {
    assert_eq!(Mood::from_index(0), None);
    assert_eq!(Mood::from_index(4), None);
    assert_eq!(Mood::from_index(usize::MAX), None);
    assert_eq!(Mood::from_index(1), Some(Mood::Princess));
    assert_eq!(Mood::from_index(2), Some(Mood::Bro));
    assert_eq!(Mood::from_index(3), Some(Mood::Bitch));
}

#[test]
fn system_prompt_is_rules_then_personality() {
    let rules = "Answer the questions concisely and to the point.";
    let princess = Mood::Princess.system_prompt();
    let bro = Mood::Bro.system_prompt();
    let bitch = Mood::Bitch.system_prompt();
    assert!(princess.starts_with(rules));
    assert!(bro.starts_with(rules));
    assert!(bitch.starts_with(rules));
    assert!(princess.contains("Don't use markdown formatting, just normal text."));
    assert!(princess.contains("Don't use dashes."));
    assert!(princess.ends_with("explain what they do in a friendly, non-intimidating way."));
    assert!(bro.ends_with("You're just helping a friend out, no big deal."));
    assert!(bitch.ends_with("'Now try not to fuck it up again, okay sweetie?'"));
    let shared = princess.find("\nYou are a kind").unwrap() + 1;
    assert_eq!(&princess[..shared], &bro[..shared]);
    assert_eq!(&bro[..shared], &bitch[..shared]);
    assert!(bro[shared..].starts_with("You are a chill bro"));
}

#[test]
fn defaults_of_known_providers() {
    assert_eq!(default_model("openai"), "gpt-4.1-mini");
    assert_eq!(default_model("groq"), "openai/gpt-oss-20b");
    assert_eq!(default_model("other"), "gpt-4.1-mini");
    assert_eq!(default_base_url("openai"), "https://api.openai.com/v1");
    assert_eq!(default_base_url("groq"), "https://api.groq.com/openai/v1");
    assert_eq!(default_base_url("other"), "https://api.openai.com/v1");
}

#[test]
fn default_providers_are_openai_and_groq() {
    let providers = Config::default_providers();
    assert!(!providers.is_empty());
    assert_eq!(
        fields(providers.get("openai").unwrap()),
        ("".to_string(), "https://api.openai.com/v1".to_string(), "gpt-4.1-mini".to_string())
    );
    assert_eq!(
        fields(providers.get("groq").unwrap()),
        (
            "".to_string(),
            "https://api.groq.com/openai/v1".to_string(),
            "openai/gpt-oss-20b".to_string()
        )
    );
    assert!(providers.get("other").is_none());
    assert_eq!(providers.to_entries().len(), 2);
}

#[test]
fn default_config_is_empty() {
    let config = Config::default();
    assert_eq!(config.provider, None);
    assert_eq!(config.mood, None);
    assert!(config.providers.is_empty());
}

#[test]
fn providers_insert_replaces_by_name() {
    let providers = Providers::new()
        .insert("a", provider("k1", "u1", "m1"))
        .insert("b", provider("k2", "u2", "m2"))
        .insert("a", provider("k3", "u3", "m3"));
    assert_eq!(fields(providers.get("a").unwrap()), ("k3".into(), "u3".into(), "m3".into()));
    assert_eq!(fields(providers.get("b").unwrap()), ("k2".into(), "u2".into(), "m2".into()));
    assert!(providers.get("c").is_none());
    assert!(providers.get("").is_none());
    assert_eq!(providers.to_entries().len(), 2);
}

#[test]
fn providers_survive_a_round_trip_through_entries() {
    let config = sample_config();
    let entries = config.providers.to_entries();
    let names: Vec<String> = entries.iter().map(|e| e.name.clone()).collect();
    assert_eq!(names, vec!["openai".to_string(), "local".to_string()]);
    let again = Providers::from_entries(entries);
    for name in ["openai", "local"] {
        assert_eq!(
            fields(again.get(name).unwrap()),
            fields(config.providers.get(name).unwrap())
        );
    }
    assert!(again.get("groq").is_none());
}

#[test]
fn later_entry_of_a_name_counts() {
    let entries = vec![
        ProviderEntry { name: "a".to_string(), config: provider("k1", "u1", "m1") },
        ProviderEntry { name: "a".to_string(), config: provider("k2", "u2", "m2") },
    ];
    let providers = Providers::from_entries(entries);
    assert_eq!(fields(providers.get("a").unwrap()), ("k2".into(), "u2".into(), "m2".into()));
    assert_eq!(providers.to_entries().len(), 1);
}

#[test]
fn configuring_the_first_provider_brings_the_defaults() {
    let config = configure_provider(Config::default(), "groq", " gsk-1 \n", "\n").unwrap();
    assert_eq!(config.provider, Some("groq".to_string()));
    assert_eq!(config.mood, None);
    assert_eq!(
        fields(config.providers.get("groq").unwrap()),
        (
            "gsk-1".to_string(),
            "https://api.groq.com/openai/v1".to_string(),
            "openai/gpt-oss-20b".to_string()
        )
    );
    assert_eq!(
        fields(config.providers.get("openai").unwrap()),
        ("".to_string(), "https://api.openai.com/v1".to_string(), "gpt-4.1-mini".to_string())
    );
}

#[test]
fn configuring_keeps_the_address_of_a_known_provider() {
    let config = configure_provider(sample_config(), "local", "key", "big-model").unwrap();
    assert_eq!(config.provider, Some("local".to_string()));
    assert_eq!(config.mood, Some(Mood::Bro));
    assert_eq!(
        fields(config.providers.get("local").unwrap()),
        ("key".to_string(), "http://localhost:8080/v1".to_string(), "big-model".to_string())
    );
    assert_eq!(
        fields(config.providers.get("openai").unwrap()),
        ("sk-1".to_string(), "https://api.openai.com/v1".to_string(), "gpt-4o".to_string())
    );
}

#[test]
fn configuring_an_unknown_provider_uses_default_address() {
    let config = configure_provider(sample_config(), "groq", "k", "").unwrap();
    assert_eq!(
        fields(config.providers.get("groq").unwrap()),
        (
            "k".to_string(),
            "https://api.groq.com/openai/v1".to_string(),
            "openai/gpt-oss-20b".to_string()
        )
    );
    assert_eq!(config.providers.to_entries().len(), 3);
}

#[test]
fn blank_api_key_is_refused() {
    for key in ["", "   ", "\n", "\t \r\n"] {
        match configure_provider(sample_config(), "openai", key, "gpt-4o") {
            Err(SorryError::EmptyApiKey) => {}
            other => panic!("unexpected: {:?}", other),
        }
    }
}

#[test]
fn selecting_a_mood_stores_it() {
    let (config, chosen) = select_mood(sample_config(), "3\n");
    assert_eq!(chosen, Some(Mood::Bitch));
    assert_eq!(config.mood, Some(Mood::Bitch));
    assert_eq!(config.provider, Some("openai".to_string()));
    let (config, chosen) = select_mood(Config::default(), " 1 ");
    assert_eq!(chosen, Some(Mood::Princess));
    assert_eq!(config.mood, Some(Mood::Princess));
    let (config, chosen) = select_mood(config, "+2");
    assert_eq!(chosen, Some(Mood::Bro));
    assert_eq!(config.mood, Some(Mood::Bro));
}

#[test]
fn selection_outside_the_menu_leaves_mood_unchanged() {
    for input in ["0", "4", "17", "-1", "", "abc", "2.0", "1 2", "99999999999999999999999"] {
        let (config, chosen) = select_mood(sample_config(), input);
        assert_eq!(chosen, None);
        assert_eq!(config.mood, Some(Mood::Bro));
        assert_eq!(config.provider, Some("openai".to_string()));
        assert_eq!(config.providers.to_entries().len(), 2);
        let (config, chosen) = select_mood(Config::default(), input);
        assert_eq!(chosen, None);
        assert_eq!(config.mood, None);
    }
}

#[test]
fn menu_marks_the_current_mood() {
    assert_eq!(
        mood_menu(Some(Mood::Bro)),
        vec![
            "  1. Treat me like a princess".to_string(),
            "  2. Treat me like a bro (current)".to_string(),
            "  3. Treat me like a bitch".to_string(),
        ]
    );
    assert_eq!(mood_menu(None)[0], "  1. Treat me like a princess (current)");
    assert_eq!(mood_menu(None)[1], "  2. Treat me like a bro");
}

#[test]
fn summary_hides_the_key() {
    assert_eq!(
        describe_config(&sample_config()),
        vec![
            "".to_string(),
            "Mood: Treat me like a bro".to_string(),
            "".to_string(),
            "Provider: openai".to_string(),
            "  Base URL: https://api.openai.com/v1".to_string(),
            "  Model: gpt-4o".to_string(),
            "  API Key: configured (hidden)".to_string(),
            "".to_string(),
        ]
    );
}

#[test]
fn summary_of_a_provider_without_key() {
    let mut config = sample_config();
    config.provider = Some("local".to_string());
    config.mood = None;
    let lines = describe_config(&config);
    assert_eq!(lines[1], "Mood: Treat me like a princess");
    assert_eq!(lines[3], "Provider: local");
    assert_eq!(lines[6], "  API Key: not set");
}

#[test]
fn summary_without_provider_gives_a_hint() {
    assert_eq!(
        describe_config(&Config::default()),
        vec![
            "".to_string(),
            "Mood: Treat me like a princess".to_string(),
            "".to_string(),
            "Provider: not configured".to_string(),
            "Run 'sorry --config-openai' or 'sorry --config-groq' to set up.".to_string(),
            "".to_string(),
        ]
    );
}

#[test]
fn summary_of_a_provider_that_is_not_configured() {
    let mut config = sample_config();
    config.provider = Some("gone".to_string());
    assert_eq!(
        describe_config(&config),
        vec![
            "".to_string(),
            "Mood: Treat me like a bro".to_string(),
            "".to_string(),
            "Provider: gone".to_string(),
            "".to_string(),
        ]
    );
}

#[test]
fn suggested_models() {
    assert_eq!(openai_models().len(), 8);
    assert_eq!(openai_models()[0], "gpt-4.1-mini");
    assert_eq!(openai_models()[7], "o3-mini");
    assert_eq!(groq_models().len(), 6);
    assert_eq!(groq_models()[0], "llama-3.3-70b-versatile");
    assert_eq!(groq_models()[5], "gemma2-9b-it");
}
