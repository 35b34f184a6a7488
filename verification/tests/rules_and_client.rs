use matapan::ai_client::{
    chat_reply, is_local_host, translation_prompt, validate_local_base_url, BaseUrlError,
    OllamaClientConfig,
};
use matapan::rules::{
    check_path_id, create_rule, delete_rule, find_rule, update_rule, FileRuleRepository, ReorderRulesRequest,
    RuleStoreError, StoredRule,
};

fn stored(id: Option<&str>, readable: bool, value: i32) -> StoredRule<i32> {
    StoredRule { rule_id: id.map(|s| s.to_string()), readable, value }
}

#[test]
fn a_created_rule_is_found_again() {
    let mut rules = vec![stored(Some("a"), true, 1)];
    assert!(create_rule(&mut rules, "b", 2).is_ok());
    let k = find_rule(&rules, "b").unwrap();
    assert_eq!(rules[k].value, 2);
    assert_eq!(find_rule(&rules, "a"), Some(0));
}

#[test]
fn creating_a_duplicate_is_refused() {
    let mut rules = vec![stored(Some("a"), false, 1)];
    match create_rule(&mut rules, "a", 5) {
        Err(e) => assert_eq!(e.message(), "Rule with ID a already exists"),
        Ok(_) => panic!("expected a refusal"),
    }
    assert_eq!(rules.len(), 1);
    assert_eq!(rules[0].value, 1);
}

#[test]
fn an_updated_rule_reads_back_its_new_value() {
    let mut rules = vec![stored(None, true, 0), stored(Some("a"), false, 1), stored(Some("a"), true, 2)];
    assert_eq!(find_rule(&rules, "a"), Some(2));
    assert!(update_rule(&mut rules, "a", 9).is_ok());
    assert_eq!(find_rule(&rules, "a"), Some(1));
    assert_eq!(rules[1].value, 9);
    assert_eq!(rules[2].value, 2);
}

#[test]
fn deleting_removes_the_first_match_only() {
    let mut rules = vec![stored(Some("a"), true, 1), stored(Some("b"), true, 2), stored(Some("a"), true, 3)];
    assert!(delete_rule(&mut rules, "a").is_ok());
    assert_eq!(rules.len(), 2);
    assert_eq!(find_rule(&rules, "a"), Some(1));
    assert_eq!(rules[1].value, 3);
    assert_eq!(find_rule(&rules, "b"), Some(0));
}

#[test]
fn missing_rules_are_not_found() {
    let mut rules = vec![stored(Some("a"), true, 1)];
    match update_rule(&mut rules, "z", 2) {
        Err(e) => assert_eq!(e.message(), "Rule z not found"),
        Ok(_) => panic!("expected a refusal"),
    }
    assert!(matches!(delete_rule(&mut rules, "z"), Err(RuleStoreError::NotFound { .. })));
    assert_eq!(find_rule(&rules, "z"), None);
    assert_eq!(RuleStoreError::RulesMissing.message(), "rules array not found");
}

#[test]
fn reordering_gives_positions_as_priorities() {
    let req = ReorderRulesRequest { rule_ids: vec!["x".to_string(), "y".to_string()] };
    assert_eq!(req.priorities(), vec![("x".to_string(), 0), ("y".to_string(), 1)]);
    assert_eq!(FileRuleRepository::new("database/database.json").database_path, "database/database.json");
}

#[test]
fn only_local_base_urls_are_accepted() {
    assert_eq!(validate_local_base_url("http://localhost:11434").ok().unwrap(), "http://localhost:11434/");
    assert!(validate_local_base_url("http://LOCALHOST:11434").is_ok());
    assert!(validate_local_base_url("http://127.0.0.1:11434/").is_ok());
    match validate_local_base_url("https://localhost:11434") {
        Err(e) => assert_eq!(
            e.message(),
            "Unsupported scheme 'https' for OLLAMA_BASE_URL (use http://localhost:11434)"
        ),
        Ok(_) => panic!("expected a refusal"),
    }
    match validate_local_base_url("http://example.com") {
        Err(BaseUrlError::NonLocalHost { host }) => assert_eq!(host, "example.com"),
        _ => panic!("expected a refusal"),
    }
    match validate_local_base_url("http://[::1]:11434") {
        Err(BaseUrlError::NonLocalHost { host }) => assert_eq!(host, "[::1]"),
        _ => panic!("expected a refusal"),
    }
    match validate_local_base_url("not a url") {
        Err(e) => assert_eq!(e.message(), "Invalid OLLAMA_BASE_URL: not a url"),
        Ok(_) => panic!("expected a refusal"),
    }
    assert!(is_local_host("::1"));
    assert!(!is_local_host("localhost.example"));
}

#[test]
fn configuration_defaults() {
    let c = OllamaClientConfig::from_env_values(None, None);
    assert_eq!(c.base_url, "http://localhost:11434");
    assert_eq!(c.model, "llama3.2");
    let c = OllamaClientConfig::from_env_values(Some("http://127.0.0.1:1".to_string()), Some("m".to_string()));
    assert_eq!(c.base_url, "http://127.0.0.1:1");
    assert_eq!(c.model, "m");
}

#[test]
fn prompts_and_replies() {
    assert_eq!(
        translation_prompt("English"),
        "You are a translation engine. Translate the user's text to English. Return only the translated text and nothing else."
    );
    assert_eq!(chat_reply(Some("  hej \n".to_string())).ok().unwrap(), "hej");
    assert_eq!(chat_reply(None).err().unwrap(), "Ollama response had no message content");
}

#[test]
fn update_path_must_name_the_body_rule() {
    assert!(check_path_id("r1", "r1").is_ok());
    match check_path_id("r1", "r2") {
        Err(e) => {
            assert!(matches!(e, RuleStoreError::IdMismatch));
            assert_eq!(e.message(), "Rule ID in path does not match rule ID in body");
        }
        Ok(_) => panic!("expected a refusal"),
    }
}
