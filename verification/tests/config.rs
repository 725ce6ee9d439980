use shuru::allowed::{AllowedIps, ALLOWED_IPS_CAPACITY};
use shuru::config::{domain_matches, ProxyConfig, SecretConfig};
use shuru::placeholder::{generate_placeholder, placeholders_for};
use shuru::string_map::StringMap;

fn map(entries: Vec<(&str, &str)>) -> StringMap<String> {
    let mut m = StringMap::new();
    for (k, v) in entries {
        m.insert(k.to_string(), v.to_string());
    }
    m
}

#[test]
fn test_domain_matching() {
    assert!(domain_matches("example.com", "example.com"));
    assert!(!domain_matches("example.com", "api.example.com"));
    assert!(domain_matches("*.example.com", "api.example.com"));
    assert!(domain_matches("*.example.com", "deep.api.example.com"));
    assert!(!domain_matches("*.example.com", "example.com"));
    assert!(!domain_matches("*.example.com", "notexample.com"));
}

#[test]
fn test_secrets_for_domain_uses_literal_values() {
    let mut config = ProxyConfig::default();
    config.secrets.insert(
        "API_KEY".into(),
        SecretConfig {
            value: "sk-test".into(),
            hosts: vec!["api.openai.com".into()],
        },
    );

    let placeholders = map(vec![("API_KEY", "shuru_tok_123")]);

    assert_eq!(
        config.secrets_for_domain("api.openai.com", &placeholders),
        vec![("shuru_tok_123".to_string(), "sk-test".to_string())]
    );
    assert!(config
        .secrets_for_domain("api.anthropic.com", &placeholders)
        .is_empty());
}

#[test]
fn an_empty_allowlist_allows_every_domain() {
    let mut config = ProxyConfig::default();
    assert!(config.is_domain_allowed("example.com"));
    config.network.allow.push("*.github.com".to_string());
    assert!(config.is_domain_allowed("api.github.com"));
    assert!(!config.is_domain_allowed("github.com"));
    assert!(!config.is_domain_allowed("example.com"));
    config.network.allow.push("github.com".to_string());
    assert!(config.is_domain_allowed("github.com"));
}

#[test]
fn secrets_need_a_host_and_a_placeholder() {
    let mut config = ProxyConfig::default();
    config.secrets.insert(
        "A".into(),
        SecretConfig { value: "a".into(), hosts: vec!["x.com".into(), "*.y.com".into()] },
    );
    config.secrets.insert("B".into(), SecretConfig { value: "b".into(), hosts: vec!["x.com".into()] });
    let placeholders = map(vec![("A", "ta"), ("C", "tc")]);
    assert_eq!(
        config.secrets_for_domain("x.com", &placeholders),
        vec![("ta".to_string(), "a".to_string())]
    );
    assert_eq!(
        config.secrets_for_domain("z.y.com", &placeholders),
        vec![("ta".to_string(), "a".to_string())]
    );
    assert!(config.secrets_for_domain("y.com", &placeholders).is_empty());
}

#[test]
fn a_later_secret_replaces_one_of_the_same_name() {
    let mut config = ProxyConfig::default();
    config.secrets.insert("A".into(), SecretConfig { value: "1".into(), hosts: vec![] });
    config.secrets.insert("A".into(), SecretConfig { value: "2".into(), hosts: vec![] });
    assert_eq!(config.secrets.len(), 1);
    assert_eq!(config.secrets.get("A").unwrap().value, "2");
    assert!(!config.secrets.contains_key("B"));
}

#[test]
fn placeholders_have_their_form() {
    assert_eq!(generate_placeholder(0x17, 3), "shuru_tok_00000000000000170003");
    assert_eq!(
        generate_placeholder(u64::MAX, 0x12345),
        "shuru_tok_ffffffffffffffff12345"
    );
    assert_eq!(generate_placeholder(0, 0), "shuru_tok_00000000000000000000");
}

#[test]
fn every_secret_gets_its_own_placeholder() {
    let mut config = ProxyConfig::default();
    for name in ["A", "B", "C"] {
        config.secrets.insert(name.into(), SecretConfig { value: "v".into(), hosts: vec![] });
    }
    let tokens = placeholders_for(&config.secrets, &vec![5, 5, 5], 9);
    assert_eq!(tokens.len(), 3);
    assert_eq!(tokens.get("A").unwrap(), "shuru_tok_00000000000000050009");
    assert_eq!(tokens.get("B").unwrap(), "shuru_tok_0000000000000005000a");
    assert_eq!(tokens.get("C").unwrap(), "shuru_tok_0000000000000005000b");
}

#[test]
fn allowed_addresses_are_bounded() {
    let mut ips = AllowedIps::new();
    let n = ALLOWED_IPS_CAPACITY as u32;
    for ip in 0..n {
        ips.allow(ip);
    }
    // Address 0 is in use, so address 1 is the one to leave.
    assert!(ips.is_allowed(0));
    ips.allow(n);
    assert!(ips.is_allowed(0));
    assert!(!ips.is_allowed(1));
    assert!(ips.is_allowed(2));
    assert!(ips.is_allowed(n));
}

#[test]
fn addresses_matter_only_with_an_allowlist() {
    let mut config = ProxyConfig::default();
    let mut ips = AllowedIps::new();
    assert!(ips.admits(&config, 7));
    config.network.allow.push("example.com".to_string());
    assert!(!ips.admits(&config, 7));
    ips.allow(7);
    assert!(ips.admits(&config, 7));
}
