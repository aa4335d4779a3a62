use repo_search::config::{Config, EnvOverrides, LegacyProviderConfig, ProviderEntry, ProviderType};

fn entry(kind: Option<ProviderType>, token: Option<&str>, url: Option<&str>) -> ProviderEntry {
    ProviderEntry {
        provider_type: kind,
        token: token.map(|t| t.to_string()),
        url: url.map(|u| u.to_string()),
    }
}

fn no_env() -> EnvOverrides {
    EnvOverrides {
        github_token: None,
        github_url: None,
        gitlab_token: None,
        gitlab_url: None,
        bitbucket_token: None,
        bitbucket_url: None,
    }
}

fn with_providers(entries: Vec<(&str, ProviderEntry)>) -> Config {
    let mut config = Config::new();
    for (name, e) in entries {
        config.set_provider(name.to_string(), e);
    }
    config.migrate_legacy_providers();
    config
}

#[test]
fn test_provider_type_from_name() {
    assert_eq!(ProviderType::from_name("github"), Some(ProviderType::Github));
    assert_eq!(ProviderType::from_name("GitHub"), Some(ProviderType::Github));
    assert_eq!(ProviderType::from_name("GITHUB"), Some(ProviderType::Github));
    assert_eq!(ProviderType::from_name("gitlab"), Some(ProviderType::Gitlab));
    assert_eq!(ProviderType::from_name("bitbucket"), Some(ProviderType::Bitbucket));
    assert_eq!(ProviderType::from_name("unknown"), None);
    assert_eq!(ProviderType::from_name("work-gitlab"), None);
}

#[test]
fn test_provider_type_default_url() {
    assert_eq!(ProviderType::Github.default_url(), "https://api.github.com");
    assert_eq!(ProviderType::Gitlab.default_url(), "https://gitlab.com");
    assert_eq!(ProviderType::Bitbucket.default_url(), "https://api.bitbucket.org/2.0");
}

#[test]
fn test_legacy_config_migration() {
    let mut config = Config::new();
    config.set_legacy(
        ProviderType::Github,
        Some(LegacyProviderConfig {
            token: Some("legacy-github-token".to_string()),
            url: Some("https://github.enterprise.com".to_string()),
        }),
    );
    config.set_legacy(
        ProviderType::Gitlab,
        Some(LegacyProviderConfig { token: Some("legacy-gitlab-token".to_string()), url: None }),
    );
    config.migrate_legacy_providers();

    assert!(config.provider("github").is_some());
    assert!(config.provider("gitlab").is_some());

    let github = config.provider("github").unwrap();
    assert_eq!(github.token, Some("legacy-github-token".to_string()));
    assert_eq!(github.url, Some("https://github.enterprise.com".to_string()));
}

#[test]
fn test_resolve_builtin_provider() {
    let config = with_providers(vec![]);

    let github = config.resolve_provider("github").unwrap();
    assert_eq!(github.name, "github");
    assert_eq!(github.provider_type, ProviderType::Github);
    assert_eq!(github.url, "https://api.github.com");
    assert!(github.token.is_none());
}

#[test]
fn test_resolve_configured_provider() {
    let config = with_providers(vec![(
        "github",
        entry(None, Some("my-token"), Some("https://api.github.enterprise.com")),
    )]);

    let github = config.resolve_provider("github").unwrap();
    assert_eq!(github.token, Some("my-token".to_string()));
    assert_eq!(github.url, "https://api.github.enterprise.com");
}

#[test]
fn test_resolve_custom_provider() {
    let config = with_providers(vec![(
        "work-gitlab",
        entry(Some(ProviderType::Gitlab), Some("work-token"), Some("https://gitlab.work.com")),
    )]);

    let provider = config.resolve_provider("work-gitlab").unwrap();
    assert_eq!(provider.name, "work-gitlab");
    assert_eq!(provider.provider_type, ProviderType::Gitlab);
    assert_eq!(provider.url, "https://gitlab.work.com");
    assert_eq!(provider.token, Some("work-token".to_string()));
}

#[test]
fn test_resolve_custom_provider_without_type_fails() {
    let config = with_providers(vec![(
        "my-custom",
        entry(None, Some("token"), Some("https://custom.com")),
    )]);

    assert!(config.resolve_provider("my-custom").is_none());
}

#[test]
fn test_resolve_unknown_provider() {
    let config = with_providers(vec![]);
    assert!(config.resolve_provider("unknown-provider").is_none());
}

#[test]
fn test_provider_names_includes_builtins() {
    let config = with_providers(vec![]);
    let names = config.provider_names();

    assert!(names.contains(&"github".to_string()));
    assert!(names.contains(&"gitlab".to_string()));
    assert!(names.contains(&"bitbucket".to_string()));
}

#[test]
fn test_provider_names_includes_custom() {
    let config = with_providers(vec![(
        "work-gitlab",
        entry(Some(ProviderType::Gitlab), None, Some("https://gitlab.work.com")),
    )]);
    let names = config.provider_names();

    assert!(names.contains(&"work-gitlab".to_string()));
    assert!(names.contains(&"github".to_string()));
}

#[test]
fn test_default_providers_from_config() {
    let mut config = Config::new();
    config.set_defaults(Some(vec!["github".to_string(), "work-gitlab".to_string()]), None);
    config.migrate_legacy_providers();

    assert_eq!(
        config.default_providers(),
        vec!["github".to_string(), "work-gitlab".to_string()]
    );
}

#[test]
fn test_default_providers_fallback() {
    let config = with_providers(vec![]);

    assert_eq!(
        config.default_providers(),
        vec!["github".to_string(), "gitlab".to_string(), "bitbucket".to_string()]
    );
}

#[test]
fn test_custom_provider_uses_default_url_for_type() {
    let config = with_providers(vec![(
        "my-github",
        entry(Some(ProviderType::Github), Some("my-token"), None),
    )]);

    let provider = config.resolve_provider("my-github").unwrap();
    assert_eq!(provider.url, "https://api.github.com");
}

#[test]
fn from_name_matches_mixed_case_and_rejects_near_names() {
    assert_eq!(ProviderType::from_name("BitBucket"), Some(ProviderType::Bitbucket));
    assert_eq!(ProviderType::from_name("GitLab"), Some(ProviderType::Gitlab));
    assert_eq!(ProviderType::from_name("github "), None);
    assert_eq!(ProviderType::from_name(""), None);
    assert_eq!(ProviderType::from_lowercase("github"), Some(ProviderType::Github));
    assert_eq!(ProviderType::from_lowercase("GitHub"), None);
}

#[test]
fn kind_names() {
    assert_eq!(ProviderType::Github.as_str(), "github");
    assert_eq!(ProviderType::Gitlab.as_str(), "gitlab");
    assert_eq!(ProviderType::Bitbucket.as_str(), "bitbucket");
}

#[test]
fn unknown_names_do_not_resolve_in_any_case() {
    let config = with_providers(vec![]);
    assert!(config.resolve_provider("GitHubX").is_none());
    assert!(config.resolve_provider("my-internal-server").is_none());
}

#[test]
fn builtin_names_resolve_to_defaults_in_any_case() {
    let config = with_providers(vec![]);
    let p = config.resolve_provider("GitLab").unwrap();
    assert_eq!(p.name, "GitLab");
    assert_eq!(p.provider_type, ProviderType::Gitlab);
    assert_eq!(p.url, "https://gitlab.com");
    assert!(p.token.is_none());
    let b = config.resolve_provider("bitbucket").unwrap();
    assert_eq!(b.url, "https://api.bitbucket.org/2.0");
}

#[test]
fn env_token_keeps_file_url() {
    let base = with_providers(vec![("github", entry(None, Some("file-token"), Some("https://ghe.example.com")))]);
    let mut env = no_env();
    env.github_token = Some("env-token".to_string());
    let config = Config::load(base, &env);
    let p = config.resolve_provider("github").unwrap();
    assert_eq!(p.token, Some("env-token".to_string()));
    assert_eq!(p.url, "https://ghe.example.com");
}

#[test]
fn env_url_creates_missing_entry() {
    let mut env = no_env();
    env.gitlab_url = Some("https://gitlab.corp".to_string());
    let config = Config::load(Config::new(), &env);
    let e = config.provider("gitlab").unwrap();
    assert_eq!(e.provider_type, Some(ProviderType::Gitlab));
    assert_eq!(e.url, Some("https://gitlab.corp".to_string()));
    assert!(e.token.is_none());
    assert!(config.provider("github").is_none());
    assert!(config.provider("bitbucket").is_none());
}

#[test]
fn legacy_section_does_not_replace_unified_entry() {
    let mut base = Config::new();
    base.set_provider("github".to_string(), entry(None, Some("unified"), None));
    base.set_legacy(
        ProviderType::Github,
        Some(LegacyProviderConfig { token: Some("legacy".to_string()), url: Some("https://old".to_string()) }),
    );
    let config = Config::load(base, &no_env());
    let e = config.provider("github").unwrap();
    assert_eq!(e.token, Some("unified".to_string()));
    assert!(e.url.is_none());
}

#[test]
fn env_entry_wins_over_legacy_section() {
    let mut base = Config::new();
    base.set_legacy(
        ProviderType::Bitbucket,
        Some(LegacyProviderConfig { token: Some("legacy".to_string()), url: Some("https://old".to_string()) }),
    );
    let mut env = no_env();
    env.bitbucket_token = Some("env".to_string());
    let config = Config::load(base, &env);
    let e = config.provider("bitbucket").unwrap();
    assert_eq!(e.token, Some("env".to_string()));
    assert!(e.url.is_none());
}

#[test]
fn provider_names_sorted_without_duplicates() {
    let config = with_providers(vec![
        ("zeta", entry(Some(ProviderType::Gitlab), None, None)),
        ("github", entry(None, Some("t"), None)),
        ("alpha", entry(Some(ProviderType::Github), None, None)),
    ]);
    assert_eq!(
        config.provider_names(),
        vec!["alpha", "bitbucket", "github", "gitlab", "zeta"]
    );
}

#[test]
fn provider_names_of_empty_config() {
    let config = Config::new();
    assert_eq!(config.provider_names(), vec!["bitbucket", "github", "gitlab"]);
}

#[test]
fn set_provider_replaces_entry() {
    let mut config = Config::new();
    config.set_provider("work".to_string(), entry(Some(ProviderType::Gitlab), None, None));
    config.set_provider("work".to_string(), entry(Some(ProviderType::Github), Some("t2"), None));
    let p = config.resolve_provider("work").unwrap();
    assert_eq!(p.provider_type, ProviderType::Github);
    assert_eq!(p.token, Some("t2".to_string()));
    assert_eq!(config.provider_names(), vec!["bitbucket", "github", "gitlab", "work"]);
}
