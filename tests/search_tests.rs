use repo_search::cli::{Args, UsageError, DEFAULT_LIMIT};
use repo_search::config::{Config, ProviderEntry, ProviderType};
use repo_search::models::{display_bool, Repository, SearchResults};
use repo_search::providers::{gitlab_is_private, needs_username, search_url, user_url, PlanError};
use repo_search::search::{merge_outcomes, resolve_provider_names, resolve_selected, SearchOutcome};

fn repo(name: &str, provider: &str) -> Repository {
    Repository {
        name: name.to_string(),
        owner: "bar".to_string(),
        private: false,
        provider: provider.to_string(),
        url: format!("https://example.com/{}", name),
        full_name: format!("bar/{}", name),
        description: None,
    }
}

fn strings(v: &[&str]) -> Vec<String> {
    v.iter().map(|s| s.to_string()).collect()
}

fn config_with_work() -> Config {
    let mut config = Config::new();
    config.set_provider(
        "work-gitlab".to_string(),
        ProviderEntry { provider_type: Some(ProviderType::Gitlab), token: None, url: None },
    );
    config
}

fn args() -> Args {
    Args {
        query: Some("cli".to_string()),
        provider: vec![],
        url: None,
        mine: false,
        owner: None,
        limit: None,
        json: false,
        list_providers: false,
    }
}

#[test]
fn all_with_duplicate_selects_same_set_as_all() {
    let config = config_with_work();
    let all = resolve_provider_names(&strings(&["all"]), &config);
    let mixed = resolve_provider_names(&strings(&["all", "github"]), &config);
    assert_eq!(all, mixed);
    assert_eq!(all, strings(&["bitbucket", "github", "gitlab", "work-gitlab"]));
}

#[test]
fn all_selector_ignores_ascii_case() {
    let config = config_with_work();
    let upper = resolve_provider_names(&strings(&["ALL"]), &config);
    assert_eq!(upper, config.provider_names());
}

#[test]
fn explicit_selectors_collapse_duplicates() {
    let config = Config::new();
    let names = resolve_provider_names(&strings(&["gitlab", "github", "gitlab"]), &config);
    assert_eq!(names, strings(&["github", "gitlab"]));
}

#[test]
fn no_selectors_use_defaults() {
    let mut config = Config::new();
    assert_eq!(resolve_provider_names(&vec![], &config), strings(&["github", "gitlab", "bitbucket"]));
    config.set_defaults(Some(strings(&["work"])), None);
    assert_eq!(resolve_provider_names(&vec![], &config), strings(&["work"]));
}

#[test]
fn success_and_failure_merge_in_either_order() {
    let first = vec![
        SearchOutcome::Found(vec![repo("a", "P1"), repo("b", "P1")]),
        SearchOutcome::Failed { provider: "P2".to_string(), message: "network error".to_string() },
    ];
    let (repos, warnings) = merge_outcomes(first);
    assert_eq!(repos.len(), 2);
    assert_eq!(warnings, strings(&["P2: network error"]));

    let second = vec![
        SearchOutcome::Failed { provider: "P2".to_string(), message: "network error".to_string() },
        SearchOutcome::Found(vec![repo("a", "P1"), repo("b", "P1")]),
    ];
    let (repos, warnings) = merge_outcomes(second);
    assert_eq!(repos.len(), 2);
    assert_eq!(repos[0].name, "a");
    assert_eq!(repos[1].name, "b");
    assert_eq!(warnings.len(), 1);
    assert!(warnings[0].contains("P2"));
}

#[test]
fn no_outcomes_merge_to_nothing() {
    let (repos, warnings) = merge_outcomes(vec![]);
    assert!(repos.is_empty());
    assert!(warnings.is_empty());
}

#[test]
fn crashed_unit_becomes_warning() {
    let (repos, warnings) = merge_outcomes(vec![
        SearchOutcome::Crashed { message: "panicked".to_string() },
        SearchOutcome::Found(vec![repo("x", "gh")]),
        SearchOutcome::Found(vec![repo("y", "gl")]),
    ]);
    assert_eq!(warnings, strings(&["Task error: panicked"]));
    assert_eq!(repos.iter().map(|r| r.name.clone()).collect::<Vec<_>>(), strings(&["x", "y"]));
}

#[test]
fn selected_names_resolve_with_override_and_unknowns() {
    let config = config_with_work();
    let (found, unknown) = resolve_selected(
        &config,
        &strings(&["github", "nope", "work-gitlab"]),
        Some("https://override.example"),
    );
    assert_eq!(found.len(), 2);
    assert_eq!(found[0].name, "github");
    assert_eq!(found[0].url, "https://override.example");
    assert_eq!(found[1].provider_type, ProviderType::Gitlab);
    assert_eq!(found[1].url, "https://override.example");
    assert_eq!(unknown, strings(&["nope"]));

    let (found, unknown) = resolve_selected(&config, &strings(&["work-gitlab"]), None);
    assert_eq!(found[0].url, "https://gitlab.com");
    assert!(unknown.is_empty());
}

#[test]
fn identity_lookup_decisions() {
    assert_eq!(needs_username(ProviderType::Github, false, false), Ok(false));
    assert_eq!(needs_username(ProviderType::Github, true, true), Ok(true));
    assert_eq!(needs_username(ProviderType::Github, true, false), Err(PlanError::AuthRequired));
    assert_eq!(needs_username(ProviderType::Gitlab, true, false), Err(PlanError::AuthRequired));
    assert_eq!(needs_username(ProviderType::Gitlab, true, true), Ok(false));
    assert_eq!(needs_username(ProviderType::Gitlab, false, false), Ok(false));
    assert_eq!(needs_username(ProviderType::Bitbucket, false, false), Err(PlanError::BitbucketNeedsAuth));
    assert_eq!(needs_username(ProviderType::Bitbucket, true, false), Err(PlanError::AuthRequired));
    assert_eq!(needs_username(ProviderType::Bitbucket, false, true), Ok(true));
    assert_eq!(PlanError::AuthRequired.message(), "Authentication required to get username");
}

#[test]
fn search_urls_per_kind() {
    assert_eq!(
        search_url(ProviderType::Github, "https://api.github.com", "foo bar", None, false, 10),
        "https://api.github.com/search/repositories?q=foo%20bar&per_page=10"
    );
    assert_eq!(
        search_url(ProviderType::Github, "https://api.github.com", "cli", Some("me"), true, 5),
        "https://api.github.com/search/repositories?q=cli%20user%3Ame&per_page=5"
    );
    assert_eq!(
        search_url(ProviderType::Gitlab, "https://gitlab.com", "a&b", None, true, 125),
        "https://gitlab.com/api/v4/projects?search=a%26b&per_page=125&owned=true"
    );
    assert_eq!(
        search_url(ProviderType::Gitlab, "https://gitlab.com", "x", None, false, 0),
        "https://gitlab.com/api/v4/projects?search=x&per_page=0"
    );
    assert_eq!(
        search_url(ProviderType::Bitbucket, "https://api.bitbucket.org/2.0", "my repo", Some("bob"), false, 20),
        "https://api.bitbucket.org/2.0/repositories/bob?q=name~\"my%20repo\"&pagelen=20"
    );
    assert_eq!(
        search_url(ProviderType::Bitbucket, "https://b", "q", None, false, 3),
        "https://b/repositories?q=name~\"q\"&pagelen=3"
    );
    assert_eq!(user_url("https://api.github.com"), "https://api.github.com/user");
}

#[test]
fn gitlab_visibility() {
    assert!(!gitlab_is_private("public"));
    assert!(gitlab_is_private("internal"));
    assert!(gitlab_is_private("private"));
}

#[test]
fn limit_precedence() {
    let mut a = args();
    assert_eq!(a.effective_limit(None), DEFAULT_LIMIT);
    assert_eq!(a.effective_limit(Some(20)), 20);
    a.limit = Some(3);
    assert_eq!(a.effective_limit(Some(20)), 3);
}

#[test]
fn usage_checks() {
    let mut a = args();
    assert_eq!(a.search_query(), Ok("cli".to_string()));
    a.query = None;
    assert_eq!(a.search_query(), Err(UsageError::MissingQuery));
    a.mine = true;
    a.owner = Some("bob".to_string());
    assert_eq!(a.search_query(), Err(UsageError::MineWithOwner));
    assert_eq!(UsageError::MineWithOwner.message(), "--owner and --mine cannot be used together");
}

#[test]
fn results_and_visibility_display() {
    let r = SearchResults::new(vec![repo("foo", "GitHub")]);
    assert_eq!(r.total, 1);
    assert_eq!(r.repositories[0].name, "foo");
    assert_eq!(r.repositories[0].owner, "bar");
    let empty = SearchResults::new(vec![]);
    assert_eq!(empty.total, 0);
    assert_eq!(display_bool(&true), "Yes");
    assert_eq!(display_bool(&false), "No");
}
