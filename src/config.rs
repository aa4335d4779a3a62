//! Layered provider configuration and resolution of provider names.
use vstd::prelude::*;
use vstd::string::StringExecFns;
use crate::order::{copy_names, insert_sorted, names_of, strictly_sorted};

verus! {

/// The hosting platforms a provider can be.
#[derive(Debug, Clone, Copy, PartialEq, Eq, Structural)]
pub enum ProviderType {
    Github,
    Gitlab,
    Bitbucket,
}

/// The well-known name of a kind, which also names its built-in provider.
pub open spec fn kind_name(k: ProviderType) -> Seq<char> {
    match k {
        ProviderType::Github => "github"@,
        ProviderType::Gitlab => "gitlab"@,
        ProviderType::Bitbucket => "bitbucket"@,
    }
}

/// The compiled-in base URL of a kind.
pub open spec fn default_url_of(k: ProviderType) -> Seq<char> {
    match k {
        ProviderType::Github => "https://api.github.com"@,
        ProviderType::Gitlab => "https://gitlab.com"@,
        ProviderType::Bitbucket => "https://api.bitbucket.org/2.0"@,
    }
}

/// The kind whose well-known name is exactly `s`.
pub open spec fn kind_from_lower(s: Seq<char>) -> Option<ProviderType> {
    if s == "github"@ {
        Some(ProviderType::Github)
    } else if s == "gitlab"@ {
        Some(ProviderType::Gitlab)
    } else if s == "bitbucket"@ {
        Some(ProviderType::Bitbucket)
    } else {
        None
    }
}

/// The lowercase form of a string, as Unicode defines it.
pub uninterp spec fn lower_of(s: Seq<char>) -> Seq<char>;

/// The kind that a name matches case-insensitively, if any.
pub open spec fn name_kind(name: Seq<char>) -> Option<ProviderType> {
    kind_from_lower(lower_of(name))
}

/// Relies on `str::to_lowercase`: the Unicode lowercase form, which depends
/// on the characters alone.
#[verifier::external_body]
fn lowercase(s: &str) -> (r: String)
    ensures
        r@ == lower_of(s@),
{
    s.to_lowercase()
}

impl ProviderType {
    /// The compiled-in base URL of this kind.
    pub fn default_url(&self) -> (r: &'static str)
        ensures
            r@ == default_url_of(*self),
    {
        match self {
            ProviderType::Github => "https://api.github.com",
            ProviderType::Gitlab => "https://gitlab.com",
            ProviderType::Bitbucket => "https://api.bitbucket.org/2.0",
        }
    }

    /// The well-known name of this kind.
    pub fn as_str(&self) -> (r: &'static str)
        ensures
            r@ == kind_name(*self),
    {
        match self {
            ProviderType::Github => "github",
            ProviderType::Gitlab => "gitlab",
            ProviderType::Bitbucket => "bitbucket",
        }
    }

    /// The kind whose well-known name is exactly `s` (already lowercased).
    pub fn from_lowercase(s: &str) -> (r: Option<Self>)
        ensures
            r == kind_from_lower(s@),
    {
        let s = String::from_str(s);
        if s == String::from_str("github") {
            Some(ProviderType::Github)
        } else if s == String::from_str("gitlab") {
            Some(ProviderType::Gitlab)
        } else if s == String::from_str("bitbucket") {
            Some(ProviderType::Bitbucket)
        } else {
            None
        }
    }

    /// Infers the kind from a provider name, ignoring case.
    pub fn from_name(name: &str) -> (r: Option<Self>)
        ensures
            r == name_kind(name@),
    {
        let lower = lowercase(name);
        Self::from_lowercase(lower.as_str())
    }
}

/// The text held by an optional string.
pub open spec fn opt_view(o: Option<String>) -> Option<Seq<char>> {
    match o {
        Some(s) => Some(s@),
        None => None,
    }
}

fn copy_opt(o: &Option<String>) -> (r: Option<String>)
    ensures
        opt_view(r) == opt_view(*o),
{
    match o {
        Some(s) => Some(s.clone()),
        None => None,
    }
}

/// What a configured provider entry says.
pub ghost struct EntryView {
    pub kind: Option<ProviderType>,
    pub token: Option<Seq<char>>,
    pub url: Option<Seq<char>>,
}

/// A named provider entry of the configuration.
pub struct ProviderEntry {
    /// Declared kind; may be left out when the name is a well-known kind name.
    pub provider_type: Option<ProviderType>,
    pub token: Option<String>,
    pub url: Option<String>,
}

impl View for ProviderEntry {
    type V = EntryView;

    open spec fn view(&self) -> EntryView {
        EntryView { kind: self.provider_type, token: opt_view(self.token), url: opt_view(self.url) }
    }
}

/// What a legacy per-kind section says.
pub ghost struct LegacyView {
    pub token: Option<Seq<char>>,
    pub url: Option<Seq<char>>,
}

/// A legacy top-level per-kind section.
pub struct LegacyProviderConfig {
    pub token: Option<String>,
    pub url: Option<String>,
}

impl View for LegacyProviderConfig {
    type V = LegacyView;

    open spec fn view(&self) -> LegacyView {
        LegacyView { token: opt_view(self.token), url: opt_view(self.url) }
    }
}

pub open spec fn opt_legacy_view(o: Option<LegacyProviderConfig>) -> Option<LegacyView> {
    match o {
        Some(l) => Some(l@),
        None => None,
    }
}

/// Defaults used when the command line names no providers or no limit.
pub struct DefaultsConfig {
    pub providers: Option<Vec<String>>,
    pub limit: Option<usize>,
}

impl Default for DefaultsConfig {
    fn default() -> (r: Self)
        ensures
            r.providers is None,
            r.limit is None,
    {
        DefaultsConfig { providers: None, limit: None }
    }
}

/// A provider name expanded to a concrete kind, base URL and optional token.
pub ghost struct ResolvedView {
    pub name: Seq<char>,
    pub kind: ProviderType,
    pub token: Option<Seq<char>>,
    pub url: Seq<char>,
}

/// A provider ready for use.
pub struct ResolvedProvider {
    pub name: String,
    pub provider_type: ProviderType,
    pub token: Option<String>,
    pub url: String,
}

impl View for ResolvedProvider {
    type V = ResolvedView;

    open spec fn view(&self) -> ResolvedView {
        ResolvedView {
            name: self.name@,
            kind: self.provider_type,
            token: opt_view(self.token),
            url: self.url@,
        }
    }
}

pub open spec fn opt_resolved_view(o: Option<ResolvedProvider>) -> Option<ResolvedView> {
    match o {
        Some(p) => Some(p@),
        None => None,
    }
}

/// Resolution of `name` against the provider mapping `m`.
pub open spec fn resolve_in(m: Map<Seq<char>, EntryView>, name: Seq<char>) -> Option<ResolvedView> {
    if m.contains_key(name) {
        let e = m[name];
        let kind = if e.kind is Some {
            e.kind
        } else {
            name_kind(name)
        };
        match kind {
            Some(k) => Some(
                ResolvedView {
                    name,
                    kind: k,
                    token: e.token,
                    url: match e.url {
                        Some(u) => u,
                        None => default_url_of(k),
                    },
                },
            ),
            None => None,
        }
    } else {
        match name_kind(name) {
            Some(k) => Some(ResolvedView { name, kind: k, token: None, url: default_url_of(k) }),
            None => None,
        }
    }
}

/// Values of the environment variables that override the well-known providers.
pub struct EnvOverrides {
    pub github_token: Option<String>,
    pub github_url: Option<String>,
    pub gitlab_token: Option<String>,
    pub gitlab_url: Option<String>,
    pub bitbucket_token: Option<String>,
    pub bitbucket_url: Option<String>,
}

impl EnvOverrides {
    pub open spec fn token_for(&self, k: ProviderType) -> Option<Seq<char>> {
        match k {
            ProviderType::Github => opt_view(self.github_token),
            ProviderType::Gitlab => opt_view(self.gitlab_token),
            ProviderType::Bitbucket => opt_view(self.bitbucket_token),
        }
    }

    pub open spec fn url_for(&self, k: ProviderType) -> Option<Seq<char>> {
        match k {
            ProviderType::Github => opt_view(self.github_url),
            ProviderType::Gitlab => opt_view(self.gitlab_url),
            ProviderType::Bitbucket => opt_view(self.bitbucket_url),
        }
    }
}

/// `m` after the token and URL overrides of kind `k`: an absent entry is
/// created, and only the fields that are set are replaced.
pub open spec fn with_override(
    m: Map<Seq<char>, EntryView>,
    k: ProviderType,
    token: Option<Seq<char>>,
    url: Option<Seq<char>>,
) -> Map<Seq<char>, EntryView> {
    if token is None && url is None {
        m
    } else {
        let base = if m.contains_key(kind_name(k)) {
            m[kind_name(k)]
        } else {
            EntryView { kind: Some(k), token: None, url: None }
        };
        m.insert(
            kind_name(k),
            EntryView {
                kind: base.kind,
                token: if token is Some {
                    token
                } else {
                    base.token
                },
                url: if url is Some {
                    url
                } else {
                    base.url
                },
            },
        )
    }
}

/// `m` after folding in the legacy section of kind `k`; an entry already
/// present under the kind's name is kept.
pub open spec fn with_legacy(
    m: Map<Seq<char>, EntryView>,
    k: ProviderType,
    legacy: Option<LegacyView>,
) -> Map<Seq<char>, EntryView> {
    match legacy {
        Some(l) => if m.contains_key(kind_name(k)) {
            m
        } else {
            m.insert(kind_name(k), EntryView { kind: Some(k), token: l.token, url: l.url })
        },
        None => m,
    }
}

/// The mapping that a list of named entries describes.
pub open spec fn entry_map(s: Seq<(Seq<char>, EntryView)>) -> Map<Seq<char>, EntryView>
    decreases s.len(),
{
    if s.len() == 0 {
        Map::empty()
    } else {
        entry_map(s.drop_last()).insert(s.last().0, s.last().1)
    }
}

pub open spec fn unique_names(s: Seq<(Seq<char>, EntryView)>) -> bool {
    forall|i: int, j: int| 0 <= i < s.len() && 0 <= j < s.len() && i != j ==> s[i].0 != s[j].0
}

pub open spec fn entries_of(v: Seq<(String, ProviderEntry)>) -> Seq<(Seq<char>, EntryView)> {
    v.map_values(|p: (String, ProviderEntry)| (p.0@, p.1@))
}

proof fn lemma_entry_map_at(s: Seq<(Seq<char>, EntryView)>, i: int)
    requires
        unique_names(s),
        0 <= i < s.len(),
    ensures
        entry_map(s).contains_key(s[i].0),
        entry_map(s)[s[i].0] == s[i].1,
    decreases s.len(),
{
    if i < s.len() - 1 {
        let d = s.drop_last();
        assert(unique_names(d));
        assert(d[i] == s[i]);
        lemma_entry_map_at(d, i);
    }
}

proof fn lemma_entry_map_absent(s: Seq<(Seq<char>, EntryView)>, k: Seq<char>)
    requires
        forall|i: int| 0 <= i < s.len() ==> s[i].0 != k,
    ensures
        !entry_map(s).contains_key(k),
    decreases s.len(),
{
    if s.len() > 0 {
        let d = s.drop_last();
        assert forall|i: int| 0 <= i < d.len() implies d[i].0 != k by {
            assert(d[i] == s[i]);
        }
        lemma_entry_map_absent(d, k);
    }
}

proof fn lemma_entry_map_update(s: Seq<(Seq<char>, EntryView)>, i: int, e: EntryView)
    requires
        unique_names(s),
        0 <= i < s.len(),
    ensures
        entry_map(s.update(i, (s[i].0, e))) == entry_map(s).insert(s[i].0, e),
    decreases s.len(),
{
    let u = s.update(i, (s[i].0, e));
    let d = s.drop_last();
    if i == s.len() - 1 {
        assert(u.drop_last() =~= d);
        assert(entry_map(u) =~= entry_map(s).insert(s[i].0, e));
    } else {
        assert(unique_names(d));
        assert(u.drop_last() =~= d.update(i, (d[i].0, e)));
        lemma_entry_map_update(d, i, e);
        assert(s.last().0 != s[i].0);
        assert(entry_map(u) =~= entry_map(s).insert(s[i].0, e));
    }
}

proof fn lemma_entry_map_push(s: Seq<(Seq<char>, EntryView)>, x: (Seq<char>, EntryView))
    ensures
        entry_map(s.push(x)) == entry_map(s).insert(x.0, x.1),
{
    assert(s.push(x).drop_last() =~= s);
}

/// The names of an optional default list.
pub open spec fn default_names_view(o: Option<Vec<String>>) -> Option<Seq<Seq<char>>> {
    match o {
        Some(v) => Some(names_of(v@)),
        None => None,
    }
}

/// What a configuration holds.
pub ghost struct ConfigView {
    pub default_providers: Option<Seq<Seq<char>>>,
    pub limit: Option<usize>,
    pub providers: Map<Seq<char>, EntryView>,
    pub legacy_github: Option<LegacyView>,
    pub legacy_gitlab: Option<LegacyView>,
    pub legacy_bitbucket: Option<LegacyView>,
}

impl ConfigView {
    pub open spec fn legacy(self, k: ProviderType) -> Option<LegacyView> {
        match k {
            ProviderType::Github => self.legacy_github,
            ProviderType::Gitlab => self.legacy_gitlab,
            ProviderType::Bitbucket => self.legacy_bitbucket,
        }
    }
}

/// The tool's configuration: defaults, named providers, and the legacy
/// per-kind sections that have not been folded in yet.
pub struct Config {
    defaults: DefaultsConfig,
    providers: Vec<(String, ProviderEntry)>,
    github: Option<LegacyProviderConfig>,
    gitlab: Option<LegacyProviderConfig>,
    bitbucket: Option<LegacyProviderConfig>,
}

impl View for Config {
    type V = ConfigView;

    closed spec fn view(&self) -> ConfigView {
        ConfigView {
            default_providers: default_names_view(self.defaults.providers),
            limit: self.defaults.limit,
            providers: entry_map(entries_of(self.providers@)),
            legacy_github: opt_legacy_view(self.github),
            legacy_gitlab: opt_legacy_view(self.gitlab),
            legacy_bitbucket: opt_legacy_view(self.bitbucket),
        }
    }
}

/// The provider mapping after the environment overrides of all three kinds.
pub open spec fn env_applied(m: Map<Seq<char>, EntryView>, env: EnvOverrides) -> Map<
    Seq<char>,
    EntryView,
> {
    let g = ProviderType::Github;
    let l = ProviderType::Gitlab;
    let b = ProviderType::Bitbucket;
    with_override(
        with_override(with_override(m, g, env.token_for(g), env.url_for(g)), l, env.token_for(l), env.url_for(l)),
        b,
        env.token_for(b),
        env.url_for(b),
    )
}

/// The provider mapping after the legacy sections of all three kinds are folded in.
pub open spec fn legacy_migrated(c: ConfigView) -> Map<Seq<char>, EntryView> {
    with_legacy(
        with_legacy(
            with_legacy(c.providers, ProviderType::Github, c.legacy_github),
            ProviderType::Gitlab,
            c.legacy_gitlab,
        ),
        ProviderType::Bitbucket,
        c.legacy_bitbucket,
    )
}

/// `c` with its provider mapping replaced by `m`.
pub open spec fn with_providers(c: ConfigView, m: Map<Seq<char>, EntryView>) -> ConfigView {
    ConfigView { providers: m, ..c }
}

/// `c` with the default list `providers` and the default limit `limit`.
pub open spec fn with_defaults(
    c: ConfigView,
    providers: Option<Seq<Seq<char>>>,
    limit: Option<usize>,
) -> ConfigView {
    ConfigView { default_providers: providers, limit, ..c }
}

/// `c` with its legacy sections folded in and then dropped.
pub open spec fn migrated(c: ConfigView) -> ConfigView {
    ConfigView {
        providers: legacy_migrated(c),
        legacy_github: None,
        legacy_gitlab: None,
        legacy_bitbucket: None,
        ..c
    }
}

/// The configuration that loading makes of the file's contents `c`: the
/// environment overrides first, then the legacy sections.
pub open spec fn loaded(c: ConfigView, env: EnvOverrides) -> ConfigView {
    migrated(with_providers(c, env_applied(c.providers, env)))
}

/// The names that are always known: one per kind.
pub open spec fn builtin_names() -> Seq<Seq<char>> {
    seq!["github"@, "gitlab"@, "bitbucket"@]
}

impl Config {
    /// Provider names are unique.
    pub closed spec fn wf(&self) -> bool {
        unique_names(entries_of(self.providers@))
    }

    /// An empty configuration, as when no file exists.
    pub fn new() -> (r: Self)
        ensures
            r.wf(),
            r@.default_providers is None,
            r@.limit is None,
            r@.providers == Map::<Seq<char>, EntryView>::empty(),
            r@.legacy_github is None,
            r@.legacy_gitlab is None,
            r@.legacy_bitbucket is None,
    {
        let r = Config {
            defaults: DefaultsConfig { providers: None, limit: None },
            providers: Vec::new(),
            github: None,
            gitlab: None,
            bitbucket: None,
        };
        proof {
            assert(entries_of(r.providers@) =~= Seq::empty());
        }
        r
    }

    fn find_index(&self, name: &str) -> (r: Option<usize>)
        ensures
            match r {
                Some(i) => i < self.providers@.len() && self.providers@[i as int].0@ == name@,
                None => forall|i: int|
                    0 <= i < self.providers@.len() ==> (#[trigger] self.providers@[i]).0@ != name@,
            },
    {
        let key = String::from_str(name);
        let mut i: usize = 0;
        while i < self.providers.len()
            invariant
                i <= self.providers@.len(),
                key@ == name@,
                forall|j: int| 0 <= j < i ==> (#[trigger] self.providers@[j]).0@ != name@,
            decreases self.providers.len() - i,
        {
            if self.providers[i].0 == key {
                return Some(i);
            }
            i = i + 1;
        }
        None
    }

    /// The entry configured under `name`, if any.
    pub fn provider(&self, name: &str) -> (r: Option<&ProviderEntry>)
        requires
            self.wf(),
        ensures
            match r {
                Some(e) => self@.providers.contains_key(name@) && self@.providers[name@] == e@,
                None => !self@.providers.contains_key(name@),
            },
    {
        let ghost s = entries_of(self.providers@);
        match self.find_index(name) {
            Some(i) => {
                proof {
                    assert(s[i as int] == (self.providers@[i as int].0@, self.providers@[i as int].1@));
                    lemma_entry_map_at(s, i as int);
                }
                Some(&self.providers[i].1)
            },
            None => {
                proof {
                    assert forall|j: int| 0 <= j < s.len() implies s[j].0 != name@ by {
                        assert(s[j].0 == self.providers@[j].0@);
                    }
                    lemma_entry_map_absent(s, name@);
                }
                None
            },
        }
    }

    /// Sets the entry of `name`, replacing any entry of that name.
    pub fn set_provider(&mut self, name: String, entry: ProviderEntry)
        requires
            old(self).wf(),
        ensures
            final(self).wf(),
            final(self)@ == with_providers(old(self)@, old(self)@.providers.insert(name@, entry@)),
    {
        let ghost s = entries_of(self.providers@);
        let ghost x = (name@, entry@);
        match self.find_index(name.as_str()) {
            Some(i) => {
                self.providers.set(i, (name, entry));
                proof {
                    assert(s[i as int].0 == name@);
                    assert(entries_of(self.providers@) =~= s.update(i as int, x));
                    lemma_entry_map_update(s, i as int, entry@);
                }
            },
            None => {
                self.providers.push((name, entry));
                proof {
                    assert forall|j: int| 0 <= j < s.len() implies s[j].0 != x.0 by {
                        assert(s[j].0 == old(self).providers@[j].0@);
                    }
                    assert(entries_of(self.providers@) =~= s.push(x));
                    lemma_entry_map_push(s, x);
                }
            },
        }
        proof {
            assert(self@ =~= with_providers(old(self)@, old(self)@.providers.insert(name@, entry@)));
        }
    }

    /// The default provider list and the default result limit.
    pub fn defaults(&self) -> (r: &DefaultsConfig)
        ensures
            default_names_view(r.providers) == self@.default_providers,
            r.limit == self@.limit,
    {
        &self.defaults
    }

    /// Sets the default provider list and the default result limit.
    pub fn set_defaults(&mut self, providers: Option<Vec<String>>, limit: Option<usize>)
        ensures
            final(self).wf() == old(self).wf(),
            final(self)@ == with_defaults(old(self)@, default_names_view(providers), limit),
    {
        self.defaults = DefaultsConfig { providers, limit };
        proof {
            assert(self@ =~= with_defaults(old(self)@, default_names_view(providers), limit));
        }
    }

    /// Sets the legacy top-level section of kind `kind`.
    pub fn set_legacy(&mut self, kind: ProviderType, legacy: Option<LegacyProviderConfig>)
        ensures
            final(self).wf() == old(self).wf(),
            final(self)@.legacy(kind) == opt_legacy_view(legacy),
            forall|k: ProviderType| k != kind ==> final(self)@.legacy(k) == old(self)@.legacy(k),
            final(self)@.providers == old(self)@.providers,
            final(self)@.default_providers == old(self)@.default_providers,
            final(self)@.limit == old(self)@.limit,
    {
        match kind {
            ProviderType::Github => self.github = legacy,
            ProviderType::Gitlab => self.gitlab = legacy,
            ProviderType::Bitbucket => self.bitbucket = legacy,
        }
    }

    /// Applies the token and URL overrides of one kind.
    fn override_entry(&mut self, kind: ProviderType, token: Option<String>, url: Option<String>)
        requires
            old(self).wf(),
        ensures
            final(self).wf(),
            final(self)@ == with_providers(
                old(self)@,
                with_override(old(self)@.providers, kind, opt_view(token), opt_view(url)),
            ),
    {
        if token.is_none() && url.is_none() {
            proof {
                assert(self@ =~= with_providers(self@, self@.providers));
            }
            return;
        }
        let name = kind.as_str();
        match self.provider(name) {
            Some(cur) => {
                let e = ProviderEntry {
                    provider_type: cur.provider_type,
                    token: match token {
                        Some(t) => Some(t),
                        None => copy_opt(&cur.token),
                    },
                    url: match url {
                        Some(u) => Some(u),
                        None => copy_opt(&cur.url),
                    },
                };
                self.set_provider(String::from_str(name), e);
            },
            None => {
                let e = ProviderEntry { provider_type: Some(kind), token, url };
                self.set_provider(String::from_str(name), e);
            },
        }
    }

    /// Applies the environment overrides: for each kind, a set token or URL
    /// replaces that field of the kind's entry, creating the entry if needed.
    pub fn apply_env_overrides(&mut self, env: &EnvOverrides)
        requires
            old(self).wf(),
        ensures
            final(self).wf(),
            final(self)@ == with_providers(old(self)@, env_applied(old(self)@.providers, *env)),
    {
        self.override_entry(ProviderType::Github, copy_opt(&env.github_token), copy_opt(&env.github_url));
        self.override_entry(ProviderType::Gitlab, copy_opt(&env.gitlab_token), copy_opt(&env.gitlab_url));
        self.override_entry(
            ProviderType::Bitbucket,
            copy_opt(&env.bitbucket_token),
            copy_opt(&env.bitbucket_url),
        );
        proof {
            assert(self@ =~= with_providers(old(self)@, env_applied(old(self)@.providers, *env)));
        }
    }

    /// Folds one legacy section in, unless its kind's name already has an entry.
    fn migrate_entry(&mut self, kind: ProviderType, legacy: Option<LegacyProviderConfig>)
        requires
            old(self).wf(),
        ensures
            final(self).wf(),
            final(self)@ == with_providers(
                old(self)@,
                with_legacy(old(self)@.providers, kind, opt_legacy_view(legacy)),
            ),
    {
        let name = kind.as_str();
        match legacy {
            Some(l) => {
                if self.provider(name).is_none() {
                    let e = ProviderEntry { provider_type: Some(kind), token: l.token, url: l.url };
                    self.set_provider(String::from_str(name), e);
                } else {
                    proof {
                        assert(self@ =~= with_providers(self@, self@.providers));
                    }
                }
            },
            None => {
                proof {
                    assert(self@ =~= with_providers(self@, self@.providers));
                }
            },
        }
    }

    /// Folds the legacy per-kind sections into the provider mapping; an entry
    /// already present under a kind's name is kept.
    pub fn migrate_legacy_providers(&mut self)
        requires
            old(self).wf(),
        ensures
            final(self).wf(),
            final(self)@ == migrated(old(self)@),
    {
        let g = self.github.take();
        let l = self.gitlab.take();
        let b = self.bitbucket.take();
        self.migrate_entry(ProviderType::Github, g);
        self.migrate_entry(ProviderType::Gitlab, l);
        self.migrate_entry(ProviderType::Bitbucket, b);
        proof {
            assert(self@ =~= migrated(old(self)@));
        }
    }

    /// Builds the configuration in effect from the file's contents `base` (an
    /// empty configuration when there is no file) and the environment.
    pub fn load(base: Config, env: &EnvOverrides) -> (r: Config)
        requires
            base.wf(),
        ensures
            r.wf(),
            r@ == loaded(base@, *env),
    {
        let mut config = base;
        config.apply_env_overrides(env);
        config.migrate_legacy_providers();
        config
    }

    /// Resolves a provider name to its kind, base URL and token.
    pub fn resolve_provider(&self, name: &str) -> (r: Option<ResolvedProvider>)
        requires
            self.wf(),
        ensures
            opt_resolved_view(r) == resolve_in(self@.providers, name@),
    {
        match self.provider(name) {
            Some(entry) => {
                let kind = match entry.provider_type {
                    Some(k) => k,
                    None => match ProviderType::from_name(name) {
                        Some(k) => k,
                        None => {
                            return None;
                        },
                    },
                };
                let url = match &entry.url {
                    Some(u) => u.clone(),
                    None => String::from_str(kind.default_url()),
                };
                Some(
                    ResolvedProvider {
                        name: String::from_str(name),
                        provider_type: kind,
                        token: copy_opt(&entry.token),
                        url,
                    },
                )
            },
            None => match ProviderType::from_name(name) {
                Some(kind) => Some(
                    ResolvedProvider {
                        name: String::from_str(name),
                        provider_type: kind,
                        token: None,
                        url: String::from_str(kind.default_url()),
                    },
                ),
                None => None,
            },
        }
    }

    /// All known provider names: the configured ones and the three built-in
    /// ones, without duplicates, in ascending order.
    pub fn provider_names(&self) -> (r: Vec<String>)
        requires
            self.wf(),
        ensures
            strictly_sorted(names_of(r@)),
            names_of(r@).to_set() == self@.providers.dom().union(builtin_names().to_set()),
    {
        let ghost s = entries_of(self.providers@);
        let mut names: Vec<String> = Vec::new();
        proof {
            assert(names_of(names@).to_set() =~= entry_map(s.take(0)).dom());
        }
        let mut i: usize = 0;
        while i < self.providers.len()
            invariant
                i <= self.providers@.len(),
                s == entries_of(self.providers@),
                strictly_sorted(names_of(names@)),
                names_of(names@).to_set() == entry_map(s.take(i as int)).dom(),
            decreases self.providers.len() - i,
        {
            insert_sorted(&mut names, self.providers[i].0.clone());
            proof {
                assert(s.take(i + 1).drop_last() =~= s.take(i as int));
                assert(s[i as int].0 == self.providers@[i as int].0@);
                assert(names_of(names@).to_set() =~= entry_map(s.take(i + 1)).dom());
            }
            i = i + 1;
        }
        proof {
            assert(s.take(s.len() as int) =~= s);
        }
        insert_sorted(&mut names, String::from_str("github"));
        insert_sorted(&mut names, String::from_str("gitlab"));
        insert_sorted(&mut names, String::from_str("bitbucket"));
        proof {
            assert(names_of(names@).to_set() =~= self@.providers.dom().union(
                builtin_names().to_set(),
            )) by {
                assert(builtin_names().to_set() =~= set!["github"@, "gitlab"@, "bitbucket"@]) by {
                    assert(builtin_names()[0] == "github"@);
                    assert(builtin_names()[1] == "gitlab"@);
                    assert(builtin_names()[2] == "bitbucket"@);
                }
            }
        }
        names
    }

    /// The providers to search when none are named: the configured default
    /// list, else the three built-in ones.
    pub fn default_providers(&self) -> (r: Vec<String>)
        ensures
            names_of(r@) == match self@.default_providers {
                Some(v) => v,
                None => builtin_names(),
            },
    {
        match &self.defaults.providers {
            Some(v) => copy_names(v),
            None => {
                let mut r: Vec<String> = Vec::new();
                r.push(String::from_str("github"));
                r.push(String::from_str("gitlab"));
                r.push(String::from_str("bitbucket"));
                proof {
                    assert(names_of(r@) =~= builtin_names());
                }
                r
            },
        }
    }
}

/// The three well-known names are pairwise distinct.
pub proof fn lemma_kind_names_distinct(a: ProviderType, b: ProviderType)
    ensures
        a != b ==> kind_name(a) != kind_name(b),
{
    reveal_strlit("github");
    reveal_strlit("gitlab");
    reveal_strlit("bitbucket");
    if a != b {
        match (a, b) {
            (ProviderType::Github, ProviderType::Gitlab) | (ProviderType::Gitlab, ProviderType::Github) => {
                assert("github"@[3] != "gitlab"@[3]);
            },
            _ => {},
        }
    }
}

/// A name that has no entry and matches no kind, ignoring case, does not resolve.
pub proof fn lemma_unknown_name_unresolved(c: Config, name: Seq<char>)
    requires
        !c@.providers.contains_key(name),
        name_kind(name) is None,
    ensures
        resolve_in(c@.providers, name) is None,
{
}

/// A name without an entry that matches a kind, ignoring case, resolves to that
/// kind with its compiled-in URL and no token.
pub proof fn lemma_builtin_name_defaults(c: Config, name: Seq<char>, k: ProviderType)
    requires
        !c@.providers.contains_key(name),
        name_kind(name) == Some(k),
    ensures
        resolve_in(c@.providers, name) == Some(
            ResolvedView { name, kind: k, token: None, url: default_url_of(k) },
        ),
{
}

/// An entry without a declared kind, under a name that matches no kind, does
/// not resolve: the kind is never guessed.
pub proof fn lemma_untyped_custom_unresolved(c: Config, name: Seq<char>)
    requires
        c@.providers.contains_key(name),
        c@.providers[name].kind is None,
        name_kind(name) is None,
    ensures
        resolve_in(c@.providers, name) is None,
{
}

/// Once loaded, a kind's environment token or URL is in effect for the kind's
/// entry, created if absent; a field that the environment leaves unset keeps
/// its value from the file; and entries under other names are untouched.
pub proof fn lemma_env_overrides_in_effect(c: ConfigView, env: EnvOverrides, k: ProviderType)
    requires
        env.token_for(k) is Some || env.url_for(k) is Some,
    ensures
        loaded(c, env).providers.contains_key(kind_name(k)),
        env.token_for(k) is Some ==> loaded(c, env).providers[kind_name(k)].token == env.token_for(k),
        env.url_for(k) is Some ==> loaded(c, env).providers[kind_name(k)].url == env.url_for(k),
        env.token_for(k) is None && c.providers.contains_key(kind_name(k)) ==> loaded(
            c,
            env,
        ).providers[kind_name(k)].token == c.providers[kind_name(k)].token,
        env.url_for(k) is None && c.providers.contains_key(kind_name(k)) ==> loaded(
            c,
            env,
        ).providers[kind_name(k)].url == c.providers[kind_name(k)].url,
        c.providers.contains_key(kind_name(k)) ==> loaded(c, env).providers[kind_name(k)].kind
            == c.providers[kind_name(k)].kind,
        !c.providers.contains_key(kind_name(k)) ==> loaded(c, env).providers[kind_name(k)].kind
            == Some(k),
        forall|n: Seq<char>|
            n != kind_name(ProviderType::Github) && n != kind_name(ProviderType::Gitlab) && n
                != kind_name(ProviderType::Bitbucket) ==> (#[trigger] loaded(
                c,
                env,
            ).providers.contains_key(n) == c.providers.contains_key(n) && (c.providers.contains_key(n)
                ==> loaded(c, env).providers[n] == c.providers[n])),
{
    lemma_kind_names_distinct(ProviderType::Github, ProviderType::Gitlab);
    lemma_kind_names_distinct(ProviderType::Github, ProviderType::Bitbucket);
    lemma_kind_names_distinct(ProviderType::Gitlab, ProviderType::Bitbucket);
}

/// A legacy section never replaces an entry already present under its kind's
/// name: the unified shape wins.
pub proof fn lemma_legacy_keeps_unified_entry(c: ConfigView, k: ProviderType)
    requires
        c.providers.contains_key(kind_name(k)),
    ensures
        migrated(c).providers.contains_key(kind_name(k)),
        migrated(c).providers[kind_name(k)] == c.providers[kind_name(k)],
{
    lemma_kind_names_distinct(ProviderType::Github, ProviderType::Gitlab);
    lemma_kind_names_distinct(ProviderType::Github, ProviderType::Bitbucket);
    lemma_kind_names_distinct(ProviderType::Gitlab, ProviderType::Bitbucket);
}

} // verus!
