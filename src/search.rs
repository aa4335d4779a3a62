//! Selection of the providers to search and aggregation of their outcomes.
use vstd::prelude::*;
use vstd::string::StrSliceExecFns;
use vstd::string::StringExecFns;
use crate::config::{builtin_names, resolve_in, Config, ResolvedProvider, ResolvedView};
use crate::models::Repository;
use crate::order::{insert_sorted, names_of, strictly_sorted};

verus! {

/// `a` and `b` are equal up to the case of ASCII letters.
pub open spec fn ascii_eq_ignore_case(a: Seq<char>, b: Seq<char>) -> bool {
    &&& a.len() == b.len()
    &&& forall|i: int|
        0 <= i < a.len() ==> {
            let x = #[trigger] a[i] as int;
            let y = b[i] as int;
            x == y || (65 <= x <= 90 && y == x + 32) || (65 <= y <= 90 && x == y + 32)
        }
}

/// `s` is the selector that stands for every known provider.
pub open spec fn is_all_selector(s: Seq<char>) -> bool {
    ascii_eq_ignore_case(s, "all"@)
}

/// Whether `a` and `b` are equal up to the case of ASCII letters.
pub fn eq_ignore_ascii_case(a: &str, b: &str) -> (r: bool)
    ensures
        r == ascii_eq_ignore_case(a@, b@),
{
    let la = a.unicode_len();
    let lb = b.unicode_len();
    if la != lb {
        return false;
    }
    let mut i: usize = 0;
    while i < la
        invariant
            la == a@.len(),
            lb == b@.len(),
            la == lb,
            i <= la,
            forall|j: int|
                0 <= j < i ==> {
                    let x = #[trigger] a@[j] as int;
                    let y = b@[j] as int;
                    x == y || (65 <= x <= 90 && y == x + 32) || (65 <= y <= 90 && x == y + 32)
                },
        decreases la - i,
    {
        let x = a.get_char(i) as u32;
        let y = b.get_char(i) as u32;
        if !(x == y || (65 <= x && x <= 90 && y == x + 32) || (65 <= y && y <= 90 && x == y + 32)) {
            return false;
        }
        i = i + 1;
    }
    true
}

/// Every name known to a configuration: its entries and the built-in ones.
pub open spec fn known_names(c: Config) -> Set<Seq<char>> {
    c@.providers.dom().union(builtin_names().to_set())
}

/// The names that the selectors `sel` stand for, `all` expanding to `known`.
pub open spec fn selected(sel: Seq<Seq<char>>, known: Set<Seq<char>>) -> Set<Seq<char>>
    decreases sel.len(),
{
    if sel.len() == 0 {
        Set::empty()
    } else {
        selected(sel.drop_last(), known).union(
            if is_all_selector(sel.last()) {
                known
            } else {
                set![sel.last()]
            },
        )
    }
}

/// The provider names to search: the defaults when no selector is given, else
/// the names that the selectors stand for, each once.
pub fn resolve_provider_names(cli_providers: &Vec<String>, config: &Config) -> (r: Vec<String>)
    requires
        config.wf(),
    ensures
        cli_providers@.len() == 0 ==> names_of(r@) == match config@.default_providers {
            Some(v) => v,
            None => builtin_names(),
        },
        cli_providers@.len() > 0 ==> strictly_sorted(names_of(r@)) && names_of(r@).to_set()
            == selected(names_of(cli_providers@), known_names(*config)),
{
    if cli_providers.len() == 0 {
        return config.default_providers();
    }
    let ghost sel = names_of(cli_providers@);
    let mut names: Vec<String> = Vec::new();
    proof {
        assert(names_of(names@).to_set() =~= selected(sel.take(0), known_names(*config)));
    }
    let mut i: usize = 0;
    while i < cli_providers.len()
        invariant
            i <= cli_providers@.len(),
            sel == names_of(cli_providers@),
            config.wf(),
            strictly_sorted(names_of(names@)),
            names_of(names@).to_set() == selected(sel.take(i as int), known_names(*config)),
        decreases cli_providers.len() - i,
    {
        let p = &cli_providers[i];
        let ghost prev = names_of(names@).to_set();
        if eq_ignore_ascii_case(p.as_str(), "all") {
            let all = config.provider_names();
            let mut j: usize = 0;
            while j < all.len()
                invariant
                    j <= all@.len(),
                    strictly_sorted(names_of(names@)),
                    names_of(names@).to_set() == prev.union(names_of(all@).take(j as int).to_set()),
                decreases all.len() - j,
            {
                let c = all[j].clone();
                let ghost before = names_of(names@).to_set();
                insert_sorted(&mut names, c);
                proof {
                    let t0 = names_of(all@).take(j as int);
                    let t1 = names_of(all@).take(j + 1);
                    assert(c@ == all@[j as int]@);
                    assert(t1 =~= t0.push(c@));
                    assert(t1.to_set() =~= t0.to_set().insert(c@)) by {
                        assert(t1[j as int] == c@);
                        assert forall|x: Seq<char>| t1.to_set().contains(x) implies t0.to_set().insert(c@).contains(x) by {
                            let q = choose|q: int| 0 <= q < t1.len() && t1[q] == x;
                            if q < j {
                                assert(t0[q] == x);
                            }
                        }
                        assert forall|x: Seq<char>| t0.to_set().contains(x) implies t1.to_set().contains(x) by {
                            let q = choose|q: int| 0 <= q < t0.len() && t0[q] == x;
                            assert(t1[q] == x);
                        }
                    }
                    assert(names_of(names@).to_set() =~= prev.union(
                        names_of(all@).take(j + 1).to_set(),
                    ));
                }
                j = j + 1;
            }
            proof {
                assert(names_of(all@).take(all@.len() as int) =~= names_of(all@));
            }
        } else {
            insert_sorted(&mut names, p.clone());
        }
        proof {
            assert(sel.take(i + 1).drop_last() =~= sel.take(i as int));
            assert(sel[i as int] == cli_providers@[i as int]@);
            assert(names_of(names@).to_set() =~= selected(sel.take(i + 1), known_names(*config)));
        }
        i = i + 1;
    }
    proof {
        assert(sel.take(sel.len() as int) =~= sel);
    }
    names
}

/// The views of a list of resolved providers.
pub open spec fn resolved_views(s: Seq<ResolvedProvider>) -> Seq<ResolvedView> {
    s.map_values(|p: ResolvedProvider| p@)
}

/// A resolved provider with its URL replaced by `url`, if given.
pub open spec fn with_url(v: ResolvedView, url: Option<Seq<char>>) -> ResolvedView {
    match url {
        Some(u) => ResolvedView { url: u, ..v },
        None => v,
    }
}

/// The providers that the names resolve to, in order, each with the URL override.
pub open spec fn resolved_list(
    c: Config,
    names: Seq<Seq<char>>,
    url: Option<Seq<char>>,
) -> Seq<ResolvedView>
    decreases names.len(),
{
    if names.len() == 0 {
        Seq::empty()
    } else {
        let rest = resolved_list(c, names.drop_last(), url);
        match resolve_in(c@.providers, names.last()) {
            Some(v) => rest.push(with_url(v, url)),
            None => rest,
        }
    }
}

/// The names that resolve to no provider, in order.
pub open spec fn unresolved_list(c: Config, names: Seq<Seq<char>>) -> Seq<Seq<char>>
    decreases names.len(),
{
    if names.len() == 0 {
        Seq::empty()
    } else {
        let rest = unresolved_list(c, names.drop_last());
        match resolve_in(c@.providers, names.last()) {
            Some(_) => rest,
            None => rest.push(names.last()),
        }
    }
}

/// Resolves each selected name, applying the URL override to every provider
/// found, and lists apart the names that resolve to nothing.
pub fn resolve_selected(config: &Config, names: &Vec<String>, url_override: Option<&str>) -> (r: (
    Vec<ResolvedProvider>,
    Vec<String>,
))
    requires
        config.wf(),
    ensures
        resolved_views(r.0@) == resolved_list(
            *config,
            names_of(names@),
            match url_override {
                Some(u) => Some(u@),
                None => None,
            },
        ),
        names_of(r.1@) == unresolved_list(*config, names_of(names@)),
{
    let ghost url = match url_override {
        Some(u) => Some(u@),
        None => None,
    };
    let ghost ns = names_of(names@);
    let mut found: Vec<ResolvedProvider> = Vec::new();
    let mut unknown: Vec<String> = Vec::new();
    let mut i: usize = 0;
    proof {
        assert(resolved_views(found@) =~= resolved_list(*config, ns.take(0), url));
        assert(names_of(unknown@) =~= unresolved_list(*config, ns.take(0)));
    }
    while i < names.len()
        invariant
            i <= names@.len(),
            config.wf(),
            ns == names_of(names@),
            url == match url_override {
                Some(u) => Some(u@),
                None => None::<Seq<char>>,
            },
            resolved_views(found@) == resolved_list(*config, ns.take(i as int), url),
            names_of(unknown@) == unresolved_list(*config, ns.take(i as int)),
        decreases names.len() - i,
    {
        let ghost f0 = found@;
        let ghost u0 = unknown@;
        proof {
            assert(ns.take(i + 1).drop_last() =~= ns.take(i as int));
            assert(ns[i as int] == names@[i as int]@);
        }
        match config.resolve_provider(names[i].as_str()) {
            Some(p) => {
                let mut p = p;
                match url_override {
                    Some(u) => {
                        p.url = String::from_str(u);
                    },
                    None => {},
                }
                found.push(p);
                proof {
                    assert(resolved_views(found@) =~= resolved_views(f0).push(p@));
                    assert(names_of(unknown@) =~= unresolved_list(*config, ns.take(i + 1)));
                }
            },
            None => {
                unknown.push(names[i].clone());
                proof {
                    assert(names_of(unknown@) =~= names_of(u0).push(ns[i as int]));
                    assert(resolved_views(found@) =~= resolved_list(*config, ns.take(i + 1), url));
                }
            },
        }
        i = i + 1;
    }
    proof {
        assert(ns.take(ns.len() as int) =~= ns);
    }
    (found, unknown)
}

/// The result of one provider's search unit.
pub enum SearchOutcome {
    /// The provider answered with these repositories.
    Found(Vec<Repository>),
    /// The provider's search failed with this message.
    Failed { provider: String, message: String },
    /// The unit itself could not run to completion.
    Crashed { message: String },
}

/// The warning that an outcome contributes, if any.
pub open spec fn warning_of(o: SearchOutcome) -> Seq<Seq<char>> {
    match o {
        SearchOutcome::Found(_) => Seq::empty(),
        SearchOutcome::Failed { provider, message } => seq![provider@ + ": "@ + message@],
        SearchOutcome::Crashed { message } => seq!["Task error: "@ + message@],
    }
}

/// The repositories that an outcome contributes.
pub open spec fn repos_of(o: SearchOutcome) -> Seq<Repository> {
    match o {
        SearchOutcome::Found(v) => v@,
        _ => Seq::empty(),
    }
}

/// All repositories of the outcomes, in the order the outcomes came.
pub open spec fn found_repos(os: Seq<SearchOutcome>) -> Seq<Repository>
    decreases os.len(),
{
    if os.len() == 0 {
        Seq::empty()
    } else {
        found_repos(os.drop_last()) + repos_of(os.last())
    }
}

/// All warnings of the outcomes, in the order the outcomes came.
pub open spec fn warnings_of(os: Seq<SearchOutcome>) -> Seq<Seq<char>>
    decreases os.len(),
{
    if os.len() == 0 {
        Seq::empty()
    } else {
        warnings_of(os.drop_last()) + warning_of(os.last())
    }
}

/// Merges the outcomes of all search units, in the order they completed:
/// the repositories of every success, and one warning per failure.
pub fn merge_outcomes(outcomes: Vec<SearchOutcome>) -> (r: (Vec<Repository>, Vec<String>))
    ensures
        r.0@ == found_repos(outcomes@),
        names_of(r.1@) == warnings_of(outcomes@),
{
    let ghost all = outcomes@;
    let n = outcomes.len();
    let mut rest = outcomes;
    let mut repos: Vec<Repository> = Vec::new();
    let mut warnings: Vec<String> = Vec::new();
    let mut k: usize = 0;
    proof {
        assert(all.take(0) =~= Seq::<SearchOutcome>::empty());
        assert(names_of(warnings@) =~= Seq::<Seq<char>>::empty());
    }
    while rest.len() > 0
        invariant
            k + rest@.len() == all.len(),
            all.len() == n,
            rest@ == all.skip(k as int),
            repos@ == found_repos(all.take(k as int)),
            names_of(warnings@) == warnings_of(all.take(k as int)),
        decreases rest.len(),
    {
        let o = rest.remove(0);
        let ghost w0 = warnings@;
        proof {
            assert(o == all[k as int]);
            assert(all.take(k + 1).drop_last() =~= all.take(k as int));
        }
        match o {
            SearchOutcome::Found(v) => {
                let mut v = v;
                repos.append(&mut v);
            },
            SearchOutcome::Failed { provider, message } => {
                let w = provider.concat(": ").concat(message.as_str());
                warnings.push(w);
            },
            SearchOutcome::Crashed { message } => {
                let w = String::from_str("Task error: ").concat(message.as_str());
                warnings.push(w);
            },
        }
        proof {
            assert(names_of(warnings@) =~= names_of(w0) + warning_of(all[k as int]));
            assert(rest@ =~= all.skip(k + 1));
        }
        k = k + 1;
    }
    proof {
        assert(all.take(all.len() as int) =~= all);
    }
    (repos, warnings)
}

proof fn lemma_all_selector_covers_known(sel: Seq<Seq<char>>, known: Set<Seq<char>>, i: int)
    requires
        0 <= i < sel.len(),
        is_all_selector(sel[i]),
    ensures
        known.subset_of(selected(sel, known)),
    decreases sel.len(),
{
    if i < sel.len() - 1 {
        assert(sel.drop_last()[i] == sel[i]);
        lemma_all_selector_covers_known(sel.drop_last(), known, i);
    }
}

/// Once an `all` selector is present, adding a known name (or another `all`)
/// selects the same set of names.
pub proof fn lemma_all_absorbs_known(sel: Seq<Seq<char>>, known: Set<Seq<char>>, x: Seq<char>)
    requires
        exists|i: int| 0 <= i < sel.len() && is_all_selector(#[trigger] sel[i]),
        known.contains(x) || is_all_selector(x),
    ensures
        selected(sel.push(x), known) == selected(sel, known),
{
    let i = choose|i: int| 0 <= i < sel.len() && is_all_selector(#[trigger] sel[i]);
    lemma_all_selector_covers_known(sel, known, i);
    assert(sel.push(x).drop_last() =~= sel);
    assert(selected(sel.push(x), known) =~= selected(sel, known));
}

/// A success and a failure merge to the success's repositories and one warning
/// naming the failed provider, whichever of the two completes first.
pub proof fn lemma_partial_failure(found: Vec<Repository>, provider: String, message: String)
    ensures
        ({
            let a = SearchOutcome::Found(found);
            let b = SearchOutcome::Failed { provider, message };
            &&& found_repos(seq![a, b]) == found@
            &&& found_repos(seq![b, a]) == found@
            &&& warnings_of(seq![a, b]) == seq![provider@ + ": "@ + message@]
            &&& warnings_of(seq![b, a]) == seq![provider@ + ": "@ + message@]
        }),
{
    let a = SearchOutcome::Found(found);
    let b = SearchOutcome::Failed { provider, message };
    assert(seq![a, b].drop_last() =~= seq![a]);
    assert(seq![b, a].drop_last() =~= seq![b]);
    assert(seq![a].drop_last() =~= Seq::<SearchOutcome>::empty());
    assert(seq![b].drop_last() =~= Seq::<SearchOutcome>::empty());
    let e = Seq::<SearchOutcome>::empty();
    assert(found_repos(e) == Seq::<Repository>::empty());
    assert(warnings_of(e) == Seq::<Seq<char>>::empty());
    assert(seq![a].last() == a);
    assert(seq![b].last() == b);
    assert(seq![a, b].last() == b);
    assert(seq![b, a].last() == a);
    assert(repos_of(a) == found@);
    assert(found_repos(seq![a]) =~= found@);
    assert(warnings_of(seq![a]) =~= Seq::<Seq<char>>::empty());
    assert(warnings_of(seq![b]) =~= seq![provider@ + ": "@ + message@]);
    assert(found_repos(seq![b]) =~= Seq::<Repository>::empty());
    assert(found_repos(seq![a, b]) =~= found@);
    assert(found_repos(seq![b, a]) =~= found@);
    assert(warnings_of(seq![a, b]) =~= seq![provider@ + ": "@ + message@]);
    assert(warnings_of(seq![b, a]) =~= seq![provider@ + ": "@ + message@]);
}

/// With no outcomes there are neither repositories nor warnings.
pub proof fn lemma_no_outcomes_no_output()
    ensures
        found_repos(Seq::<SearchOutcome>::empty()) == Seq::<Repository>::empty(),
        warnings_of(Seq::<SearchOutcome>::empty()) == Seq::<Seq<char>>::empty(),
{
}

} // verus!
