//! The decisions of the three provider adapters: whether the caller's identity
//! is needed, which request to send, and how a visibility reads. The HTTP
//! exchanges themselves are made by the caller.
use vstd::prelude::*;
use vstd::string::StringExecFns;
use crate::config::ProviderType;

verus! {

/// The percent-encoded form of a query.
pub uninterp spec fn url_encoded(s: Seq<char>) -> Seq<char>;

/// ASCII alphanumerics and `-`, `.`, `_`, `~`, which encoding leaves as they are.
pub open spec fn is_unreserved(c: char) -> bool {
    let x = c as int;
    (48 <= x <= 57) || (65 <= x <= 90) || (97 <= x <= 122) || x == 45 || x == 46 || x == 95 || x
        == 126
}

/// An uppercase hexadecimal digit.
pub open spec fn hex_upper(d: int) -> char {
    if d == 0 {
        '0'
    } else if d == 1 {
        '1'
    } else if d == 2 {
        '2'
    } else if d == 3 {
        '3'
    } else if d == 4 {
        '4'
    } else if d == 5 {
        '5'
    } else if d == 6 {
        '6'
    } else if d == 7 {
        '7'
    } else if d == 8 {
        '8'
    } else if d == 9 {
        '9'
    } else if d == 10 {
        'A'
    } else if d == 11 {
        'B'
    } else if d == 12 {
        'C'
    } else if d == 13 {
        'D'
    } else if d == 14 {
        'E'
    } else {
        'F'
    }
}

/// Every character of `s` is ASCII.
pub open spec fn is_ascii_text(s: Seq<char>) -> bool {
    forall|i: int| 0 <= i < s.len() ==> (#[trigger] s[i] as int) < 128
}

/// Percent-encoding of ASCII text: unreserved characters stay, every other
/// one becomes `%` and two uppercase hexadecimal digits.
pub open spec fn ascii_percent_encoded(s: Seq<char>) -> Seq<char>
    decreases s.len(),
{
    if s.len() == 0 {
        Seq::empty()
    } else {
        let c = s.last();
        ascii_percent_encoded(s.drop_last()) + if is_unreserved(c) {
            seq![c]
        } else {
            seq!['%', hex_upper(c as int / 16), hex_upper(c as int % 16)]
        }
    }
}

/// Relies on `urlencoding::encode`: every byte but ASCII alphanumerics and
/// `-`, `_`, `.`, `~` becomes `%` and two uppercase hexadecimal digits, so the
/// result depends on the text alone.
#[verifier::external_body]
fn encode_query(s: &str) -> (r: String)
    ensures
        r@ == url_encoded(s@),
        is_ascii_text(s@) ==> r@ == ascii_percent_encoded(s@),
{
    urlencoding::encode(s).into_owned()
}

/// The character of a decimal digit.
pub open spec fn digit_char(d: nat) -> char {
    if d == 0 {
        '0'
    } else if d == 1 {
        '1'
    } else if d == 2 {
        '2'
    } else if d == 3 {
        '3'
    } else if d == 4 {
        '4'
    } else if d == 5 {
        '5'
    } else if d == 6 {
        '6'
    } else if d == 7 {
        '7'
    } else if d == 8 {
        '8'
    } else {
        '9'
    }
}

/// The decimal representation of `n`, without leading zeros.
pub open spec fn decimal(n: nat) -> Seq<char>
    decreases n,
{
    if n < 10 {
        seq![digit_char(n)]
    } else {
        decimal(n / 10).push(digit_char(n % 10))
    }
}

/// The one-character text of a decimal digit.
fn digit_str(d: usize) -> (r: &'static str)
    requires
        d < 10,
    ensures
        r@ == seq![digit_char(d as nat)],
{
    proof {
        reveal_strlit("0");
        reveal_strlit("1");
        reveal_strlit("2");
        reveal_strlit("3");
        reveal_strlit("4");
        reveal_strlit("5");
        reveal_strlit("6");
        reveal_strlit("7");
        reveal_strlit("8");
        reveal_strlit("9");
    }
    let r = if d == 0 {
        "0"
    } else if d == 1 {
        "1"
    } else if d == 2 {
        "2"
    } else if d == 3 {
        "3"
    } else if d == 4 {
        "4"
    } else if d == 5 {
        "5"
    } else if d == 6 {
        "6"
    } else if d == 7 {
        "7"
    } else if d == 8 {
        "8"
    } else {
        "9"
    };
    assert(r@ =~= seq![digit_char(d as nat)]);
    r
}

/// The decimal representation of `n`.
fn decimal_string(n: usize) -> (r: String)
    ensures
        r@ == decimal(n as nat),
{
    let mut m: usize = n;
    let mut acc = String::new();
    while m >= 10
        invariant
            decimal(n as nat) == decimal(m as nat) + acc@,
        decreases m,
    {
        let d = m % 10;
        let ghost prev = acc@;
        acc = String::from_str(digit_str(d)).concat(acc.as_str());
        proof {
            assert(decimal(m as nat) == decimal((m / 10) as nat).push(digit_char(d as nat)));
            assert(decimal(m as nat) + prev =~= decimal((m / 10) as nat) + acc@);
        }
        m = m / 10;
    }
    let r = String::from_str(digit_str(m)).concat(acc.as_str());
    proof {
        assert(decimal(m as nat) == seq![digit_char(m as nat)]);
    }
    r
}

/// Why a provider's search cannot start.
#[derive(Debug, Clone, Copy, PartialEq, Eq, Structural)]
pub enum PlanError {
    /// The caller's identity is needed and no token is configured.
    AuthRequired,
    /// Bitbucket searches across accounts only for an authenticated caller.
    BitbucketNeedsAuth,
}

impl PlanError {
    /// A human-readable cause.
    pub fn message(&self) -> (r: String)
        ensures
            r@ == match *self {
                PlanError::AuthRequired => "Authentication required to get username"@,
                PlanError::BitbucketNeedsAuth =>
                    "Bitbucket requires authentication to search all repositories. Set BITBUCKET_TOKEN or use --mine flag."@,
            },
    {
        match self {
            PlanError::AuthRequired => String::from_str("Authentication required to get username"),
            PlanError::BitbucketNeedsAuth => String::from_str(
                "Bitbucket requires authentication to search all repositories. Set BITBUCKET_TOKEN or use --mine flag.",
            ),
        }
    }
}

/// Whether a search of kind `k` first looks up the caller's name.
pub open spec fn user_needed(k: ProviderType, mine_only: bool, authenticated: bool) -> bool {
    match k {
        ProviderType::Github => mine_only,
        ProviderType::Gitlab => false,
        ProviderType::Bitbucket => mine_only || authenticated,
    }
}

/// Whether the caller's name must be looked up before searching. Bitbucket
/// refuses an unauthenticated search that is not limited to the caller, and
/// every search limited to the caller needs a token.
pub fn needs_username(kind: ProviderType, mine_only: bool, authenticated: bool) -> (r: Result<
    bool,
    PlanError,
>)
    ensures
        kind == ProviderType::Bitbucket && !mine_only && !authenticated ==> r == Err::<
            bool,
            PlanError,
        >(PlanError::BitbucketNeedsAuth),
        mine_only && !authenticated ==> r == Err::<bool, PlanError>(PlanError::AuthRequired),
        authenticated ==> r == Ok::<bool, PlanError>(user_needed(kind, mine_only, authenticated)),
        kind != ProviderType::Bitbucket && !mine_only ==> r == Ok::<bool, PlanError>(false),
{
    if mine_only && !authenticated {
        return Err(PlanError::AuthRequired);
    }
    match kind {
        ProviderType::Github => Ok(mine_only),
        ProviderType::Gitlab => Ok(false),
        ProviderType::Bitbucket => {
            if !mine_only && !authenticated {
                Err(PlanError::BitbucketNeedsAuth)
            } else {
                Ok(true)
            }
        },
    }
}

/// The endpoint that names the authenticated caller.
pub fn user_url(base_url: &str) -> (r: String)
    ensures
        r@ == base_url@ + "/user"@,
{
    String::from_str(base_url).concat("/user")
}

/// The search request of kind `k`, from the encoded query parts.
pub open spec fn search_url_of(
    k: ProviderType,
    base: Seq<char>,
    query: Seq<char>,
    username: Option<Seq<char>>,
    mine_only: bool,
    limit: nat,
) -> Seq<char> {
    match k {
        ProviderType::Github => {
            let q = match username {
                Some(u) => query + " user:"@ + u,
                None => query,
            };
            base + "/search/repositories?q="@ + url_encoded(q) + "&per_page="@ + decimal(limit)
        },
        ProviderType::Gitlab => base + "/api/v4/projects?search="@ + url_encoded(query)
            + "&per_page="@ + decimal(limit) + if mine_only {
            "&owned=true"@
        } else {
            Seq::empty()
        },
        ProviderType::Bitbucket => match username {
            Some(u) => base + "/repositories/"@ + u + "?q=name~\""@ + url_encoded(query)
                + "\"&pagelen="@ + decimal(limit),
            None => base + "/repositories?q=name~\""@ + url_encoded(query) + "\"&pagelen="@
                + decimal(limit),
        },
    }
}

/// The single-page search request of a provider of kind `kind`; `username` is
/// the caller's name where it was looked up, and `limit` is the page size.
pub fn search_url(
    kind: ProviderType,
    base_url: &str,
    query: &str,
    username: Option<&str>,
    mine_only: bool,
    limit: usize,
) -> (r: String)
    ensures
        r@ == search_url_of(
            kind,
            base_url@,
            query@,
            match username {
                Some(u) => Some(u@),
                None => None,
            },
            mine_only,
            limit as nat,
        ),
{
    let base = String::from_str(base_url);
    match kind {
        ProviderType::Github => {
            let q = match username {
                Some(u) => String::from_str(query).concat(" user:").concat(u),
                None => String::from_str(query),
            };
            let enc = encode_query(q.as_str());
            let n = decimal_string(limit);
            base.concat("/search/repositories?q=").concat(enc.as_str()).concat("&per_page=").concat(
                n.as_str(),
            )
        },
        ProviderType::Gitlab => {
            let enc = encode_query(query);
            let n = decimal_string(limit);
            let url = base.concat("/api/v4/projects?search=").concat(enc.as_str()).concat(
                "&per_page=",
            ).concat(n.as_str());
            if mine_only {
                url.concat("&owned=true")
            } else {
                proof {
                    assert(url@ + Seq::<char>::empty() =~= url@);
                }
                url
            }
        },
        ProviderType::Bitbucket => {
            let enc = encode_query(query);
            let n = decimal_string(limit);
            match username {
                Some(u) => base.concat("/repositories/").concat(u).concat("?q=name~\"").concat(
                    enc.as_str(),
                ).concat("\"&pagelen=").concat(n.as_str()),
                None => base.concat("/repositories?q=name~\"").concat(enc.as_str()).concat(
                    "\"&pagelen=",
                ).concat(n.as_str()),
            }
        },
    }
}

/// A GitLab project is private unless its visibility is `public`.
pub fn gitlab_is_private(visibility: &str) -> (r: bool)
    ensures
        r == (visibility@ != "public"@),
{
    !(String::from_str(visibility) == String::from_str("public"))
}

} // verus!
