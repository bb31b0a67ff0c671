//! URL normalization: the canonical form that serves as dedup key and job
//! identity, together with link resolution and the same-domain link filter.

use vstd::prelude::*;

verus! {

// --- Names for what the `url` crate computes. ---
// Each is a pure function of its string argument alone: the `url` crate
// parses without consulting anything but the input.

/// The canonical form of `s`: what `url::Url::parse(s)` yields once the
/// fragment, username, password and query are stripped and every leading
/// `www.` label is trimmed from the host, serialized back to a string.
/// `None` when `s` does not parse as an absolute URL.
pub uninterp spec fn url_canon(s: Seq<char>) -> Option<Seq<char>>;

/// The domain of `s` as `url::Url::domain` reports it: `None` when `s`
/// does not parse as an absolute URL or its host is not a domain name.
pub uninterp spec fn url_host(s: Seq<char>) -> Option<Seq<char>>;

/// What resolving `rel` against the base URL `base` yields, as
/// `url::Url::join` computes it: `None` when `base` does not parse or the
/// join fails.
pub uninterp spec fn url_join(base: Seq<char>, rel: Seq<char>) -> Option<Seq<char>>;

/// Relies on `url::Url::parse`, on the component setters `set_fragment`,
/// `set_username`, `set_password`, `set_query` and `set_host`, and on
/// `Url::as_str`: together they compute a function of `s` alone, named
/// `url_canon`. The last `ensures` clause holds because a `Url`'s
/// serialization re-parses to the same `Url`, the stripped components are
/// absent from that serialization, and its host no longer starts with
/// `www.` (when trimming the host fails, `set_host` leaves the `Url`
/// unchanged, so that host is a fixed point of the trim as well).
#[verifier::external_body]
fn parse_canonical(s: &str) -> (r: Option<String>)
    ensures
        r is Some <==> url_canon(s@) is Some,
        r matches Some(c) ==> url_canon(s@) == Some(c@),
        r matches Some(c) ==> url_canon(c@) == Some(c@),
{
    let mut url = match url::Url::parse(s) {
        Ok(url) => url,
        Err(_) => return None,
    };
    url.set_fragment(None);
    let _ = url.set_username("");
    let _ = url.set_password(None);
    url.set_query(None);
    if let Some(host) = url.host_str() {
        let trimmed = host.trim_start_matches("www.").to_owned();
        let _ = url.set_host(Some(&trimmed));
    }
    Some(url.as_str().to_owned())
}

/// Relies on `url::Url::parse` and `url::Url::domain`: the domain is a
/// function of the URL string alone, named `url_host`.
#[verifier::external_body]
pub(crate) fn domain_of(s: &str) -> (r: Option<String>)
    ensures
        r is Some <==> url_host(s@) is Some,
        r matches Some(d) ==> url_host(s@) == Some(d@),
{
    match url::Url::parse(s) {
        Ok(url) => url.domain().map(|d| d.to_owned()),
        Err(_) => None,
    }
}

/// Relies on `url::Url::parse` and `url::Url::join`: resolving a relative
/// reference against a base URL is a function of the two strings alone,
/// named `url_join`.
#[verifier::external_body]
fn join_of(base: &str, rel: &str) -> (r: Option<String>)
    ensures
        r is Some <==> url_join(base@, rel@) is Some,
        r matches Some(u) ==> url_join(base@, rel@) == Some(u@),
{
    match url::Url::parse(base) {
        Ok(base_url) => match base_url.join(rel) {
            Ok(url) => Some(url.as_str().to_owned()),
            Err(_) => None,
        },
        Err(_) => None,
    }
}

// --- The normalizer itself. ---

/// The canonical form that `normalize_url` returns: the first of `s`,
/// `https://` + `s`, `http://` + `s` that parses, canonicalized; `None`
/// when none of the three parses.
pub open spec fn spec_normalize(s: Seq<char>) -> Option<Seq<char>> {
    if url_canon(s) is Some {
        url_canon(s)
    } else if url_canon("https://"@ + s) is Some {
        url_canon("https://"@ + s)
    } else if url_canon("http://"@ + s) is Some {
        url_canon("http://"@ + s)
    } else {
        None
    }
}

/// `c` is a canonical URL: canonicalizing it gives `c` back.
pub open spec fn is_canonical(c: Seq<char>) -> bool {
    url_canon(c) == Some(c)
}

/// Canonicalize `input` for use as a dedup key and job identity: parse it
/// as an absolute URL (trying a `https://` and then a `http://` prefix when
/// it does not parse as given), strip fragment, credentials and query, and
/// trim leading `www.` labels from the host. Returns `None` exactly when all
/// three parse attempts fail. Every returned string is a fixed point of
/// normalization.
pub fn normalize_url(input: &str) -> (r: Option<String>)
    ensures
        r is Some <==> spec_normalize(input@) is Some,
        r matches Some(c) ==> spec_normalize(input@) == Some(c@),
        r matches Some(c) ==> is_canonical(c@),
{
    if let Some(c) = parse_canonical(input) {
        return Some(c);
    }
    let https_prefixed = String::from_str("https://").concat(input);
    if let Some(c) = parse_canonical(https_prefixed.as_str()) {
        return Some(c);
    }
    let http_prefixed = String::from_str("http://").concat(input);
    if let Some(c) = parse_canonical(http_prefixed.as_str()) {
        return Some(c);
    }
    None
}

/// Normalization is idempotent: a canonical URL normalizes to itself, so
/// feeding `normalize_url`'s result back in returns it unchanged.
pub proof fn lemma_normalize_idempotent(c: Seq<char>)
    requires
        is_canonical(c),
    ensures
        spec_normalize(c) == Some(c),
{
}

/// Prefix-insensitivity, the scheme half: a string that does not parse as
/// given but does once `https://` is prefixed normalizes exactly as its
/// prefixed spelling does — the two denote the same resource. (That a
/// `www.` label collapses likewise is a fact of the url parser's host
/// handling behind `url_canon`, checked by tests on concrete URLs.)
pub proof fn lemma_normalize_prefix_insensitive(s: Seq<char>)
    requires
        url_canon(s) is None,
        url_canon("https://"@ + s) is Some,
    ensures
        spec_normalize(s) == spec_normalize("https://"@ + s),
{
}

// --- Link resolution and the same-domain filter. ---

/// What `resolve_link` returns: the join of `rel` against `base`, or `rel`
/// itself when the join cannot be made.
pub open spec fn spec_resolve(base: Seq<char>, rel: Seq<char>) -> Seq<char> {
    match url_join(base, rel) {
        Some(u) => u,
        None => rel,
    }
}

/// Resolve a (possibly relative) `link` against the page URL `base`; when
/// `base` does not parse or the join fails, hand `link` back unchanged.
pub fn resolve_link(base: &str, link: &str) -> (r: String)
    ensures
        r@ == spec_resolve(base@, link@),
{
    match join_of(base, link) {
        Some(u) => u,
        None => link.to_owned(),
    }
}

/// `prefix` is an initial segment of `s`.
pub open spec fn spec_starts_with(s: Seq<char>, prefix: Seq<char>) -> bool {
    prefix.len() <= s.len() && s.subrange(0, prefix.len() as int) == prefix
}

/// Whether `s` begins with the characters of `prefix`.
pub fn starts_with_str(s: &str, prefix: &str) -> (r: bool)
    ensures
        r == spec_starts_with(s@, prefix@),
{
    let n = prefix.unicode_len();
    if s.unicode_len() < n {
        assert(!spec_starts_with(s@, prefix@));
        return false;
    }
    let mut i: usize = 0;
    while i < n
        invariant
            n == prefix@.len(),
            n <= s@.len(),
            0 <= i <= n,
            forall|j: int| 0 <= j < i ==> s@[j] == prefix@[j],
        decreases n - i,
    {
        if s.get_char(i) != prefix.get_char(i) {
            assert(s@.subrange(0, n as int)[i as int] != prefix@[i as int]);
            return false;
        }
        i += 1;
    }
    assert(s@.subrange(0, n as int) =~= prefix@);
    true
}

/// Whether `a` and `b` read the same.
pub fn str_eq(a: &str, b: &str) -> (r: bool)
    ensures
        r == (a@ == b@),
{
    let n = a.unicode_len();
    if b.unicode_len() != n {
        return false;
    }
    let mut i: usize = 0;
    while i < n
        invariant
            n == a@.len(),
            n == b@.len(),
            0 <= i <= n,
            forall|j: int| 0 <= j < i ==> a@[j] == b@[j],
        decreases n - i,
    {
        if a.get_char(i) != b.get_char(i) {
            return false;
        }
        i += 1;
    }
    assert(a@ =~= b@);
    true
}

/// A resolved, normalized link is in scope for a crawl iff it is not a
/// fragment or `mailto:` reference and its domain is exactly the seed's.
pub open spec fn spec_is_valid_link(link: Seq<char>, base_domain: Seq<char>) -> bool {
    &&& !spec_starts_with(link, "#"@)
    &&& !spec_starts_with(link, "mailto:"@)
    &&& url_host(link) == Some(base_domain)
}

/// Decide whether `link` belongs to the crawl scoped to `base_domain`:
/// fragment-only and `mailto:` references are excluded, and the link's
/// domain must equal `base_domain` exactly (no subdomain matching).
pub fn is_valid_link(link: &str, base_domain: &str) -> (r: bool)
    ensures
        r == spec_is_valid_link(link@, base_domain@),
{
    if starts_with_str(link, "#") || starts_with_str(link, "mailto:") {
        return false;
    }
    match domain_of(link) {
        Some(domain) => {
            let base = base_domain.to_owned();
            domain == base
        },
        None => false,
    }
}

} // verus!
