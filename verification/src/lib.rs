//! A verified crawl-orchestration library: URL normalization, breadth-first
//! same-domain link discovery, and a job registry that tracks the lifecycle
//! of concurrent crawl jobs (start, stop, list, link retrieval).
//!
//! The fetching of pages and the spawning of tasks are left to the caller;
//! the library supplies the per-page and per-command decisions, verified.

pub mod commands;
pub mod html;
pub mod manager;
pub mod utils;

use std::collections::VecDeque;
use vstd::prelude::*;
use crate::html::extract_hrefs;
use crate::html::hrefs_of;
use crate::utils::is_canonical;
use crate::utils::is_valid_link;
use crate::utils::normalize_url;
use crate::utils::resolve_link;
use crate::utils::spec_is_valid_link;
use crate::utils::spec_normalize;
use crate::utils::spec_resolve;
use crate::utils::spec_starts_with;
use crate::utils::url_host;

verus! {

/// The views of a sequence of strings.
pub open spec fn views_of(v: Seq<String>) -> Seq<Seq<char>> {
    v.map_values(|s: String| s@)
}

/// Some string of `v` reads `x`.
pub open spec fn contains_view(v: Seq<String>, x: Seq<char>) -> bool {
    exists|i: int| 0 <= i < v.len() && v[i]@ == x
}

/// `contains_view` agrees with membership in the sequence of views.
pub proof fn lemma_contains_view(v: Seq<String>, x: Seq<char>)
    ensures
        contains_view(v, x) == views_of(v).contains(x),
{
    if contains_view(v, x) {
        let i = choose|i: int| 0 <= i < v.len() && v[i]@ == x;
        assert(views_of(v)[i] == x);
    }
    if views_of(v).contains(x) {
        let i = choose|i: int| 0 <= i < views_of(v).len() && views_of(v)[i] == x;
        assert(v[i]@ == x);
    }
}

/// Whether some string of `v` reads as `x` does.
pub fn contains_string(v: &Vec<String>, x: &String) -> (r: bool)
    ensures
        r == contains_view(v@, x@),
{
    let mut i: usize = 0;
    while i < v.len()
        invariant
            0 <= i <= v@.len(),
            forall|j: int| 0 <= j < i ==> v@[j]@ != x@,
        decreases v@.len() - i,
    {
        if v[i].eq(x) {
            assert(0 <= i < v@.len() && v@[i as int]@ == x@);
            return true;
        }
        i += 1;
    }
    false
}

/// The links a page contributes to a crawl scoped to `domain`: each `href`,
/// resolved against the page's URL and normalized, kept when it passes the
/// same-domain filter, in document order.
pub open spec fn link_of(href: Seq<char>, page: Seq<char>, domain: Seq<char>) -> Seq<Seq<char>> {
    match spec_normalize(spec_resolve(page, href)) {
        Some(n) => if spec_is_valid_link(n, domain) {
            seq![n]
        } else {
            Seq::empty()
        },
        None => Seq::empty(),
    }
}

/// All links the `hrefs` of one page contribute, in document order.
pub open spec fn valid_links_of(
    hrefs: Seq<Seq<char>>,
    page: Seq<char>,
    domain: Seq<char>,
) -> Seq<Seq<char>>
    decreases hrefs.len(),
{
    if hrefs.len() == 0 {
        Seq::empty()
    } else {
        valid_links_of(hrefs.drop_last(), page, domain) + link_of(hrefs.last(), page, domain)
    }
}

/// Domain scoping and fragment/mailto exclusion: every link a page yields
/// for a crawl scoped to `domain` has exactly that domain and is neither a
/// fragment-only nor a `mailto:` reference.
pub proof fn lemma_valid_links_scoped(hrefs: Seq<Seq<char>>, page: Seq<char>, domain: Seq<char>)
    ensures
        forall|k: int|
            0 <= k < valid_links_of(hrefs, page, domain).len() ==> {
                let l = #[trigger] valid_links_of(hrefs, page, domain)[k];
                &&& url_host(l) == Some(domain)
                &&& !spec_starts_with(l, "#"@)
                &&& !spec_starts_with(l, "mailto:"@)
            },
    decreases hrefs.len(),
{
    if hrefs.len() > 0 {
        lemma_valid_links_scoped(hrefs.drop_last(), page, domain);
    }
}

/// The sublist of `links` whose entries are not in `visited`, in order.
pub open spec fn not_visited_of(links: Seq<Seq<char>>, visited: Seq<String>) -> Seq<Seq<char>>
    decreases links.len(),
{
    if links.len() == 0 {
        Seq::empty()
    } else {
        not_visited_of(links.drop_last(), visited) + (if contains_view(visited, links.last()) {
            Seq::empty()
        } else {
            seq![links.last()]
        })
    }
}

/// A frontier entry is stale: it no longer normalizes, or its normalized
/// form was already fetched.
pub open spec fn is_stale(entry: Seq<char>, visited: Seq<String>) -> bool {
    match spec_normalize(entry) {
        Some(n) => contains_view(visited, n),
        None => true,
    }
}

/// One dequeue step of the FIFO frontier: the entries before index `k`
/// were stale and dropped, `u` is entry `k`'s normalized form — not yet
/// fetched — and what remains of the frontier is exactly what followed
/// entry `k`.
pub open spec fn fetch_step(
    pre_frontier: Seq<String>,
    pre_visited: Seq<String>,
    post_frontier: Seq<String>,
    k: int,
    u: Seq<char>,
) -> bool {
    &&& 0 <= k < pre_frontier.len()
    &&& (forall|j: int| 0 <= j < k ==> is_stale(#[trigger] pre_frontier[j]@, pre_visited))
    &&& spec_normalize(pre_frontier[k]@) == Some(u)
    &&& !contains_view(pre_visited, u)
    &&& post_frontier == pre_frontier.subrange(k + 1, pre_frontier.len() as int)
}

/// The worker state of one breadth-first crawl: its job key (the normalized
/// seed), the seed's domain, the FIFO frontier of URLs still to fetch, and
/// the set of normalized URLs already fetched.
///
/// The worker owns this state alone; only the discovered links are handed
/// to the shared registry, via [`manager::ScraperManager::record_links`].
pub struct Scraper {
    pub key: String,
    pub base_domain: String,
    pub frontier: VecDeque<String>,
    pub visited: Vec<String>,
}

impl Scraper {
    /// The key is canonical, its domain is the crawl's domain, and no URL
    /// was fetched twice: every visited URL is canonical and distinct.
    pub open spec fn wf(self) -> bool {
        &&& is_canonical(self.key@)
        &&& url_host(self.key@) == Some(self.base_domain@)
        &&& forall|i: int|
            0 <= i < self.visited@.len() ==> is_canonical(#[trigger] self.visited@[i]@)
        &&& forall|i: int, j: int|
            0 <= i < j < self.visited@.len() ==> self.visited@[i]@ != self.visited@[j]@
    }

    /// Set up a crawl for `start_url`: normalize it, take its domain as the
    /// crawl scope, and seed the frontier with it. Returns `None` exactly
    /// when the URL does not normalize or has no domain — the job then
    /// fails immediately instead of fetching anything.
    pub fn new(start_url: &str) -> (r: Option<Scraper>)
        ensures
            r is Some <==> (spec_normalize(start_url@) is Some && url_host(
                spec_normalize(start_url@).unwrap(),
            ) is Some),
            r matches Some(w) ==> {
                &&& w.wf()
                &&& spec_normalize(start_url@) == Some(w.key@)
                &&& url_host(w.key@) == Some(w.base_domain@)
                &&& w.frontier@.len() == 1 && w.frontier@[0]@ == w.key@
                &&& w.visited@.len() == 0
            },
    {
        let key = match normalize_url(start_url) {
            Some(k) => k,
            None => {
                return None;
            },
        };
        let base_domain = match crate::utils::domain_of(key.as_str()) {
            Some(d) => d,
            None => {
                return None;
            },
        };
        let mut frontier: VecDeque<String> = VecDeque::new();
        frontier.push_back(key.clone());
        Some(Scraper { key, base_domain, frontier, visited: Vec::new() })
    }

    /// Take the next URL to fetch: pop frontier entries front-first until
    /// one normalizes and was not fetched before, mark it fetched, and
    /// return it; what followed it stays queued, in order. Returns `None`
    /// exactly when every remaining frontier entry is stale (fails to
    /// normalize or was fetched already) — the crawl is then complete.
    /// The returned URL was never fetched before, so no URL is fetched
    /// twice in one crawl.
    pub fn next_to_fetch(&mut self) -> (r: Option<String>)
        requires
            old(self).wf(),
        ensures
            final(self).wf(),
            final(self).key == old(self).key,
            final(self).base_domain == old(self).base_domain,
            match r {
                Some(u) => {
                    &&& is_canonical(u@)
                    &&& !contains_view(old(self).visited@, u@)
                    &&& final(self).visited@ == old(self).visited@.push(u)
                    &&& exists|k: int|
                        fetch_step(
                            old(self).frontier@,
                            old(self).visited@,
                            final(self).frontier@,
                            k,
                            u@,
                        )
                },
                None => {
                    &&& final(self).visited == old(self).visited
                    &&& final(self).frontier@.len() == 0
                    &&& forall|j: int|
                        0 <= j < old(self).frontier@.len() ==> is_stale(
                            #[trigger] old(self).frontier@[j]@,
                            old(self).visited@,
                        )
                },
            },
    {
        let ghost mut p: int = 0;
        loop
            invariant
                self.wf(),
                self.key == old(self).key,
                self.base_domain == old(self).base_domain,
                self.visited == old(self).visited,
                0 <= p <= old(self).frontier@.len(),
                self.frontier@ == old(self).frontier@.subrange(
                    p,
                    old(self).frontier@.len() as int,
                ),
                forall|j: int|
                    0 <= j < p ==> is_stale(#[trigger] old(self).frontier@[j]@, old(self).visited@),
            decreases self.frontier@.len(),
        {
            match self.frontier.pop_front() {
                None => {
                    return None;
                },
                Some(url) => {
                    proof {
                        assert(url == old(self).frontier@[p]);
                        assert(self.frontier@ =~= old(self).frontier@.subrange(
                            p + 1,
                            old(self).frontier@.len() as int,
                        ));
                    }
                    if let Some(n) = normalize_url(url.as_str()) {
                        if !contains_string(&self.visited, &n) {
                            self.visited.push(n.clone());
                            assert(fetch_step(
                                old(self).frontier@,
                                old(self).visited@,
                                self.frontier@,
                                p,
                                n@,
                            ));
                            return Some(n);
                        }
                    }
                    proof {
                        assert(is_stale(old(self).frontier@[p]@, old(self).visited@));
                        p = p + 1;
                    }
                },
            }
        }
    }

    /// Digest one fetched page: extract its anchors, resolve and normalize
    /// each `href`, keep those in the crawl's domain, and enqueue the ones
    /// not yet fetched. Returns the page's in-scope links in discovery
    /// order, each in canonical form, for the registry to record.
    pub fn process_page(&mut self, page_url: &str, body: &str) -> (r: Vec<String>)
        requires
            old(self).wf(),
        ensures
            final(self).wf(),
            final(self).key == old(self).key,
            final(self).base_domain == old(self).base_domain,
            final(self).visited == old(self).visited,
            views_of(r@) == valid_links_of(hrefs_of(body@), page_url@, old(self).base_domain@),
            forall|i: int| 0 <= i < r@.len() ==> is_canonical(#[trigger] r@[i]@),
            views_of(final(self).frontier@) == views_of(old(self).frontier@) + not_visited_of(
                views_of(r@),
                final(self).visited@,
            ),
    {
        let hrefs = extract_hrefs(body);
        let ghost all_hrefs: Seq<Seq<char>> = hrefs_of(body@);
        let mut out: Vec<String> = Vec::new();
        let mut i: usize = 0;
        while i < hrefs.len()
            invariant
                self.wf(),
                self.key == old(self).key,
                self.base_domain == old(self).base_domain,
                self.visited == old(self).visited,
                0 <= i <= hrefs@.len(),
                views_of(hrefs@) == all_hrefs,
                all_hrefs == hrefs_of(body@),
                views_of(out@) == valid_links_of(
                    all_hrefs.take(i as int),
                    page_url@,
                    self.base_domain@,
                ),
                forall|j: int| 0 <= j < out@.len() ==> is_canonical(#[trigger] out@[j]@),
                views_of(self.frontier@) == views_of(old(self).frontier@) + not_visited_of(
                    views_of(out@),
                    self.visited@,
                ),
            decreases hrefs@.len() - i,
        {
            let ghost prefix = all_hrefs.take(i as int);
            let ghost out_pre = out@;
            assert(all_hrefs.take(i + 1).drop_last() =~= prefix);
            assert(all_hrefs.take(i + 1).last() == hrefs@[i as int]@);
            let absolute = resolve_link(page_url, hrefs[i].as_str());
            if let Some(n) = normalize_url(absolute.as_str()) {
                if is_valid_link(n.as_str(), self.base_domain.as_str()) {
                    let ghost frontier_pre = self.frontier@;
                    let ghost nv: Seq<char> = n@;
                    let fresh = !contains_string(&self.visited, &n);
                    if fresh {
                        self.frontier.push_back(n.clone());
                        assert(views_of(self.frontier@) =~= views_of(frontier_pre).push(nv));
                    }
                    out.push(n);
                    proof {
                        assert(views_of(out@) =~= views_of(out_pre).push(nv));
                        assert(views_of(out@).drop_last() =~= views_of(out_pre));
                        assert(views_of(out@).last() == nv);
                        assert(not_visited_of(views_of(out@), self.visited@) == not_visited_of(
                            views_of(out_pre),
                            self.visited@,
                        ) + (if contains_view(self.visited@, nv) {
                            Seq::<Seq<char>>::empty()
                        } else {
                            seq![nv]
                        }));
                        assert(views_of(self.frontier@) =~= views_of(old(self).frontier@)
                            + not_visited_of(views_of(out@), self.visited@));
                    }
                } else {
                    assert(views_of(out@) =~= valid_links_of(
                        all_hrefs.take(i + 1),
                        page_url@,
                        self.base_domain@,
                    ));
                }
            } else {
                assert(views_of(out@) =~= valid_links_of(
                    all_hrefs.take(i + 1),
                    page_url@,
                    self.base_domain@,
                ));
            }
            i += 1;
        }
        assert(all_hrefs.take(hrefs@.len() as int) =~= all_hrefs);
        out
    }
}

} // verus!
