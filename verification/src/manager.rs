//! The job registry: the single source of truth for job existence, status,
//! cancellation and discovered links. Callers are expected to guard one
//! registry value with their runtime's mutual exclusion and route every
//! read and write through these methods; each method is a single atomic
//! step of the registry's state machine.

use vstd::prelude::*;
use crate::contains_string;
use crate::contains_view;
use crate::utils::url_host;
use crate::views_of;

verus! {

/// Lifecycle of one crawl job. The only transitions are
/// `Crawling -> Finished` (made when the worker's frontier drains) and
/// `Crawling -> Stopped` (made by an operator's stop request);
/// `Finished` and `Stopped` are terminal.
#[derive(Clone, Copy, Debug, PartialEq, Eq, Structural)]
pub enum Status {
    Crawling,
    Finished,
    Stopped,
}

impl Status {
    /// The word shown for this status in a job listing.
    pub open spec fn spec_text(self) -> Seq<char> {
        match self {
            Status::Crawling => "crawling"@,
            Status::Finished => "finished"@,
            Status::Stopped => "stopped"@,
        }
    }

    /// The word shown for this status in a job listing.
    pub fn text(&self) -> (r: &'static str)
        ensures
            r@ == self.spec_text(),
    {
        match self {
            Status::Crawling => "crawling",
            Status::Finished => "finished",
            Status::Stopped => "stopped",
        }
    }
}

/// One job's registry entry: its key (the normalized seed URL), status,
/// cancellation flag, and the ordered, deduplicated links discovered so
/// far. The cancellation flag is the job's cancellation handle: the worker
/// polls it between fetches.
pub struct JobEntry {
    pub key: String,
    pub status: Status,
    pub cancel_requested: bool,
    pub links: Vec<String>,
}

/// No two entries of `v` read the same.
pub open spec fn view_unique(v: Seq<Seq<char>>) -> bool {
    forall|a: int, b: int| 0 <= a < b < v.len() ==> v[a] != v[b]
}

/// No two jobs share a key.
pub open spec fn keys_unique(jobs: Seq<JobEntry>) -> bool {
    forall|i: int, j: int| 0 <= i < j < jobs.len() ==> jobs[i].key@ != jobs[j].key@
}

/// Some job of `jobs` has key `key`.
pub open spec fn has_key(jobs: Seq<JobEntry>, key: Seq<char>) -> bool {
    exists|i: int| 0 <= i < jobs.len() && jobs[i].key@ == key
}

/// The index of the job with key `key` (meaningful when `has_key` holds
/// and keys are unique).
pub open spec fn idx_of(jobs: Seq<JobEntry>, key: Seq<char>) -> int {
    choose|i: int| 0 <= i < jobs.len() && jobs[i].key@ == key
}

/// The status of the job with key `key`, or `None` when there is none.
pub open spec fn spec_status(jobs: Seq<JobEntry>, key: Seq<char>) -> Option<Status> {
    if has_key(jobs, key) {
        Some(jobs[idx_of(jobs, key)].status)
    } else {
        None
    }
}

/// When keys are unique, an index whose job carries `key` is the index
/// that `idx_of` picks.
pub proof fn lemma_idx_of(jobs: Seq<JobEntry>, key: Seq<char>, i: int)
    requires
        keys_unique(jobs),
        0 <= i < jobs.len(),
        jobs[i].key@ == key,
    ensures
        has_key(jobs, key),
        idx_of(jobs, key) == i,
{
    assert(has_key(jobs, key));
    let j = idx_of(jobs, key);
    assert(0 <= j < jobs.len() && jobs[j].key@ == key);
    if i < j {
        assert(jobs[i].key@ != jobs[j].key@);
    } else if j < i {
        assert(jobs[j].key@ != jobs[i].key@);
    }
}

/// `links` appended to `entry` in order, skipping what is already present.
pub open spec fn dedup_append(entry: Seq<Seq<char>>, links: Seq<Seq<char>>) -> Seq<Seq<char>>
    decreases links.len(),
{
    if links.len() == 0 {
        entry
    } else {
        let prefix = dedup_append(entry, links.drop_last());
        if prefix.contains(links.last()) {
            prefix
        } else {
            prefix.push(links.last())
        }
    }
}

/// Deduplicated appending keeps an entry free of repeats: no URL appears
/// twice afterwards if none did before.
pub proof fn lemma_dedup_append_unique(entry: Seq<Seq<char>>, links: Seq<Seq<char>>)
    requires
        view_unique(entry),
    ensures
        view_unique(dedup_append(entry, links)),
    decreases links.len(),
{
    if links.len() > 0 {
        lemma_dedup_append_unique(entry, links.drop_last());
        let prefix = dedup_append(entry, links.drop_last());
        if !prefix.contains(links.last()) {
            assert forall|a: int, b: int|
                0 <= a < b < prefix.push(links.last()).len() implies prefix.push(links.last())[a]
                != prefix.push(links.last())[b] by {
                if b < prefix.len() {
                    assert(prefix[a] != prefix[b]);
                } else {
                    assert(!prefix.contains(prefix[a]) ==> false);
                }
            }
        }
    }
}

/// Deduplicated appending invents nothing: every URL of the result was in
/// the entry before or among the links handed in.
pub proof fn lemma_dedup_append_from(entry: Seq<Seq<char>>, links: Seq<Seq<char>>)
    ensures
        forall|k: int|
            0 <= k < dedup_append(entry, links).len() ==> entry.contains(
                #[trigger] dedup_append(entry, links)[k],
            ) || links.contains(dedup_append(entry, links)[k]),
    decreases links.len(),
{
    if links.len() > 0 {
        lemma_dedup_append_from(entry, links.drop_last());
        let prefix = dedup_append(entry, links.drop_last());
        assert forall|k: int|
            0 <= k < dedup_append(entry, links).len() implies entry.contains(
            dedup_append(entry, links)[k],
        ) || links.contains(dedup_append(entry, links)[k]) by {
            let x = dedup_append(entry, links)[k];
            if k < prefix.len() {
                assert(entry.contains(x) || links.drop_last().contains(x));
                if links.drop_last().contains(x) {
                    let m = choose|m: int|
                        0 <= m < links.drop_last().len() && links.drop_last()[m] == x;
                    assert(links[m] == x);
                }
            } else {
                assert(x == links.last());
                assert(links[links.len() - 1] == x);
            }
        }
    }
}

/// The registry itself: one entry per job key.
pub struct ScraperManager {
    pub jobs: Vec<JobEntry>,
}

/// How `start_scraping(key)` relates the registry before (`pre`) and after
/// (`post`) when it returned `started`: a key that is already `Crawling`
/// is left untouched; an existing entry in a terminal state is revived as
/// `Crawling` with a fresh cancellation flag and its links kept; an unknown
/// key gains a fresh entry. `started` says whether a worker must be
/// spawned.
pub open spec fn start_post(
    pre: Seq<JobEntry>,
    post: Seq<JobEntry>,
    key: Seq<char>,
    started: bool,
) -> bool {
    if spec_status(pre, key) == Some(Status::Crawling) {
        &&& !started
        &&& post == pre
    } else if has_key(pre, key) {
        let i = idx_of(pre, key);
        &&& started
        &&& post.len() == pre.len()
        &&& (forall|j: int| 0 <= j < pre.len() && j != i ==> post[j] == pre[j])
        &&& post[i].key == pre[i].key
        &&& post[i].status == Status::Crawling
        &&& !post[i].cancel_requested
        &&& post[i].links == pre[i].links
    } else {
        &&& started
        &&& post.len() == pre.len() + 1
        &&& post.take(pre.len() as int) == pre
        &&& post.last().key@ == key
        &&& post.last().status == Status::Crawling
        &&& !post.last().cancel_requested
        &&& post.last().links@.len() == 0
    }
}

/// How `stop_scraping(key)` relates the registry before and after, with
/// `stopped` saying whether an entry existed: an existing entry has its
/// cancellation flag raised and, when it was `Crawling`, its status set to
/// `Stopped`; terminal statuses are left as they are, and an unknown key
/// changes nothing.
pub open spec fn stop_post(
    pre: Seq<JobEntry>,
    post: Seq<JobEntry>,
    key: Seq<char>,
    stopped: bool,
) -> bool {
    if has_key(pre, key) {
        let i = idx_of(pre, key);
        &&& stopped
        &&& post.len() == pre.len()
        &&& (forall|j: int| 0 <= j < pre.len() && j != i ==> post[j] == pre[j])
        &&& post[i].key == pre[i].key
        &&& post[i].status == (if pre[i].status == Status::Crawling {
            Status::Stopped
        } else {
            pre[i].status
        })
        &&& post[i].cancel_requested
        &&& post[i].links == pre[i].links
    } else {
        &&& !stopped
        &&& post == pre
    }
}

/// How `record_links(key, links)` relates the registry before and after:
/// while the job is `Crawling`, its entry gains the given links in order,
/// minus those already present; a job that is finished, stopped or unknown
/// gains nothing.
pub open spec fn record_post(
    pre: Seq<JobEntry>,
    post: Seq<JobEntry>,
    key: Seq<char>,
    links: Seq<String>,
) -> bool {
    if spec_status(pre, key) == Some(Status::Crawling) {
        let i = idx_of(pre, key);
        &&& post.len() == pre.len()
        &&& (forall|j: int| 0 <= j < pre.len() && j != i ==> post[j] == pre[j])
        &&& post[i].key == pre[i].key
        &&& post[i].status == pre[i].status
        &&& post[i].cancel_requested == pre[i].cancel_requested
        &&& views_of(post[i].links@) == dedup_append(views_of(pre[i].links@), views_of(links))
    } else {
        post == pre
    }
}

/// How `finish_job(key)` relates the registry before and after: a
/// `Crawling` job becomes `Finished`; anything else is left untouched, so
/// a stop that already happened is never overwritten.
pub open spec fn finish_post(pre: Seq<JobEntry>, post: Seq<JobEntry>, key: Seq<char>) -> bool {
    if spec_status(pre, key) == Some(Status::Crawling) {
        let i = idx_of(pre, key);
        &&& post.len() == pre.len()
        &&& (forall|j: int| 0 <= j < pre.len() && j != i ==> post[j] == pre[j])
        &&& post[i].key == pre[i].key
        &&& post[i].status == Status::Finished
        &&& post[i].cancel_requested == pre[i].cancel_requested
        &&& post[i].links == pre[i].links
    } else {
        post == pre
    }
}

impl ScraperManager {
    /// Job keys are unique and no job's link list repeats a URL.
    pub open spec fn wf(self) -> bool {
        &&& keys_unique(self.jobs@)
        &&& forall|i: int|
            0 <= i < self.jobs@.len() ==> view_unique(views_of(#[trigger] self.jobs@[i].links@))
    }

    /// A registry with no jobs.
    pub fn new() -> (r: ScraperManager)
        ensures
            r.wf(),
            r.jobs@.len() == 0,
    {
        ScraperManager { jobs: Vec::new() }
    }

    /// The index of the entry whose key reads `key`, if any.
    fn find_entry(&self, key: &str) -> (r: Option<usize>)
        ensures
            match r {
                Some(i) => i < self.jobs@.len() && self.jobs@[i as int].key@ == key@,
                None => !has_key(self.jobs@, key@),
            },
    {
        let mut i: usize = 0;
        while i < self.jobs.len()
            invariant
                0 <= i <= self.jobs@.len(),
                forall|j: int| 0 <= j < i ==> self.jobs@[j].key@ != key@,
            decreases self.jobs@.len() - i,
        {
            if crate::utils::str_eq(self.jobs[i].key.as_str(), key) {
                return Some(i);
            }
            i += 1;
        }
        None
    }

    /// Start a crawl job for `url` (a normalized URL): when no job with
    /// that key is currently `Crawling`, its entry is created or revived
    /// with status `Crawling` and a lowered cancellation flag, and `true`
    /// says the caller must spawn exactly one worker for it. When the key
    /// is already `Crawling` this is an idempotent no-op returning `false`,
    /// so one key never has two workers.
    pub fn start_scraping(&mut self, url: String) -> (started: bool)
        requires
            old(self).wf(),
        ensures
            final(self).wf(),
            start_post(old(self).jobs@, final(self).jobs@, url@, started),
    {
        let ghost pre = self.jobs@;
        match self.find_entry(url.as_str()) {
            Some(i) => {
                proof {
                    lemma_idx_of(pre, url@, i as int);
                }
                if self.jobs[i].status == Status::Crawling {
                    return false;
                }
                let entry = self.jobs.remove(i);
                let revived = JobEntry {
                    key: entry.key,
                    status: Status::Crawling,
                    cancel_requested: false,
                    links: entry.links,
                };
                self.jobs.insert(i, revived);
                assert(forall|j: int|
                    0 <= j < pre.len() && j != i ==> self.jobs@[j] == pre[j]);
                true
            },
            None => {
                self.jobs.push(
                    JobEntry {
                        key: url,
                        status: Status::Crawling,
                        cancel_requested: false,
                        links: Vec::new(),
                    },
                );
                assert(self.jobs@.take(pre.len() as int) =~= pre);
                true
            },
        }
    }

    /// Request cancellation of the job keyed by `url`: when an entry
    /// exists, raise its cancellation flag and, if it is still `Crawling`,
    /// set its status to `Stopped`; the return value says whether an entry
    /// existed. Stopping a finished or already-stopped job changes its
    /// status no further.
    pub fn stop_scraping(&mut self, url: &str) -> (stopped: bool)
        requires
            old(self).wf(),
        ensures
            final(self).wf(),
            stop_post(old(self).jobs@, final(self).jobs@, url@, stopped),
    {
        let ghost pre = self.jobs@;
        match self.find_entry(url) {
            Some(i) => {
                proof {
                    lemma_idx_of(pre, url@, i as int);
                }
                let entry = self.jobs.remove(i);
                let new_status = if entry.status == Status::Crawling {
                    Status::Stopped
                } else {
                    entry.status
                };
                let stopped_entry = JobEntry {
                    key: entry.key,
                    status: new_status,
                    cancel_requested: true,
                    links: entry.links,
                };
                self.jobs.insert(i, stopped_entry);
                assert(forall|j: int|
                    0 <= j < pre.len() && j != i ==> self.jobs@[j] == pre[j]);
                true
            },
            None => false,
        }
    }

    /// Record the links one page contributed to the job keyed by `key`:
    /// while the job is `Crawling`, append each link not already present,
    /// in the order given; once the job is finished, stopped or gone, the
    /// entry gains nothing, so no link lands after a stop.
    pub fn record_links(&mut self, key: &str, links: &Vec<String>)
        requires
            old(self).wf(),
        ensures
            final(self).wf(),
            record_post(old(self).jobs@, final(self).jobs@, key@, links@),
    {
        let ghost pre = self.jobs@;
        match self.find_entry(key) {
            Some(i) => {
                proof {
                    lemma_idx_of(pre, key@, i as int);
                }
                if !(self.jobs[i].status == Status::Crawling) {
                    return ;
                }
                let mut entry = self.jobs.remove(i);
                let ghost entry0 = views_of(entry.links@);
                let mut j: usize = 0;
                while j < links.len()
                    invariant
                        0 <= j <= links@.len(),
                        entry.key == pre[i as int].key,
                        entry.status == pre[i as int].status,
                        entry.cancel_requested == pre[i as int].cancel_requested,
                        entry0 == views_of(pre[i as int].links@),
                        view_unique(entry0),
                        views_of(entry.links@) == dedup_append(
                            entry0,
                            views_of(links@.take(j as int)),
                        ),
                    decreases links@.len() - j,
                {
                    let ghost links_pre = views_of(links@.take(j as int));
                    assert(views_of(links@.take(j + 1)).drop_last() =~= links_pre);
                    assert(views_of(links@.take(j + 1)).last() == links@[j as int]@);
                    let ghost entry_pre = views_of(entry.links@);
                    proof {
                        crate::lemma_contains_view(entry.links@, links@[j as int]@);
                    }
                    if !contains_string(&entry.links, &links[j]) {
                        entry.links.push(links[j].clone());
                        assert(views_of(entry.links@) =~= entry_pre.push(links@[j as int]@));
                    }
                    j += 1;
                }
                assert(links@.take(links@.len() as int) =~= links@);
                proof {
                    lemma_dedup_append_unique(entry0, views_of(links@));
                }
                self.jobs.insert(i, entry);
                assert(forall|k: int|
                    0 <= k < pre.len() && k != i ==> self.jobs@[k] == pre[k]);
            },
            None => {},
        }
    }

    /// Mark the job keyed by `url` finished: a `Crawling` job becomes
    /// `Finished`; a stopped job keeps its status, as the stop came first.
    pub fn finish_job(&mut self, url: &str)
        requires
            old(self).wf(),
        ensures
            final(self).wf(),
            finish_post(old(self).jobs@, final(self).jobs@, url@),
    {
        let ghost pre = self.jobs@;
        match self.find_entry(url) {
            Some(i) => {
                proof {
                    lemma_idx_of(pre, url@, i as int);
                }
                if !(self.jobs[i].status == Status::Crawling) {
                    return ;
                }
                let entry = self.jobs.remove(i);
                let finished = JobEntry {
                    key: entry.key,
                    status: Status::Finished,
                    cancel_requested: entry.cancel_requested,
                    links: entry.links,
                };
                self.jobs.insert(i, finished);
                assert(forall|j: int|
                    0 <= j < pre.len() && j != i ==> self.jobs@[j] == pre[j]);
            },
            None => {},
        }
    }

    /// Whether cancellation was requested for the job keyed by `url`; the
    /// worker polls this between fetches and winds down when it is raised.
    pub fn is_cancelled(&self, url: &str) -> (r: bool)
        requires
            self.wf(),
        ensures
            r == (has_key(self.jobs@, url@) && self.jobs@[idx_of(
                self.jobs@,
                url@,
            )].cancel_requested),
    {
        match self.find_entry(url) {
            Some(i) => {
                proof {
                    lemma_idx_of(self.jobs@, url@, i as int);
                }
                self.jobs[i].cancel_requested
            },
            None => false,
        }
    }

    /// A snapshot of every job's key and status, in registry order.
    pub fn list_tasks(&self) -> (r: Vec<(String, Status)>)
        ensures
            r@.len() == self.jobs@.len(),
            forall|i: int|
                0 <= i < r@.len() ==> (#[trigger] r@[i]).0@ == self.jobs@[i].key@ && r@[i].1
                    == self.jobs@[i].status,
    {
        let mut r: Vec<(String, Status)> = Vec::new();
        let mut i: usize = 0;
        while i < self.jobs.len()
            invariant
                0 <= i <= self.jobs@.len(),
                r@.len() == i,
                forall|j: int|
                    0 <= j < i ==> (#[trigger] r@[j]).0@ == self.jobs@[j].key@ && r@[j].1
                        == self.jobs@[j].status,
            decreases self.jobs@.len() - i,
        {
            r.push((self.jobs[i].key.clone(), self.jobs[i].status));
            i += 1;
        }
        r
    }

    /// The links discovered so far for the job keyed by `url`, in
    /// discovery order — possibly still growing while the job is
    /// `Crawling` — or `None` when the key is unknown.
    pub fn get_links(&self, url: &str) -> (r: Option<Vec<String>>)
        requires
            self.wf(),
        ensures
            r is Some <==> has_key(self.jobs@, url@),
            r matches Some(v) ==> views_of(v@) == views_of(
                self.jobs@[idx_of(self.jobs@, url@)].links@,
            ),
    {
        match self.find_entry(url) {
            Some(i) => {
                proof {
                    lemma_idx_of(self.jobs@, url@, i as int);
                }
                let links = &self.jobs[i].links;
                let mut v: Vec<String> = Vec::new();
                let mut j: usize = 0;
                while j < links.len()
                    invariant
                        0 <= j <= links@.len(),
                        v@.len() == j,
                        forall|k: int| 0 <= k < j ==> (#[trigger] v@[k])@ == links@[k]@,
                    decreases links@.len() - j,
                {
                    v.push(links[j].clone());
                    j += 1;
                }
                assert(views_of(v@) =~= views_of(links@));
                Some(v)
            },
            None => None,
        }
    }
}

/// Starting a job twice in quick succession spawns exactly one worker:
/// when the first call started one, the second is a no-op that starts
/// none and leaves the registry as the first call left it.
pub proof fn lemma_start_idempotent(
    pre: Seq<JobEntry>,
    mid: Seq<JobEntry>,
    post: Seq<JobEntry>,
    key: Seq<char>,
    started1: bool,
    started2: bool,
)
    requires
        keys_unique(pre),
        start_post(pre, mid, key, started1),
        start_post(mid, post, key, started2),
        started1,
    ensures
        !started2,
        post == mid,
{
    if has_key(pre, key) {
        let i = idx_of(pre, key);
        assert(0 <= i < pre.len() && pre[i].key@ == key);
        assert(forall|j: int| 0 <= j < mid.len() ==> mid[j].key == pre[j].key);
        lemma_idx_of(mid, key, i);
        assert(spec_status(mid, key) == Some(Status::Crawling));
    } else {
        assert(forall|j: int|
            0 <= j < pre.len() ==> #[trigger] mid[j] == mid.take(pre.len() as int)[j]);
        assert(forall|j: int| 0 <= j < pre.len() ==> mid[j].key@ != key);
        assert(keys_unique(mid));
        lemma_idx_of(mid, key, mid.len() - 1);
        assert(spec_status(mid, key) == Some(Status::Crawling));
    }
}

/// Recording links preserves any per-link property: when every link handed
/// to `record_links` and every link already recorded satisfies `p`, every
/// link recorded afterwards does too. With `p` reading "has exactly the
/// seed's domain and is neither a fragment nor a `mailto:` reference" —
/// which [`crate::lemma_valid_links_scoped`] gives of everything a worker
/// hands in — no out-of-domain, fragment or `mailto:` link ever enters a
/// job's entry.
pub proof fn lemma_record_preserves(
    pre: Seq<JobEntry>,
    post: Seq<JobEntry>,
    key: Seq<char>,
    links: Seq<String>,
    p: spec_fn(Seq<char>) -> bool,
)
    requires
        record_post(pre, post, key, links),
        forall|m: int| 0 <= m < links.len() ==> p(#[trigger] links[m]@),
        forall|j: int, k: int|
            0 <= j < pre.len() && 0 <= k < pre[j].links@.len() ==> p(
                #[trigger] pre[j].links@[k]@,
            ),
    ensures
        forall|j: int, k: int|
            0 <= j < post.len() && 0 <= k < post[j].links@.len() ==> p(
                #[trigger] post[j].links@[k]@,
            ),
{
    if spec_status(pre, key) == Some(Status::Crawling) {
        let i = idx_of(pre, key);
        let entry = views_of(pre[i].links@);
        let given = views_of(links);
        lemma_dedup_append_from(entry, given);
        assert forall|j: int, k: int|
            0 <= j < post.len() && 0 <= k < post[j].links@.len() implies p(
            post[j].links@[k]@,
        ) by {
            if j == i {
                let x = views_of(post[i].links@)[k];
                assert(x == post[i].links@[k]@);
                assert(entry.contains(x) || given.contains(x));
                if entry.contains(x) {
                    let m = choose|m: int| 0 <= m < entry.len() && entry[m] == x;
                    assert(pre[i].links@[m]@ == x);
                } else {
                    let m = choose|m: int| 0 <= m < given.len() && given[m] == x;
                    assert(links[m]@ == x);
                }
            }
        }
    }
}

/// Domain scoping at the registry, one job at a time: when every link
/// already recorded for the job keyed `key` has domain `domain`, and every
/// link handed to `record_links` has it too — which
/// [`crate::lemma_valid_links_scoped`] gives of everything the job's
/// worker hands in — every link recorded for it afterwards still has that
/// domain. Entries of other jobs do not change (`record_post` says so), so
/// each job keeps its own domain regardless of what the others crawl.
pub proof fn lemma_record_keeps_scope(
    pre: Seq<JobEntry>,
    post: Seq<JobEntry>,
    key: Seq<char>,
    links: Seq<String>,
    domain: Seq<char>,
)
    requires
        record_post(pre, post, key, links),
        has_key(pre, key) ==> forall|k: int|
            0 <= k < pre[idx_of(pre, key)].links@.len() ==> url_host(
                #[trigger] pre[idx_of(pre, key)].links@[k]@,
            ) == Some(domain),
        forall|m: int| 0 <= m < links.len() ==> url_host(#[trigger] links[m]@) == Some(domain),
    ensures
        has_key(pre, key) ==> forall|k: int|
            0 <= k < post[idx_of(pre, key)].links@.len() ==> url_host(
                #[trigger] post[idx_of(pre, key)].links@[k]@,
            ) == Some(domain),
{
    if spec_status(pre, key) == Some(Status::Crawling) {
        let i = idx_of(pre, key);
        let entry = views_of(pre[i].links@);
        let given = views_of(links);
        lemma_dedup_append_from(entry, given);
        assert forall|k: int| 0 <= k < post[i].links@.len() implies url_host(
            post[i].links@[k]@,
        ) == Some(domain) by {
            let x = views_of(post[i].links@)[k];
            assert(x == post[i].links@[k]@);
            assert(entry.contains(x) || given.contains(x));
            if entry.contains(x) {
                let m = choose|m: int| 0 <= m < entry.len() && entry[m] == x;
                assert(pre[i].links@[m]@ == x);
            } else {
                let m = choose|m: int| 0 <= m < given.len() && given[m] == x;
                assert(links[m]@ == x);
            }
        }
    }
}

/// Cancellation quiesces a job: stopping a `Crawling` job sets its status
/// to `Stopped`, and any links a worker tries to record afterwards leave
/// the registry unchanged.
pub proof fn lemma_stop_quiesces(
    pre: Seq<JobEntry>,
    mid: Seq<JobEntry>,
    post: Seq<JobEntry>,
    key: Seq<char>,
    links: Seq<String>,
)
    requires
        keys_unique(pre),
        spec_status(pre, key) == Some(Status::Crawling),
        stop_post(pre, mid, key, true),
        record_post(mid, post, key, links),
    ensures
        spec_status(mid, key) == Some(Status::Stopped),
        post == mid,
{
    let i = idx_of(pre, key);
    assert(0 <= i < pre.len() && pre[i].key@ == key);
    assert(forall|j: int| 0 <= j < mid.len() ==> mid[j].key == pre[j].key);
    lemma_idx_of(mid, key, i);
    assert(mid[i].status == Status::Stopped);
}

} // verus!
