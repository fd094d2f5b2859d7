//! Decisions of the client of the panel's remote API: its headers and base
//! address, when a failed request is retried and how long to wait, and the
//! walk through paged server lists.

use vstd::prelude::*;
use vstd::arithmetic::power2::{lemma2_to64, lemma2_to64_rest, lemma_pow2_strictly_increases, lemma_pow2_unfold, pow2};
use crate::text::{strip_trailing, trim_end_matches_char};

verus! {

/// The `User-Agent` the daemon sends to the panel.
pub open spec fn user_agent_text(version: Seq<char>, token_id: Seq<char>) -> Seq<char> {
    "cyrogopus/v"@ + version + " (id:"@ + token_id + ")"@
}

/// Builds the `User-Agent` header value.
pub fn user_agent(version: &str, token_id: &str) -> (r: String)
    ensures
        r@ == user_agent_text(version@, token_id@),
{
    let mut out = String::new();
    out.append("cyrogopus/v");
    out.append(version);
    out.append(" (id:");
    out.append(token_id);
    out.append(")");
    out
}

/// The `Authorization` header value for a node token.
pub open spec fn authorization_text(token_id: Seq<char>, token: Seq<char>) -> Seq<char> {
    "Bearer "@ + token_id + "."@ + token
}

/// Builds the `Authorization` header value.
pub fn authorization(token_id: &str, token: &str) -> (r: String)
    ensures
        r@ == authorization_text(token_id@, token@),
{
    let mut out = String::new();
    out.append("Bearer ");
    out.append(token_id);
    out.append(".");
    out.append(token);
    out
}

/// The base address of the remote API: the panel location without trailing
/// slashes, followed by `/api/remote`.
pub open spec fn remote_api_url_text(remote: Seq<char>) -> Seq<char> {
    strip_trailing(remote, '/') + "/api/remote"@
}

/// Builds the base address of the remote API.
pub fn remote_api_url(remote: &str) -> (r: String)
    ensures
        r@ == remote_api_url_text(remote@),
{
    let mut out = trim_end_matches_char(remote, '/');
    out.append("/api/remote");
    out
}

/// Whether a failed request is worth retrying: every failure is, except an
/// answer of the panel with a client-error status (400 to 499).
pub open spec fn retryable(status: Option<u16>) -> bool {
    match status {
        Some(code) => !(400 <= code < 500),
        None => true,
    }
}

/// Decides whether a failure with the given HTTP status (if the failure
/// carried one) is retried.
pub fn should_retry(status: Option<u16>) -> (r: bool)
    ensures
        r == retryable(status),
{
    match status {
        Some(code) => !(400 <= code && code < 500),
        None => true,
    }
}

/// What to do after an attempt failed.
#[derive(Clone, Copy, Debug, PartialEq, Eq, Structural)]
pub enum RetryDecision {
    /// Return the failure to the caller.
    GiveUp,
    /// Wait about `backoff_secs` seconds, then try again.
    Wait { backoff_secs: u64 },
}

/// The pause after the `failures`-th failure in a row: one second after the
/// first, doubling with each further failure, and held at `u64::MAX` seconds
/// once the doubling no longer fits.
pub open spec fn backoff_secs_spec(failures: nat) -> nat {
    if failures == 0 {
        0
    } else if failures <= 64 {
        pow2((failures - 1) as nat)
    } else {
        u64::MAX as nat
    }
}

/// Computes the pause after the `failures`-th failure in a row.
pub fn backoff_secs(failures: u64) -> (r: u64)
    requires
        failures >= 1,
    ensures
        r == backoff_secs_spec(failures as nat),
{
    if failures > 64 {
        return u64::MAX;
    }
    let mut b: u64 = 1;
    let mut i: u64 = 1;
    proof {
        lemma2_to64();
        lemma2_to64_rest();
    }
    while i < failures
        invariant
            1 <= i <= failures <= 64,
            b == pow2((i - 1) as nat),
            pow2(63) == 0x8000_0000_0000_0000,
        decreases failures - i,
    {
        proof {
            lemma_pow2_unfold(i as nat);
            if i < 63 {
                lemma_pow2_strictly_increases(i as nat, 63);
            }
        }
        b = b * 2;
        i = i + 1;
    }
    b
}

/// Each further failure doubles the pause, as long as the pause fits in
/// `u64` seconds: the backoff grows exponentially with base 2.
pub proof fn lemma_backoff_doubles(failures: nat)
    requires
        1 <= failures < 64,
    ensures
        backoff_secs_spec(failures + 1) == 2 * backoff_secs_spec(failures),
        backoff_secs_spec(failures) == pow2((failures - 1) as nat),
{
    lemma_pow2_unfold(failures);
}

/// The attempts of one request with retries: at most `limit` attempts, with
/// a pause between them that doubles with each failure.
#[derive(Clone, Copy, Debug)]
pub struct RetryState {
    limit: u64,
    failures: u64,
}

impl RetryState {
    /// The most attempts allowed.
    pub closed spec fn limit(&self) -> u64 {
        self.limit
    }

    /// The retryable failures so far.
    pub closed spec fn failures(&self) -> u64 {
        self.failures
    }

    /// Whether another attempt is still allowed.
    pub closed spec fn may_attempt(&self) -> bool {
        self.failures < self.limit
    }

    /// The attempts of a request allowed `limit` attempts; a limit of zero
    /// is not a valid configuration.
    pub fn new(limit: u64) -> (r: RetryState)
        requires
            limit > 0,
        ensures
            r.limit() == limit,
            r.failures() == 0,
            r.may_attempt(),
    {
        RetryState { limit, failures: 0 }
    }

    /// Decides what follows a failed attempt; `retry` tells whether the
    /// failure is worth retrying.
    pub fn on_failure(&mut self, retry: bool) -> (r: RetryDecision)
        requires
            old(self).may_attempt(),
        ensures
            final(self).limit() == old(self).limit(),
            !retry ==> r == RetryDecision::GiveUp && final(self).failures() == old(self).failures(),
            retry ==> final(self).failures() == old(self).failures() + 1,
            retry && final(self).failures() < final(self).limit() ==> r == (RetryDecision::Wait {
                backoff_secs: backoff_secs_spec(final(self).failures() as nat) as u64,
            }),
            retry && final(self).failures() >= final(self).limit() ==> r == RetryDecision::GiveUp,
            r is Wait ==> final(self).may_attempt(),
    {
        if !retry {
            return RetryDecision::GiveUp;
        }
        self.failures = self.failures + 1;
        if self.failures < self.limit {
            RetryDecision::Wait { backoff_secs: backoff_secs(self.failures) }
        } else {
            RetryDecision::GiveUp
        }
    }
}

/// The page to fetch after page `page` came back telling that it is page
/// `current_page` of `last_page`; none when it was the last.
pub open spec fn next_page_spec(page: u64, current_page: u64, last_page: u64) -> Option<u64> {
    if current_page >= last_page {
        None
    } else {
        Some((page + 1) as u64)
    }
}

/// Decides which page of the server list to fetch next.
pub fn next_page(page: u64, current_page: u64, last_page: u64) -> (r: Option<u64>)
    requires
        current_page < last_page ==> page < u64::MAX,
    ensures
        r == next_page_spec(page, current_page, last_page),
{
    if current_page >= last_page {
        None
    } else {
        Some(page + 1)
    }
}

/// The walk through a paged list, one page after another from the first:
/// the page to fetch next, and the lists of the pages fetched so far.
pub struct PageWalk<T> {
    items: Vec<T>,
    page: u64,
    done: bool,
    pages: Ghost<Seq<Seq<T>>>,
}

impl<T> PageWalk<T> {
    /// The lists of the pages fetched so far, in page order.
    pub closed spec fn pages(&self) -> Seq<Seq<T>> {
        self.pages@
    }

    /// Whether the last page has been fetched.
    pub closed spec fn done(&self) -> bool {
        self.done
    }

    /// The page to fetch next, while the walk goes on.
    pub closed spec fn page(&self) -> u64 {
        self.page
    }

    /// The internal state agrees with the pages fetched.
    pub closed spec fn wf(&self) -> bool {
        &&& self.items@ == self.pages@.flatten()
        &&& !self.done ==> self.page == self.pages@.len() + 1
    }

    /// A walk that has fetched nothing and asks for page 1.
    pub fn new() -> (r: PageWalk<T>)
        ensures
            r.wf(),
            r.pages() == Seq::<Seq<T>>::empty(),
            !r.done(),
            r.page() == 1,
    {
        PageWalk { items: Vec::new(), page: 1, done: false, pages: Ghost(Seq::empty()) }
    }

    /// The page to fetch next, or none once the last page was fetched.
    pub fn next_page(&self) -> (r: Option<u64>)
        ensures
            r == (if self.done() { None } else { Some(self.page()) }),
    {
        if self.done {
            None
        } else {
            Some(self.page)
        }
    }

    /// Takes the list of the page just fetched, which tells that it is page
    /// `current_page` of `last_page`: the walk ends at the last page, and
    /// otherwise asks for the following one.
    pub fn accept(&mut self, page_items: Vec<T>, current_page: u64, last_page: u64)
        requires
            old(self).wf(),
            !old(self).done(),
            current_page < last_page ==> old(self).page() < u64::MAX,
        ensures
            final(self).wf(),
            final(self).pages() == old(self).pages().push(page_items@),
            final(self).done() == (current_page >= last_page),
            !final(self).done() ==> final(self).page() == old(self).page() + 1,
    {
        let ghost old_pages = self.pages@;
        let ghost fetched = page_items@;
        let mut page_items = page_items;
        self.items.append(&mut page_items);
        self.pages = Ghost(old_pages.push(fetched));
        proof {
            old_pages.lemma_flatten_push(fetched);
        }
        match next_page(self.page, current_page, last_page) {
            Some(next) => {
                self.page = next;
            },
            None => {
                self.done = true;
            },
        }
    }

    /// The items of all pages, in page order, once the last page was
    /// fetched.
    pub fn finish(self) -> (r: Vec<T>)
        requires
            self.wf(),
            self.done(),
        ensures
            r@ == self.pages().flatten(),
    {
        self.items
    }
}

} // verus!
