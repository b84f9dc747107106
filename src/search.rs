//! Driving a search: the requests to send, pages served from the cache or
//! marked for fetching, and the accumulation of fetched pages up to a fixed
//! result budget.

use crate::cache::{lookup, CacheView, Lookup, LookupView, ResultCache};
use crate::model::{repos_view, Repo, RepoView};
use vstd::prelude::*;

verus! {

/// The most results the platform returns per search page.
pub const REMOTE_PAGE_SIZE: usize = 100;

/// The most results accumulated for one query.
pub const MAX_RESULTS: usize = 100;

/// One search request: the search terms (with the public-only qualifier),
/// the page size and the 1-based page; results come sorted by stars,
/// descending.
#[derive(Debug)]
pub struct SearchRequest {
    pub terms: String,
    pub per_page: usize,
    pub page: usize,
}

pub open spec fn clamped_per_page(n: usize) -> usize {
    if n < 1 {
        1
    } else if n > REMOTE_PAGE_SIZE {
        REMOTE_PAGE_SIZE
    } else {
        n
    }
}

/// The request for `page` of `query`, `per_page` brought into `1..=100`.
pub fn search_request(query: &str, per_page: usize, page: usize) -> (r: SearchRequest)
    ensures
        r.terms@ == query@ + " is:public"@,
        r.per_page == clamped_per_page(per_page),
        r.page == page,
{
    let mut terms = String::from_str(query);
    terms.append(" is:public");
    let per_page = if per_page < 1 {
        1
    } else if per_page > REMOTE_PAGE_SIZE {
        REMOTE_PAGE_SIZE
    } else {
        per_page
    };
    SearchRequest { terms, per_page, page }
}

/// Where the latest release of repository `full_name` is read.
pub fn release_url(full_name: &str) -> (r: String)
    ensures
        r@ == "https://api.github.com/repos/"@ + full_name@ + "/releases/latest"@,
{
    let mut r = String::from_str("https://api.github.com/repos/");
    r.append(full_name);
    r.append("/releases/latest");
    r
}

/// The authorization header value for a bearer token.
pub fn bearer_value(token: &str) -> (r: String)
    ensures
        r@ == "Bearer "@ + token@,
{
    let mut r = String::from_str("Bearer ");
    r.append(token);
    r
}

/// Where the results of one page come from.
#[derive(Debug)]
pub enum PagePlan {
    /// Known without a request: stored, or empty because the query's
    /// results ran out.
    Ready(Vec<Repo>),
    /// A request is needed.
    Fetch,
}

pub open spec fn plan_of(c: CacheView, query: Seq<char>, page: nat) -> Option<Seq<RepoView>> {
    match lookup(c, query, page) {
        LookupView::Hit(rs) => Some(rs),
        LookupView::Exhausted => Some(seq![]),
        LookupView::Miss => None,
    }
}

/// How `page` of `query` is obtained: from the cache, or by a fetch.
pub fn plan_page(cache: &ResultCache, query: &str, page: usize) -> (r: PagePlan)
    ensures
        match r {
            PagePlan::Ready(v) => plan_of(cache@, query@, page as nat) == Some(repos_view(v@)),
            PagePlan::Fetch => plan_of(cache@, query@, page as nat) is None,
        },
{
    match cache.get(query, page) {
        Lookup::Hit(v) => PagePlan::Ready(v),
        Lookup::Exhausted => {
            let v: Vec<Repo> = Vec::new();
            assert(repos_view(v@) =~= Seq::<RepoView>::empty());
            PagePlan::Ready(v)
        },
        Lookup::Miss => PagePlan::Fetch,
    }
}

/// Results accumulated page by page for one query.
#[derive(Debug)]
pub struct Accumulator {
    pub all: Vec<Repo>,
    /// The next page to fetch.
    pub page: usize,
    pub finished: bool,
}

/// The results after `fetched` joined `all`, cut to the budget.
pub open spec fn joined(all: Seq<Repo>, fetched: Seq<Repo>) -> Seq<Repo> {
    let j = all + fetched;
    if j.len() > MAX_RESULTS {
        j.take(MAX_RESULTS as int)
    } else {
        j
    }
}

impl Accumulator {
    pub open spec fn wf(&self) -> bool {
        &&& self.all@.len() <= MAX_RESULTS
        &&& 1 <= self.page <= self.all@.len() + 1
        &&& !self.finished ==> self.all@.len() < MAX_RESULTS
    }

    pub fn new() -> (r: Accumulator)
        ensures
            r.wf(),
            r.all@.len() == 0,
            r.page == 1,
            !r.finished,
    {
        Accumulator { all: Vec::new(), page: 1, finished: false }
    }

    /// Takes the filtered results of the current page, fetched with page
    /// size `per_page`. An empty page, the budget reached, or a page shorter
    /// than `per_page` ends the accumulation.
    pub fn add_page(&mut self, fetched: Vec<Repo>, per_page: usize)
        requires
            old(self).wf(),
            !old(self).finished,
        ensures
            final(self).wf(),
            fetched@.len() == 0 ==> final(self).finished && final(self).all@ == old(self).all@
                && final(self).page == old(self).page,
            fetched@.len() > 0 ==> {
                &&& final(self).all@ == joined(old(self).all@, fetched@)
                &&& final(self).finished == (old(self).all@.len() + fetched@.len() >= MAX_RESULTS
                    || fetched@.len() < per_page)
                &&& final(self).page == if final(self).finished {
                    old(self).page
                } else {
                    (old(self).page + 1) as usize
                }
            },
    {
        if fetched.len() == 0 {
            self.finished = true;
            return;
        }
        let n = fetched.len();
        let ghost before = self.all@;
        let ghost added = fetched@;
        let mut fetched = fetched;
        self.all.append(&mut fetched);
        let total_reached = self.all.len() >= MAX_RESULTS;
        if total_reached {
            self.all.truncate(MAX_RESULTS);
        }
        assert(self.all@ =~= joined(before, added));
        if total_reached || n < per_page {
            self.finished = true;
        } else {
            self.page = self.page + 1;
        }
    }
}

} // verus!
