//! Search results kept per query and page, so that a page once fetched is
//! served again without a request, and a query whose results ran out asks
//! nothing more. Pages are facts: a stored page is never replaced.

use crate::model::{duplicate_all, repos_view, Repo, RepoView};
use vstd::prelude::*;

verus! {

/// One stored page of results for one query.
#[derive(Debug)]
pub struct CachedPage {
    pub query: String,
    /// 1-based page number.
    pub page: usize,
    pub repos: Vec<Repo>,
}

pub struct CachedPageView {
    pub query: Seq<char>,
    pub page: nat,
    pub repos: Seq<RepoView>,
}

impl View for CachedPage {
    type V = CachedPageView;

    open spec fn view(&self) -> CachedPageView {
        CachedPageView { query: self.query@, page: self.page as nat, repos: repos_view(self.repos@) }
    }
}

pub struct CacheView {
    /// Stored pages, in the order they were stored.
    pub pages: Seq<CachedPageView>,
    /// Queries whose results are known to have run out.
    pub exhausted: Seq<Seq<char>>,
}

/// The pages and the queries whose results ran out.
#[derive(Debug)]
pub struct ResultCache {
    pub pages: Vec<CachedPage>,
    pub exhausted: Vec<String>,
}

impl View for ResultCache {
    type V = CacheView;

    open spec fn view(&self) -> CacheView {
        CacheView {
            pages: self.pages@.map_values(|p: CachedPage| p@),
            exhausted: self.exhausted@.map_values(|q: String| q@),
        }
    }
}

/// The stored results of `page` for `query`.
pub open spec fn page_of(ps: Seq<CachedPageView>, query: Seq<char>, page: nat) -> Option<
    Seq<RepoView>,
>
    decreases ps.len(),
{
    if ps.len() == 0 {
        None
    } else if ps.last().query == query && ps.last().page == page {
        Some(ps.last().repos)
    } else {
        page_of(ps.drop_last(), query, page)
    }
}

/// Every stored page of `query` comes before `page`.
pub open spec fn beyond_stored(ps: Seq<CachedPageView>, query: Seq<char>, page: nat) -> bool {
    forall|i: int| 0 <= i < ps.len() && (#[trigger] ps[i]).query == query ==> ps[i].page < page
}

/// What the cache says of a page.
#[derive(Debug)]
pub enum Lookup {
    /// The page was stored: these are its results.
    Hit(Vec<Repo>),
    /// The query's results ran out before this page: it is empty.
    Exhausted,
    /// The page must be fetched.
    Miss,
}

pub enum LookupView {
    Hit(Seq<RepoView>),
    Exhausted,
    Miss,
}

pub open spec fn lookup_view(l: Lookup) -> LookupView {
    match l {
        Lookup::Hit(v) => LookupView::Hit(repos_view(v@)),
        Lookup::Exhausted => LookupView::Exhausted,
        Lookup::Miss => LookupView::Miss,
    }
}

pub open spec fn lookup(c: CacheView, query: Seq<char>, page: nat) -> LookupView {
    match page_of(c.pages, query, page) {
        Some(rs) => LookupView::Hit(rs),
        None => if c.exhausted.contains(query) && beyond_stored(c.pages, query, page) {
            LookupView::Exhausted
        } else {
            LookupView::Miss
        },
    }
}

/// The cache after results `rs` of `page` for `query` were offered to it: a
/// page already stored stays as it is; otherwise it is added, and a page
/// shorter than `page_size` marks the query's results as run out.
pub open spec fn stored(
    c: CacheView,
    query: Seq<char>,
    page: nat,
    rs: Seq<RepoView>,
    page_size: nat,
) -> CacheView {
    if page_of(c.pages, query, page) is Some {
        c
    } else {
        CacheView {
            pages: c.pages.push(CachedPageView { query, page, repos: rs }),
            exhausted: if rs.len() < page_size && !c.exhausted.contains(query) {
                c.exhausted.push(query)
            } else {
                c.exhausted
            },
        }
    }
}

fn same_text(a: &String, b: &str) -> (r: bool)
    ensures
        r == (a@ == b@),
{
    let x = a.as_str();
    let n = x.unicode_len();
    if n != b.unicode_len() {
        return false;
    }
    let mut i: usize = 0;
    while i < n
        invariant
            n == x@.len() == b@.len(),
            x@ == a@,
            i <= n,
            x@.take(i as int) == b@.take(i as int),
        decreases n - i,
    {
        if x.get_char(i) != b.get_char(i) {
            assert(x@[i as int] != b@[i as int]);
            return false;
        }
        i = i + 1;
        assert(x@.take(i as int) =~= b@.take(i as int));
    }
    assert(x@ =~= x@.take(n as int));
    assert(b@ =~= b@.take(n as int));
    true
}

impl ResultCache {
    pub fn new() -> (r: ResultCache)
        ensures
            r@.pages.len() == 0,
            r@.exhausted.len() == 0,
    {
        let r = ResultCache { pages: Vec::new(), exhausted: Vec::new() };
        assert(r@.pages =~= Seq::<CachedPageView>::empty());
        assert(r@.exhausted =~= Seq::<Seq<char>>::empty());
        r
    }

    /// Where `page` of `query` is stored, if it is.
    fn find_page(&self, query: &str, page: usize) -> (r: Option<usize>)
        ensures
            match r {
                Some(i) => i < self@.pages.len() && page_of(self@.pages, query@, page as nat)
                    == Some(self@.pages[i as int].repos),
                None => page_of(self@.pages, query@, page as nat) is None,
            },
    {
        let ghost ps = self@.pages;
        let mut i = self.pages.len();
        assert(ps.take(i as int) =~= ps);
        while i > 0
            invariant
                i <= self.pages@.len(),
                ps == self@.pages,
                page_of(ps, query@, page as nat) == page_of(ps.take(i as int), query@, page as nat),
            decreases i,
        {
            let ghost pre = ps.take(i as int);
            assert(pre.drop_last() =~= ps.take(i - 1));
            assert(pre.last() == self.pages@[i - 1]@);
            if self.pages[i - 1].page == page && same_text(&self.pages[i - 1].query, query) {
                return Some(i - 1);
            }
            i = i - 1;
        }
        None
    }

    fn is_exhausted(&self, query: &str) -> (r: bool)
        ensures
            r == self@.exhausted.contains(query@),
    {
        let mut i: usize = 0;
        while i < self.exhausted.len()
            invariant
                i <= self.exhausted@.len(),
                forall|j: int| 0 <= j < i ==> self@.exhausted[j] != query@,
            decreases self.exhausted@.len() - i,
        {
            if same_text(&self.exhausted[i], query) {
                assert(self@.exhausted[i as int] == query@);
                return true;
            }
            i = i + 1;
        }
        false
    }

    /// Whether every stored page of `query` comes before `page`.
    fn all_before(&self, query: &str, page: usize) -> (r: bool)
        ensures
            r == beyond_stored(self@.pages, query@, page as nat),
    {
        let mut i: usize = 0;
        while i < self.pages.len()
            invariant
                i <= self.pages@.len(),
                forall|j: int|
                    0 <= j < i && (#[trigger] self@.pages[j]).query == query@ ==> self@.pages[j].page
                        < page,
            decreases self.pages@.len() - i,
        {
            if self.pages[i].page >= page && same_text(&self.pages[i].query, query) {
                assert(self@.pages[i as int].query == query@);
                return false;
            }
            i = i + 1;
        }
        true
    }

    /// The stored results of `page` for `query`, that page known to be empty,
    /// or a miss.
    pub fn get(&self, query: &str, page: usize) -> (r: Lookup)
        ensures
            lookup_view(r) == lookup(self@, query@, page as nat),
    {
        match self.find_page(query, page) {
            Some(i) => Lookup::Hit(duplicate_all(&self.pages[i].repos)),
            None => {
                if self.is_exhausted(query) && self.all_before(query, page) {
                    Lookup::Exhausted
                } else {
                    Lookup::Miss
                }
            },
        }
    }

    /// Offers the fetched results of `page` for `query`; `page_size` is the
    /// page size that the fetch asked for.
    pub fn put(&mut self, query: &str, page: usize, repos: Vec<Repo>, page_size: usize)
        ensures
            final(self)@ == stored(
                old(self)@,
                query@,
                page as nat,
                repos_view(repos@),
                page_size as nat,
            ),
    {
        if self.find_page(query, page).is_some() {
            return;
        }
        let short = repos.len() < page_size;
        if short && !self.is_exhausted(query) {
            self.exhausted.push(String::from_str(query));
        }
        self.pages.push(CachedPage { query: String::from_str(query), page, repos });
        assert(self@.pages =~= old(self)@.pages.push(
            CachedPageView { query: query@, page: page as nat, repos: repos_view(repos@) },
        ));
        assert(self@.exhausted =~= stored(
            old(self)@,
            query@,
            page as nat,
            repos_view(repos@),
            page_size as nat,
        ).exhausted);
    }
}

proof fn lemma_beyond_stored_misses(ps: Seq<CachedPageView>, query: Seq<char>, page: nat, later: nat)
    requires
        beyond_stored(ps, query, page),
        later >= page,
    ensures
        page_of(ps, query, later) is None,
    decreases ps.len(),
{
    if ps.len() > 0 {
        assert(ps.last() == ps[ps.len() - 1]);
        assert(beyond_stored(ps.drop_last(), query, page)) by {
            assert forall|i: int|
                0 <= i < ps.drop_last().len() && (#[trigger] ps.drop_last()[i]).query
                    == query implies ps.drop_last()[i].page < page by {
                assert(ps.drop_last()[i] == ps[i]);
            }
        }
        lemma_beyond_stored_misses(ps.drop_last(), query, page, later);
    }
}

/// A page that missed and was then stored is served from the cache on the
/// next request, exactly as it was stored.
pub proof fn lemma_stored_page_hits(
    c: CacheView,
    query: Seq<char>,
    page: nat,
    rs: Seq<RepoView>,
    page_size: nat,
)
    requires
        lookup(c, query, page) == LookupView::Miss,
    ensures
        lookup(stored(c, query, page, rs, page_size), query, page) == LookupView::Hit(rs),
{
}

/// Once a newly stored page is shorter than the page size, and no later
/// page of the query was stored, every later page of the query is known to
/// be empty: none of them needs a request.
pub proof fn lemma_short_page_exhausts(
    c: CacheView,
    query: Seq<char>,
    page: nat,
    rs: Seq<RepoView>,
    page_size: nat,
    later: nat,
)
    requires
        lookup(c, query, page) == LookupView::Miss,
        beyond_stored(c.pages, query, page),
        rs.len() < page_size,
        later > page,
    ensures
        lookup(stored(c, query, page, rs, page_size), query, later) == LookupView::Exhausted,
{
    let n = stored(c, query, page, rs, page_size);
    assert(n.exhausted.contains(query)) by {
        if c.exhausted.contains(query) {
            let i = choose|i: int| 0 <= i < c.exhausted.len() && c.exhausted[i] == query;
            assert(n.exhausted[i] == query);
        } else {
            assert(n.exhausted[c.exhausted.len() as int] == query);
        }
    }
    assert(beyond_stored(n.pages, query, later)) by {
        assert forall|i: int|
            0 <= i < n.pages.len() && (#[trigger] n.pages[i]).query == query implies n.pages[i].page
                < later by {
            if i < c.pages.len() {
                assert(n.pages[i] == c.pages[i]);
            }
        }
    }
    lemma_beyond_stored_misses(n.pages, query, later, later);
}

} // verus!
