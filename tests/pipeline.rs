use grit_find::cache::{Lookup, ResultCache};
use grit_find::filter::keep_with_release;
use grit_find::model::{duplicate_all, Repo};
use grit_find::search::{
    bearer_value, plan_page, release_url, search_request, Accumulator, PagePlan, MAX_RESULTS,
    REMOTE_PAGE_SIZE,
};

fn repo(name: &str, stars: u64) -> Repo {
    Repo::new(name.to_string(), Some(format!("about {name}")), stars)
}

fn repos(prefix: &str, n: usize) -> Vec<Repo> {
    (0..n).map(|i| repo(&format!("{prefix}/r{i}"), i as u64)).collect()
}

#[test]
fn release_filter_keeps_order() {
    let a = repo("o/a", 3);
    let b = repo("o/b", 2);
    let c = Repo::new("o/c".to_string(), None, 1);
    let out = keep_with_release(vec![a.clone(), b, c.clone()], &vec![true, false, true]);
    assert_eq!(out, vec![a, c]);
    assert!(keep_with_release(vec![], &vec![]).is_empty());
}

#[test]
fn stored_page_is_served_from_cache() {
    let mut cache = ResultCache::new();
    assert!(matches!(plan_page(&cache, "rg", 1), PagePlan::Fetch));
    let page = repos("x", 100);
    cache.put("rg", 1, duplicate_all(&page), REMOTE_PAGE_SIZE);
    match plan_page(&cache, "rg", 1) {
        PagePlan::Ready(v) => assert_eq!(v, page),
        PagePlan::Fetch => panic!("expected a cached page"),
    }
    assert!(matches!(plan_page(&cache, "rg", 2), PagePlan::Fetch));
    assert!(matches!(plan_page(&cache, "rg ", 1), PagePlan::Fetch));
    assert!(matches!(plan_page(&cache, "RG", 1), PagePlan::Fetch));
}

#[test]
fn short_page_ends_the_query() {
    let mut cache = ResultCache::new();
    cache.put("fd", 1, repos("a", 100), 100);
    cache.put("fd", 2, repos("b", 40), 100);
    for p in 3..6 {
        match cache.get("fd", p) {
            Lookup::Exhausted => {}
            other => panic!("page {p}: {other:?}"),
        }
        match plan_page(&cache, "fd", p) {
            PagePlan::Ready(v) => assert!(v.is_empty()),
            PagePlan::Fetch => panic!("no fetch expected"),
        }
    }
    match cache.get("fd", 2) {
        Lookup::Hit(v) => assert_eq!(v.len(), 40),
        other => panic!("{other:?}"),
    }
    assert!(matches!(cache.get("other", 3), Lookup::Miss));
}

#[test]
fn stored_pages_are_never_replaced() {
    let mut cache = ResultCache::new();
    cache.put("q", 1, vec![repo("o/first", 1)], 100);
    cache.put("q", 1, vec![repo("o/second", 2)], 100);
    match cache.get("q", 1) {
        Lookup::Hit(v) => assert_eq!(v, vec![repo("o/first", 1)]),
        other => panic!("{other:?}"),
    }
    assert_eq!(cache.pages.len(), 1);
    assert_eq!(cache.exhausted, vec!["q".to_string()]);
}

#[test]
fn accumulates_up_to_the_budget() {
    let mut acc = Accumulator::new();
    acc.add_page(repos("a", 100), 100);
    assert!(acc.finished);
    assert_eq!(acc.all.len(), MAX_RESULTS);

    let mut acc = Accumulator::new();
    acc.add_page(repos("a", 37), 100);
    assert!(acc.finished);
    assert_eq!(acc.all.len(), 37);
    assert_eq!(acc.page, 1);

    let mut acc = Accumulator::new();
    acc.add_page(repos("a", 30), 30);
    assert!(!acc.finished);
    assert_eq!(acc.page, 2);
    acc.add_page(repos("b", 30), 30);
    acc.add_page(repos("c", 30), 30);
    assert_eq!(acc.page, 4);
    acc.add_page(repos("d", 30), 30);
    assert!(acc.finished);
    assert_eq!(acc.all.len(), 100);
    assert_eq!(acc.all[99].full_name, "d/r9");

    let mut acc = Accumulator::new();
    acc.add_page(Vec::new(), 100);
    assert!(acc.finished);
    assert!(acc.all.is_empty());
}

#[test]
fn requests_are_built_from_the_query() {
    let r = search_request("cli tool", 500, 3);
    assert_eq!(r.terms, "cli tool is:public");
    assert_eq!(r.per_page, 100);
    assert_eq!(r.page, 3);
    assert_eq!(search_request("x", 0, 1).per_page, 1);
    assert_eq!(search_request("x", 25, 1).per_page, 25);
    assert_eq!(
        release_url("sharkdp/fd"),
        "https://api.github.com/repos/sharkdp/fd/releases/latest"
    );
    assert_eq!(bearer_value("abc"), "Bearer abc");
}
