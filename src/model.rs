//! Repositories as the search reports them.

use vstd::prelude::*;

verus! {

/// A repository found by a search.
#[derive(Debug, Clone, PartialEq, Eq)]
pub struct Repo {
    /// `owner/name`, unique on the platform.
    pub full_name: String,
    pub description: Option<String>,
    pub stargazers_count: u64,
}

/// What a `Repo` holds, as plain values.
pub struct RepoView {
    pub full_name: Seq<char>,
    pub description: Option<Seq<char>>,
    pub stargazers_count: u64,
}

impl View for Repo {
    type V = RepoView;

    open spec fn view(&self) -> RepoView {
        RepoView {
            full_name: self.full_name@,
            description: match self.description {
                Some(d) => Some(d@),
                None => None,
            },
            stargazers_count: self.stargazers_count,
        }
    }
}

pub open spec fn repos_view(v: Seq<Repo>) -> Seq<RepoView> {
    v.map_values(|r: Repo| r@)
}

impl Repo {
    pub fn new(full_name: String, description: Option<String>, stargazers_count: u64) -> (r: Repo)
        ensures
            r.full_name == full_name,
            r.description == description,
            r.stargazers_count == stargazers_count,
    {
        Repo { full_name, description, stargazers_count }
    }

    /// A copy with the same contents.
    pub fn duplicate(&self) -> (r: Repo)
        ensures
            r@ == self@,
    {
        let description = match &self.description {
            Some(d) => Some(d.clone()),
            None => None,
        };
        Repo {
            full_name: self.full_name.clone(),
            description,
            stargazers_count: self.stargazers_count,
        }
    }
}

/// A copy of each repository, in order.
pub fn duplicate_all(v: &Vec<Repo>) -> (r: Vec<Repo>)
    ensures
        repos_view(r@) == repos_view(v@),
{
    let mut r: Vec<Repo> = Vec::new();
    let mut i: usize = 0;
    while i < v.len()
        invariant
            i <= v@.len(),
            r@.len() == i,
            forall|j: int| 0 <= j < i ==> (#[trigger] r@[j])@ == v@[j]@,
        decreases v@.len() - i,
    {
        r.push(v[i].duplicate());
        i = i + 1;
    }
    assert(repos_view(r@) =~= repos_view(v@));
    r
}

} // verus!
