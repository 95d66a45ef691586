//! The repository record: one starred repository as the remote API reports it.

use vstd::prelude::*;

verus! {

/// One starred repository: its name, web address, free-form description and
/// star count.
#[derive(Debug)]
pub struct Repo {
    pub name: String,
    pub url: String,
    pub description: String,
    pub star_count: u64,
}

/// The mathematical image of a [`Repo`]: each text field as a sequence of
/// characters, the star count unchanged.
pub struct RepoModel {
    pub name: Seq<char>,
    pub url: Seq<char>,
    pub description: Seq<char>,
    pub star_count: u64,
}

impl View for Repo {
    type V = RepoModel;

    open spec fn view(&self) -> RepoModel {
        RepoModel {
            name: self.name@,
            url: self.url@,
            description: self.description@,
            star_count: self.star_count,
        }
    }
}

/// The image of a whole record list.
pub open spec fn models_of(rs: Seq<Repo>) -> Seq<RepoModel> {
    rs.map_values(|r: Repo| r@)
}

} // verus!
