//! The bodies of search and download requests, with their defaults.
use vstd::prelude::*;

use crate::text::views;

verus! {

/// A search for author names.
pub struct Author {
    pub author: String,
    pub limit: u32,
}

/// A search for books, shared by every book search.
pub struct Search {
    pub title: String,
    pub author: String,
    pub series: String,
    pub limit: u32,
    pub deleted: bool,
    pub langs: Vec<String>,
}

/// What a book search asks, as plain values.
pub struct SearchModel {
    pub title: Seq<char>,
    pub author: Seq<char>,
    pub series: Seq<char>,
    pub limit: u32,
    pub deleted: bool,
    pub langs: Seq<Seq<char>>,
}

impl View for Search {
    type V = SearchModel;

    open spec fn view(&self) -> SearchModel {
        SearchModel {
            title: self.title@,
            author: self.author@,
            series: self.series@,
            limit: self.limit,
            deleted: self.deleted,
            langs: views(self.langs@),
        }
    }
}

/// A request for an archive of several books.
pub struct Download {
    pub ids: Vec<String>,
}

/// The number of results that a request asks for when it names none.
pub fn default_limit() -> (r: u32)
    ensures
        r == 10,
{
    10
}

/// Deleted books are left out unless a request asks for them.
pub fn default_deleted() -> (r: bool)
    ensures
        !r,
{
    false
}

/// The text of a search field that a request leaves out.
pub fn default_empty_string() -> (r: String)
    ensures
        r@.len() == 0,
{
    String::new()
}

/// The list that a request leaves out: no language filter, no book.
pub fn default_vec() -> (r: Vec<String>)
    ensures
        r@.len() == 0,
{
    Vec::new()
}

} // verus!
