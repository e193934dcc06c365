//! Pages of the article index.

use vstd::prelude::*;

verus! {

/// The page a listing starts with.
pub const FIRST_PAGE: usize = 1;

/// Number of articles on a page, unless the request says otherwise.
pub const DEFAULT_PER_PAGE: usize = 20;

/// A page of the index: its number, counted from 1, and how many articles
/// a page holds.
#[derive(Debug, Clone, Copy, PartialEq, Eq, Structural)]
pub struct Pagination {
    pub page: usize,
    pub per_page: usize,
}

impl Pagination {
    /// Number of articles that stand before the page, or `None` where
    /// there is no such page: page 0, or a page so far out that the number
    /// does not fit the machine.
    pub open spec fn spec_offset(self) -> Option<usize> {
        if self.page >= 1 && (self.page - 1) * self.per_page <= usize::MAX {
            Some(((self.page - 1) * self.per_page) as usize)
        } else {
            None
        }
    }

    /// The page `page` of a listing with `per_page` articles a page.
    pub fn new(page: usize, per_page: usize) -> (p: Pagination)
        ensures
            p == (Pagination { page, per_page }),
    {
        Pagination { page, per_page }
    }

    /// The page that a request asks for, or the first page of twenty where
    /// it asks for none.
    pub fn or_default(requested: Option<Pagination>) -> (p: Pagination)
        ensures
            p == (match requested {
                Some(asked) => asked,
                None => Pagination { page: FIRST_PAGE, per_page: DEFAULT_PER_PAGE },
            }),
    {
        match requested {
            Some(asked) => asked,
            None => Pagination { page: FIRST_PAGE, per_page: DEFAULT_PER_PAGE },
        }
    }

    /// The page shown when the articles could not be fetched: page 0, with
    /// nothing on it.
    pub fn nothing() -> (p: Pagination)
        ensures
            p == (Pagination { page: 0, per_page: 0 }),
    {
        Pagination { page: 0, per_page: 0 }
    }

    /// How many articles to fetch.
    pub fn limit(&self) -> (n: usize)
        ensures
            n == self.per_page,
    {
        self.per_page
    }

    /// How many articles to pass over before the page begins.
    pub fn offset(&self) -> (r: Option<usize>)
        ensures
            r == self.spec_offset(),
    {
        if self.page == 0 {
            return None;
        }
        let r = (self.page - 1).checked_mul(self.per_page);
        r
    }
}

} // verus!
