//! What the sources share around a listing or a reader: which listing a
//! search asks for, the pages handed to the reader, and the referer of an
//! image request.

use crate::model::{Link, Manga, MangaWithChapter};
use crate::text::{append, chars_of, lit, string_of, trim, trim_str};
use vstd::prelude::*;

verus! {

/// Number of entries in each section of a home screen.
pub const HOME_PAGE_SIZE: usize = 12;

/// The listing a search screen asks for.
#[derive(Clone, Debug)]
pub enum ListRequest {
    /// A search for `query` (trimmed, not empty).
    Search { query: String, page: i32 },
    /// The latest releases.
    Releases { page: i32 },
}

/// Pages are counted from 1; a lower page number asks for the first page.
pub open spec fn normalized_page(page: int) -> int {
    if page < 1 {
        1
    } else {
        page
    }
}

/// The query of a search, when it is not blank: trimmed.
pub open spec fn search_query(query: Option<Seq<char>>) -> Option<Seq<char>> {
    match query {
        Some(q) => if trim(q).len() > 0 {
            Some(trim(q))
        } else {
            None
        },
        None => None,
    }
}

/// A non-blank query asks for a search, anything else for the latest releases,
/// in both cases on the normalized page.
pub fn list_request(query: Option<&str>, page: i32) -> (r: ListRequest)
    ensures
        match r {
            ListRequest::Search { query: q, page: p } => search_query(match query {
                Some(s) => Some(s@),
                None => None,
            }) == Some(q@) && p == normalized_page(page as int),
            ListRequest::Releases { page: p } => search_query(match query {
                Some(s) => Some(s@),
                None => None,
            }) is None && p == normalized_page(page as int),
        },
{
    let p: i32 = if page < 1 {
        1
    } else {
        page
    };
    match query {
        Some(s) => {
            let t = trim_str(s);
            if t.len() > 0 {
                ListRequest::Search { query: string_of(t.as_slice()), page: p }
            } else {
                ListRequest::Releases { page: p }
            }
        },
        None => ListRequest::Releases { page: p },
    }
}

/// One page handed to the reader: the image address and the page it is loaded from.
#[derive(Clone, Debug)]
pub struct PageRef {
    pub url: String,
    pub referer: String,
}

/// The pages of a chapter, each with the chapter's address as referer; a
/// chapter without pages is the error `missing`.
pub fn page_refs(pages: Vec<String>, referer: &str, missing: &str) -> (r: Result<Vec<PageRef>, String>)
    ensures
        pages@.len() == 0 ==> (r matches Err(e) && e@ == missing@),
        pages@.len() > 0 ==> (r matches Ok(v) && v@.len() == pages@.len() && forall|i: int|
            0 <= i < v@.len() ==> (#[trigger] v@[i]).url == pages@[i] && v@[i].referer@ == referer@),
{
    if pages.len() == 0 {
        return Err(string_of(chars_of(missing).as_slice()));
    }
    let mut out: Vec<PageRef> = Vec::new();
    let mut i: usize = 0;
    while i < pages.len()
        invariant
            i <= pages@.len(),
            out@.len() == i,
            forall|j: int| 0 <= j < i ==> (#[trigger] out@[j]).url == pages@[j] && out@[j].referer@ == referer@,
        decreases pages@.len() - i,
    {
        let url = pages[i].clone();
        out.push(PageRef { url, referer: string_of(chars_of(referer).as_slice()) });
        i += 1;
    }
    Ok(out)
}

/// The referer of an image request: the one the page was handed with, else the
/// source's own address.
pub fn image_referer(page_referer: Option<&str>, fallback: &str) -> (r: String)
    ensures
        r@ == match page_referer {
            Some(s) => s@,
            None => fallback@,
        },
{
    match page_referer {
        Some(s) => string_of(chars_of(s).as_slice()),
        None => string_of(chars_of(fallback).as_slice()),
    }
}

/// The three sections of a home screen: the newest series, series with their
/// latest chapter, and tiles for the newest series.
#[derive(Clone, Debug)]
pub struct HomeSections {
    pub releases: Vec<Manga>,
    pub recent: Vec<MangaWithChapter>,
    pub more: Vec<Link>,
}

} // verus!
