//! NexusToons: the listing API's records and addresses.

use crate::number::{decimal_i64, signed_decimal};
use crate::text::{append, chars_of, lit, string_of, trim, trim_str};
use crate::url::{percent_encode, percent_encoded};
use vstd::prelude::*;

verus! {

/// A chapter as the API lists it.
#[derive(Clone, Debug)]
pub struct ApiChapter {
    pub id: i64,
    pub number: String,
    pub title: Option<String>,
    pub timestamp: Option<String>,
    pub page_count: Option<i64>,
    pub release_status: Option<String>,
    pub manga_id: Option<i64>,
}

/// A series card of a listing.
#[derive(Clone, Debug)]
pub struct ApiMangaCard {
    pub id: i64,
    pub title: String,
    pub slug: Option<String>,
    pub cover_url: Option<String>,
    pub alternative_title: Option<String>,
    pub recent_chapters: Option<Vec<ApiChapter>>,
    pub authors: Option<Vec<String>>,
    pub artists: Option<Vec<String>>,
    pub genres: Option<Vec<String>>,
    pub status: Option<String>,
}

/// A page of a listing.
#[derive(Clone, Debug)]
pub struct ApiListResponse {
    pub data: Vec<ApiMangaCard>,
    pub page: i32,
    pub pages: i32,
    pub total: i32,
}

/// The API's address.
pub open spec fn api_base() -> Seq<char> {
    "https://nexustoons.com/api"@
}

/// The listing of recent releases.
pub open spec fn releases_url_spec(page: int, limit: int) -> Seq<char> {
    api_base() + "/mangas?page="@ + signed_decimal(page) + "&limit="@ + signed_decimal(limit)
}

/// The address of the listing of recent releases.
pub fn releases_url(page: i32, limit: i32) -> (r: String)
    ensures
        r@ == releases_url_spec(page as int, limit as int),
{
    let mut out = lit("https://nexustoons.com/api");
    append(&mut out, lit("/mangas?page=").as_slice());
    append(&mut out, decimal_i64(page as i64).as_slice());
    append(&mut out, lit("&limit=").as_slice());
    append(&mut out, decimal_i64(limit as i64).as_slice());
    string_of(out.as_slice())
}

/// The search listing for a query (trimmed and escaped).
pub open spec fn search_url_spec(query: Seq<char>, page: int, limit: int) -> Seq<char> {
    api_base() + "/mangas?search="@ + percent_encoded(vstd::utf8::encode_utf8(trim(query)))
        + "&page="@ + signed_decimal(page) + "&limit="@ + signed_decimal(limit)
}

/// The address of the search listing for a query.
pub fn search_url(query: &str, page: i32, limit: i32) -> (r: String)
    ensures
        r@ == search_url_spec(query@, page as int, limit as int),
{
    let q = string_of(trim_str(query).as_slice());
    let encoded = percent_encode(q.as_str());
    let mut out = lit("https://nexustoons.com/api");
    append(&mut out, lit("/mangas?search=").as_slice());
    append(&mut out, chars_of(encoded.as_str()).as_slice());
    append(&mut out, lit("&page=").as_slice());
    append(&mut out, decimal_i64(page as i64).as_slice());
    append(&mut out, lit("&limit=").as_slice());
    append(&mut out, decimal_i64(limit as i64).as_slice());
    string_of(out.as_slice())
}

} // verus!
