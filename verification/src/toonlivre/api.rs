//! ToonLivre: the API's records, its addresses, its session value and its
//! error messages.

use crate::number::{decimal_i64, decimal_u64, hex_lower, hex_lower_u64, signed_decimal};
use crate::text::{append, chars_of, lit, string_of, trim, trim_matches, trim_matches_chars, trim_str};
use crate::url::{percent_encode, percent_encoded};
use serde_json::Value;
use vstd::prelude::*;

verus! {

/// A chapter as the API lists it.
#[derive(Clone, Debug)]
pub struct ApiChapter {
    pub id: String,
    pub number: String,
    pub title: String,
    pub release_date: String,
    pub timestamp: i64,
    pub page_count: Option<i64>,
}

/// A series card of a listing.
#[derive(Clone, Debug)]
pub struct ApiMangaCard {
    pub id: String,
    pub title: String,
    pub cover_url: Option<String>,
    pub slug: Option<String>,
    pub alternative_title: Option<String>,
    pub recent_chapters: Vec<ApiChapter>,
    pub registered_users_only: bool,
}

/// Where a listing is.
#[derive(Clone, Debug)]
pub struct ApiPagination {
    pub current_page: i64,
    pub has_next_page: bool,
}

/// A page of a listing.
#[derive(Clone, Debug)]
pub struct ApiListResponse {
    pub mangas: Vec<ApiMangaCard>,
    pub pagination: ApiPagination,
}

/// A series looked up by its identifier.
#[derive(Clone, Debug)]
pub struct ApiMangaById {
    pub id: String,
    pub slug: String,
    pub title: String,
    pub cover_url: Option<String>,
    pub authors: Vec<String>,
    pub artists: Vec<String>,
    pub genres: Vec<String>,
    pub description: Option<String>,
    pub status: Option<String>,
    pub alternative_title: Option<String>,
    pub recent_chapters: Vec<ApiChapter>,
    pub registered_users_only: bool,
}

/// A series with its full chapter list, from the reader endpoint.
#[derive(Clone, Debug)]
pub struct ApiReaderManga {
    pub id: String,
    pub title: String,
    pub slug: Option<String>,
    pub cover_url: Option<String>,
    pub authors: Vec<String>,
    pub artists: Vec<String>,
    pub genres: Vec<String>,
    pub description: Option<String>,
    pub status: Option<String>,
    pub alternative_title: Option<String>,
    pub chapters: Vec<ApiChapter>,
    pub registered_users_only: bool,
}

/// A series looked up by its slug, with its chapters.
#[derive(Clone, Debug)]
pub struct ApiMangaBySlug {
    pub id: String,
    pub slug: Option<String>,
    pub title: String,
    pub cover_url: Option<String>,
    pub authors: Vec<String>,
    pub artists: Vec<String>,
    pub genres: Vec<String>,
    pub description: Option<String>,
    pub status: Option<String>,
    pub alternative_title: Option<String>,
    pub chapters: Vec<ApiChapter>,
    pub registered_users_only: bool,
}

/// A chapter with its page images.
#[derive(Clone, Debug)]
pub struct ApiChapterDetails {
    pub id: String,
    pub pages: Vec<String>,
    pub title: String,
    pub number: String,
    pub manga_id: String,
    pub timestamp: i64,
    pub release_date: String,
}

/// The API's address.
pub open spec fn api_base() -> Seq<char> {
    "https://toonlivre.net/api"@
}

/// The listing of recent releases.
pub open spec fn releases_url_spec(page: int, limit: int) -> Seq<char> {
    api_base() + "/mangas/releases?page="@ + signed_decimal(page) + "&limit="@ + signed_decimal(limit)
}

/// The address of the listing of recent releases.
pub fn releases_url(page: i32, limit: i32) -> (r: String)
    ensures
        r@ == releases_url_spec(page as int, limit as int),
{
    let mut out = lit("https://toonlivre.net/api");
    append(&mut out, lit("/mangas/releases?page=").as_slice());
    append(&mut out, decimal_i64(page as i64).as_slice());
    append(&mut out, lit("&limit=").as_slice());
    append(&mut out, decimal_i64(limit as i64).as_slice());
    string_of(out.as_slice())
}

/// The search listing for a query (trimmed and escaped), sorted by update.
pub open spec fn search_url_spec(query: Seq<char>, page: int, limit: int) -> Seq<char> {
    api_base() + "/mangas/search?q="@ + percent_encoded(vstd::utf8::encode_utf8(trim(query)))
        + "&page="@ + signed_decimal(page) + "&limit="@ + signed_decimal(limit)
        + "&sortBy=updated&sortOrder=desc"@
}

/// The address of the search listing for a query.
pub fn search_url(query: &str, page: i32, limit: i32) -> (r: String)
    ensures
        r@ == search_url_spec(query@, page as int, limit as int),
{
    let q = string_of(trim_str(query).as_slice());
    let encoded = percent_encode(q.as_str());
    let mut out = lit("https://toonlivre.net/api");
    append(&mut out, lit("/mangas/search?q=").as_slice());
    append(&mut out, chars_of(encoded.as_str()).as_slice());
    append(&mut out, lit("&page=").as_slice());
    append(&mut out, decimal_i64(page as i64).as_slice());
    append(&mut out, lit("&limit=").as_slice());
    append(&mut out, decimal_i64(limit as i64).as_slice());
    append(&mut out, lit("&sortBy=updated&sortOrder=desc").as_slice());
    string_of(out.as_slice())
}

/// The lookup of a series by identifier.
pub open spec fn manga_by_id_url_spec(id: Seq<char>) -> Seq<char> {
    api_base() + "/mangas/"@ + percent_encoded(vstd::utf8::encode_utf8(id))
}

/// The address of the lookup of a series by identifier.
pub fn manga_by_id_url(id: &str) -> (r: String)
    ensures
        r@ == manga_by_id_url_spec(id@),
{
    let mut out = lit("https://toonlivre.net/api");
    append(&mut out, lit("/mangas/").as_slice());
    append(&mut out, chars_of(percent_encode(id).as_str()).as_slice());
    string_of(out.as_slice())
}

/// The address of a series' reader data (all its chapters).
pub fn manga_reader_url(id: &str) -> (r: String)
    ensures
        r@ == manga_by_id_url_spec(id@) + "/reader"@,
{
    let base = manga_by_id_url(id);
    let mut out = chars_of(base.as_str());
    append(&mut out, lit("/reader").as_slice());
    string_of(out.as_slice())
}

/// The lookup of a series by slug.
pub open spec fn manga_by_slug_url_spec(slug: Seq<char>) -> Seq<char> {
    api_base() + "/manga-by-slug/"@ + percent_encoded(vstd::utf8::encode_utf8(trim_matches(slug, '/')))
}

/// The address of the lookup of a series by slug.
pub fn manga_by_slug_url(slug: &str) -> (r: String)
    ensures
        r@ == manga_by_slug_url_spec(slug@),
{
    let s = string_of(trim_matches_chars(chars_of(slug).as_slice(), '/').as_slice());
    let mut out = lit("https://toonlivre.net/api");
    append(&mut out, lit("/manga-by-slug/").as_slice());
    append(&mut out, chars_of(percent_encode(s.as_str()).as_str()).as_slice());
    string_of(out.as_slice())
}

/// The address that hands out the short-lived signature.
pub fn seed_url() -> (r: String)
    ensures
        r@ == api_base() + "/seed"@,
{
    let mut out = lit("https://toonlivre.net/api");
    append(&mut out, lit("/seed").as_slice());
    string_of(out.as_slice())
}

/// `x.rotate_left(13)` on 64 bits.
pub open spec fn rotate_left_13(x: u64) -> u64 {
    (x << 13u64) | (x >> 51u64)
}

/// The session value for the time `now`: the time and a mix of it, in hexadecimal.
pub open spec fn session_text(now: int) -> Seq<char> {
    let n = now as u64;
    let mixed = rotate_left_13(n) ^ n.wrapping_mul(0x9E37_79B9_7F4A_7C15u64);
    hex_lower(n as nat) + hex_lower(mixed as nat)
}

/// The session value for the time `now`.
pub fn generate_session(now: i64) -> (r: String)
    ensures
        r@ == session_text(now as int),
{
    let n = now as u64;
    let mixed = ((n << 13u64) | (n >> 51u64)) ^ n.wrapping_mul(0x9E37_79B9_7F4A_7C15);
    let mut out = hex_lower_u64(n);
    append(&mut out, hex_lower_u64(mixed).as_slice());
    string_of(out.as_slice())
}

/// The cookie that carries the session value.
pub fn session_cookie_header(session: &str) -> (r: String)
    ensures
        r@ == "toon_v="@ + session@,
{
    let mut out = lit("toon_v=");
    append(&mut out, chars_of(session).as_slice());
    string_of(out.as_slice())
}

/// A status in `200..300`.
pub fn is_success_status(status: i32) -> (r: bool)
    ensures
        r == (200 <= status < 300),
{
    200 <= status && status < 300
}

/// The string member `key` of the JSON object in `body`, per `serde_json`.
pub uninterp spec fn json_string_member(body: Seq<char>, key: Seq<char>) -> Option<Seq<char>>;

/// Parses `body` with `serde_json` as a `Value` and reads the string member
/// `key` of it; the result is named by `json_string_member`.
#[verifier::external_body]
pub(crate) fn json_string_field(body: &str, key: &str) -> (r: Option<String>)
    ensures
        crate::model::opt_view(r) == json_string_member(body@, key@),
{
    serde_json::from_str::<Value>(body).ok()?.get(key)?.as_str().map(String::from)
}

/// The message of a failed request: the `error` member of a JSON body, else the trimmed body.
pub open spec fn response_error_text(url: Seq<char>, status: int, body: Seq<char>) -> Seq<char> {
    let message = match json_string_member(body, "error"@) {
        Some(m) => m,
        None => trim(body),
    };
    "Request failed.\nURL: "@ + url + "\nStatus: "@ + signed_decimal(status) + "\nError: "@ + message
}

/// The message of a failed request.
pub fn response_error(url: &str, status: i32, body: &str) -> (r: String)
    ensures
        r@ == response_error_text(url@, status as int, body@),
{
    let message: Vec<char> = match json_string_field(body, "error") {
        Some(m) => chars_of(m.as_str()),
        None => trim_str(body),
    };
    let mut out = lit("Request failed.\nURL: ");
    append(&mut out, chars_of(url).as_slice());
    append(&mut out, lit("\nStatus: ").as_slice());
    append(&mut out, decimal_i64(status as i64).as_slice());
    append(&mut out, lit("\nError: ").as_slice());
    append(&mut out, message.as_slice());
    string_of(out.as_slice())
}

} // verus!
