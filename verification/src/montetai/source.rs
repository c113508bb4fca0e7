//! Monte Tai Scanlator: the pages a request reads, what a link of the site
//! opens, and how a series is updated from its page.

use crate::model::{Chapter, DeepLink, DeepLinkView, Manga, MangaStatus, deep_link_view, opt_view};
use crate::montetai::utils::{
    base_url, base_url_chars, chapter_key_from_url, chapter_key_of, is_chapter_link, is_chapter_url,
    is_manga_link, is_manga_url, manga_key_from_url, manga_key_of, normalize_text,
};
use crate::number::{decimal_i64, signed_decimal};
use crate::text::{append, chars_of, lit, normalize, string_of};
use crate::url::{percent_encode, percent_encoded};
use vstd::prelude::*;
use vstd::utf8::encode_utf8;

verus! {

/// The address of a page of the latest releases.
pub open spec fn home_page(page: int) -> Seq<char> {
    if page <= 1 {
        base_url()
    } else {
        base_url() + "/page/"@ + signed_decimal(page) + "/"@
    }
}

/// The address of a page of the latest releases.
pub fn home_url(page: i32) -> (r: String)
    ensures
        r@ == home_page(page as int),
{
    let mut out = base_url_chars();
    if page > 1 {
        append(&mut out, lit("/page/").as_slice());
        append(&mut out, decimal_i64(page as i64).as_slice());
        append(&mut out, lit("/").as_slice());
    }
    string_of(out.as_slice())
}

/// The address of a page of search results for a query (escaped).
pub open spec fn search_page(query: Seq<char>, page: int) -> Seq<char> {
    let q = percent_encoded(encode_utf8(query));
    if page <= 1 {
        base_url() + "/?s="@ + q + "&post_type=wp-manga"@
    } else {
        base_url() + "/page/"@ + signed_decimal(page) + "/?s="@ + q + "&post_type=wp-manga"@
    }
}

/// The address of a page of search results.
pub fn search_url(query: &str, page: i32) -> (r: String)
    ensures
        r@ == search_page(query@, page as int),
{
    let encoded = percent_encode(query);
    let mut out = base_url_chars();
    if page > 1 {
        append(&mut out, lit("/page/").as_slice());
        append(&mut out, decimal_i64(page as i64).as_slice());
    }
    append(&mut out, lit("/?s=").as_slice());
    append(&mut out, chars_of(encoded.as_str()).as_slice());
    append(&mut out, lit("&post_type=wp-manga").as_slice());
    string_of(out.as_slice())
}

/// The page a search screen reads: the search results for a query that is
/// not blank (normalized), else the latest releases, on the page (at least
/// the first) asked for; and whether it is a search.
pub open spec fn search_request(query: Option<Seq<char>>, page: int) -> (Seq<char>, bool) {
    let p = if page < 1 {
        1
    } else {
        page
    };
    match query {
        Some(q) => if normalize(q).len() > 0 {
            (search_page(normalize(q), p), true)
        } else {
            (home_page(p), false)
        },
        None => (home_page(p), false),
    }
}

/// The page a search screen reads, and whether it is a search.
pub fn search_request_url(query: Option<&str>, page: i32) -> (r: (String, bool))
    ensures
        (r.0@, r.1) == search_request(match query {
            Some(q) => Some(q@),
            None => None,
        }, page as int),
{
    let p: i32 = if page < 1 {
        1
    } else {
        page
    };
    match query {
        Some(q) => {
            let n = normalize_text(q);
            if !n.as_str().is_empty() {
                (search_url(n.as_str(), p), true)
            } else {
                (home_url(p), false)
            }
        },
        None => (home_url(p), false),
    }
}

/// What a link of the site opens: a chapter when it is a chapter link with a
/// chapter key, else its series, for series and chapter links with a series key.
pub open spec fn deep_link_of(url: Seq<char>) -> Option<DeepLinkView> {
    if !is_manga_link(url) && !is_chapter_link(url) {
        None
    } else {
        match manga_key_of(url) {
            None => None,
            Some(mk) => if is_chapter_link(url) && chapter_key_of(url) is Some {
                Some(DeepLinkView::Chapter { manga_key: mk, key: chapter_key_of(url)->0 })
            } else {
                Some(DeepLinkView::Manga { key: mk })
            },
        }
    }
}

/// What a link of the site opens.
pub fn deep_link_result(url: &str) -> (r: Option<DeepLink>)
    ensures
        deep_link_view(r) == deep_link_of(url@),
{
    if !is_manga_url(url) && !is_chapter_url(url) {
        return None;
    }
    let manga_key = match manga_key_from_url(url) {
        Some(k) => k,
        None => {
            return None;
        },
    };
    if is_chapter_url(url) {
        match chapter_key_from_url(url) {
            Some(key) => {
                return Some(DeepLink::Chapter { manga_key, key });
            },
            None => {},
        }
    }
    Some(DeepLink::Manga { key: manga_key })
}

/// The details read from a series page.
#[derive(Clone, Debug)]
pub struct PageDetails {
    pub title: Option<String>,
    pub cover: Option<String>,
    pub description: Option<String>,
    pub tags: Vec<String>,
    pub authors: Vec<String>,
    pub artists: Vec<String>,
    pub status: MangaStatus,
}

/// Updates a series from its page `page_url`: a series without a key takes
/// the page's key; the page becomes its address; with details, each detail
/// found replaces the series' own (lists only when not empty) and the status
/// is set; a non-empty chapter list replaces the series' chapters.
pub fn apply_manga_update(manga: &mut Manga, page_url: String, details: Option<PageDetails>, chapters: Vec<Chapter>)
    ensures
        final(manga).key@ == (if old(manga).key@.len() == 0 && manga_key_of(page_url@) is Some {
            manga_key_of(page_url@)->0
        } else {
            old(manga).key@
        }),
        final(manga).url == Some(page_url),
        match details {
            Some(d) => {
                &&& final(manga).title == (match d.title {
                    Some(t) => t,
                    None => old(manga).title,
                })
                &&& final(manga).cover == (if d.cover is Some {
                    d.cover
                } else {
                    old(manga).cover
                })
                &&& final(manga).description == (if d.description is Some {
                    d.description
                } else {
                    old(manga).description
                })
                &&& final(manga).tags == (if d.tags@.len() > 0 {
                    Some(d.tags)
                } else {
                    old(manga).tags
                })
                &&& final(manga).authors == (if d.authors@.len() > 0 {
                    Some(d.authors)
                } else {
                    old(manga).authors
                })
                &&& final(manga).artists == (if d.artists@.len() > 0 {
                    Some(d.artists)
                } else {
                    old(manga).artists
                })
                &&& final(manga).status == d.status
            },
            None => {
                &&& final(manga).title == old(manga).title
                &&& final(manga).cover == old(manga).cover
                &&& final(manga).description == old(manga).description
                &&& final(manga).tags == old(manga).tags
                &&& final(manga).authors == old(manga).authors
                &&& final(manga).artists == old(manga).artists
                &&& final(manga).status == old(manga).status
            },
        },
        final(manga).chapters == (if chapters@.len() > 0 {
            Some(chapters)
        } else {
            old(manga).chapters
        }),
        final(manga).viewer == old(manga).viewer,
        final(manga).content_rating == old(manga).content_rating,
{
    if manga.key.as_str().is_empty() {
        match manga_key_from_url(page_url.as_str()) {
            Some(k) => {
                manga.key = k;
            },
            None => {},
        }
    }
    manga.url = Some(page_url);
    match details {
        Some(d) => {
            match d.title {
                Some(t) => {
                    manga.title = t;
                },
                None => {},
            }
            if d.cover.is_some() {
                manga.cover = d.cover;
            }
            if d.description.is_some() {
                manga.description = d.description;
            }
            if d.tags.len() > 0 {
                manga.tags = Some(d.tags);
            }
            if d.authors.len() > 0 {
                manga.authors = Some(d.authors);
            }
            if d.artists.len() > 0 {
                manga.artists = Some(d.artists);
            }
            manga.status = d.status;
        },
        None => {},
    }
    if chapters.len() > 0 {
        manga.chapters = Some(chapters);
    }
}

} // verus!
