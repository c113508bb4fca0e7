//! NexusToons: the keys under which the web view leaves its captures, the checks
//! made on a capture, and the address a chapter is read from.

use crate::model::{Chapter, Manga, opt_view};
use crate::nexustoons::manga::WebViewMangaDetails;
use crate::nexustoons::utils::{
    chapter_key_or_id, chapter_key_or_id_of, chapter_url_from_slug_and_id, chapter_url_spec,
    manga_slug_from_manga, manga_slug_of,
};
use crate::text::{append, chars_of, lit, string_of, trim, trim_chars, trim_matches, trim_matches_chars, trim_str};
use vstd::prelude::*;

verus! {

/// A slug or identifier as it goes into a storage key: trimmed, then without
/// leading or trailing slashes.
pub open spec fn key_part(s: Seq<char>) -> Seq<char> {
    trim_matches(trim(s), '/')
}

fn key_part_exec(s: &str) -> (r: Vec<char>)
    ensures
        r@ == key_part(s@),
{
    let t = trim_str(s);
    trim_matches_chars(t.as_slice(), '/')
}

/// The storage key of a series capture.
pub open spec fn manga_storage_key(slug: Seq<char>) -> Seq<char> {
    "nexustoons_manga_cache_v1:"@ + key_part(slug)
}

/// The storage key of a series capture.
pub fn webview_manga_storage_key(slug: &str) -> (r: String)
    ensures
        r@ == manga_storage_key(slug@),
{
    let mut out = lit("nexustoons_manga_cache_v1:");
    append(&mut out, key_part_exec(slug).as_slice());
    string_of(out.as_slice())
}

/// The storage key of a chapter's page capture.
pub open spec fn chapter_storage_key(slug: Seq<char>, chapter_id: Seq<char>) -> Seq<char> {
    "nexustoons_chapter_pages_cache_v1:"@ + key_part(slug) + seq![':'] + key_part(chapter_id)
}

/// The storage key of a chapter's page capture.
pub fn webview_chapter_storage_key(slug: &str, chapter_id: &str) -> (r: String)
    ensures
        r@ == chapter_storage_key(slug@, chapter_id@),
{
    let mut out = lit("nexustoons_chapter_pages_cache_v1:");
    append(&mut out, key_part_exec(slug).as_slice());
    out.push(':');
    append(&mut out, key_part_exec(chapter_id).as_slice());
    string_of(out.as_slice())
}

/// A series capture is usable when its title is not blank.
pub fn parse_webview_manga_cache(details: WebViewMangaDetails, storage_key: &str) -> (r: Result<WebViewMangaDetails, String>)
    ensures
        trim(details.title@).len() > 0 ==> r == Ok::<WebViewMangaDetails, String>(details),
        trim(details.title@).len() == 0 ==> (r matches Err(e) && e@
            == "WebView manga cache does not contain title.\nKey: "@ + storage_key@),
{
    if trim_str(details.title.as_str()).len() == 0 {
        let mut msg = lit("WebView manga cache does not contain title.\nKey: ");
        append(&mut msg, chars_of(storage_key).as_slice());
        return Err(string_of(msg.as_slice()));
    }
    Ok(details)
}

/// A chapter's page capture is usable when it lists pages.
pub fn parse_webview_chapter_pages_cache(pages: Vec<String>, storage_key: &str) -> (r: Result<Vec<String>, String>)
    ensures
        pages@.len() > 0 ==> r == Ok::<Vec<String>, String>(pages),
        pages@.len() == 0 ==> (r matches Err(e) && e@
            == "WebView chapter pages cache is empty.\nKey: "@ + storage_key@),
{
    if pages.len() == 0 {
        let mut msg = lit("WebView chapter pages cache is empty.\nKey: ");
        append(&mut msg, chars_of(storage_key).as_slice());
        return Err(string_of(msg.as_slice()));
    }
    Ok(pages)
}

/// Where the pages of a chapter are read: the series slug (else the key
/// without slashes), the chapter identifier (else empty), and the chapter's
/// own address, else the one built from slug and identifier when both are
/// known.
pub open spec fn page_list_target(m: Manga, c: Chapter) -> Result<(Seq<char>, Seq<char>, Seq<char>), Seq<char>> {
    let slug = match manga_slug_of(m.key@, opt_view(m.url)) {
        Some(s) => s,
        None => trim_matches(m.key@, '/'),
    };
    let id = match chapter_key_or_id_of(c.key@, opt_view(c.url)) {
        Some(i) => i,
        None => Seq::<char>::empty(),
    };
    match c.url {
        Some(u) => Ok((slug, id, u@)),
        None => if slug.len() == 0 || id.len() == 0 {
            Err("Unable to resolve chapter URL for page list"@)
        } else {
            Ok((slug, id, chapter_url_spec(slug, id)))
        },
    }
}

/// The slug, chapter identifier and address from which a chapter's pages are read.
pub fn resolve_page_list_target(manga: &Manga, chapter: &Chapter) -> (r: Result<(String, String, String), String>)
    ensures
        match r {
            Ok((s, i, u)) => page_list_target(*manga, *chapter) == Ok::<(Seq<char>, Seq<char>, Seq<char>), Seq<char>>((s@, i@, u@)),
            Err(e) => page_list_target(*manga, *chapter) == Err::<(Seq<char>, Seq<char>, Seq<char>), Seq<char>>(e@),
        },
{
    let slug = match manga_slug_from_manga(manga) {
        Some(s) => s,
        None => string_of(trim_matches_chars(chars_of(manga.key.as_str()).as_slice(), '/').as_slice()),
    };
    let id = match chapter_key_or_id(chapter) {
        Some(i) => i,
        None => String::new(),
    };
    match &chapter.url {
        Some(u) => Ok((slug, id, u.clone())),
        None => {
            if slug.as_str().is_empty() || id.as_str().is_empty() {
                Err(string_of(lit("Unable to resolve chapter URL for page list").as_slice()))
            } else {
                let url = chapter_url_from_slug_and_id(slug.as_str(), id.as_str());
                Ok((slug, id, url))
            }
        },
    }
}

} // verus!
