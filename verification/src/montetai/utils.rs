//! Monte Tai Scanlator: the site's addresses, how a link is cleaned and made
//! absolute, and what a link, a title or an image looks like on the site.

use crate::model::{Chapter, Manga, MangaStatus, opt_view};
use crate::text::{
    chars_eq, occurs_at, is_ws,
    append, before_char, before_char_exec, chars_of, contains, contains_exec, ends_with,
    ends_with_exec, find, find_exec, lemma_find_some, lit, lowercase, lowercase_chars, normalize,
    normalize_chars, replace_all, replace_all_exec, slice_range, starts_with, starts_with_exec,
    string_of, trim, trim_chars, trim_end_matches, trim_end_matches_chars, trim_matches,
    trim_matches_chars, trim_start_matches, trim_start_matches_chars,
};
use vstd::prelude::*;

verus! {

/// The site's address.
pub open spec fn base_url() -> Seq<char> {
    "https://montetaiscanlator.xyz"@
}

/// The site's address.
pub fn base_url_chars() -> (r: Vec<char>)
    ensures
        r@ == base_url(),
{
    lit("https://montetaiscanlator.xyz")
}

/// The words of a text joined by single spaces.
pub fn normalize_text(value: &str) -> (r: String)
    ensures
        r@ == normalize(value@),
{
    string_of(normalize_chars(chars_of(value).as_slice()).as_slice())
}

/// A link with its whitespace normalized and the HTML escapes of `&` undone.
pub open spec fn sanitized(url: Seq<char>) -> Seq<char> {
    replace_all(
        replace_all(replace_all(normalize(url), "&amp;"@, "&"@), "&#038;"@, "&"@),
        "#038;"@,
        "&"@,
    )
}

/// A link with its whitespace normalized and the HTML escapes of `&` undone.
pub fn sanitize_chars(url: &[char]) -> (r: Vec<char>)
    ensures
        r@ == sanitized(url@),
{
    let amp = lit("&");
    let n = normalize_chars(url);
    proof {
        reveal_strlit("&amp;");
        reveal_strlit("&#038;");
        reveal_strlit("#038;");
    }
    let e1 = lit("&amp;");
    let a = replace_all_exec(n.as_slice(), e1.as_slice(), amp.as_slice());
    let e2 = lit("&#038;");
    let b = replace_all_exec(a.as_slice(), e2.as_slice(), amp.as_slice());
    let e3 = lit("#038;");
    replace_all_exec(b.as_slice(), e3.as_slice(), amp.as_slice())
}

/// A link with its whitespace normalized and the HTML escapes of `&` undone.
pub fn sanitize_url(url: &str) -> (r: String)
    ensures
        r@ == sanitized(url@),
{
    string_of(sanitize_chars(chars_of(url).as_slice()).as_slice())
}

/// A cleaned link made absolute: kept when it has a scheme, given `https:`
/// when it starts with `//`, else put under the site's address.
pub open spec fn absolute(url: Seq<char>) -> Seq<char> {
    let c = sanitized(url);
    if starts_with(c, "http://"@) || starts_with(c, "https://"@) {
        c
    } else if starts_with(c, "//"@) {
        "https:"@ + c
    } else if starts_with(c, "/"@) {
        base_url() + c
    } else {
        base_url() + "/"@ + trim_start_matches(c, '/')
    }
}

/// A cleaned link made absolute.
pub fn absolute_chars(url: &[char]) -> (r: Vec<char>)
    ensures
        r@ == absolute(url@),
{
    let c = sanitize_chars(url);
    if starts_with_exec(c.as_slice(), lit("http://").as_slice()) || starts_with_exec(
        c.as_slice(),
        lit("https://").as_slice(),
    ) {
        c
    } else if starts_with_exec(c.as_slice(), lit("//").as_slice()) {
        let mut out = lit("https:");
        append(&mut out, c.as_slice());
        out
    } else if starts_with_exec(c.as_slice(), lit("/").as_slice()) {
        let mut out = base_url_chars();
        append(&mut out, c.as_slice());
        out
    } else {
        let mut out = base_url_chars();
        append(&mut out, lit("/").as_slice());
        append(&mut out, trim_start_matches_chars(c.as_slice(), '/').as_slice());
        out
    }
}

/// A cleaned link made absolute.
pub fn absolute_url(url: &str) -> (r: String)
    ensures
        r@ == absolute(url@),
{
    string_of(absolute_chars(chars_of(url).as_slice()).as_slice())
}

/// A link to a series page: under `/manga/`, not a chapter, not the index.
pub open spec fn is_manga_link(url: Seq<char>) -> bool {
    let c = sanitized(url);
    contains(c, "/manga/"@) && !contains(c, "/capitulo-"@) && !ends_with(c, "/manga/"@)
}

/// A link to a series page.
pub fn is_manga_url(url: &str) -> (b: bool)
    ensures
        b == is_manga_link(url@),
{
    let c = sanitize_chars(chars_of(url).as_slice());
    contains_exec(c.as_slice(), lit("/manga/").as_slice()) && !contains_exec(
        c.as_slice(),
        lit("/capitulo-").as_slice(),
    ) && !ends_with_exec(c.as_slice(), lit("/manga/").as_slice())
}

/// A link to a chapter page: under `/manga/` and with `/capitulo-`.
pub open spec fn is_chapter_link(url: Seq<char>) -> bool {
    let c = sanitized(url);
    contains(c, "/manga/"@) && contains(c, "/capitulo-"@)
}

/// A link to a chapter page.
pub fn is_chapter_url(url: &str) -> (b: bool)
    ensures
        b == is_chapter_link(url@),
{
    let c = sanitize_chars(chars_of(url).as_slice());
    contains_exec(c.as_slice(), lit("/manga/").as_slice()) && contains_exec(
        c.as_slice(),
        lit("/capitulo-").as_slice(),
    )
}

/// The series key of a link: the trimmed path segment after `/manga/`, when not empty.
pub open spec fn manga_key_of(url: Seq<char>) -> Option<Seq<char>> {
    let c = sanitized(url);
    match find(c, "/manga/"@) {
        None => None,
        Some(k) => {
            let slug = trim(before_char(c.skip(k + 7), '/'));
            if slug.len() == 0 {
                None
            } else {
                Some(slug)
            }
        },
    }
}

/// The series key of a link.
pub fn manga_key_from_url(url: &str) -> (r: Option<String>)
    ensures
        opt_view(r) == manga_key_of(url@),
{
    let c = sanitize_chars(chars_of(url).as_slice());
    let marker = lit("/manga/");
    match find_exec(c.as_slice(), marker.as_slice()) {
        None => None,
        Some(k) => {
            proof {
                lemma_find_some(c@, "/manga/"@, 0);
                reveal_strlit("/manga/");
                assert(occurs_at(c@, "/manga/"@, k as int));
                assert(k + 7 <= c@.len());
            }
            let n = c.len();
            let rest = slice_range(c.as_slice(), k + 7, n);
            assert(rest@ == c@.skip(k + 7));
            let slug = trim_chars(before_char_exec(rest.as_slice(), '/').as_slice());
            if slug.len() == 0 {
                None
            } else {
                Some(string_of(slug.as_slice()))
            }
        },
    }
}

/// The chapter key of a link: its path from `manga/` on, without query and
/// trailing slashes, when it names a chapter.
pub open spec fn chapter_key_of(url: Seq<char>) -> Option<Seq<char>> {
    let c = sanitized(url);
    match find(c, "/manga/"@) {
        None => None,
        Some(k) => {
            let path = trim_end_matches(before_char(c.skip(k + 1), '?'), '/');
            if contains(path, "/capitulo-"@) {
                Some(path)
            } else {
                None
            }
        },
    }
}

/// The chapter key of a link.
pub fn chapter_key_from_url(url: &str) -> (r: Option<String>)
    ensures
        opt_view(r) == chapter_key_of(url@),
{
    let c = sanitize_chars(chars_of(url).as_slice());
    let marker = lit("/manga/");
    match find_exec(c.as_slice(), marker.as_slice()) {
        None => None,
        Some(k) => {
            proof {
                lemma_find_some(c@, "/manga/"@, 0);
                reveal_strlit("/manga/");
                assert(occurs_at(c@, "/manga/"@, k as int));
                assert(k + 7 <= c@.len());
            }
            let n = c.len();
            let rest = slice_range(c.as_slice(), k + 1, n);
            assert(rest@ == c@.skip(k + 1));
            let path = trim_end_matches_chars(before_char_exec(rest.as_slice(), '?').as_slice(), '/');
            if contains_exec(path.as_slice(), lit("/capitulo-").as_slice()) {
                Some(string_of(path.as_slice()))
            } else {
                None
            }
        },
    }
}

/// Whether a key or link is absolute or a path under `manga/`.
pub open spec fn is_site_path(key: Seq<char>) -> bool {
    starts_with(key, "http://"@) || starts_with(key, "https://"@) || starts_with(key, "manga/"@)
        || starts_with(key, "/manga/"@)
}

fn is_site_path_exec(key: &[char]) -> (b: bool)
    ensures
        b == is_site_path(key@),
{
    starts_with_exec(key, lit("http://").as_slice()) || starts_with_exec(key, lit("https://").as_slice())
        || starts_with_exec(key, lit("manga/").as_slice()) || starts_with_exec(key, lit("/manga/").as_slice())
}

/// The page of a series: its own link when that is a series or chapter link
/// (or lies under `/manga/`), else one made from its key, else the site.
pub open spec fn manga_page(m: Manga) -> Seq<char> {
    let from_url = match m.url {
        Some(u) => if is_manga_link(u@) || is_chapter_link(u@) || contains(u@, "/manga/"@) {
            Some(absolute(u@))
        } else {
            None
        },
        None => None,
    };
    match from_url {
        Some(u) => u,
        None => {
            let key = normalize(m.key@);
            if is_site_path(key) {
                absolute(key)
            } else if key.len() > 0 {
                base_url() + "/manga/"@ + trim_matches(key, '/') + "/"@
            } else {
                base_url()
            }
        },
    }
}

/// The page of a series.
pub fn manga_url(manga: &Manga) -> (r: String)
    ensures
        r@ == manga_page(*manga),
{
    match &manga.url {
        Some(u) => {
            if is_manga_url(u.as_str()) || is_chapter_url(u.as_str()) || contains_exec(
                chars_of(u.as_str()).as_slice(),
                lit("/manga/").as_slice(),
            ) {
                return absolute_url(u.as_str());
            }
        },
        None => {},
    }
    let key = normalize_chars(chars_of(manga.key.as_str()).as_slice());
    if is_site_path_exec(key.as_slice()) {
        return string_of(absolute_chars(key.as_slice()).as_slice());
    }
    if key.len() > 0 {
        let mut out = base_url_chars();
        append(&mut out, lit("/manga/").as_slice());
        append(&mut out, trim_matches_chars(key.as_slice(), '/').as_slice());
        append(&mut out, lit("/").as_slice());
        return string_of(out.as_slice());
    }
    string_of(base_url_chars().as_slice())
}

/// The page of a chapter: its own link when that is a chapter link (or holds
/// `/capitulo-`), else one made from its key under the series' page.
pub open spec fn chapter_page(m: Manga, c: Chapter) -> Seq<char> {
    let from_url = match c.url {
        Some(u) => if is_chapter_link(u@) || contains(u@, "/capitulo-"@) {
            Some(absolute(u@))
        } else {
            None
        },
        None => None,
    };
    match from_url {
        Some(u) => u,
        None => {
            let key = normalize(c.key@);
            if is_site_path(key) {
                absolute(key)
            } else if starts_with(key, "capitulo-"@) {
                trim_end_matches(manga_page(m), '/') + "/"@ + key + "/"@
            } else {
                trim_end_matches(manga_page(m), '/') + "/"@ + trim_matches(key, '/') + "/"@
            }
        },
    }
}

/// The page of a chapter.
pub fn chapter_url(manga: &Manga, chapter: &Chapter) -> (r: String)
    ensures
        r@ == chapter_page(*manga, *chapter),
{
    match &chapter.url {
        Some(u) => {
            if is_chapter_url(u.as_str()) || contains_exec(
                chars_of(u.as_str()).as_slice(),
                lit("/capitulo-").as_slice(),
            ) {
                return absolute_url(u.as_str());
            }
        },
        None => {},
    }
    let key = normalize_chars(chars_of(chapter.key.as_str()).as_slice());
    if is_site_path_exec(key.as_slice()) {
        return string_of(absolute_chars(key.as_slice()).as_slice());
    }
    let page = manga_url(manga);
    let mut out = trim_end_matches_chars(chars_of(page.as_str()).as_slice(), '/');
    append(&mut out, lit("/").as_slice());
    if starts_with_exec(key.as_slice(), lit("capitulo-").as_slice()) {
        append(&mut out, key.as_slice());
    } else {
        append(&mut out, trim_matches_chars(key.as_slice(), '/').as_slice());
    }
    append(&mut out, lit("/").as_slice());
    string_of(out.as_slice())
}

} // verus!

verus! {

/// Whether the lowercase text is one of the site's labels that are not titles.
pub open spec fn is_label(l: Seq<char>) -> bool {
    l == "manhwa"@ || l == "manhua"@ || l == "manga"@ || l == "novo"@ || l == "ler agora"@
        || l == "biblioteca"@ || l == "anterior"@ || l == "proximo"@ || l == "próximo"@
}

fn is_label_exec(l: &[char]) -> (b: bool)
    ensures
        b == is_label(l@),
{
    chars_eq(l, lit("manhwa").as_slice()) || chars_eq(l, lit("manhua").as_slice()) || chars_eq(
        l,
        lit("manga").as_slice(),
    ) || chars_eq(l, lit("novo").as_slice()) || chars_eq(l, lit("ler agora").as_slice())
        || chars_eq(l, lit("biblioteca").as_slice()) || chars_eq(l, lit("anterior").as_slice())
        || chars_eq(l, lit("proximo").as_slice()) || chars_eq(l, lit("próximo").as_slice())
}

/// A text that can be a series title: not blank, not a `#` tag, not one of the site's labels.
pub open spec fn series_title_like(text: Seq<char>) -> bool {
    let n = normalize(text);
    n.len() > 0 && !starts_with(lowercase(n), "#"@) && !is_label(lowercase(n))
}

/// Whether a text can be a series title.
pub fn looks_like_series_title(text: &str) -> (b: bool)
    ensures
        b == series_title_like(text@),
{
    let n = normalize_chars(chars_of(text).as_slice());
    if n.len() == 0 {
        return false;
    }
    let l = lowercase_chars(n.as_slice());
    if starts_with_exec(l.as_slice(), lit("#").as_slice()) {
        return false;
    }
    !is_label_exec(l.as_slice())
}

/// Whether a link, without query and fragment, ends in an image extension.
pub open spec fn image_extension(url: Seq<char>) -> bool {
    let nf = before_char(before_char(url, '?'), '#');
    ends_with(nf, ".jpg"@) || ends_with(nf, ".jpeg"@) || ends_with(nf, ".png"@) || ends_with(nf, ".webp"@)
        || ends_with(nf, ".gif"@) || ends_with(nf, ".avif"@)
}

/// Whether a link ends in an image extension.
pub fn has_image_extension(url: &str) -> (b: bool)
    ensures
        b == image_extension(url@),
{
    let nq = before_char_exec(chars_of(url).as_slice(), '?');
    let nf = before_char_exec(nq.as_slice(), '#');
    let s = nf.as_slice();
    ends_with_exec(s, lit(".jpg").as_slice()) || ends_with_exec(s, lit(".jpeg").as_slice())
        || ends_with_exec(s, lit(".png").as_slice()) || ends_with_exec(s, lit(".webp").as_slice())
        || ends_with_exec(s, lit(".gif").as_slice()) || ends_with_exec(s, lit(".avif").as_slice())
}

/// A link that can be a cover: absolute, not the site's logo or icon, and an
/// upload or an image file.
pub open spec fn likely_cover(url: Seq<char>) -> bool {
    let l = lowercase(sanitized(url));
    if l.len() == 0 || !starts_with(l, "http"@) {
        false
    } else if contains(l, "logo-monte-tai"@) || contains(l, "favicon"@) {
        false
    } else if contains(l, "/wp-content/uploads/"@) {
        true
    } else {
        contains(l, ".png"@) || contains(l, ".jpg"@) || contains(l, ".jpeg"@) || contains(l, ".webp"@)
            || contains(l, ".gif"@)
    }
}

/// Whether a link can be a cover.
pub fn is_likely_cover_url(url: &str) -> (b: bool)
    ensures
        b == likely_cover(url@),
{
    let c = sanitize_chars(chars_of(url).as_slice());
    let lv = lowercase_chars(c.as_slice());
    let l = lv.as_slice();
    if l.len() == 0 || !starts_with_exec(l, lit("http").as_slice()) {
        return false;
    }
    if contains_exec(l, lit("logo-monte-tai").as_slice()) || contains_exec(l, lit("favicon").as_slice()) {
        return false;
    }
    if contains_exec(l, lit("/wp-content/uploads/").as_slice()) {
        return true;
    }
    contains_exec(l, lit(".png").as_slice()) || contains_exec(l, lit(".jpg").as_slice())
        || contains_exec(l, lit(".jpeg").as_slice()) || contains_exec(l, lit(".webp").as_slice())
        || contains_exec(l, lit(".gif").as_slice())
}

/// The text of an optional attribute (empty when missing).
pub open spec fn or_empty(s: Option<Seq<char>>) -> Seq<char> {
    match s {
        Some(t) => t,
        None => Seq::<char>::empty(),
    }
}

/// An image of a chapter page: an absolute link that is not the site's logo,
/// icon, reactions or comments, nor a chapter page; the site's image proxy is
/// always one; otherwise an image or upload link whose element or parent
/// carries the reader's classes.
pub open spec fn chapter_image(class_name: Option<Seq<char>>, parent_class: Option<Seq<char>>, url: Seq<char>) -> bool {
    let l = lowercase(sanitized(url));
    if l.len() == 0 || !starts_with(l, "http"@) {
        false
    } else if contains(l, "logo-monte-tai"@) || contains(l, "favicon"@) || contains(l, "/reactions/"@)
        || contains(l, "/graphstyle-comments"@) {
        false
    } else if is_chapter_link(l) {
        false
    } else if contains(l, "mt_madara_s3_image"@) {
        true
    } else if !(image_extension(l) || contains(l, "/wp-content/uploads/wp-manga/data/"@) || contains(
        l,
        "/wp-content/uploads/"@,
    )) {
        false
    } else if contains(lowercase(or_empty(class_name)), "wp-manga-chapter-img"@) {
        true
    } else {
        let p = lowercase(or_empty(parent_class));
        contains(p, "page-break"@) || contains(p, "reading-content"@)
    }
}

fn lower_or_empty(s: Option<&str>) -> (r: Vec<char>)
    ensures
        r@ == lowercase(or_empty(match s {
            Some(t) => Some(t@),
            None => None,
        })),
{
    match s {
        Some(t) => lowercase_chars(chars_of(t).as_slice()),
        None => {
            let e: Vec<char> = Vec::new();
            lowercase_chars(e.as_slice())
        },
    }
}

/// Whether an image (with its class and its parent's class) shows a chapter page.
pub fn is_chapter_image(class_name: Option<&str>, parent_class: Option<&str>, url: &str) -> (b: bool)
    ensures
        b == chapter_image(
            match class_name {
                Some(t) => Some(t@),
                None => None,
            },
            match parent_class {
                Some(t) => Some(t@),
                None => None,
            },
            url@,
        ),
{
    let c = sanitize_chars(chars_of(url).as_slice());
    let lv = lowercase_chars(c.as_slice());
    let l = lv.as_slice();
    if l.len() == 0 || !starts_with_exec(l, lit("http").as_slice()) {
        return false;
    }
    if contains_exec(l, lit("logo-monte-tai").as_slice()) || contains_exec(l, lit("favicon").as_slice())
        || contains_exec(l, lit("/reactions/").as_slice()) || contains_exec(
        l,
        lit("/graphstyle-comments").as_slice(),
    ) {
        return false;
    }
    let ls = string_of(l);
    if is_chapter_url(ls.as_str()) {
        return false;
    }
    if contains_exec(l, lit("mt_madara_s3_image").as_slice()) {
        return true;
    }
    let looks = has_image_extension(ls.as_str()) || contains_exec(
        l,
        lit("/wp-content/uploads/wp-manga/data/").as_slice(),
    ) || contains_exec(l, lit("/wp-content/uploads/").as_slice());
    if !looks {
        return false;
    }
    let cl = lower_or_empty(class_name);
    if contains_exec(cl.as_slice(), lit("wp-manga-chapter-img").as_slice()) {
        return true;
    }
    let pl = lower_or_empty(parent_class);
    contains_exec(pl.as_slice(), lit("page-break").as_slice()) || contains_exec(
        pl.as_slice(),
        lit("reading-content").as_slice(),
    )
}

/// The publication status named in a text, if any (Portuguese or English words).
pub open spec fn status_in_text(text: Seq<char>) -> Option<MangaStatus> {
    let l = lowercase(normalize(text));
    if l.len() == 0 {
        None
    } else if contains(l, "progresso"@) || contains(l, "ongoing"@) {
        Some(MangaStatus::Ongoing)
    } else if contains(l, "completo"@) || contains(l, "conclu"@) || contains(l, "finalizado"@) {
        Some(MangaStatus::Completed)
    } else if contains(l, "hiato"@) || contains(l, "pausa"@) {
        Some(MangaStatus::Hiatus)
    } else if contains(l, "cancel"@) {
        Some(MangaStatus::Cancelled)
    } else {
        None
    }
}

/// The publication status named in a text.
pub fn status_from_text(text: &str) -> (r: Option<MangaStatus>)
    ensures
        r == status_in_text(text@),
{
    let n = normalize_chars(chars_of(text).as_slice());
    let lv = lowercase_chars(n.as_slice());
    let l = lv.as_slice();
    if l.len() == 0 {
        return None;
    }
    if contains_exec(l, lit("progresso").as_slice()) || contains_exec(l, lit("ongoing").as_slice()) {
        return Some(MangaStatus::Ongoing);
    }
    if contains_exec(l, lit("completo").as_slice()) || contains_exec(l, lit("conclu").as_slice())
        || contains_exec(l, lit("finalizado").as_slice()) {
        return Some(MangaStatus::Completed);
    }
    if contains_exec(l, lit("hiato").as_slice()) || contains_exec(l, lit("pausa").as_slice()) {
        return Some(MangaStatus::Hiatus);
    }
    if contains_exec(l, lit("cancel").as_slice()) {
        return Some(MangaStatus::Cancelled);
    }
    None
}

} // verus!

verus! {

/// A series key that the site's links carry unchanged: not empty, and
/// without `/`, `&`, `#` or whitespace.
pub open spec fn plain_key(k: Seq<char>) -> bool {
    k.len() > 0 && forall|i: int| 0 <= i < k.len() ==> !(#[trigger] k[i] == '/' || k[i] == '&' || k[i] == '#' || is_ws(k[i]))
}

/// The characters of the address of a series page with key `k`.
proof fn lemma_page_chars(k: Seq<char>)
    requires
        plain_key(k),
    ensures
        ({
            let url = base_url() + "/manga/"@ + k + "/"@;
            &&& url.len() == 37 + k.len()
            &&& forall|i: int| 0 <= i < url.len() ==> !(#[trigger] url[i] == '&' || url[i] == '#' || is_ws(url[i]))
            &&& forall|i: int| 0 <= i < 36 ==> url[i] == "https://montetaiscanlator.xyz/manga/"@[i]
            &&& url.skip(36) == k + "/"@
            &&& url.subrange(29, 36) == "/manga/"@
            &&& forall|j: int| 0 <= j < 29 ==> !occurs_at(url, "/manga/"@, j)
        }),
{
    reveal_strlit("https://montetaiscanlator.xyz");
    reveal_strlit("/manga/");
    reveal_strlit("/");
    reveal_strlit("https://montetaiscanlator.xyz/manga/");
    let url = base_url() + "/manga/"@ + k + "/"@;
    let p = "https://montetaiscanlator.xyz/manga/"@;
    assert(url[0] == 'h');
    assert(p[0] == 'h');
    assert(url[1] == 't');
    assert(p[1] == 't');
    assert(url[2] == 't');
    assert(p[2] == 't');
    assert(url[3] == 'p');
    assert(p[3] == 'p');
    assert(url[4] == 's');
    assert(p[4] == 's');
    assert(url[5] == ':');
    assert(p[5] == ':');
    assert(url[6] == '/');
    assert(p[6] == '/');
    assert(url[7] == '/');
    assert(p[7] == '/');
    assert(url[8] == 'm');
    assert(p[8] == 'm');
    assert(url[9] == 'o');
    assert(p[9] == 'o');
    assert(url[10] == 'n');
    assert(p[10] == 'n');
    assert(url[11] == 't');
    assert(p[11] == 't');
    assert(url[12] == 'e');
    assert(p[12] == 'e');
    assert(url[13] == 't');
    assert(p[13] == 't');
    assert(url[14] == 'a');
    assert(p[14] == 'a');
    assert(url[15] == 'i');
    assert(p[15] == 'i');
    assert(url[16] == 's');
    assert(p[16] == 's');
    assert(url[17] == 'c');
    assert(p[17] == 'c');
    assert(url[18] == 'a');
    assert(p[18] == 'a');
    assert(url[19] == 'n');
    assert(p[19] == 'n');
    assert(url[20] == 'l');
    assert(p[20] == 'l');
    assert(url[21] == 'a');
    assert(p[21] == 'a');
    assert(url[22] == 't');
    assert(p[22] == 't');
    assert(url[23] == 'o');
    assert(p[23] == 'o');
    assert(url[24] == 'r');
    assert(p[24] == 'r');
    assert(url[25] == '.');
    assert(p[25] == '.');
    assert(url[26] == 'x');
    assert(p[26] == 'x');
    assert(url[27] == 'y');
    assert(p[27] == 'y');
    assert(url[28] == 'z');
    assert(p[28] == 'z');
    assert(url[29] == '/');
    assert(p[29] == '/');
    assert(url[30] == 'm');
    assert(p[30] == 'm');
    assert(url[31] == 'a');
    assert(p[31] == 'a');
    assert(url[32] == 'n');
    assert(p[32] == 'n');
    assert(url[33] == 'g');
    assert(p[33] == 'g');
    assert(url[34] == 'a');
    assert(p[34] == 'a');
    assert(url[35] == '/');
    assert(p[35] == '/');
    assert forall|i: int| 0 <= i < url.len() implies !(#[trigger] url[i] == '&' || url[i] == '#' || is_ws(url[i])) by {
        if i >= 36 && i < 36 + k.len() {
            assert(url[i] == k[i - 36]);
        } else if i == 36 + k.len() {
            assert(url[i] == '/');
        } else if i == 0 {
        } else if i == 1 {
        } else if i == 2 {
        } else if i == 3 {
        } else if i == 4 {
        } else if i == 5 {
        } else if i == 6 {
        } else if i == 7 {
        } else if i == 8 {
        } else if i == 9 {
        } else if i == 10 {
        } else if i == 11 {
        } else if i == 12 {
        } else if i == 13 {
        } else if i == 14 {
        } else if i == 15 {
        } else if i == 16 {
        } else if i == 17 {
        } else if i == 18 {
        } else if i == 19 {
        } else if i == 20 {
        } else if i == 21 {
        } else if i == 22 {
        } else if i == 23 {
        } else if i == 24 {
        } else if i == 25 {
        } else if i == 26 {
        } else if i == 27 {
        } else if i == 28 {
        } else if i == 29 {
        } else if i == 30 {
        } else if i == 31 {
        } else if i == 32 {
        } else if i == 33 {
        } else if i == 34 {
        } else if i == 35 {
        }
    }
    assert forall|i: int| 0 <= i < 36 implies url[i] == p[i] by {
        if i == 0 {
        } else if i == 1 {
        } else if i == 2 {
        } else if i == 3 {
        } else if i == 4 {
        } else if i == 5 {
        } else if i == 6 {
        } else if i == 7 {
        } else if i == 8 {
        } else if i == 9 {
        } else if i == 10 {
        } else if i == 11 {
        } else if i == 12 {
        } else if i == 13 {
        } else if i == 14 {
        } else if i == 15 {
        } else if i == 16 {
        } else if i == 17 {
        } else if i == 18 {
        } else if i == 19 {
        } else if i == 20 {
        } else if i == 21 {
        } else if i == 22 {
        } else if i == 23 {
        } else if i == 24 {
        } else if i == 25 {
        } else if i == 26 {
        } else if i == 27 {
        } else if i == 28 {
        } else if i == 29 {
        } else if i == 30 {
        } else if i == 31 {
        } else if i == 32 {
        } else if i == 33 {
        } else if i == 34 {
        } else if i == 35 {
        }
    }
    assert(url.skip(36) =~= k + "/"@);
    let pat = "/manga/"@;
    assert(pat[0] == '/');
    assert(pat[1] == 'm');
    assert(pat[2] == 'a');
    assert(url.subrange(29, 36) =~= pat);
    assert forall|j: int| 0 <= j < 29 implies !occurs_at(url, pat, j) by {
        assert(url.subrange(j, j + 7)[0] == url[j]);
        assert(url.subrange(j, j + 7)[1] == url[j + 1]);
        assert(url.subrange(j, j + 7)[2] == url[j + 2]);
        if j == 0 {
        } else if j == 1 {
        } else if j == 2 {
        } else if j == 3 {
        } else if j == 4 {
        } else if j == 5 {
        } else if j == 6 {
        } else if j == 7 {
        } else if j == 8 {
        } else if j == 9 {
        } else if j == 10 {
        } else if j == 11 {
        } else if j == 12 {
        } else if j == 13 {
        } else if j == 14 {
        } else if j == 15 {
        } else if j == 16 {
        } else if j == 17 {
        } else if j == 18 {
        } else if j == 19 {
        } else if j == 20 {
        } else if j == 21 {
        } else if j == 22 {
        } else if j == 23 {
        } else if j == 24 {
        } else if j == 25 {
        } else if j == 26 {
        } else if j == 27 {
        } else if j == 28 {
        }
    }
}

/// The page built for a series known only by its plain key gives that key
/// back: `manga_key_from_url(manga_url(m)) == m.key`.
pub proof fn lemma_manga_key_round_trip(m: Manga)
    requires
        m.url is None,
        plain_key(m.key@),
    ensures
        manga_key_of(manga_page(m)) == Some(m.key@),
{
    let k = m.key@;
    crate::text::lemma_normalize_word(k);
    reveal_strlit("http://");
    reveal_strlit("https://");
    reveal_strlit("manga/");
    reveal_strlit("/manga/");
    reveal_strlit("&amp;");
    reveal_strlit("&#038;");
    reveal_strlit("#038;");
    if starts_with(k, "http://"@) {
        assert(k.subrange(0, 7)[5] == k[5]);
    }
    if starts_with(k, "https://"@) {
        assert(k.subrange(0, 8)[6] == k[6]);
    }
    if starts_with(k, "manga/"@) {
        assert(k.subrange(0, 6)[5] == k[5]);
    }
    if starts_with(k, "/manga/"@) {
        assert(k.subrange(0, 7)[0] == k[0]);
    }
    assert(!is_site_path(k));
    crate::text::lemma_trim_by_noop(k, crate::text::eq_pred('/'));
    let url = base_url() + "/manga/"@ + k + "/"@;
    assert(manga_page(m) == url);
    lemma_page_chars(k);
    crate::text::lemma_normalize_word(url);
    crate::text::lemma_replace_absent(url, "&amp;"@, "&"@);
    crate::text::lemma_replace_absent(url, "&#038;"@, "&"@);
    crate::text::lemma_replace_absent(url, "#038;"@, "&"@);
    assert(sanitized(url) == url);
    let pat = "/manga/"@;
    crate::text::lemma_find_first_at(url, pat, 29, 0);
    let rest = url.skip(36);
    reveal_strlit("/");
    assert(rest == k + "/"@);
    assert forall|j: int| 0 <= j < k.len() implies rest[j] != seq!['/'][0] by {
        assert(rest[j] == k[j]);
    }
    assert(rest.subrange(k.len() as int, (k.len() + 1) as int) =~= seq!['/']);
    crate::text::lemma_find_at(rest, seq!['/'], k.len() as int, 0);
    assert(rest.take(k.len() as int) == k);
    crate::text::lemma_trim_by_noop(k, crate::text::ws_pred());
}

} // verus!

verus! {

/// The site's status vocabulary, in the order the words are looked for: a
/// word and the status it names.
pub open spec fn status_vocabulary() -> Seq<(Seq<char>, MangaStatus)> {
    seq![
        ("progresso"@, MangaStatus::Ongoing),
        ("ongoing"@, MangaStatus::Ongoing),
        ("completo"@, MangaStatus::Completed),
        ("conclu"@, MangaStatus::Completed),
        ("finalizado"@, MangaStatus::Completed),
        ("hiato"@, MangaStatus::Hiatus),
        ("pausa"@, MangaStatus::Hiatus),
        ("cancel"@, MangaStatus::Cancelled),
    ]
}

/// A status text names the status of the first word of the vocabulary that
/// its normalized lower-case form contains, and no status when it contains
/// none of them.
pub proof fn lemma_status_vocabulary(text: Seq<char>)
    ensures
        forall|k: int|
            #![trigger status_vocabulary()[k]]
            0 <= k < status_vocabulary().len() && contains(lowercase(normalize(text)), status_vocabulary()[k].0)
                && (forall|j: int| 0 <= j < k ==> !contains(lowercase(normalize(text)), #[trigger] status_vocabulary()[j].0))
                ==> status_in_text(text) == Some(status_vocabulary()[k].1),
        (forall|j: int|
            0 <= j < status_vocabulary().len() ==> !contains(lowercase(normalize(text)), #[trigger] status_vocabulary()[j].0))
            ==> status_in_text(text) is None,
{
    let l = lowercase(normalize(text));
    let v = status_vocabulary();
    reveal_strlit("progresso");
    reveal_strlit("ongoing");
    reveal_strlit("completo");
    reveal_strlit("conclu");
    reveal_strlit("finalizado");
    reveal_strlit("hiato");
    reveal_strlit("pausa");
    reveal_strlit("cancel");
    if l.len() == 0 {
        assert forall|k: int| 0 <= k < v.len() implies !contains(l, #[trigger] v[k].0) by {
            assert(v[k].0.len() > 0);
        }
    }
    assert(v[0].0 == "progresso"@);
    assert(v[1].0 == "ongoing"@);
    assert(v[2].0 == "completo"@);
    assert(v[3].0 == "conclu"@);
    assert(v[4].0 == "finalizado"@);
    assert(v[5].0 == "hiato"@);
    assert(v[6].0 == "pausa"@);
    assert(v[7].0 == "cancel"@);
}

} // verus!
