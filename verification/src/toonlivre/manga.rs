//! ToonLivre: API records mapped into series and chapters, and how a chapter
//! to read is identified.

use crate::listing::{HOME_PAGE_SIZE, HomeSections};
use crate::model::{
    Chapter, ContentRating, Link, Manga, MangaPageResult, MangaStatus, MangaWithChapter, Viewer,
    opt_view,
};
use crate::text::{append, chars_of, copy_opt_string, copy_strings, lit, string_of, trim, trim_str, starts_with, starts_with_exec};
use crate::toonlivre::api::{ApiChapter, ApiListResponse, ApiMangaById, ApiMangaBySlug, ApiMangaCard, ApiReaderManga};
use crate::toonlivre::utils::{
    chapter_key_or_number, chapter_key_or_number_of, chapter_number_text, chapter_number_token,
    chapter_numbers_match, chapter_url_from_slug_and_number, chapter_url_spec,
    date_from_timestamp_millis, manga_slug_from_manga, manga_slug_of, manga_status_from_text,
    manga_status_spec, manga_url_from_slug, manga_url_spec, slugify_spec, slugify_title,
    without_leading_zeroes,
};
use vstd::prelude::*;

verus! {

/// A series card as a series: its identifier as key, the alternative title as description.
pub open spec fn card_manga(card: ApiMangaCard, m: Manga) -> bool {
    &&& m.key == card.id
    &&& m.title == card.title
    &&& m.cover == card.cover_url
    &&& m.description == card.alternative_title
    &&& m.url is None
    &&& m.viewer == Viewer::Vertical
    &&& m.artists is None
    &&& m.authors is None
    &&& m.tags is None
    &&& m.status == MangaStatus::Unknown
    &&& m.content_rating == ContentRating::Unknown
    &&& m.chapters is None
}

/// A series card as a series.
pub fn manga_from_card(card: &ApiMangaCard) -> (m: Manga)
    ensures
        card_manga(*card, m),
{
    let mut m = Manga::with_key(card.id.clone());
    m.title = card.title.clone();
    m.cover = copy_opt_string(&card.cover_url);
    m.description = copy_opt_string(&card.alternative_title);
    m.viewer = Viewer::Vertical;
    m
}

/// A page of a listing as series entries.
pub fn map_list_response(response: &ApiListResponse) -> (r: MangaPageResult)
    ensures
        r.entries@.len() == response.mangas@.len(),
        forall|i: int| 0 <= i < r.entries@.len() ==> card_manga(#[trigger] response.mangas@[i], r.entries@[i]),
        r.has_next_page == response.pagination.has_next_page,
{
    let mut entries: Vec<Manga> = Vec::new();
    let mut i: usize = 0;
    while i < response.mangas.len()
        invariant
            i <= response.mangas@.len(),
            entries@.len() == i,
            forall|j: int| 0 <= j < i ==> card_manga(#[trigger] response.mangas@[j], entries@[j]),
        decreases response.mangas@.len() - i,
    {
        entries.push(manga_from_card(&response.mangas[i]));
        i += 1;
    }
    MangaPageResult { entries, has_next_page: response.pagination.has_next_page }
}

/// The title of a chapter that has none: `Capítulo` and its number.
pub open spec fn default_chapter_title(number: Seq<char>) -> Seq<char> {
    "Capítulo "@ + number
}

/// An API chapter as a chapter of the series with the given slug (or, without
/// one, the slug of its title).
pub open spec fn api_chapter(ch: ApiChapter, slug: Option<Seq<char>>, manga_title: Seq<char>, c: Chapter) -> bool {
    let number = trim(ch.number@);
    let s = match slug {
        Some(s) => s,
        None => slugify_spec(manga_title),
    };
    &&& c.key == ch.id
    &&& opt_view(c.title) == Some(
        if trim(ch.title@).len() == 0 {
            default_chapter_title(number)
        } else {
            ch.title@
        },
    )
    &&& opt_view(c.chapter_number) == Some(chapter_number_text(number))
    &&& c.date_uploaded == (if ch.timestamp > 0 {
        Some((ch.timestamp / 1000) as i64)
    } else {
        None
    })
    &&& opt_view(c.url) == Some(chapter_url_spec(s, number))
    &&& opt_view(c.language) == Some("pt-BR"@)
    &&& !c.locked
}

/// An API chapter as a chapter.
pub fn chapter_from_api(chapter: &ApiChapter, slug: Option<&str>, manga_title: &str) -> (c: Chapter)
    ensures
        api_chapter(*chapter, match slug {
            Some(s) => Some(s@),
            None => None,
        }, manga_title@, c),
{
    let number_chars = trim_str(chapter.number.as_str());
    let number = string_of(number_chars.as_slice());
    let slug_text = match slug {
        Some(s) => string_of(chars_of(s).as_slice()),
        None => slugify_title(manga_title),
    };
    let title = if trim_str(chapter.title.as_str()).len() == 0 {
        let mut t = lit("Capítulo ");
        append(&mut t, number_chars.as_slice());
        string_of(t.as_slice())
    } else {
        chapter.title.clone()
    };
    let mut c = Chapter::with_key(chapter.id.clone());
    c.title = Some(title);
    c.chapter_number = Some(chapter_number_token(number.as_str()));
    c.date_uploaded = date_from_timestamp_millis(chapter.timestamp);
    c.url = Some(chapter_url_from_slug_and_number(slug_text.as_str(), number.as_str()));
    c.language = Some(string_of(lit("pt-BR").as_slice()));
    c
}

} // verus!

verus! {

/// A series card with its most recent chapter.
pub fn manga_with_recent_chapter(card: &ApiMangaCard) -> (r: Option<MangaWithChapter>)
    ensures
        card.recent_chapters@.len() == 0 ==> r is None,
        card.recent_chapters@.len() > 0 ==> (r matches Some(mc) && card_manga(*card, mc.manga)
            && api_chapter(card.recent_chapters@[0], opt_view(card.slug), card.title@, mc.chapter)),
{
    if card.recent_chapters.len() == 0 {
        return None;
    }
    let manga = manga_from_card(card);
    let chapter = match &card.slug {
        Some(s) => chapter_from_api(&card.recent_chapters[0], Some(s.as_str()), card.title.as_str()),
        None => chapter_from_api(&card.recent_chapters[0], None, card.title.as_str()),
    };
    Some(MangaWithChapter { manga, chapter })
}

/// A tile for a series: its title, description and cover.
pub fn manga_to_link(manga: Manga) -> (l: Link)
    ensures
        l.title == manga.title,
        l.subtitle == manga.description,
        l.image_url == manga.cover,
        l.manga == manga,
{
    let title = manga.title.clone();
    let subtitle = copy_opt_string(&manga.description);
    let image_url = copy_opt_string(&manga.cover);
    Link { title, subtitle, image_url, manga }
}

/// The description shown for a series: the alternative title and the
/// description (each trimmed, when not empty), separated by a blank line.
pub open spec fn merged_description(alternative_title: Option<Seq<char>>, description: Option<Seq<char>>) -> Option<Seq<char>> {
    let a = match alternative_title {
        Some(t) => if trim(t).len() > 0 {
            Some(trim(t))
        } else {
            None
        },
        None => None,
    };
    let d = match description {
        Some(t) => if trim(t).len() > 0 {
            Some(trim(t))
        } else {
            None
        },
        None => None,
    };
    match (a, d) {
        (Some(x), Some(y)) => Some(x + "\n\n"@ + y),
        (Some(x), None) => Some(x),
        (None, Some(y)) => Some(y),
        (None, None) => None,
    }
}

/// The description shown for a series.
pub fn merge_description(alternative_title: Option<&str>, description: Option<&str>) -> (r: Option<String>)
    ensures
        opt_view(r) == merged_description(
            match alternative_title {
                Some(t) => Some(t@),
                None => None,
            },
            match description {
                Some(t) => Some(t@),
                None => None,
            },
        ),
{
    let a: Option<Vec<char>> = match alternative_title {
        Some(t) => {
            let x = trim_str(t);
            if x.len() > 0 {
                Some(x)
            } else {
                None
            }
        },
        None => None,
    };
    let d: Option<Vec<char>> = match description {
        Some(t) => {
            let x = trim_str(t);
            if x.len() > 0 {
                Some(x)
            } else {
                None
            }
        },
        None => None,
    };
    match (a, d) {
        (Some(x), Some(y)) => {
            let mut out = x;
            append(&mut out, lit("\n\n").as_slice());
            append(&mut out, y.as_slice());
            Some(string_of(out.as_slice()))
        },
        (Some(x), None) => Some(string_of(x.as_slice())),
        (None, Some(y)) => Some(string_of(y.as_slice())),
        (None, None) => None,
    }
}

/// The status of a series from its optional label (unknown without one).
pub open spec fn status_from_label(status: Option<String>) -> MangaStatus {
    match status {
        Some(s) => manga_status_spec(s@),
        None => MangaStatus::Unknown,
    }
}

fn status_of(status: &Option<String>) -> (r: MangaStatus)
    ensures
        r == status_from_label(*status),
{
    match status {
        Some(s) => manga_status_from_text(s.as_str()),
        None => MangaStatus::Unknown,
    }
}

fn merged(alternative_title: &Option<String>, description: &Option<String>) -> (r: Option<String>)
    ensures
        opt_view(r) == merged_description(opt_view(*alternative_title), opt_view(*description)),
{
    let a = match alternative_title {
        Some(t) => Some(t.as_str()),
        None => None,
    };
    let d = match description {
        Some(t) => Some(t.as_str()),
        None => None,
    };
    merge_description(a, d)
}

/// The details a lookup brings: identifier, title, cover, people, genres,
/// description, status, address, vertical reader and safe rating.
pub open spec fn details_applied(
    m: Manga,
    id: String,
    title: String,
    cover: Option<String>,
    authors: Seq<String>,
    artists: Seq<String>,
    genres: Seq<String>,
    alternative_title: Option<String>,
    description: Option<String>,
    status: Option<String>,
) -> bool {
    &&& m.key == id
    &&& m.title == title
    &&& m.cover == cover
    &&& m.authors matches Some(a) && a@ == authors
    &&& m.artists matches Some(a) && a@ == artists
    &&& m.tags matches Some(a) && a@ == genres
    &&& opt_view(m.description) == merged_description(opt_view(alternative_title), opt_view(description))
    &&& m.status == status_from_label(status)
    &&& m.viewer == Viewer::Vertical
    &&& m.content_rating == ContentRating::Safe
}

/// Fills a series with the details of a lookup by identifier.
pub fn apply_details_from_id(manga: &mut Manga, details: &ApiMangaById)
    ensures
        details_applied(
            *final(manga),
            details.id,
            details.title,
            details.cover_url,
            details.authors@,
            details.artists@,
            details.genres@,
            details.alternative_title,
            details.description,
            details.status,
        ),
        opt_view(final(manga).url) == Some(manga_url_spec(details.slug@)),
        final(manga).chapters == old(manga).chapters,
{
    manga.key = details.id.clone();
    manga.title = details.title.clone();
    manga.cover = copy_opt_string(&details.cover_url);
    manga.authors = Some(copy_strings(&details.authors));
    manga.artists = Some(copy_strings(&details.artists));
    manga.tags = Some(copy_strings(&details.genres));
    manga.description = merged(&details.alternative_title, &details.description);
    manga.status = status_of(&details.status);
    manga.url = Some(manga_url_from_slug(details.slug.as_str()));
    manga.viewer = Viewer::Vertical;
    manga.content_rating = ContentRating::Safe;
}

/// The chapters of a chapter list, for the series with the given slug.
pub open spec fn api_chapters(chs: Seq<ApiChapter>, slug: Seq<char>, title: Seq<char>, cs: Seq<Chapter>) -> bool {
    &&& cs.len() == chs.len()
    &&& forall|i: int| 0 <= i < cs.len() ==> api_chapter(#[trigger] chs[i], Some(slug), title, cs[i])
}

fn chapters_from_api(chs: &Vec<ApiChapter>, slug: &str, title: &str) -> (r: Vec<Chapter>)
    ensures
        api_chapters(chs@, slug@, title@, r@),
{
    let mut out: Vec<Chapter> = Vec::new();
    let mut i: usize = 0;
    while i < chs.len()
        invariant
            i <= chs@.len(),
            out@.len() == i,
            forall|j: int| 0 <= j < i ==> api_chapter(#[trigger] chs@[j], Some(slug@), title@, out@[j]),
        decreases chs@.len() - i,
    {
        out.push(chapter_from_api(&chs[i], Some(slug), title));
        i += 1;
    }
    out
}

/// The slug a detail record gives, or the slug of its title.
pub open spec fn slug_or_title(slug: Option<String>, title: Seq<char>) -> Seq<char> {
    match slug {
        Some(s) => s@,
        None => slugify_spec(title),
    }
}

fn slug_or_title_exec(slug: &Option<String>, title: &str) -> (r: String)
    ensures
        r@ == slug_or_title(*slug, title@),
{
    match slug {
        Some(s) => s.clone(),
        None => slugify_title(title),
    }
}

/// Fills a series with the reader data: details when asked (the address only
/// when the record has a slug), chapters when asked.
pub fn apply_details_from_reader(
    manga: &mut Manga,
    details: &ApiReaderManga,
    needs_details: bool,
    needs_chapters: bool,
)
    ensures
        needs_details ==> details_applied(
            *final(manga),
            details.id,
            details.title,
            details.cover_url,
            details.authors@,
            details.artists@,
            details.genres@,
            details.alternative_title,
            details.description,
            details.status,
        ),
        needs_details && details.slug is Some ==> opt_view(final(manga).url) == Some(
            manga_url_spec(details.slug->0@),
        ),
        !(needs_details && details.slug is Some) ==> final(manga).url == old(manga).url,
        !needs_details ==> {
            &&& final(manga).key == old(manga).key
            &&& final(manga).title == old(manga).title
            &&& final(manga).cover == old(manga).cover
            &&& final(manga).authors == old(manga).authors
            &&& final(manga).artists == old(manga).artists
            &&& final(manga).tags == old(manga).tags
            &&& final(manga).description == old(manga).description
            &&& final(manga).status == old(manga).status
            &&& final(manga).viewer == old(manga).viewer
            &&& final(manga).content_rating == old(manga).content_rating
        },
        needs_chapters ==> (final(manga).chapters matches Some(cs) && api_chapters(
            details.chapters@,
            slug_or_title(details.slug, details.title@),
            details.title@,
            cs@,
        )),
        !needs_chapters ==> final(manga).chapters == old(manga).chapters,
{
    if needs_details {
        manga.key = details.id.clone();
        manga.title = details.title.clone();
        manga.cover = copy_opt_string(&details.cover_url);
        manga.authors = Some(copy_strings(&details.authors));
        manga.artists = Some(copy_strings(&details.artists));
        manga.tags = Some(copy_strings(&details.genres));
        manga.description = merged(&details.alternative_title, &details.description);
        manga.status = status_of(&details.status);
        match &details.slug {
            Some(slug) => {
                manga.url = Some(manga_url_from_slug(slug.as_str()));
            },
            None => {},
        }
        manga.viewer = Viewer::Vertical;
        manga.content_rating = ContentRating::Safe;
    }
    if needs_chapters {
        let slug = slug_or_title_exec(&details.slug, details.title.as_str());
        manga.chapters = Some(chapters_from_api(&details.chapters, slug.as_str(), details.title.as_str()));
    }
}

/// Fills a series with the data of a lookup by slug: details when asked,
/// chapters when asked; the slug is the record's or that of its title.
pub fn apply_details_from_slug(
    manga: &mut Manga,
    details: &ApiMangaBySlug,
    needs_details: bool,
    needs_chapters: bool,
)
    ensures
        needs_details ==> details_applied(
            *final(manga),
            details.id,
            details.title,
            details.cover_url,
            details.authors@,
            details.artists@,
            details.genres@,
            details.alternative_title,
            details.description,
            details.status,
        ),
        needs_details ==> opt_view(final(manga).url) == Some(
            manga_url_spec(slug_or_title(details.slug, details.title@)),
        ),
        !needs_details ==> {
            &&& final(manga).key == old(manga).key
            &&& final(manga).title == old(manga).title
            &&& final(manga).cover == old(manga).cover
            &&& final(manga).authors == old(manga).authors
            &&& final(manga).artists == old(manga).artists
            &&& final(manga).tags == old(manga).tags
            &&& final(manga).description == old(manga).description
            &&& final(manga).status == old(manga).status
            &&& final(manga).url == old(manga).url
            &&& final(manga).viewer == old(manga).viewer
            &&& final(manga).content_rating == old(manga).content_rating
        },
        needs_chapters ==> (final(manga).chapters matches Some(cs) && api_chapters(
            details.chapters@,
            slug_or_title(details.slug, details.title@),
            details.title@,
            cs@,
        )),
        !needs_chapters ==> final(manga).chapters == old(manga).chapters,
{
    let slug = slug_or_title_exec(&details.slug, details.title.as_str());
    if needs_details {
        manga.key = details.id.clone();
        manga.title = details.title.clone();
        manga.cover = copy_opt_string(&details.cover_url);
        manga.authors = Some(copy_strings(&details.authors));
        manga.artists = Some(copy_strings(&details.artists));
        manga.tags = Some(copy_strings(&details.genres));
        manga.description = merged(&details.alternative_title, &details.description);
        manga.status = status_of(&details.status);
        manga.url = Some(manga_url_from_slug(slug.as_str()));
        manga.viewer = Viewer::Vertical;
        manga.content_rating = ContentRating::Safe;
    }
    if needs_chapters {
        manga.chapters = Some(chapters_from_api(&details.chapters, slug.as_str(), details.title.as_str()));
    }
}

} // verus!

verus! {

/// How the chapter to read is found: directly from internal identifiers, or by
/// looking the series up by its slug.
pub enum ChapterLookup {
    Direct { manga_id: String, chapter_id: String, chapter_url: String },
    BySlug { slug: String },
}

/// A series and chapter that already carry internal identifiers (`obra-`, `cap-`).
pub open spec fn has_internal_ids(manga_key: Seq<char>, chapter_key: Seq<char>) -> bool {
    starts_with(manga_key, "obra-"@) && starts_with(chapter_key, "cap-"@)
}

/// The address of a chapter given by internal identifiers: its own address, or
/// one built from the series slug (or title slug) and its key or number.
pub open spec fn direct_chapter_url(m: Manga, c: Chapter) -> Seq<char> {
    match c.url {
        Some(u) => u@,
        None => {
            let slug = match manga_slug_of(m.key@, opt_view(m.url)) {
                Some(s) => s,
                None => slugify_spec(m.title@),
            };
            let number = match chapter_key_or_number_of(c.key@, opt_view(c.url), opt_view(c.chapter_number)) {
                Some(n) => n,
                None => Seq::<char>::empty(),
            };
            chapter_url_spec(slug, number)
        },
    }
}

/// The first step of finding the chapter to read.
pub fn begin_chapter_identity(manga: &Manga, chapter: &Chapter) -> (r: Result<ChapterLookup, String>)
    ensures
        has_internal_ids(manga.key@, chapter.key@) ==> (r matches Ok(ChapterLookup::Direct { manga_id, chapter_id, chapter_url })
            && manga_id == manga.key && chapter_id == chapter.key && chapter_url@ == direct_chapter_url(*manga, *chapter)),
        !has_internal_ids(manga.key@, chapter.key@) ==> match manga_slug_of(manga.key@, opt_view(manga.url)) {
            Some(s) => r matches Ok(ChapterLookup::BySlug { slug }) && slug@ == s,
            None => r matches Err(e) && e@ == "Unable to resolve manga slug for chapter lookup"@,
        },
{
    let obra = lit("obra-");
    let cap = lit("cap-");
    let mk = chars_of(manga.key.as_str());
    let ck = chars_of(chapter.key.as_str());
    if starts_with_exec(mk.as_slice(), obra.as_slice()) && starts_with_exec(ck.as_slice(), cap.as_slice()) {
        let chapter_url = match &chapter.url {
            Some(u) => u.clone(),
            None => {
                let slug = match manga_slug_from_manga(manga) {
                    Some(s) => s,
                    None => slugify_title(manga.title.as_str()),
                };
                let number = match chapter_key_or_number(chapter) {
                    Some(n) => n,
                    None => String::new(),
                };
                chapter_url_from_slug_and_number(slug.as_str(), number.as_str())
            },
        };
        return Ok(ChapterLookup::Direct { manga_id: manga.key.clone(), chapter_id: chapter.key.clone(), chapter_url });
    }
    match manga_slug_from_manga(manga) {
        Some(slug) => Ok(ChapterLookup::BySlug { slug }),
        None => Err(string_of(lit("Unable to resolve manga slug for chapter lookup").as_slice())),
    }
}

/// A listed chapter is the target: same identifier, or the same number.
pub open spec fn chapter_is_target(c: ApiChapter, target: Seq<char>) -> bool {
    c.id@ == target || without_leading_zeroes(c.number@) == without_leading_zeroes(target)
}

/// Index of the first listed chapter from `i` on that is the target.
pub open spec fn first_target(chs: Seq<ApiChapter>, target: Seq<char>, i: int) -> Option<int>
    decreases chs.len() - i,
{
    if i < 0 || i >= chs.len() {
        None
    } else if chapter_is_target(chs[i], target) {
        Some(i)
    } else {
        first_target(chs, target, i + 1)
    }
}

/// The outcome of finding a chapter in the series data fetched by slug.
pub open spec fn lookup_outcome(c: Chapter, slug: Seq<char>, details: ApiMangaBySlug) -> Result<(Seq<char>, Seq<char>, Seq<char>), Seq<char>> {
    match chapter_key_or_number_of(c.key@, opt_view(c.url), opt_view(c.chapter_number)) {
        None => Err("Unable to resolve chapter number for page list"@),
        Some(target) => match first_target(details.chapters@, target, 0) {
            None => Err("Chapter not found in manga data"@),
            Some(k) => Ok((
                details.id@,
                details.chapters@[k].id@,
                match c.url {
                    Some(u) => u@,
                    None => chapter_url_spec(slug, details.chapters@[k].number@),
                },
            )),
        },
    }
}

/// Finds the chapter to read in the series data fetched by slug: the series
/// identifier, the chapter identifier and the chapter's address.
pub fn finish_chapter_identity(chapter: &Chapter, slug: &str, details: &ApiMangaBySlug) -> (r: Result<(String, String, String), String>)
    ensures
        match (r, lookup_outcome(*chapter, slug@, *details)) {
            (Ok((a, b, c)), Ok((x, y, z))) => a@ == x && b@ == y && c@ == z,
            (Err(e), Err(m)) => e@ == m,
            _ => false,
        },
{
    let target = match chapter_key_or_number(chapter) {
        Some(t) => t,
        None => {
            return Err(string_of(lit("Unable to resolve chapter number for page list").as_slice()));
        },
    };
    let tc = chars_of(target.as_str());
    let mut i: usize = 0;
    while i < details.chapters.len()
        invariant
            i <= details.chapters@.len(),
            tc@ == target@,
            chapter_key_or_number_of(chapter.key@, opt_view(chapter.url), opt_view(chapter.chapter_number)) == Some(target@),
            first_target(details.chapters@, target@, 0) == first_target(details.chapters@, target@, i as int),
        decreases details.chapters@.len() - i,
    {
        let candidate = &details.chapters[i];
        let id = chars_of(candidate.id.as_str());
        if crate::text::chars_eq(id.as_slice(), tc.as_slice()) || chapter_numbers_match(candidate.number.as_str(), target.as_str()) {
            let url = match &chapter.url {
                Some(u) => u.clone(),
                None => chapter_url_from_slug_and_number(slug, candidate.number.as_str()),
            };
            return Ok((details.id.clone(), candidate.id.clone(), url));
        }
        i += 1;
    }
    Err(string_of(lit("Chapter not found in manga data").as_slice()))
}

} // verus!

verus! {

/// The cards of `cards` that list a recent chapter, in their order.
pub open spec fn cards_with_recent(cards: Seq<ApiMangaCard>) -> Seq<ApiMangaCard>
    decreases cards.len(),
{
    if cards.len() == 0 {
        Seq::<ApiMangaCard>::empty()
    } else {
        let rest = cards_with_recent(cards.drop_last());
        if cards.last().recent_chapters@.len() > 0 {
            rest.push(cards.last())
        } else {
            rest
        }
    }
}

/// A home entry for a card: the series and its most recent chapter.
pub open spec fn recent_entry(card: ApiMangaCard, mc: MangaWithChapter) -> bool {
    card_manga(card, mc.manga) && api_chapter(card.recent_chapters@[0], opt_view(card.slug), card.title@, mc.chapter)
}

/// A tile for a card's series.
pub open spec fn card_link(card: ApiMangaCard, l: Link) -> bool {
    card_manga(card, l.manga) && l.title == l.manga.title && l.subtitle == l.manga.description
        && l.image_url == l.manga.cover
}

/// The home screen from the first page of releases: the first
/// `HOME_PAGE_SIZE` series, those of them that list a recent chapter (with
/// it), and tiles for the same series.
pub fn home_sections(response: &ApiListResponse) -> (h: HomeSections)
    ensures
        h.releases@.len() == (if response.mangas@.len() < HOME_PAGE_SIZE { response.mangas@.len() as int } else { HOME_PAGE_SIZE as int }),
        forall|i: int| 0 <= i < h.releases@.len() ==> card_manga(response.mangas@[i], #[trigger] h.releases@[i]),
        h.more@.len() == h.releases@.len(),
        forall|i: int| 0 <= i < h.more@.len() ==> card_link(response.mangas@[i], #[trigger] h.more@[i]),
        h.recent@.len() == cards_with_recent(response.mangas@.take(h.releases@.len() as int)).len(),
        forall|i: int| 0 <= i < h.recent@.len() ==> recent_entry(
            cards_with_recent(response.mangas@.take(h.releases@.len() as int))[i],
            #[trigger] h.recent@[i],
        ),
{
    let cards = &response.mangas;
    let n: usize = if cards.len() < HOME_PAGE_SIZE {
        cards.len()
    } else {
        HOME_PAGE_SIZE
    };
    let mut releases: Vec<Manga> = Vec::new();
    let mut more: Vec<Link> = Vec::new();
    let mut recent: Vec<MangaWithChapter> = Vec::new();
    let mut i: usize = 0;
    assert(cards@.take(0) =~= Seq::<ApiMangaCard>::empty());
    while i < n
        invariant
            n <= cards@.len(),
            i <= n,
            releases@.len() == i,
            more@.len() == i,
            forall|j: int| 0 <= j < i ==> card_manga(cards@[j], #[trigger] releases@[j]),
            forall|j: int| 0 <= j < i ==> card_link(cards@[j], #[trigger] more@[j]),
            recent@.len() == cards_with_recent(cards@.take(i as int)).len(),
            forall|j: int| 0 <= j < recent@.len() ==> recent_entry(
                cards_with_recent(cards@.take(i as int))[j],
                #[trigger] recent@[j],
            ),
        decreases n - i,
    {
        let card = &cards[i];
        releases.push(manga_from_card(card));
        more.push(manga_to_link(manga_from_card(card)));
        let ghost before = recent@;
        let entry = manga_with_recent_chapter(card);
        assert(cards@.take(i + 1).drop_last() =~= cards@.take(i as int));
        assert(cards@.take(i + 1).last() == cards@[i as int]);
        match entry {
            Some(mc) => {
                recent.push(mc);
                assert(forall|j: int| 0 <= j < before.len() ==> recent@[j] == before[j]);
            },
            None => {},
        }
        i += 1;
    }
    HomeSections { releases, recent, more }
}

} // verus!

verus! {

/// How a series is updated: by its internal identifier (`obra-…`), or by its slug.
#[derive(Clone, Debug)]
pub enum UpdatePlan {
    ById { id: String },
    BySlug { slug: String },
}

/// How a series is updated: a key with the internal `obra-` prefix is looked
/// up by identifier; any other series by the slug of its address or key, and
/// without one the update fails.
pub fn manga_update_plan(manga: &Manga) -> (r: Result<UpdatePlan, String>)
    ensures
        starts_with(manga.key@, "obra-"@) ==> (r matches Ok(UpdatePlan::ById { id }) && id == manga.key),
        !starts_with(manga.key@, "obra-"@) ==> match manga_slug_of(manga.key@, opt_view(manga.url)) {
            Some(s) => r matches Ok(UpdatePlan::BySlug { slug }) && slug@ == s,
            None => r matches Err(e) && e@ == "Unable to resolve manga slug"@,
        },
{
    if starts_with_exec(chars_of(manga.key.as_str()).as_slice(), lit("obra-").as_slice()) {
        return Ok(UpdatePlan::ById { id: manga.key.clone() });
    }
    match manga_slug_from_manga(manga) {
        Some(slug) => Ok(UpdatePlan::BySlug { slug }),
        None => Err(string_of(lit("Unable to resolve manga slug").as_slice())),
    }
}

} // verus!
