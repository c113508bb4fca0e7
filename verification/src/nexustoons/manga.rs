//! NexusToons: listing records and web-view captures mapped into series and chapters.

use crate::listing::{HOME_PAGE_SIZE, HomeSections};
use crate::model::{Link, Chapter, ContentRating, Manga, MangaPageResult, MangaStatus, MangaWithChapter, Viewer, opt_view};
use crate::nexustoons::api::{ApiChapter, ApiListResponse, ApiMangaCard};
use crate::nexustoons::utils::{manga_slug_from_manga, manga_slug_of, chapter_title_from_number, chapter_title_spec, chapter_url_from_slug_and_id, chapter_url_spec, manga_url_from_slug, manga_url_spec};
use crate::number::{decimal_i64, signed_decimal};
use crate::text::{chars_of, copy_opt_string, lit, string_of, trim, trim_str};
use crate::toonlivre::manga::{manga_to_link, status_from_label};
use crate::toonlivre::utils::{chapter_number_text, chapter_number_token, manga_status_from_text};
use vstd::prelude::*;

verus! {

/// The key of a card: its slug, else its numeric identifier.
pub open spec fn card_slug(card: ApiMangaCard) -> Seq<char> {
    match card.slug {
        Some(s) => s@,
        None => signed_decimal(card.id as int),
    }
}

/// A listing card as a series.
pub open spec fn card_manga(card: ApiMangaCard, m: Manga) -> bool {
    &&& m.key@ == card_slug(card)
    &&& m.title == card.title
    &&& m.cover == card.cover_url
    &&& m.description == card.alternative_title
    &&& opt_view(m.url) == Some(manga_url_spec(card_slug(card)))
    &&& m.viewer == Viewer::Vertical
    &&& m.content_rating == ContentRating::Safe
    &&& m.artists is None
    &&& m.authors is None
    &&& m.tags is None
    &&& m.status == MangaStatus::Unknown
    &&& m.chapters is None
}

/// A listing card as a series.
pub fn manga_from_card(card: &ApiMangaCard) -> (m: Manga)
    ensures
        card_manga(*card, m),
{
    let slug = match &card.slug {
        Some(s) => s.clone(),
        None => string_of(decimal_i64(card.id).as_slice()),
    };
    let url = manga_url_from_slug(slug.as_str());
    let mut m = Manga::with_key(slug);
    m.title = card.title.clone();
    m.cover = copy_opt_string(&card.cover_url);
    m.description = copy_opt_string(&card.alternative_title);
    m.url = Some(url);
    m.viewer = Viewer::Vertical;
    m.content_rating = ContentRating::Safe;
    m
}

/// A page of a listing as series entries; more pages follow while `page < pages`.
pub fn map_list_response(response: &ApiListResponse) -> (r: MangaPageResult)
    ensures
        r.entries@.len() == response.data@.len(),
        forall|i: int| 0 <= i < r.entries@.len() ==> card_manga(#[trigger] response.data@[i], r.entries@[i]),
        r.has_next_page == (response.page < response.pages),
{
    let mut entries: Vec<Manga> = Vec::new();
    let mut i: usize = 0;
    while i < response.data.len()
        invariant
            i <= response.data@.len(),
            entries@.len() == i,
            forall|j: int| 0 <= j < i ==> card_manga(#[trigger] response.data@[j], entries@[j]),
        decreases response.data@.len() - i,
    {
        entries.push(manga_from_card(&response.data[i]));
        i += 1;
    }
    MangaPageResult { entries, has_next_page: response.page < response.pages }
}

/// A chapter with identifier `id`, optional title and number text, of the
/// series `slug`, uploaded at `now`.
pub open spec fn chapter_built(id: i64, title: Option<String>, number: Seq<char>, slug: Seq<char>, now: i64, c: Chapter) -> bool {
    &&& c.key@ == signed_decimal(id as int)
    &&& opt_view(c.title) == Some(
        match title {
            Some(t) => if trim(t@).len() > 0 {
                trim(t@)
            } else {
                chapter_title_spec(number)
            },
            None => chapter_title_spec(number),
        },
    )
    &&& opt_view(c.chapter_number) == Some(chapter_number_text(number))
    &&& c.date_uploaded == Some(now)
    &&& opt_view(c.url) == Some(chapter_url_spec(slug, signed_decimal(id as int)))
    &&& opt_view(c.language) == Some("pt-BR"@)
    &&& !c.locked
}

fn build_chapter(id: i64, title: &Option<String>, number: &str, slug: &str, now: i64) -> (c: Chapter)
    ensures
        chapter_built(id, *title, number@, slug@, now, c),
{
    let key = string_of(decimal_i64(id).as_slice());
    let title_text = match title {
        Some(t) => {
            let tt = trim_str(t.as_str());
            if tt.len() > 0 {
                string_of(tt.as_slice())
            } else {
                chapter_title_from_number(number)
            }
        },
        None => chapter_title_from_number(number),
    };
    let url = chapter_url_from_slug_and_id(slug, key.as_str());
    let mut c = Chapter::with_key(key);
    c.title = Some(title_text);
    c.chapter_number = Some(chapter_number_token(number));
    c.date_uploaded = Some(now);
    c.url = Some(url);
    c.language = Some(string_of(lit("pt-BR").as_slice()));
    c
}

/// An API chapter as a chapter of the series `slug`, dated `now` (the time of the listing).
pub fn chapter_from_api(chapter: &ApiChapter, slug: &str, now: i64) -> (c: Chapter)
    ensures
        chapter_built(chapter.id, chapter.title, trim(chapter.number@), slug@, now, c),
{
    let number = string_of(trim_str(chapter.number.as_str()).as_slice());
    build_chapter(chapter.id, &chapter.title, number.as_str(), slug, now)
}

/// A listing card with its most recent chapter, when it lists one.
pub fn manga_with_recent_chapter(card: &ApiMangaCard, now: i64) -> (r: Option<MangaWithChapter>)
    ensures
        match card.recent_chapters {
            Some(chs) if chs@.len() > 0 => r matches Some(mc) && card_manga(*card, mc.manga)
                && chapter_built(chs@[0].id, chs@[0].title, trim(chs@[0].number@), card_slug(*card), now, mc.chapter),
            _ => r is None,
        },
{
    match &card.recent_chapters {
        Some(chs) => {
            if chs.len() == 0 {
                return None;
            }
            let manga = manga_from_card(card);
            let chapter = chapter_from_api(&chs[0], manga.key.as_str(), now);
            Some(MangaWithChapter { manga, chapter })
        },
        None => None,
    }
}

/// A chapter captured in the web view.
#[derive(Clone, Debug)]
pub struct WebViewMangaChapter {
    pub id: i64,
    pub number: Option<String>,
    pub title: Option<String>,
    pub date_uploaded: Option<String>,
}

/// A series' details captured in the web view.
#[derive(Clone, Debug)]
pub struct WebViewMangaDetails {
    pub title: String,
    pub cover_url: Option<String>,
    pub description: Option<String>,
    pub status: Option<String>,
    pub chapters: Vec<WebViewMangaChapter>,
}

/// The number text of a captured chapter (empty when it has none).
pub open spec fn captured_number(c: WebViewMangaChapter) -> Seq<char> {
    match c.number {
        Some(n) => n@,
        None => Seq::<char>::empty(),
    }
}

/// A captured chapter as a chapter of the series `slug`, dated `now`.
pub fn chapter_from_webview(chapter: &WebViewMangaChapter, slug: &str, now: i64) -> (c: Chapter)
    ensures
        chapter_built(chapter.id, chapter.title, captured_number(*chapter), slug@, now, c),
{
    let number = match &chapter.number {
        Some(n) => n.clone(),
        None => String::new(),
    };
    build_chapter(chapter.id, &chapter.title, number.as_str(), slug, now)
}

/// Fills a series from a web-view capture: details when asked (key, title,
/// cover, empty people and tags, description, status, address, vertical
/// reader, safe rating), chapters when asked.
pub fn apply_details_from_webview(
    manga: &mut Manga,
    details: &WebViewMangaDetails,
    slug: &str,
    needs_details: bool,
    needs_chapters: bool,
    now: i64,
)
    ensures
        needs_details ==> {
            &&& final(manga).key@ == slug@
            &&& final(manga).title == details.title
            &&& final(manga).cover == details.cover_url
            &&& final(manga).authors matches Some(a) && a@.len() == 0
            &&& final(manga).artists matches Some(a) && a@.len() == 0
            &&& final(manga).tags matches Some(a) && a@.len() == 0
            &&& final(manga).description == details.description
            &&& final(manga).status == status_from_label(details.status)
            &&& opt_view(final(manga).url) == Some(manga_url_spec(slug@))
            &&& final(manga).viewer == Viewer::Vertical
            &&& final(manga).content_rating == ContentRating::Safe
        },
        !needs_details ==> {
            &&& final(manga).key == old(manga).key
            &&& final(manga).title == old(manga).title
            &&& final(manga).cover == old(manga).cover
            &&& final(manga).authors == old(manga).authors
            &&& final(manga).artists == old(manga).artists
            &&& final(manga).tags == old(manga).tags
            &&& final(manga).description == old(manga).description
            &&& final(manga).status == old(manga).status
            &&& final(manga).url == old(manga).url
            &&& final(manga).viewer == old(manga).viewer
            &&& final(manga).content_rating == old(manga).content_rating
        },
        needs_chapters ==> (final(manga).chapters matches Some(cs) && cs@.len() == details.chapters@.len()
            && forall|i: int| 0 <= i < cs@.len() ==> chapter_built(
                #[trigger] details.chapters@[i].id,
                details.chapters@[i].title,
                captured_number(details.chapters@[i]),
                slug@,
                now,
                cs@[i],
            )),
        !needs_chapters ==> final(manga).chapters == old(manga).chapters,
{
    if needs_details {
        manga.key = string_of(chars_of(slug).as_slice());
        manga.title = details.title.clone();
        manga.cover = copy_opt_string(&details.cover_url);
        manga.authors = Some(Vec::new());
        manga.artists = Some(Vec::new());
        manga.tags = Some(Vec::new());
        manga.description = copy_opt_string(&details.description);
        manga.status = match &details.status {
            Some(s) => manga_status_from_text(s.as_str()),
            None => MangaStatus::Unknown,
        };
        manga.url = Some(manga_url_from_slug(slug));
        manga.viewer = Viewer::Vertical;
        manga.content_rating = ContentRating::Safe;
    }
    if needs_chapters {
        let mut out: Vec<Chapter> = Vec::new();
        let mut i: usize = 0;
        while i < details.chapters.len()
            invariant
                i <= details.chapters@.len(),
                out@.len() == i,
                forall|j: int| 0 <= j < i ==> chapter_built(
                    #[trigger] details.chapters@[j].id,
                    details.chapters@[j].title,
                    captured_number(details.chapters@[j]),
                    slug@,
                    now,
                    out@[j],
                ),
            decreases details.chapters@.len() - i,
        {
            out.push(chapter_from_webview(&details.chapters[i], slug, now));
            i += 1;
        }
        manga.chapters = Some(out);
    }
}

} // verus!

verus! {

/// Whether a card lists a recent chapter.
pub open spec fn has_recent(card: ApiMangaCard) -> bool {
    card.recent_chapters matches Some(chs) && chs@.len() > 0
}

/// The cards of `cards` that list a recent chapter, in their order.
pub open spec fn cards_with_recent(cards: Seq<ApiMangaCard>) -> Seq<ApiMangaCard>
    decreases cards.len(),
{
    if cards.len() == 0 {
        Seq::<ApiMangaCard>::empty()
    } else {
        let rest = cards_with_recent(cards.drop_last());
        if has_recent(cards.last()) {
            rest.push(cards.last())
        } else {
            rest
        }
    }
}

/// A home entry for a card: the series and its most recent chapter, dated `now`.
pub open spec fn recent_entry(card: ApiMangaCard, now: i64, mc: MangaWithChapter) -> bool {
    card_manga(card, mc.manga) && match card.recent_chapters {
        Some(chs) => chapter_built(chs@[0].id, chs@[0].title, trim(chs@[0].number@), card_slug(card), now, mc.chapter),
        None => false,
    }
}

/// A tile for a card's series.
pub open spec fn card_link(card: ApiMangaCard, l: Link) -> bool {
    card_manga(card, l.manga) && l.title == l.manga.title && l.subtitle == l.manga.description
        && l.image_url == l.manga.cover
}

/// The first `HOME_PAGE_SIZE` items of `s` (all of them when there are fewer).
pub open spec fn home_take<T>(s: Seq<T>) -> Seq<T> {
    if s.len() < HOME_PAGE_SIZE {
        s
    } else {
        s.take(HOME_PAGE_SIZE as int)
    }
}

/// The home screen from the first page of releases: the first
/// `HOME_PAGE_SIZE` series, the first `HOME_PAGE_SIZE` of all series that list
/// a recent chapter (with it, dated `now`), and tiles for the first series.
pub fn home_sections(response: &ApiListResponse, now: i64) -> (h: HomeSections)
    ensures
        h.releases@.len() == home_take(response.data@).len(),
        forall|i: int| 0 <= i < h.releases@.len() ==> card_manga(response.data@[i], #[trigger] h.releases@[i]),
        h.more@.len() == h.releases@.len(),
        forall|i: int| 0 <= i < h.more@.len() ==> card_link(response.data@[i], #[trigger] h.more@[i]),
        h.recent@.len() == home_take(cards_with_recent(response.data@)).len(),
        forall|i: int| 0 <= i < h.recent@.len() ==> recent_entry(
            cards_with_recent(response.data@)[i],
            now,
            #[trigger] h.recent@[i],
        ),
{
    let cards = &response.data;
    let mut releases: Vec<Manga> = Vec::new();
    let mut more: Vec<Link> = Vec::new();
    let mut i: usize = 0;
    while i < cards.len() && i < HOME_PAGE_SIZE
        invariant
            i <= cards@.len(),
            i <= HOME_PAGE_SIZE,
            releases@.len() == i,
            more@.len() == i,
            forall|j: int| 0 <= j < i ==> card_manga(cards@[j], #[trigger] releases@[j]),
            forall|j: int| 0 <= j < i ==> card_link(cards@[j], #[trigger] more@[j]),
        decreases cards@.len() - i,
    {
        releases.push(manga_from_card(&cards[i]));
        more.push(manga_to_link(manga_from_card(&cards[i])));
        i += 1;
    }
    let mut recent: Vec<MangaWithChapter> = Vec::new();
    let mut k: usize = 0;
    assert(cards@.take(0) =~= Seq::<ApiMangaCard>::empty());
    while k < cards.len()
        invariant
            k <= cards@.len(),
            recent@.len() == home_take(cards_with_recent(cards@.take(k as int))).len(),
            forall|j: int| 0 <= j < recent@.len() ==> recent_entry(
                cards_with_recent(cards@.take(k as int))[j],
                now,
                #[trigger] recent@[j],
            ),
        decreases cards@.len() - k,
    {
        let ghost before = recent@;
        let ghost prev = cards_with_recent(cards@.take(k as int));
        assert(cards@.take(k + 1).drop_last() =~= cards@.take(k as int));
        assert(cards@.take(k + 1).last() == cards@[k as int]);
        if recent.len() < HOME_PAGE_SIZE {
            match manga_with_recent_chapter(&cards[k], now) {
                Some(mc) => {
                    recent.push(mc);
                    assert(forall|j: int| 0 <= j < before.len() ==> recent@[j] == before[j]);
                },
                None => {},
            }
        }
        k += 1;
    }
    assert(cards@.take(cards@.len() as int) =~= cards@);
    HomeSections { releases, recent, more }
}

} // verus!

verus! {

/// The slug a series is updated by; without one the update fails.
pub fn manga_update_slug(manga: &Manga) -> (r: Result<String, String>)
    ensures
        match manga_slug_of(manga.key@, opt_view(manga.url)) {
            Some(s) => r matches Ok(slug) && slug@ == s,
            None => r matches Err(e) && e@ == "Unable to resolve manga slug"@,
        },
{
    match manga_slug_from_manga(manga) {
        Some(slug) => Ok(slug),
        None => Err(string_of(lit("Unable to resolve manga slug").as_slice())),
    }
}

} // verus!
