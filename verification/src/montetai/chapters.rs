//! Monte Tai Scanlator: the chapter list of a series page, read from the
//! page's JSON chapter data or, without it, from its chapter links.
//!
//! A chapter's title and number are read from free text by functions that
//! cut the text (see `numbers`); a row on which such a cut would fall inside
//! a character stops the whole reading, and the functions below say so by
//! returning `None`.

use crate::model::opt_view;
use crate::montetai::elements::{LinkInfo, attr_url, link_url, norm_of};
use crate::montetai::numbers::{
    chapter_number_of, chapter_number_sliceable, chapter_title_from_text, chapter_title_of,
    extract_date_token, first_date_token, is_chapter_number_sliceable, is_title_sliceable,
    parse_chapter_number, title_sliceable,
};
use crate::montetai::utils::{
    absolute, absolute_url, chapter_key_from_url, chapter_key_of, is_chapter_link, is_chapter_url,
    normalize_text, or_empty,
};
use crate::text::{append, chars_of, contains, contains_exec, lit, lowercase, lowercase_chars, normalize, string_of, words};
use crate::url::strings_view;
use vstd::prelude::*;

verus! {

/// One row of the page's JSON chapter data.
#[derive(Clone, Debug)]
pub struct MtxChapterJsonEntry {
    pub url: Option<String>,
    pub title: Option<String>,
    pub meta: Option<String>,
    pub search: Option<String>,
}

/// A chapter link of a series page: the link, the text of its title element
/// and that of its date element, when it has them.
#[derive(Clone, Debug)]
pub struct ChapterLinkInfo {
    pub link: LinkInfo,
    pub label_text: Option<String>,
    pub meta_text: Option<String>,
}

/// A chapter read from a series page. `date_texts` are the texts of its
/// upload date to try, in order (the first that reads as a `dd/MM/yyyy` or
/// `d/M/yyyy` date is the date).
#[derive(Clone, Debug)]
pub struct ScrapedChapter {
    pub key: String,
    pub title: String,
    pub number: Option<String>,
    pub date_texts: Vec<String>,
    pub url: String,
}

/// Key, title, number, date texts and page of a chapter.
pub type ChapterView = (Seq<char>, Seq<char>, Option<Seq<char>>, Seq<Seq<char>>, Seq<char>);

/// The view of a chapter.
pub open spec fn chapter_view(c: ScrapedChapter) -> ChapterView {
    (c.key@, c.title@, opt_view(c.number), strings_view(c.date_texts@), c.url@)
}

/// The views of a list of chapters.
pub open spec fn chapter_views(cs: Seq<ScrapedChapter>) -> Seq<ChapterView> {
    cs.map_values(|c: ScrapedChapter| chapter_view(c))
}

/// The keys of a list of chapter views.
pub open spec fn chapter_keys(cs: Seq<ChapterView>) -> Seq<Seq<char>> {
    cs.map_values(|c: ChapterView| c.0)
}

/// What a row gives: nothing, a chapter, or a cut inside a character.
pub enum RowOutcome {
    Skip,
    Take(ChapterView),
    Stuck,
}

/// The marker that the chapter links of series `key` hold: `/manga/<key>/`.
pub open spec fn key_marker(manga_key: Option<Seq<char>>) -> Option<Seq<char>> {
    match manga_key {
        Some(k) => if k.len() > 0 {
            Some("/manga/"@ + k + "/"@)
        } else {
            None
        },
        None => None,
    }
}

/// A chapter link that belongs to the series (any, without a marker).
pub open spec fn in_series(url: Seq<char>, marker: Option<Seq<char>>) -> bool {
    match marker {
        Some(m) => contains(url, m),
        None => true,
    }
}

/// The date texts of one candidate (none or one).
pub open spec fn date_list(d: Option<Seq<char>>) -> Seq<Seq<char>> {
    match d {
        Some(x) => seq![x],
        None => Seq::<Seq<char>>::empty(),
    }
}

/// A JSON row: a chapter link of the series with a new key and a title (its
/// own, else one read from its link), with its number from the title, else
/// from the row's search text, and the date in its meta text.
pub open spec fn json_step(row: MtxChapterJsonEntry, marker: Option<Seq<char>>, keys: Seq<Seq<char>>) -> RowOutcome {
    match row.url {
        None => RowOutcome::Skip,
        Some(raw) => {
            let url = absolute(raw@);
            if !is_chapter_link(url) || !in_series(url, marker) {
                RowOutcome::Skip
            } else {
                match chapter_key_of(url) {
                    None => RowOutcome::Skip,
                    Some(key) => if keys.contains(key) {
                        RowOutcome::Skip
                    } else {
                        let t0 = norm_of(row.title);
                        if t0.len() == 0 && !title_sliceable(url) {
                            RowOutcome::Stuck
                        } else {
                            let title = if t0.len() == 0 {
                                chapter_title_of(url)
                            } else {
                                t0
                            };
                            let dates = date_list(first_date_token(words(norm_of(row.meta))));
                            if title.len() == 0 {
                                RowOutcome::Skip
                            } else if !chapter_number_sliceable(title, url) {
                                RowOutcome::Stuck
                            } else {
                                match chapter_number_of(title, url) {
                                    Some(n) => RowOutcome::Take((key, title, Some(n), dates, url)),
                                    None => match row.search {
                                        None => RowOutcome::Take((key, title, None, dates, url)),
                                        Some(s) => if !chapter_number_sliceable(s@, url) {
                                            RowOutcome::Stuck
                                        } else {
                                            RowOutcome::Take(
                                                (key, title, chapter_number_of(s@, url), dates, url),
                                            )
                                        },
                                    },
                                }
                            }
                        }
                    },
                }
            }
        },
    }
}

/// The chapters of the JSON rows, in order, each key once; none when a row
/// gets stuck.
pub open spec fn json_chapters(rows: Seq<MtxChapterJsonEntry>, marker: Option<Seq<char>>) -> Option<Seq<ChapterView>>
    decreases rows.len(),
{
    if rows.len() == 0 {
        Some(Seq::<ChapterView>::empty())
    } else {
        match json_chapters(rows.drop_last(), marker) {
            None => None,
            Some(cs) => match json_step(rows.last(), marker, chapter_keys(cs)) {
                RowOutcome::Skip => Some(cs),
                RowOutcome::Take(c) => Some(cs.push(c)),
                RowOutcome::Stuck => None,
            },
        }
    }
}

/// Once the rows read so far get stuck, all of them do.
pub proof fn lemma_json_stuck(rows: Seq<MtxChapterJsonEntry>, marker: Option<Seq<char>>, i: int)
    requires
        0 <= i <= rows.len(),
        json_chapters(rows.take(i), marker) is None,
    ensures
        json_chapters(rows, marker) is None,
    decreases rows.len() - i,
{
    if i < rows.len() {
        assert(rows.take(i + 1).drop_last() == rows.take(i));
        lemma_json_stuck(rows, marker, i + 1);
    } else {
        assert(rows.take(i) == rows);
    }
}

fn key_marker_exec(manga_key: Option<&str>) -> (r: Option<Vec<char>>)
    ensures
        match r {
            Some(m) => key_marker(match manga_key {
                Some(k) => Some(k@),
                None => None,
            }) == Some(m@),
            None => key_marker(match manga_key {
                Some(k) => Some(k@),
                None => None,
            }) is None,
        },
{
    match manga_key {
        Some(k) => {
            let kc = chars_of(k);
            if kc.len() > 0 {
                let mut m = lit("/manga/");
                append(&mut m, kc.as_slice());
                append(&mut m, lit("/").as_slice());
                Some(m)
            } else {
                None
            }
        },
        None => None,
    }
}

fn in_series_exec(url: &str, marker: &Option<Vec<char>>) -> (b: bool)
    ensures
        b == in_series(url@, match marker {
            Some(m) => Some(m@),
            None => None,
        }),
{
    match marker {
        Some(m) => contains_exec(chars_of(url).as_slice(), m.as_slice()),
        None => true,
    }
}

fn has_chapter_key(cs: &Vec<ScrapedChapter>, key: &String) -> (b: bool)
    ensures
        b == chapter_keys(chapter_views(cs@)).contains(key@),
{
    let mut i: usize = 0;
    while i < cs.len()
        invariant
            i <= cs@.len(),
            forall|j: int| 0 <= j < i ==> cs@[j].key@ != key@,
        decreases cs@.len() - i,
    {
        if cs[i].key == *key {
            assert(chapter_keys(chapter_views(cs@))[i as int] == key@);
            return true;
        }
        i += 1;
    }
    assert forall|j: int| 0 <= j < chapter_keys(chapter_views(cs@)).len() implies chapter_keys(
        chapter_views(cs@),
    )[j] != key@ by {
        assert(chapter_keys(chapter_views(cs@))[j] == cs@[j].key@);
    }
    false
}

fn date_list_exec(d: Option<String>) -> (r: Vec<String>)
    ensures
        strings_view(r@) == date_list(opt_view(d)),
{
    let mut v: Vec<String> = Vec::new();
    match d {
        Some(x) => {
            v.push(x);
        },
        None => {},
    }
    v
}

/// What a JSON row gives, read with the keys already taken.
fn json_row(row: &MtxChapterJsonEntry, marker: &Option<Vec<char>>, taken: &Vec<ScrapedChapter>) -> (r: Option<Option<ScrapedChapter>>)
    ensures
        match r {
            None => json_step(*row, match marker {
                Some(m) => Some(m@),
                None => None,
            }, chapter_keys(chapter_views(taken@))) == RowOutcome::Stuck,
            Some(None) => json_step(*row, match marker {
                Some(m) => Some(m@),
                None => None,
            }, chapter_keys(chapter_views(taken@))) == RowOutcome::Skip,
            Some(Some(c)) => json_step(*row, match marker {
                Some(m) => Some(m@),
                None => None,
            }, chapter_keys(chapter_views(taken@))) == RowOutcome::Take(chapter_view(c)),
        },
{
    let raw = match &row.url {
        Some(u) => u,
        None => {
            return Some(None);
        },
    };
    let url = absolute_url(raw.as_str());
    if !is_chapter_url(url.as_str()) || !in_series_exec(url.as_str(), marker) {
        return Some(None);
    }
    let key = match chapter_key_from_url(url.as_str()) {
        Some(k) => k,
        None => {
            return Some(None);
        },
    };
    if has_chapter_key(taken, &key) {
        return Some(None);
    }
    let t0 = match &row.title {
        Some(t) => normalize_text(t.as_str()),
        None => normalize_text(String::new().as_str()),
    };
    let title = if t0.as_str().is_empty() {
        if !is_title_sliceable(url.as_str()) {
            return None;
        }
        chapter_title_from_text(url.as_str())
    } else {
        t0
    };
    let meta = match &row.meta {
        Some(t) => normalize_text(t.as_str()),
        None => normalize_text(String::new().as_str()),
    };
    let dates = date_list_exec(extract_date_token(meta.as_str()));
    if title.as_str().is_empty() {
        return Some(None);
    }
    if !is_chapter_number_sliceable(title.as_str(), url.as_str()) {
        return None;
    }
    let number = match parse_chapter_number(title.as_str(), url.as_str()) {
        Some(n) => Some(n),
        None => match &row.search {
            None => None,
            Some(s) => {
                if !is_chapter_number_sliceable(s.as_str(), url.as_str()) {
                    return None;
                }
                parse_chapter_number(s.as_str(), url.as_str())
            },
        },
    };
    Some(Some(ScrapedChapter { key, title, number, date_texts: dates, url }))
}

/// The chapters of the page's JSON chapter data for series `manga_key`
/// (every series without a key); `None` when a row gets stuck.
pub fn try_parse_manga_chapters_from_json(rows: &Vec<MtxChapterJsonEntry>, manga_key: Option<&str>) -> (r: Option<Vec<ScrapedChapter>>)
    ensures
        match r {
            Some(cs) => json_chapters(rows@, key_marker(match manga_key {
                Some(k) => Some(k@),
                None => None,
            })) == Some(chapter_views(cs@)),
            None => json_chapters(rows@, key_marker(match manga_key {
                Some(k) => Some(k@),
                None => None,
            })) is None,
        },
{
    let marker = key_marker_exec(manga_key);
    let ghost mk = key_marker(match manga_key {
        Some(k) => Some(k@),
        None => None,
    });
    let mut out: Vec<ScrapedChapter> = Vec::new();
    let mut i: usize = 0;
    assert(rows@.take(0) == Seq::<MtxChapterJsonEntry>::empty());
    while i < rows.len()
        invariant
            i <= rows@.len(),
            mk == key_marker(match manga_key {
                Some(k) => Some(k@),
                None => None,
            }),
            mk == match marker {
                Some(m) => Some(m@),
                None => None,
            },
            json_chapters(rows@.take(i as int), mk) == Some(chapter_views(out@)),
        decreases rows@.len() - i,
    {
        assert(rows@.take(i + 1).drop_last() == rows@.take(i as int));
        assert(rows@.take(i + 1).last() == rows@[i as int]);
        match json_row(&rows[i], &marker, &out) {
            None => {
                proof {
                    assert(json_chapters(rows@.take(i + 1), mk) is None);
                    lemma_json_stuck(rows@, mk, i + 1);
                    assert(json_chapters(rows@, mk) is None);
                }
                return None;
            },
            Some(None) => {},
            Some(Some(c)) => {
                let ghost before = out@;
                out.push(c);
                assert(chapter_views(out@) == chapter_views(before).push(chapter_view(c)));
            },
        }
        i += 1;
    }
    assert(rows@.take(rows@.len() as int) == rows@);
    Some(out)
}

/// The chapters of the page's JSON chapter data, on data where no row gets stuck.
pub fn parse_manga_chapters_from_json(rows: &Vec<MtxChapterJsonEntry>, manga_key: Option<&str>) -> (r: Vec<ScrapedChapter>)
    requires
        json_chapters(rows@, key_marker(match manga_key {
            Some(k) => Some(k@),
            None => None,
        })) is Some,
    ensures
        json_chapters(rows@, key_marker(match manga_key {
            Some(k) => Some(k@),
            None => None,
        })) == Some(chapter_views(r@)),
{
    match try_parse_manga_chapters_from_json(rows, manga_key) {
        Some(cs) => cs,
        None => Vec::new(),
    }
}

} // verus!

verus! {

/// A chapter link: a chapter link of the series whose title (from its title
/// element, else read from its text) names a chapter, with a new key, its
/// number from the title, else from its text, and the dates in its date
/// element and in its text.
pub open spec fn link_step(cl: ChapterLinkInfo, marker: Option<Seq<char>>, keys: Seq<Seq<char>>) -> RowOutcome {
    match link_url(cl.link) {
        None => RowOutcome::Skip,
        Some(url) => if !is_chapter_link(url) || !in_series(url, marker) {
            RowOutcome::Skip
        } else {
            let class = lowercase(or_empty(opt_view(cl.link.class_name)));
            let link_text = norm_of(cl.link.text);
            let t0 = norm_of(cl.label_text);
            if t0.len() == 0 && !title_sliceable(link_text) {
                RowOutcome::Stuck
            } else {
                let title = if t0.len() == 0 {
                    chapter_title_of(link_text)
                } else {
                    t0
                };
                if title.len() == 0 {
                    RowOutcome::Skip
                } else if !contains(lowercase(title), "capitulo"@) && !contains(lowercase(link_text), "capitulo"@)
                    && !contains(class, "chapter"@) {
                    RowOutcome::Skip
                } else {
                    match chapter_key_of(url) {
                        None => RowOutcome::Skip,
                        Some(key) => if keys.contains(key) {
                            RowOutcome::Skip
                        } else {
                            let meta_date = match cl.meta_text {
                                Some(t) => first_date_token(words(normalize(t@))),
                                None => None,
                            };
                            let dates = date_list(meta_date) + date_list(first_date_token(words(link_text)));
                            if !chapter_number_sliceable(title, url) {
                                RowOutcome::Stuck
                            } else {
                                match chapter_number_of(title, url) {
                                    Some(n) => RowOutcome::Take((key, title, Some(n), dates, url)),
                                    None => if !chapter_number_sliceable(link_text, url) {
                                        RowOutcome::Stuck
                                    } else {
                                        RowOutcome::Take(
                                            (key, title, chapter_number_of(link_text, url), dates, url),
                                        )
                                    },
                                }
                            }
                        },
                    }
                }
            }
        },
    }
}

/// The chapters of the chapter links, in order, each key once; none when a
/// link gets stuck.
pub open spec fn link_chapters(links: Seq<ChapterLinkInfo>, marker: Option<Seq<char>>) -> Option<Seq<ChapterView>>
    decreases links.len(),
{
    if links.len() == 0 {
        Some(Seq::<ChapterView>::empty())
    } else {
        match link_chapters(links.drop_last(), marker) {
            None => None,
            Some(cs) => match link_step(links.last(), marker, chapter_keys(cs)) {
                RowOutcome::Skip => Some(cs),
                RowOutcome::Take(c) => Some(cs.push(c)),
                RowOutcome::Stuck => None,
            },
        }
    }
}

/// Once the links read so far get stuck, all of them do.
pub proof fn lemma_links_stuck(links: Seq<ChapterLinkInfo>, marker: Option<Seq<char>>, i: int)
    requires
        0 <= i <= links.len(),
        link_chapters(links.take(i), marker) is None,
    ensures
        link_chapters(links, marker) is None,
    decreases links.len() - i,
{
    if i < links.len() {
        assert(links.take(i + 1).drop_last() == links.take(i));
        lemma_links_stuck(links, marker, i + 1);
    } else {
        assert(links.take(i) == links);
    }
}

/// What a chapter link gives, read with the keys already taken.
fn link_row(cl: &ChapterLinkInfo, marker: &Option<Vec<char>>, taken: &Vec<ScrapedChapter>) -> (r: Option<Option<ScrapedChapter>>)
    ensures
        match r {
            None => link_step(*cl, match marker {
                Some(m) => Some(m@),
                None => None,
            }, chapter_keys(chapter_views(taken@))) == RowOutcome::Stuck,
            Some(None) => link_step(*cl, match marker {
                Some(m) => Some(m@),
                None => None,
            }, chapter_keys(chapter_views(taken@))) == RowOutcome::Skip,
            Some(Some(c)) => link_step(*cl, match marker {
                Some(m) => Some(m@),
                None => None,
            }, chapter_keys(chapter_views(taken@))) == RowOutcome::Take(chapter_view(c)),
        },
{
    let url = match attr_url(&cl.link) {
        Some(u) => u,
        None => {
            return Some(None);
        },
    };
    if !is_chapter_url(url.as_str()) || !in_series_exec(url.as_str(), marker) {
        return Some(None);
    }
    let class = match &cl.link.class_name {
        Some(c) => lowercase_chars(chars_of(c.as_str()).as_slice()),
        None => {
            let e: Vec<char> = Vec::new();
            lowercase_chars(e.as_slice())
        },
    };
    let link_text = match &cl.link.text {
        Some(t) => normalize_text(t.as_str()),
        None => normalize_text(String::new().as_str()),
    };
    let t0 = match &cl.label_text {
        Some(t) => normalize_text(t.as_str()),
        None => normalize_text(String::new().as_str()),
    };
    let title = if t0.as_str().is_empty() {
        if !is_title_sliceable(link_text.as_str()) {
            return None;
        }
        chapter_title_from_text(link_text.as_str())
    } else {
        t0
    };
    if title.as_str().is_empty() {
        return Some(None);
    }
    let cap = lit("capitulo");
    let title_lower = lowercase_chars(chars_of(title.as_str()).as_slice());
    let text_lower = lowercase_chars(chars_of(link_text.as_str()).as_slice());
    if !contains_exec(title_lower.as_slice(), cap.as_slice()) && !contains_exec(text_lower.as_slice(), cap.as_slice())
        && !contains_exec(class.as_slice(), lit("chapter").as_slice()) {
        return Some(None);
    }
    let key = match chapter_key_from_url(url.as_str()) {
        Some(k) => k,
        None => {
            return Some(None);
        },
    };
    if has_chapter_key(taken, &key) {
        return Some(None);
    }
    let meta_date = match &cl.meta_text {
        Some(t) => extract_date_token(normalize_text(t.as_str()).as_str()),
        None => None,
    };
    let mut dates = date_list_exec(meta_date);
    let mut more = date_list_exec(extract_date_token(link_text.as_str()));
    let ghost d1 = dates@;
    let ghost d2 = more@;
    dates.append(&mut more);
    assert(strings_view(dates@) == strings_view(d1) + strings_view(d2));
    if !is_chapter_number_sliceable(title.as_str(), url.as_str()) {
        return None;
    }
    let number = match parse_chapter_number(title.as_str(), url.as_str()) {
        Some(n) => Some(n),
        None => {
            if !is_chapter_number_sliceable(link_text.as_str(), url.as_str()) {
                return None;
            }
            parse_chapter_number(link_text.as_str(), url.as_str())
        },
    };
    Some(Some(ScrapedChapter { key, title, number, date_texts: dates, url }))
}

/// The chapters of the page's chapter links for series `manga_key` (every
/// series without a key); `None` when a link gets stuck.
pub fn try_parse_manga_chapters_from_links(links: &Vec<ChapterLinkInfo>, manga_key: Option<&str>) -> (r: Option<Vec<ScrapedChapter>>)
    ensures
        match r {
            Some(cs) => link_chapters(links@, key_marker(match manga_key {
                Some(k) => Some(k@),
                None => None,
            })) == Some(chapter_views(cs@)),
            None => link_chapters(links@, key_marker(match manga_key {
                Some(k) => Some(k@),
                None => None,
            })) is None,
        },
{
    let marker = key_marker_exec(manga_key);
    let ghost mk = key_marker(match manga_key {
        Some(k) => Some(k@),
        None => None,
    });
    let mut out: Vec<ScrapedChapter> = Vec::new();
    let mut i: usize = 0;
    assert(links@.take(0) == Seq::<ChapterLinkInfo>::empty());
    while i < links.len()
        invariant
            i <= links@.len(),
            mk == key_marker(match manga_key {
                Some(k) => Some(k@),
                None => None,
            }),
            mk == match marker {
                Some(m) => Some(m@),
                None => None,
            },
            link_chapters(links@.take(i as int), mk) == Some(chapter_views(out@)),
        decreases links@.len() - i,
    {
        assert(links@.take(i + 1).drop_last() == links@.take(i as int));
        assert(links@.take(i + 1).last() == links@[i as int]);
        match link_row(&links[i], &marker, &out) {
            None => {
                proof {
                    assert(link_chapters(links@.take(i + 1), mk) is None);
                    lemma_links_stuck(links@, mk, i + 1);
                }
                return None;
            },
            Some(None) => {},
            Some(Some(c)) => {
                let ghost before = out@;
                out.push(c);
                assert(chapter_views(out@) == chapter_views(before).push(chapter_view(c)));
            },
        }
        i += 1;
    }
    assert(links@.take(links@.len() as int) == links@);
    Some(out)
}

/// The chapters of the page's chapter links, on links where none gets stuck.
pub fn parse_manga_chapters_from_links(links: &Vec<ChapterLinkInfo>, manga_key: Option<&str>) -> (r: Vec<ScrapedChapter>)
    requires
        link_chapters(links@, key_marker(match manga_key {
            Some(k) => Some(k@),
            None => None,
        })) is Some,
    ensures
        link_chapters(links@, key_marker(match manga_key {
            Some(k) => Some(k@),
            None => None,
        })) == Some(chapter_views(r@)),
{
    match try_parse_manga_chapters_from_links(links, manga_key) {
        Some(cs) => cs,
        None => Vec::new(),
    }
}

/// The chapters of a series page: from its JSON chapter data, else (when
/// that gives none) from its chapter links; none when the reading gets stuck.
pub open spec fn page_chapters(rows: Seq<MtxChapterJsonEntry>, links: Seq<ChapterLinkInfo>, manga_key: Option<Seq<char>>) -> Option<Seq<ChapterView>> {
    match json_chapters(rows, key_marker(manga_key)) {
        None => None,
        Some(cs) => if cs.len() > 0 {
            Some(cs)
        } else {
            link_chapters(links, key_marker(manga_key))
        },
    }
}

/// The chapters of a series page; `None` when the reading gets stuck.
pub fn try_parse_manga_chapters(rows: &Vec<MtxChapterJsonEntry>, links: &Vec<ChapterLinkInfo>, manga_key: Option<&str>) -> (r: Option<Vec<ScrapedChapter>>)
    ensures
        match r {
            Some(cs) => page_chapters(rows@, links@, match manga_key {
                Some(k) => Some(k@),
                None => None,
            }) == Some(chapter_views(cs@)),
            None => page_chapters(rows@, links@, match manga_key {
                Some(k) => Some(k@),
                None => None,
            }) is None,
        },
{
    match try_parse_manga_chapters_from_json(rows, manga_key) {
        None => None,
        Some(cs) => {
            if cs.len() > 0 {
                Some(cs)
            } else {
                try_parse_manga_chapters_from_links(links, manga_key)
            }
        },
    }
}

/// The chapters of a series page, on a page where the reading does not get stuck.
pub fn parse_manga_chapters(rows: &Vec<MtxChapterJsonEntry>, links: &Vec<ChapterLinkInfo>, manga_key: Option<&str>) -> (r: Vec<ScrapedChapter>)
    requires
        page_chapters(rows@, links@, match manga_key {
            Some(k) => Some(k@),
            None => None,
        }) is Some,
    ensures
        page_chapters(rows@, links@, match manga_key {
            Some(k) => Some(k@),
            None => None,
        }) == Some(chapter_views(r@)),
{
    match try_parse_manga_chapters(rows, links, manga_key) {
        Some(cs) => cs,
        None => Vec::new(),
    }
}

} // verus!

verus! {

/// Chapters with distinct keys, each naming a chapter (`/capitulo-`).
pub open spec fn well_keyed(cs: Seq<ChapterView>) -> bool {
    &&& forall|i: int, j: int| 0 <= i < j < cs.len() ==> (#[trigger] cs[i]).0 != (#[trigger] cs[j]).0
    &&& forall|i: int| 0 <= i < cs.len() ==> contains((#[trigger] cs[i]).0, "/capitulo-"@)
}

proof fn lemma_well_keyed_push(cs: Seq<ChapterView>, c: ChapterView)
    requires
        well_keyed(cs),
        !chapter_keys(cs).contains(c.0),
        contains(c.0, "/capitulo-"@),
    ensures
        well_keyed(cs.push(c)),
{
    assert forall|i: int| 0 <= i < cs.len() implies cs[i].0 != c.0 by {
        assert(chapter_keys(cs)[i] == cs[i].0);
    }
    let n = cs.push(c);
    assert forall|i: int, j: int| 0 <= i < j < n.len() implies (#[trigger] n[i]).0 != (#[trigger] n[j]).0 by {
        assert(n[i] == cs[i]);
        if j < cs.len() {
            assert(n[j] == cs[j]);
        }
    }
    assert forall|i: int| 0 <= i < n.len() implies contains((#[trigger] n[i]).0, "/capitulo-"@) by {
        if i < cs.len() {
            assert(n[i] == cs[i]);
        }
    }
}

/// The chapters read from the JSON chapter data have distinct keys, each
/// naming a chapter.
pub proof fn lemma_json_chapters_keys(rows: Seq<MtxChapterJsonEntry>, marker: Option<Seq<char>>)
    ensures
        json_chapters(rows, marker) matches Some(cs) ==> well_keyed(cs),
    decreases rows.len(),
{
    if rows.len() > 0 {
        lemma_json_chapters_keys(rows.drop_last(), marker);
        match json_chapters(rows.drop_last(), marker) {
            Some(cs) => match json_step(rows.last(), marker, chapter_keys(cs)) {
                RowOutcome::Take(c) => {
                    lemma_well_keyed_push(cs, c);
                },
                _ => {},
            },
            None => {},
        }
    }
}

/// The chapters read from the chapter links have distinct keys, each
/// naming a chapter.
pub proof fn lemma_link_chapters_keys(links: Seq<ChapterLinkInfo>, marker: Option<Seq<char>>)
    ensures
        link_chapters(links, marker) matches Some(cs) ==> well_keyed(cs),
    decreases links.len(),
{
    if links.len() > 0 {
        lemma_link_chapters_keys(links.drop_last(), marker);
        match link_chapters(links.drop_last(), marker) {
            Some(cs) => match link_step(links.last(), marker, chapter_keys(cs)) {
                RowOutcome::Take(c) => {
                    lemma_well_keyed_push(cs, c);
                },
                _ => {},
            },
            None => {},
        }
    }
}

/// The chapters of a series page have distinct keys, each naming a chapter.
pub proof fn lemma_page_chapters_keys(rows: Seq<MtxChapterJsonEntry>, links: Seq<ChapterLinkInfo>, manga_key: Option<Seq<char>>)
    ensures
        page_chapters(rows, links, manga_key) matches Some(cs) ==> well_keyed(cs),
{
    lemma_json_chapters_keys(rows, key_marker(manga_key));
    lemma_link_chapters_keys(links, key_marker(manga_key));
}

} // verus!

verus! {

/// The rows of a chapter-data script: those read from its text with the
/// HTML escapes undone, when they are not empty, else those read from its raw
/// text, when not empty; `None` (try the next script) otherwise.
pub fn mtx_rows_choice(decoded: Option<Vec<MtxChapterJsonEntry>>, raw: Option<Vec<MtxChapterJsonEntry>>) -> (r: Option<Vec<MtxChapterJsonEntry>>)
    ensures
        r == (if decoded matches Some(d) && d@.len() > 0 {
            decoded
        } else if raw matches Some(w) && w@.len() > 0 {
            raw
        } else {
            None::<Vec<MtxChapterJsonEntry>>
        }),
{
    match decoded {
        Some(d) => {
            if d.len() > 0 {
                return Some(d);
            }
        },
        None => {},
    }
    match raw {
        Some(w) => {
            if w.len() > 0 {
                return Some(w);
            }
        },
        None => {},
    }
    None
}

} // verus!

verus! {

/// A JSON row taken as a chapter carries as its date the first date word of
/// its normalized meta text, when the words before it have no slash.
pub proof fn lemma_json_row_date(
    row: MtxChapterJsonEntry,
    marker: Option<Seq<char>>,
    keys: Seq<Seq<char>>,
    pre: Seq<Seq<char>>,
    w: Seq<char>,
    rest: Seq<Seq<char>>,
    i: int,
    j: int,
)
    requires
        words(norm_of(row.meta)) == pre + seq![w] + rest,
        forall|k: int| 0 <= k < pre.len() ==> crate::montetai::numbers::slash_free(#[trigger] pre[k]),
        crate::montetai::numbers::date_word(w, i, j),
    ensures
        json_step(row, marker, keys) matches RowOutcome::Take(c) ==> c.3 == seq![w],
{
    crate::montetai::numbers::lemma_first_date_word(pre, w, rest, i, j);
}

/// A JSON row taken as a chapter has no date when no word of its normalized
/// meta text has a slash.
pub proof fn lemma_json_row_without_date(row: MtxChapterJsonEntry, marker: Option<Seq<char>>, keys: Seq<Seq<char>>)
    requires
        forall|k: int|
            0 <= k < words(norm_of(row.meta)).len() ==> crate::montetai::numbers::slash_free(
                #[trigger] words(norm_of(row.meta))[k],
            ),
    ensures
        json_step(row, marker, keys) matches RowOutcome::Take(c) ==> c.3 == Seq::<Seq<char>>::empty(),
{
    crate::montetai::numbers::lemma_no_date_without_slash(words(norm_of(row.meta)));
}

} // verus!
