//! Monte Tai Scanlator: the series listed on a home or search page, read from
//! the page's links and cards.

use crate::model::{ContentRating, Manga, MangaStatus, Viewer, opt_view};
use crate::montetai::elements::{
    ImageInfo, LinkInfo, alt_title, alt_title_exec, attr_url, extract_cover_from_images,
    extract_title_from_link, first_cover, link_url, norm_of, title_from_link, without_abrir,
};
use crate::montetai::utils::{
    is_manga_link, is_manga_url, looks_like_series_title, manga_key_from_url, manga_key_of,
    normalize_text, or_empty, series_title_like,
};
use crate::text::{chars_of, lit, normalize, normalize_chars, slice_range, starts_with, starts_with_exec, string_of};
use vstd::prelude::*;

verus! {

/// A listed series as the scraper reads it: key, title, cover and page.
pub type EntryView = (Seq<char>, Seq<char>, Option<Seq<char>>, Seq<char>);

/// The key, title, cover and page of a series.
pub open spec fn entry_of(m: Manga) -> EntryView {
    (m.key@, m.title@, opt_view(m.cover), or_empty(opt_view(m.url)))
}

/// A series built from a listing: only key, title, cover and page are known.
pub open spec fn bare_entry(m: Manga) -> bool {
    &&& m.url is Some
    &&& m.artists is None
    &&& m.authors is None
    &&& m.description is None
    &&& m.tags is None
    &&& m.status == MangaStatus::Unknown
    &&& m.content_rating == ContentRating::Unknown
    &&& m.viewer == Viewer::Unknown
    &&& m.chapters is None
}

fn entry(key: String, title: String, cover: Option<String>, url: String) -> (m: Manga)
    ensures
        entry_of(m) == (key@, title@, opt_view(cover), url@),
        bare_entry(m),
{
    let mut m = Manga::with_key(key);
    m.title = title;
    m.cover = cover;
    m.url = Some(url);
    m
}

/// The cover of the first of the (at most four) nearest ancestors whose images hold one.
pub open spec fn ancestor_cover(groups: Seq<Vec<ImageInfo>>, left: nat) -> Option<Seq<char>>
    decreases left,
{
    if left == 0 || groups.len() == 0 {
        None
    } else {
        match first_cover(groups[0]@) {
            Some(c) => Some(c),
            None => ancestor_cover(groups.drop_first(), (left - 1) as nat),
        }
    }
}

/// The cover of a series link: from the images inside it, else from those
/// of its four nearest ancestors.
pub open spec fn link_cover(l: LinkInfo) -> Option<Seq<char>> {
    match first_cover(l.images@) {
        Some(c) => Some(c),
        None => ancestor_cover(l.ancestor_images@, 4),
    }
}

/// The cover of a series link.
pub fn extract_cover_from_link(l: &LinkInfo) -> (r: Option<String>)
    ensures
        opt_view(r) == link_cover(*l),
{
    match extract_cover_from_images(&l.images) {
        Some(c) => {
            return Some(c);
        },
        None => {},
    }
    let groups = &l.ancestor_images;
    let mut i: usize = 0;
    assert(groups@.skip(0) == groups@);
    while i < groups.len() && i < 4
        invariant
            first_cover(l.images@) is None,
            groups@ == l.ancestor_images@,
            i <= groups@.len(),
            i <= 4,
            ancestor_cover(groups@.skip(i as int), (4 - i) as nat) == ancestor_cover(groups@, 4),
        decreases groups@.len() - i,
    {
        assert(groups@.skip(i as int)[0] == groups@[i as int]);
        assert(groups@.skip(i as int).drop_first() == groups@.skip(i + 1));
        assert(ancestor_cover(groups@.skip(i as int), (4 - i) as nat) == match first_cover(groups@[i as int]@) {
            Some(c) => Some(c),
            None => ancestor_cover(groups@.skip(i + 1), (4 - i - 1) as nat),
        });
        match extract_cover_from_images(&groups[i]) {
            Some(c) => {
                return Some(c);
            },
            None => {},
        }
        i += 1;
    }
    None
}

/// The series a link points at: a series link with a key and a title.
pub open spec fn link_entry(l: LinkInfo) -> Option<EntryView> {
    match link_url(l) {
        None => None,
        Some(u) => if !is_manga_link(u) {
            None
        } else {
            match manga_key_of(u) {
                None => None,
                Some(k) => match title_from_link(l, u) {
                    None => None,
                    Some(t) => Some((k, t, link_cover(l), u)),
                },
            }
        },
    }
}

/// The series a link points at.
pub fn manga_from_link(l: &LinkInfo) -> (r: Option<Manga>)
    ensures
        match r {
            Some(m) => link_entry(*l) == Some(entry_of(m)) && bare_entry(m),
            None => link_entry(*l) is None,
        },
{
    let url = match attr_url(l) {
        Some(u) => u,
        None => {
            return None;
        },
    };
    if !is_manga_url(url.as_str()) {
        return None;
    }
    let key = match manga_key_from_url(url.as_str()) {
        Some(k) => k,
        None => {
            return None;
        },
    };
    let title = match extract_title_from_link(l, url.as_str()) {
        Some(t) => t,
        None => {
            return None;
        },
    };
    let cover = extract_cover_from_link(l);
    Some(entry(key, title, cover, url))
}

/// The keys of a list of entries.
pub open spec fn entry_keys(es: Seq<EntryView>) -> Seq<Seq<char>> {
    es.map_values(|e: EntryView| e.0)
}

/// The entries found, in order, each key kept at its first occurrence.
pub open spec fn unique_entries(cands: Seq<Option<EntryView>>) -> Seq<EntryView>
    decreases cands.len(),
{
    if cands.len() == 0 {
        Seq::<EntryView>::empty()
    } else {
        let d = unique_entries(cands.drop_last());
        match cands.last() {
            Some(e) => if entry_keys(d).contains(e.0) {
                d
            } else {
                d.push(e)
            },
            None => d,
        }
    }
}

/// The entries of a list of series.
pub open spec fn entries_of(ms: Seq<Manga>) -> Seq<EntryView> {
    ms.map_values(|m: Manga| entry_of(m))
}

fn has_key(ms: &Vec<Manga>, key: &String) -> (b: bool)
    ensures
        b == entry_keys(entries_of(ms@)).contains(key@),
{
    let mut i: usize = 0;
    while i < ms.len()
        invariant
            i <= ms@.len(),
            forall|j: int| 0 <= j < i ==> ms@[j].key@ != key@,
        decreases ms@.len() - i,
    {
        if ms[i].key == *key {
            assert(entry_keys(entries_of(ms@))[i as int] == key@);
            return true;
        }
        i += 1;
    }
    assert forall|j: int| 0 <= j < entry_keys(entries_of(ms@)).len() implies entry_keys(entries_of(ms@))[j] != key@ by {
        assert(entry_keys(entries_of(ms@))[j] == ms@[j].key@);
    }
    false
}

/// Appends `m` unless a series with its key is already listed.
fn push_unique(out: &mut Vec<Manga>, m: Manga)
    ensures
        entries_of(final(out)@) == (if entry_keys(entries_of(old(out)@)).contains(entry_of(m).0) {
            entries_of(old(out)@)
        } else {
            entries_of(old(out)@).push(entry_of(m))
        }),
        forall|i: int| 0 <= i < final(out)@.len() ==> (#[trigger] final(out)@[i] == m || exists|j: int|
            0 <= j < old(out)@.len() && final(out)@[i] == old(out)@[j]),
{
    if !has_key(out, &m.key) {
        let ghost before = out@;
        out.push(m);
        assert(entries_of(out@) == entries_of(before).push(entry_of(m)));
        assert forall|i: int| 0 <= i < out@.len() implies (#[trigger] out@[i] == m || exists|j: int|
            0 <= j < before.len() && out@[i] == before[j]) by {
            if i < before.len() {
                assert(out@[i] == before[i]);
            }
        }
    } else {
        assert forall|i: int| 0 <= i < out@.len() implies (#[trigger] out@[i] == m || exists|j: int|
            0 <= j < old(out)@.len() && out@[i] == old(out)@[j]) by {
            assert(out@[i] == old(out)@[i]);
        }
    }
}

/// The series of the page's series links, each key once.
pub open spec fn link_entries(links: Seq<LinkInfo>) -> Seq<EntryView> {
    unique_entries(links.map_values(|l: LinkInfo| link_entry(l)))
}

/// The series of the page's series links, each key once.
pub fn parse_entries_from_urls(links: &Vec<LinkInfo>) -> (r: Vec<Manga>)
    ensures
        entries_of(r@) == link_entries(links@),
        forall|i: int| 0 <= i < r@.len() ==> bare_entry(#[trigger] r@[i]),
{
    let ghost cands = links@.map_values(|l: LinkInfo| link_entry(l));
    let mut out: Vec<Manga> = Vec::new();
    let mut i: usize = 0;
    while i < links.len()
        invariant
            i <= links@.len(),
            cands == links@.map_values(|l: LinkInfo| link_entry(l)),
            entries_of(out@) == unique_entries(cands.take(i as int)),
            forall|j: int| 0 <= j < out@.len() ==> bare_entry(#[trigger] out@[j]),
        decreases links@.len() - i,
    {
        assert(cands.take(i + 1).drop_last() == cands.take(i as int));
        assert(cands.take(i + 1).last() == link_entry(links@[i as int]));
        match manga_from_link(&links[i]) {
            Some(m) => {
                proof {
                    assert(bare_entry(m));
                }
                let ghost before = out@;
                push_unique(&mut out, m);
                assert forall|j: int| 0 <= j < out@.len() implies bare_entry(#[trigger] out@[j]) by {
                    if out@[j] != m {
                        let k = choose|k: int| 0 <= k < before.len() && out@[j] == before[k];
                        assert(bare_entry(before[k]));
                    }
                }
            },
            None => {},
        }
        i += 1;
    }
    assert(cands.take(links@.len() as int) == cands);
    out
}

} // verus!

verus! {

/// The first series link of `ls` whose normalized text can be a title: its
/// address and that text.
pub open spec fn text_pick(ls: Seq<LinkInfo>) -> Option<(Seq<char>, Seq<char>)>
    decreases ls.len(),
{
    if ls.len() == 0 {
        None
    } else {
        match link_url(ls[0]) {
            Some(u) => if is_manga_link(u) && series_title_like(norm_of(ls[0].text)) {
                Some((u, norm_of(ls[0].text)))
            } else {
                text_pick(ls.drop_first())
            },
            None => text_pick(ls.drop_first()),
        }
    }
}

/// The address of the first series link of `ls`.
pub open spec fn first_manga_url(ls: Seq<LinkInfo>) -> Option<Seq<char>>
    decreases ls.len(),
{
    if ls.len() == 0 {
        None
    } else {
        match link_url(ls[0]) {
            Some(u) => if is_manga_link(u) {
                Some(u)
            } else {
                first_manga_url(ls.drop_first())
            },
            None => first_manga_url(ls.drop_first()),
        }
    }
}

/// A title from a link's labels: its `aria-label` (without `Abrir `), else its
/// `title`, when it can be a title.
pub open spec fn label_title(l: LinkInfo) -> Option<Seq<char>> {
    let aria = without_abrir(norm_of(l.aria_label));
    let title = norm_of(l.title);
    if l.aria_label is Some && series_title_like(aria) {
        Some(aria)
    } else if l.title is Some && series_title_like(title) {
        Some(title)
    } else {
        None
    }
}

/// The label title of the first series link of `ls` that has one.
pub open spec fn first_label_title(ls: Seq<LinkInfo>) -> Option<Seq<char>>
    decreases ls.len(),
{
    if ls.len() == 0 {
        None
    } else {
        match link_url(ls[0]) {
            Some(u) => if is_manga_link(u) && label_title(ls[0]) is Some {
                label_title(ls[0])
            } else {
                first_label_title(ls.drop_first())
            },
            None => first_label_title(ls.drop_first()),
        }
    }
}

/// What a card of a listing holds: the links inside its headings, all its
/// links, and its images.
#[derive(Clone, Debug)]
pub struct ContainerInfo {
    pub heading_links: Vec<LinkInfo>,
    pub links: Vec<LinkInfo>,
    pub images: Vec<ImageInfo>,
}

/// The page and title of the series a card shows: a heading link with a
/// title text, else any series link with a title text, else the first series
/// link with a title from the links' labels, from an image's `alt`, or from
/// the page's key.
pub open spec fn container_pick(c: ContainerInfo) -> Option<(Seq<char>, Seq<char>)> {
    match text_pick(c.heading_links@) {
        Some(p) => Some(p),
        None => match text_pick(c.links@) {
            Some(p) => Some(p),
            None => match first_manga_url(c.links@) {
                None => None,
                Some(u) => match first_label_title(c.links@) {
                    Some(t) => Some((u, t)),
                    None => match alt_title(c.images@) {
                        Some(t) => Some((u, t)),
                        None => match manga_key_of(u) {
                            Some(k) => Some((u, normalize(k))),
                            None => None,
                        },
                    },
                },
            },
        },
    }
}

fn norm_opt(o: &Option<String>) -> (r: String)
    ensures
        r@ == norm_of(*o),
{
    match o {
        Some(s) => normalize_text(s.as_str()),
        None => {
            let e = String::new();
            normalize_text(e.as_str())
        },
    }
}

fn text_pick_exec(ls: &Vec<LinkInfo>) -> (r: Option<(String, String)>)
    ensures
        match r {
            Some((u, t)) => text_pick(ls@) == Some((u@, t@)),
            None => text_pick(ls@) is None,
        },
{
    let mut i: usize = 0;
    assert(ls@.skip(0) == ls@);
    while i < ls.len()
        invariant
            i <= ls@.len(),
            text_pick(ls@.skip(i as int)) == text_pick(ls@),
        decreases ls@.len() - i,
    {
        assert(ls@.skip(i as int)[0] == ls@[i as int]);
        assert(ls@.skip(i as int).drop_first() == ls@.skip(i + 1));
        match attr_url(&ls[i]) {
            Some(u) => {
                if is_manga_url(u.as_str()) {
                    let t = norm_opt(&ls[i].text);
                    if looks_like_series_title(t.as_str()) {
                        return Some((u, t));
                    }
                }
            },
            None => {},
        }
        i += 1;
    }
    None
}

fn label_title_exec(l: &LinkInfo) -> (r: Option<String>)
    ensures
        opt_view(r) == label_title(*l),
{
    if l.aria_label.is_some() {
        let n = norm_opt(&l.aria_label);
        let c = if starts_with_exec(chars_of(n.as_str()).as_slice(), lit("Abrir ").as_slice()) {
            proof {
                reveal_strlit("Abrir ");
            }
            let v = chars_of(n.as_str());
            string_of(slice_range(v.as_slice(), 6, v.len()).as_slice())
        } else {
            n
        };
        if looks_like_series_title(c.as_str()) {
            return Some(c);
        }
    }
    if l.title.is_some() {
        let c = norm_opt(&l.title);
        if looks_like_series_title(c.as_str()) {
            return Some(c);
        }
    }
    None
}

/// The page and title of the series a card shows.
pub fn extract_manga_url_and_title(c: &ContainerInfo) -> (r: Option<(String, String)>)
    ensures
        match r {
            Some((u, t)) => container_pick(*c) == Some((u@, t@)),
            None => container_pick(*c) is None,
        },
{
    match text_pick_exec(&c.heading_links) {
        Some(p) => {
            return Some(p);
        },
        None => {},
    }
    let ls = &c.links;
    let mut fallback_url: Option<String> = None;
    let mut fallback_title: Option<String> = None;
    let mut i: usize = 0;
    assert(ls@.skip(0) == ls@);
    while i < ls.len()
        invariant
            i <= ls@.len(),
            ls@ == c.links@,
            text_pick(c.heading_links@) is None,
            text_pick(ls@.skip(i as int)) == text_pick(ls@),
            first_manga_url(ls@) == match fallback_url {
                Some(u) => Some(u@),
                None => first_manga_url(ls@.skip(i as int)),
            },
            first_label_title(ls@) == match fallback_title {
                Some(t) => Some(t@),
                None => first_label_title(ls@.skip(i as int)),
            },
        decreases ls@.len() - i,
    {
        assert(ls@.skip(i as int)[0] == ls@[i as int]);
        assert(ls@.skip(i as int).drop_first() == ls@.skip(i + 1));
        match attr_url(&ls[i]) {
            Some(u) => {
                if is_manga_url(u.as_str()) {
                    if fallback_url.is_none() {
                        fallback_url = Some(u.clone());
                    }
                    let t = norm_opt(&ls[i].text);
                    if looks_like_series_title(t.as_str()) {
                        return Some((u, t));
                    }
                    if fallback_title.is_none() {
                        fallback_title = label_title_exec(&ls[i]);
                    }
                }
            },
            None => {},
        }
        i += 1;
    }
    assert(ls@.skip(ls@.len() as int).len() == 0);
    let url = match fallback_url {
        Some(u) => u,
        None => {
            return None;
        },
    };
    let title = match fallback_title {
        Some(t) => t,
        None => match alt_title_exec(&c.images) {
            Some(t) => t,
            None => match manga_key_from_url(url.as_str()) {
                Some(k) => normalize_text(k.as_str()),
                None => {
                    return None;
                },
            },
        },
    };
    Some((url, title))
}

/// The series a card shows: page and title, a key from the page, and the
/// first of its images that can be a cover.
pub open spec fn container_entry(c: ContainerInfo) -> Option<EntryView> {
    match container_pick(c) {
        None => None,
        Some((u, t)) => match manga_key_of(u) {
            None => None,
            Some(k) => Some((k, t, first_cover(c.images@), u)),
        },
    }
}

/// The series a card shows.
pub fn manga_from_container(c: &ContainerInfo) -> (r: Option<Manga>)
    ensures
        match r {
            Some(m) => container_entry(*c) == Some(entry_of(m)) && bare_entry(m),
            None => container_entry(*c) is None,
        },
{
    let (url, title) = match extract_manga_url_and_title(c) {
        Some(p) => p,
        None => {
            return None;
        },
    };
    let key = match manga_key_from_url(url.as_str()) {
        Some(k) => k,
        None => {
            return None;
        },
    };
    let cover = extract_cover_from_images(&c.images);
    Some(entry(key, title, cover, url))
}

/// The series of a list of cards, each key once.
pub open spec fn container_entries(cs: Seq<ContainerInfo>) -> Seq<EntryView> {
    unique_entries(cs.map_values(|c: ContainerInfo| container_entry(c)))
}

/// The series of a list of cards, each key once.
pub fn parse_entries_from_selector(cs: &Vec<ContainerInfo>) -> (r: Vec<Manga>)
    ensures
        entries_of(r@) == container_entries(cs@),
        forall|i: int| 0 <= i < r@.len() ==> bare_entry(#[trigger] r@[i]),
{
    let ghost cands = cs@.map_values(|c: ContainerInfo| container_entry(c));
    let mut out: Vec<Manga> = Vec::new();
    let mut i: usize = 0;
    while i < cs.len()
        invariant
            i <= cs@.len(),
            cands == cs@.map_values(|c: ContainerInfo| container_entry(c)),
            entries_of(out@) == unique_entries(cands.take(i as int)),
            forall|j: int| 0 <= j < out@.len() ==> bare_entry(#[trigger] out@[j]),
        decreases cs@.len() - i,
    {
        assert(cands.take(i + 1).drop_last() == cands.take(i as int));
        assert(cands.take(i + 1).last() == container_entry(cs@[i as int]));
        match manga_from_container(&cs[i]) {
            Some(m) => {
                let ghost before = out@;
                push_unique(&mut out, m);
                assert forall|j: int| 0 <= j < out@.len() implies bare_entry(#[trigger] out@[j]) by {
                    if out@[j] != m {
                        let k = choose|k: int| 0 <= k < before.len() && out@[j] == before[k];
                        assert(bare_entry(before[k]));
                    }
                }
            },
            None => {},
        }
        i += 1;
    }
    assert(cands.take(cs@.len() as int) == cands);
    out
}

/// What a listing page offers the scraper: its series links, and its cards
/// of each of the three layouts the site uses (search tabs, catalog cards,
/// and plain articles).
#[derive(Clone, Debug)]
pub struct ListingPage {
    pub links: Vec<LinkInfo>,
    pub tab_items: Vec<ContainerInfo>,
    pub catalog_cards: Vec<ContainerInfo>,
    pub articles: Vec<ContainerInfo>,
}

/// The series of a listing page: from its series links; else from its cards,
/// search tabs first on a search page and catalog cards first otherwise.
pub open spec fn listing_entries(p: ListingPage, query_mode: bool) -> Seq<EntryView> {
    let from_links = link_entries(p.links@);
    let tabs = container_entries(p.tab_items@);
    let cards = container_entries(p.catalog_cards@);
    if from_links.len() > 0 {
        from_links
    } else if query_mode {
        if tabs.len() > 0 {
            tabs
        } else {
            cards
        }
    } else {
        if cards.len() > 0 {
            cards
        } else {
            tabs
        }
    }
}

/// The series of a listing page.
pub fn parse_entries(p: &ListingPage, query_mode: bool) -> (r: Vec<Manga>)
    ensures
        entries_of(r@) == listing_entries(*p, query_mode),
        forall|i: int| 0 <= i < r@.len() ==> bare_entry(#[trigger] r@[i]),
{
    let mut entries = parse_entries_from_urls(&p.links);
    if entries.len() == 0 {
        if query_mode {
            entries = parse_entries_from_selector(&p.tab_items);
            if entries.len() == 0 {
                entries = parse_entries_from_selector(&p.catalog_cards);
            }
        } else {
            entries = parse_entries_from_selector(&p.catalog_cards);
            if entries.len() == 0 {
                entries = parse_entries_from_selector(&p.tab_items);
            }
        }
    }
    entries
}

/// The series shown for a listing page: those of `parse_entries`, else those
/// of its plain articles.
pub open spec fn page_entries(p: ListingPage, query_mode: bool) -> Seq<EntryView> {
    if listing_entries(p, query_mode).len() > 0 {
        listing_entries(p, query_mode)
    } else {
        container_entries(p.articles@)
    }
}

/// The series shown for a listing page.
pub fn parse_page_entries(p: &ListingPage, query_mode: bool) -> (r: Vec<Manga>)
    ensures
        entries_of(r@) == page_entries(*p, query_mode),
        forall|i: int| 0 <= i < r@.len() ==> bare_entry(#[trigger] r@[i]),
{
    let entries = parse_entries(p, query_mode);
    if entries.len() == 0 {
        parse_entries_fallback(p)
    } else {
        entries
    }
}

/// The series of a listing page's plain articles.
pub fn parse_entries_fallback(p: &ListingPage) -> (r: Vec<Manga>)
    ensures
        entries_of(r@) == container_entries(p.articles@),
        forall|i: int| 0 <= i < r@.len() ==> bare_entry(#[trigger] r@[i]),
{
    parse_entries_from_selector(&p.articles)
}

} // verus!

verus! {

/// Each key is kept once, and every kept entry is one of the candidates.
pub proof fn lemma_unique_entries(cands: Seq<Option<EntryView>>)
    ensures
        forall|i: int, j: int|
            0 <= i < j < unique_entries(cands).len() ==> (#[trigger] unique_entries(cands)[i]).0 != (
            #[trigger] unique_entries(cands)[j]).0,
        forall|i: int|
            0 <= i < unique_entries(cands).len() ==> exists|j: int|
                0 <= j < cands.len() && cands[j] == Some(#[trigger] unique_entries(cands)[i]),
    decreases cands.len(),
{
    if cands.len() > 0 {
        let rest = cands.drop_last();
        lemma_unique_entries(rest);
        let d = unique_entries(rest);
        assert forall|i: int| 0 <= i < d.len() implies exists|j: int|
            0 <= j < cands.len() && cands[j] == Some(#[trigger] d[i]) by {
            let j = choose|j: int| 0 <= j < rest.len() && rest[j] == Some(d[i]);
            assert(cands[j] == rest[j]);
        }
        match cands.last() {
            Some(e) => {
                if !entry_keys(d).contains(e.0) {
                    assert forall|i: int| 0 <= i < d.len() implies d[i].0 != e.0 by {
                        assert(entry_keys(d)[i] == d[i].0);
                    }
                    assert(cands[cands.len() - 1] == Some(e));
                }
            },
            None => {},
        }
    }
}

/// A series listed on a page has a key from its page address, so not empty.
pub open spec fn keyed(cands: Seq<Option<EntryView>>) -> bool {
    forall|j: int| 0 <= j < cands.len() ==> (#[trigger] cands[j] matches Some(e) ==> e.0.len() > 0)
}

/// The series listed on a page have distinct, non-empty keys.
pub proof fn lemma_page_entries_keys(p: ListingPage, query_mode: bool)
    ensures
        forall|i: int, j: int|
            0 <= i < j < page_entries(p, query_mode).len() ==> (#[trigger] page_entries(p, query_mode)[i]).0
                != (#[trigger] page_entries(p, query_mode)[j]).0,
        forall|i: int| 0 <= i < page_entries(p, query_mode).len() ==> (#[trigger] page_entries(p, query_mode)[i]).0.len() > 0,
{
    let lc = p.links@.map_values(|l: LinkInfo| link_entry(l));
    let tc = p.tab_items@.map_values(|c: ContainerInfo| container_entry(c));
    let cc = p.catalog_cards@.map_values(|c: ContainerInfo| container_entry(c));
    let ac = p.articles@.map_values(|c: ContainerInfo| container_entry(c));
    assert(keyed(lc)) by {
        assert forall|j: int| 0 <= j < lc.len() implies (#[trigger] lc[j] matches Some(e) ==> e.0.len() > 0) by {
            assert(lc[j] == link_entry(p.links@[j]));
        }
    }
    assert(keyed(tc)) by {
        assert forall|j: int| 0 <= j < tc.len() implies (#[trigger] tc[j] matches Some(e) ==> e.0.len() > 0) by {
            assert(tc[j] == container_entry(p.tab_items@[j]));
        }
    }
    assert(keyed(cc)) by {
        assert forall|j: int| 0 <= j < cc.len() implies (#[trigger] cc[j] matches Some(e) ==> e.0.len() > 0) by {
            assert(cc[j] == container_entry(p.catalog_cards@[j]));
        }
    }
    assert(keyed(ac)) by {
        assert forall|j: int| 0 <= j < ac.len() implies (#[trigger] ac[j] matches Some(e) ==> e.0.len() > 0) by {
            assert(ac[j] == container_entry(p.articles@[j]));
        }
    }
    lemma_keyed_unique(lc);
    lemma_keyed_unique(tc);
    lemma_keyed_unique(cc);
    lemma_keyed_unique(ac);
}

/// The entries kept from candidates with non-empty keys have distinct, non-empty keys.
pub proof fn lemma_keyed_unique(cands: Seq<Option<EntryView>>)
    requires
        keyed(cands),
    ensures
        forall|i: int, j: int|
            0 <= i < j < unique_entries(cands).len() ==> (#[trigger] unique_entries(cands)[i]).0 != (
            #[trigger] unique_entries(cands)[j]).0,
        forall|i: int| 0 <= i < unique_entries(cands).len() ==> (#[trigger] unique_entries(cands)[i]).0.len() > 0,
{
    lemma_unique_entries(cands);
    assert forall|i: int| 0 <= i < unique_entries(cands).len() implies (#[trigger] unique_entries(cands)[i]).0.len() > 0 by {
        let j = choose|j: int| 0 <= j < cands.len() && cands[j] == Some(unique_entries(cands)[i]);
        assert(cands[j] matches Some(e) ==> e.0.len() > 0);
    }
}

} // verus!
