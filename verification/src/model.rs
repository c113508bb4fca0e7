//! The records that the sources fill in: manga, chapters, statuses and the
//! targets of deep links.

use vstd::prelude::*;

verus! {

/// Publication status of a series.
#[derive(Clone, Copy, Debug, PartialEq, Eq, Structural)]
pub enum MangaStatus {
    Unknown,
    Ongoing,
    Completed,
    Cancelled,
    Hiatus,
}

/// Audience rating of a series.
#[derive(Clone, Copy, Debug, PartialEq, Eq, Structural)]
pub enum ContentRating {
    Unknown,
    Safe,
    Suggestive,
    Nsfw,
}

/// Preferred reader layout of a series.
#[derive(Clone, Copy, Debug, PartialEq, Eq, Structural)]
pub enum Viewer {
    Unknown,
    LeftToRight,
    RightToLeft,
    Vertical,
    Webtoon,
}

/// One chapter of a series. `chapter_number` is the chapter's number as
/// decimal text, the form in which the sources read and write it.
#[derive(Clone, Debug)]
pub struct Chapter {
    pub key: String,
    pub title: Option<String>,
    pub chapter_number: Option<String>,
    pub date_uploaded: Option<i64>,
    pub url: Option<String>,
    pub language: Option<String>,
    pub locked: bool,
}

/// A series with whatever details are known of it.
#[derive(Clone, Debug)]
pub struct Manga {
    pub key: String,
    pub title: String,
    pub cover: Option<String>,
    pub artists: Option<Vec<String>>,
    pub authors: Option<Vec<String>>,
    pub description: Option<String>,
    pub url: Option<String>,
    pub tags: Option<Vec<String>>,
    pub status: MangaStatus,
    pub content_rating: ContentRating,
    pub viewer: Viewer,
    pub chapters: Option<Vec<Chapter>>,
}

/// A series together with one of its chapters.
#[derive(Clone, Debug)]
pub struct MangaWithChapter {
    pub manga: Manga,
    pub chapter: Chapter,
}

/// One page of a listing.
#[derive(Clone, Debug)]
pub struct MangaPageResult {
    pub entries: Vec<Manga>,
    pub has_next_page: bool,
}

/// A tile that links to a series.
#[derive(Clone, Debug)]
pub struct Link {
    pub title: String,
    pub subtitle: Option<String>,
    pub image_url: Option<String>,
    pub manga: Manga,
}

/// What a URL of a source points at.
#[derive(Clone, Debug)]
pub enum DeepLink {
    Manga { key: String },
    Chapter { manga_key: String, key: String },
}

/// The abstract value of a `DeepLink`.
pub enum DeepLinkView {
    Manga { key: Seq<char> },
    Chapter { manga_key: Seq<char>, key: Seq<char> },
}

impl View for DeepLink {
    type V = DeepLinkView;

    open spec fn view(&self) -> DeepLinkView {
        match self {
            DeepLink::Manga { key } => DeepLinkView::Manga { key: key@ },
            DeepLink::Chapter { manga_key, key } => DeepLinkView::Chapter {
                manga_key: manga_key@,
                key: key@,
            },
        }
    }
}

/// The view of an optional deep link.
pub open spec fn deep_link_view(d: Option<DeepLink>) -> Option<DeepLinkView> {
    match d {
        Some(l) => Some(l@),
        None => None,
    }
}

/// The view of an optional string.
pub open spec fn opt_view(s: Option<String>) -> Option<Seq<char>> {
    match s {
        Some(t) => Some(t@),
        None => None,
    }
}

impl Manga {
    /// A series known only by its key; every other field is empty.
    pub fn with_key(key: String) -> (m: Manga)
        ensures
            m.key == key,
            m.title@.len() == 0,
            m.cover is None,
            m.artists is None,
            m.authors is None,
            m.description is None,
            m.url is None,
            m.tags is None,
            m.status == MangaStatus::Unknown,
            m.content_rating == ContentRating::Unknown,
            m.viewer == Viewer::Unknown,
            m.chapters is None,
    {
        Manga {
            key,
            title: String::new(),
            cover: None,
            artists: None,
            authors: None,
            description: None,
            url: None,
            tags: None,
            status: MangaStatus::Unknown,
            content_rating: ContentRating::Unknown,
            viewer: Viewer::Unknown,
            chapters: None,
        }
    }
}

impl Chapter {
    /// A chapter known only by its key; every other field is empty.
    pub fn with_key(key: String) -> (c: Chapter)
        ensures
            c.key == key,
            c.title is None,
            c.chapter_number is None,
            c.date_uploaded is None,
            c.url is None,
            c.language is None,
            !c.locked,
    {
        Chapter {
            key,
            title: None,
            chapter_number: None,
            date_uploaded: None,
            url: None,
            language: None,
            locked: false,
        }
    }
}

} // verus!
