use ptbr_sources::model::{Chapter, DeepLink, Manga, MangaStatus, Viewer};
use ptbr_sources::nexustoons::api::{releases_url, search_url, ApiChapter, ApiListResponse, ApiMangaCard};
use ptbr_sources::nexustoons::manga::{
    apply_details_from_webview, chapter_from_api, home_sections, manga_from_card,
    manga_update_slug, manga_with_recent_chapter, map_list_response, WebViewMangaChapter,
    WebViewMangaDetails,
};
use ptbr_sources::nexustoons::utils::{
    chapter_id_from_url, chapter_key_or_id, chapter_title_from_number, chapter_url_from_slug_and_id,
    debug_logs_enabled_from, deep_link_result, DebugFlagCache, manga_slug_from_manga, manga_slug_from_url,
    manga_url_from_slug,
};
use ptbr_sources::nexustoons::webview::{
    parse_webview_chapter_pages_cache, parse_webview_manga_cache, resolve_page_list_target,
    webview_chapter_storage_key, webview_manga_storage_key,
};

const SAMPLE_MANGA_SLUG: &str = "sono-akuyaku-kizoku-mama-heroine-ga-suki-sugiru-shinshi-na-doryoku-de-saikyou-to-nari-fuguu-na-oshi-chara-tasukemakuru";
const SAMPLE_MANGA_URL: &str = "https://nexustoons.com/manga/sono-akuyaku-kizoku-mama-heroine-ga-suki-sugiru-shinshi-na-doryoku-de-saikyou-to-nari-fuguu-na-oshi-chara-tasukemakuru";
const SAMPLE_CHAPTER_URL: &str = "https://nexustoons.com/ler/sono-akuyaku-kizoku-mama-heroine-ga-suki-sugiru-shinshi-na-doryoku-de-saikyou-to-nari-fuguu-na-oshi-chara-tasukemakuru/397924";

fn card(id: i64, slug: Option<&str>, recent: Option<Vec<ApiChapter>>) -> ApiMangaCard {
    ApiMangaCard {
        id,
        title: String::from("Test Manga"),
        slug: slug.map(String::from),
        cover_url: Some(String::from("https://example.com/cover.jpg")),
        alternative_title: Some(String::from("Alt title")),
        recent_chapters: recent,
        authors: Some(Vec::new()),
        artists: Some(Vec::new()),
        genres: Some(Vec::new()),
        status: Some(String::from("ongoing")),
    }
}

fn api_chapter(id: i64, number: &str, title: Option<&str>) -> ApiChapter {
    ApiChapter {
        id,
        number: String::from(number),
        title: title.map(String::from),
        timestamp: Some(String::from("2025-07-29T21:01:46Z")),
        page_count: Some(18),
        release_status: None,
        manga_id: None,
    }
}

#[test]
fn helper_builds_urls_and_parses_links() {
    assert_eq!(manga_url_from_slug(SAMPLE_MANGA_SLUG), SAMPLE_MANGA_URL);
    assert_eq!(manga_url_from_slug(&format!("  /{}  ", SAMPLE_MANGA_SLUG)), SAMPLE_MANGA_URL);
    assert_eq!(chapter_url_from_slug_and_id(SAMPLE_MANGA_SLUG, "397924"), SAMPLE_CHAPTER_URL);
    assert_eq!(
        chapter_url_from_slug_and_id(&format!("  /{}  ", SAMPLE_MANGA_SLUG), "  /397924/  "),
        SAMPLE_CHAPTER_URL
    );
    assert_eq!(manga_slug_from_url(SAMPLE_MANGA_URL), Some(String::from(SAMPLE_MANGA_SLUG)));
    assert_eq!(chapter_id_from_url(SAMPLE_CHAPTER_URL), Some(String::from("397924")));

    match deep_link_result(SAMPLE_MANGA_URL) {
        Some(DeepLink::Manga { key }) => assert_eq!(key, SAMPLE_MANGA_SLUG),
        _ => panic!("expected manga deep link"),
    }
    match deep_link_result(SAMPLE_CHAPTER_URL) {
        Some(DeepLink::Chapter { manga_key, key }) => {
            assert_eq!(manga_key, SAMPLE_MANGA_SLUG);
            assert_eq!(key, "397924");
        }
        _ => panic!("expected chapter deep link"),
    }
}

#[test]
fn helper_maps_card_to_manga() {
    let manga = manga_from_card(&card(758, Some("test-manga"), Some(Vec::new())));
    assert_eq!(manga.key, "test-manga");
    assert_eq!(manga.title, "Test Manga");
    assert_eq!(manga.cover.as_deref(), Some("https://example.com/cover.jpg"));
    assert_eq!(manga.url.as_deref(), Some("https://nexustoons.com/manga/test-manga"));
    let by_id = manga_from_card(&card(758, None, None));
    assert_eq!(by_id.key, "758");
    assert_eq!(by_id.viewer, Viewer::Vertical);
}

#[test]
fn helper_maps_chapter_to_url_and_title() {
    let mapped = chapter_from_api(&api_chapter(397924, "45", Some("")), SAMPLE_MANGA_SLUG, 1_700_000_000);
    assert_eq!(mapped.key, "397924");
    assert_eq!(mapped.title.as_deref(), Some("Capítulo 45"));
    assert_eq!(mapped.url.as_deref(), Some(SAMPLE_CHAPTER_URL));
    assert_eq!(mapped.chapter_number.as_deref().map(|n| n.parse::<f32>().unwrap()), Some(45.0));
    assert_eq!(mapped.date_uploaded, Some(1_700_000_000));
    assert_eq!(mapped.language.as_deref(), Some("pt-BR"));
}

#[test]
fn helper_maps_list_response() {
    let response = ApiListResponse {
        data: vec![card(758, Some("test-manga"), Some(Vec::new()))],
        page: 1,
        pages: 2,
        total: 1,
    };
    let mapped = map_list_response(&response);
    assert_eq!(mapped.entries.len(), 1);
    assert!(mapped.has_next_page);
    assert_eq!(mapped.entries[0].key, "test-manga");
    assert_eq!(mapped.entries[0].title, "Test Manga");
    assert_eq!(mapped.entries[0].description.as_deref(), Some("Alt title"));
    let last = ApiListResponse { data: Vec::new(), page: 2, pages: 2, total: 0 };
    assert!(!map_list_response(&last).has_next_page);
}

#[test]
fn listing_addresses() {
    assert_eq!(releases_url(1, 50), "https://nexustoons.com/api/mangas?page=1&limit=50");
    assert_eq!(
        search_url(" sono akuyaku ", 2, 24),
        "https://nexustoons.com/api/mangas?search=sono+akuyaku&page=2&limit=24"
    );
}

#[test]
fn recent_chapters_and_home() {
    let with = card(1, Some("a"), Some(vec![api_chapter(10, "3", Some(" Fim "))]));
    let without = card(2, Some("b"), Some(Vec::new()));
    let none = card(3, Some("c"), None);
    let mc = manga_with_recent_chapter(&with, 5).unwrap();
    assert_eq!(mc.manga.key, "a");
    assert_eq!(mc.chapter.title.as_deref(), Some("Fim"));
    assert_eq!(mc.chapter.url.as_deref(), Some("https://nexustoons.com/ler/a/10"));
    assert!(manga_with_recent_chapter(&without, 5).is_none());
    assert!(manga_with_recent_chapter(&none, 5).is_none());

    let mut data = Vec::new();
    for i in 0..15 {
        data.push(card(i, None, Some(vec![api_chapter(i, "1", None)])));
    }
    data.insert(0, without);
    let home = home_sections(&ApiListResponse { data, page: 1, pages: 1, total: 16 }, 5);
    assert_eq!(home.releases.len(), 12);
    assert_eq!(home.more.len(), 12);
    assert_eq!(home.recent.len(), 12);
    assert_eq!(home.releases[0].key, "b");
    assert_eq!(home.recent[0].manga.key, "0");
    assert_eq!(home.recent[11].manga.key, "11");
    assert_eq!(home.more[1].title, "Test Manga");
}

#[test]
fn webview_details_update_the_series() {
    let details = WebViewMangaDetails {
        title: String::from("Sono"),
        cover_url: None,
        description: Some(String::from("d")),
        status: Some(String::from("Ongoing")),
        chapters: vec![WebViewMangaChapter { id: 7, number: Some(String::from("2,5")), title: None, date_uploaded: None }],
    };
    let mut manga = Manga::with_key(String::from("x"));
    apply_details_from_webview(&mut manga, &details, "sono", true, true, 9);
    assert_eq!(manga.key, "sono");
    assert_eq!(manga.title, "Sono");
    assert_eq!(manga.status, MangaStatus::Ongoing);
    assert_eq!(manga.url.as_deref(), Some("https://nexustoons.com/manga/sono"));
    let chapters = manga.chapters.clone().unwrap();
    assert_eq!(chapters[0].title.as_deref(), Some("Capítulo 2,5"));
    assert_eq!(chapters[0].chapter_number.as_deref(), Some("2.5"));
    let mut untouched = Manga::with_key(String::from("x"));
    apply_details_from_webview(&mut untouched, &details, "sono", false, false, 9);
    assert_eq!(untouched.key, "x");
    assert!(untouched.chapters.is_none());
}

#[test]
fn webview_storage_keys_and_caches() {
    assert_eq!(webview_manga_storage_key(" /abc/ "), "nexustoons_manga_cache_v1:abc");
    assert_eq!(webview_chapter_storage_key("abc/", "/12"), "nexustoons_chapter_pages_cache_v1:abc:12");
    let details = WebViewMangaDetails {
        title: String::from("  "),
        cover_url: None,
        description: None,
        status: None,
        chapters: Vec::new(),
    };
    assert_eq!(
        parse_webview_manga_cache(details, "k").unwrap_err(),
        "WebView manga cache does not contain title.\nKey: k"
    );
    assert_eq!(
        parse_webview_chapter_pages_cache(Vec::new(), "k").unwrap_err(),
        "WebView chapter pages cache is empty.\nKey: k"
    );
    let pages = vec![String::from("https://img.nx-toons.xyz/manga_pages/758/73801/page_001.webp")];
    assert_eq!(parse_webview_chapter_pages_cache(pages.clone(), "k").unwrap(), pages);
}

#[test]
fn page_list_targets() {
    let mut manga = Manga::with_key(String::from("/slug/"));
    let mut chapter = Chapter::with_key(String::from("77"));
    assert_eq!(
        resolve_page_list_target(&manga, &chapter).unwrap(),
        (String::from("slug"), String::from("77"), String::from("https://nexustoons.com/ler/slug/77"))
    );
    chapter.url = Some(String::from(SAMPLE_CHAPTER_URL));
    manga.url = Some(String::from(SAMPLE_MANGA_URL));
    let (slug, id, url) = resolve_page_list_target(&manga, &chapter).unwrap();
    assert_eq!(slug, SAMPLE_MANGA_SLUG);
    assert_eq!(id, "77");
    assert_eq!(url, SAMPLE_CHAPTER_URL);
    let empty = Chapter::with_key(String::new());
    assert_eq!(
        resolve_page_list_target(&Manga::with_key(String::new()), &empty).unwrap_err(),
        "Unable to resolve chapter URL for page list"
    );
    assert_eq!(chapter_key_or_id(&empty), None);
}

#[test]
fn slugs_titles_and_debug_flag() {
    assert_eq!(manga_slug_from_manga(&Manga::with_key(String::from(" /x/ "))), Some(String::from("x")));
    assert_eq!(manga_update_slug(&Manga::with_key(String::from("  "))).unwrap_err(), "Unable to resolve manga slug");
    assert_eq!(chapter_title_from_number(" 12 "), "Capítulo 12");
    assert!(debug_logs_enabled_from(Some(1), None, None));
    assert!(debug_logs_enabled_from(None, None, Some(" YES ")));
    assert!(!debug_logs_enabled_from(Some(0), Some(false), Some("nope")));
}

#[test]
fn debug_flag_is_read_once() {
    let mut cache = DebugFlagCache::new();
    assert!(cache.needs_setting(false));
    assert!(!cache.needs_setting(true));
    assert!(cache.enabled(true, None, None, None));
    assert!(cache.needs_setting(false));
    assert!(cache.enabled(false, None, None, Some(" Yes ")));
    assert!(!cache.needs_setting(false));
    assert!(cache.enabled(false, Some(0), Some(false), Some("off")));
    let mut off = DebugFlagCache::new();
    assert!(!off.enabled(false, Some(2), None, Some("nope")));
    assert!(!off.enabled(false, Some(1), Some(true), Some("on")));
    assert!(off.enabled(true, None, None, None));
}
