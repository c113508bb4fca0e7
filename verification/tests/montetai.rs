use ptbr_sources::model::{Chapter, DeepLink, Manga, MangaStatus};
use ptbr_sources::montetai::chapters::{
    parse_manga_chapters, try_parse_manga_chapters, try_parse_manga_chapters_from_json,
    ChapterLinkInfo, MtxChapterJsonEntry,
};
use ptbr_sources::montetai::details::{
    decode_json_entities, has_next_page, meta_content, parse_chapter_page_urls, parse_manga_cover,
    parse_manga_description, parse_manga_status, parse_manga_tags, parse_manga_title,
    push_unique_text_values, MetaInfo,
};
use ptbr_sources::montetai::elements::{
    cover_image_url, extract_title_from_link, image_srcset_url, image_url, ImageInfo, LinkInfo,
};
use ptbr_sources::montetai::entries::{
    extract_manga_url_and_title, manga_from_link, parse_entries, parse_page_entries,
    ContainerInfo, ListingPage,
};
use ptbr_sources::montetai::numbers::{
    chapter_title_from_text, extract_date_token, extract_number_after_capitulo,
    is_capitulo_sliceable, is_title_sliceable, parse_number_token, parse_chapter_number,
};
use ptbr_sources::montetai::source::{
    apply_manga_update, deep_link_result, home_url, search_request_url, search_url, PageDetails,
};
use ptbr_sources::montetai::utils::{
    absolute_url, chapter_key_from_url, chapter_url, has_image_extension, is_chapter_image,
    is_chapter_url, is_likely_cover_url, is_manga_url, looks_like_series_title, manga_key_from_url,
    manga_url, normalize_text, sanitize_url, status_from_text,
};

const BASE_URL: &str = "https://montetaiscanlator.xyz";
const SAMPLE_MANGA_KEY: &str = "o-filho-do-duque-regressado-e-um-assassino";
const SAMPLE_MANGA_URL: &str =
    "https://montetaiscanlator.xyz/manga/o-filho-do-duque-regressado-e-um-assassino/";
const SAMPLE_CHAPTER_KEY: &str = "manga/o-filho-do-duque-regressado-e-um-assassino/capitulo-126";
const SAMPLE_CHAPTER_URL: &str =
    "https://montetaiscanlator.xyz/manga/o-filho-do-duque-regressado-e-um-assassino/capitulo-126/";

fn make_manga() -> Manga {
    let mut m = Manga::with_key(String::from(SAMPLE_MANGA_KEY));
    m.url = Some(String::from(SAMPLE_MANGA_URL));
    m
}

fn make_chapter() -> Chapter {
    let mut c = Chapter::with_key(String::from(SAMPLE_CHAPTER_KEY));
    c.url = Some(String::from(SAMPLE_CHAPTER_URL));
    c
}

fn image(src: &str) -> ImageInfo {
    ImageInfo {
        src: Some(String::from(src)),
        data_src: None,
        data_lazy_src: None,
        data_original: None,
        abs_src: None,
        srcset: None,
        data_srcset: None,
        alt: None,
        class_name: None,
        parent_class: None,
    }
}

fn link(href: &str, text: &str) -> LinkInfo {
    LinkInfo {
        abs_href: None,
        href: Some(String::from(href)),
        text: Some(String::from(text)),
        aria_label: None,
        title: None,
        class_name: None,
        images: Vec::new(),
        ancestor_images: Vec::new(),
    }
}

fn number(text: &str, url: &str) -> Option<f32> {
    parse_chapter_number(text, url).map(|t| t.parse::<f32>().unwrap())
}

#[test]
fn helper_url_and_key_mapping() {
    assert_eq!(home_url(1), BASE_URL);
    assert_eq!(home_url(3), format!("{BASE_URL}/page/3/"));
    assert_eq!(search_url("duque", 1), format!("{BASE_URL}/?s=duque&post_type=wp-manga"));
    assert_eq!(search_url("duque", 2), format!("{BASE_URL}/page/2/?s=duque&post_type=wp-manga"));
    assert!(search_url("ação e duque", 1).contains("a%C3%A7%C3%A3o+e+duque"));

    assert!(is_manga_url(SAMPLE_MANGA_URL));
    assert!(is_chapter_url(SAMPLE_CHAPTER_URL));
    assert_eq!(manga_key_from_url(SAMPLE_MANGA_URL), Some(String::from(SAMPLE_MANGA_KEY)));
    assert_eq!(chapter_key_from_url(SAMPLE_CHAPTER_URL), Some(String::from(SAMPLE_CHAPTER_KEY)));
    assert_eq!(chapter_url(&make_manga(), &make_chapter()), String::from(SAMPLE_CHAPTER_URL));
}

#[test]
fn helper_parses_numbers_and_dates() {
    assert_eq!(number("Capitulo 126", ""), Some(126.0));
    assert_eq!(number("capitulo-09", ""), Some(9.0));
    assert_eq!(extract_date_token("Capitulo 120 03/05/2026"), Some(String::from("03/05/2026")));
}

#[test]
fn parser_falls_back_to_links_when_json_missing() {
    let item = |href: &str, title: &str, meta: &str| ChapterLinkInfo {
        link: LinkInfo {
            class_name: Some(String::from("mtx-chapter-item")),
            ..link(href, &format!("{title} {meta}"))
        },
        label_text: Some(String::from(title)),
        meta_text: Some(String::from(meta)),
    };
    let links = vec![
        item("https://montetaiscanlator.xyz/manga/test/capitulo-2/", "Capitulo 2", "02/01/2026"),
        item("https://montetaiscanlator.xyz/manga/test/capitulo-1/", "Capitulo 1", "01/01/2026"),
    ];
    let chapters = parse_manga_chapters(&Vec::new(), &links, Some("test"));
    assert_eq!(chapters.len(), 2);
    assert_eq!(chapters[0].key, "manga/test/capitulo-2");
    assert_eq!(chapters[1].key, "manga/test/capitulo-1");
    assert_eq!(chapters[0].number.as_deref(), Some("2"));
    assert_eq!(chapters[0].date_texts, vec![String::from("02/01/2026"), String::from("02/01/2026")]);
}

#[test]
fn montetai_source_handles_deep_links() {
    match deep_link_result(SAMPLE_MANGA_URL) {
        Some(DeepLink::Manga { key }) => assert_eq!(key, SAMPLE_MANGA_KEY),
        _ => panic!("Expected manga deep link result"),
    }
    match deep_link_result(SAMPLE_CHAPTER_URL) {
        Some(DeepLink::Chapter { manga_key, key }) => {
            assert_eq!(manga_key, SAMPLE_MANGA_KEY);
            assert_eq!(key, SAMPLE_CHAPTER_KEY);
        }
        _ => panic!("Expected chapter deep link result"),
    }
    assert!(deep_link_result("https://montetaiscanlator.xyz/").is_none());
}

#[test]
fn normalizes_and_sanitizes_links() {
    assert_eq!(normalize_text("  Capitulo \n 12  "), "Capitulo 12");
    assert_eq!(sanitize_url("https://x.y/?a=1&amp;b=2&#038;c=3#038;d"), "https://x.y/?a=1&b=2&c=3&d");
    assert_eq!(absolute_url("//cdn.x/a.png"), "https://cdn.x/a.png");
    assert_eq!(absolute_url("/manga/x/"), format!("{BASE_URL}/manga/x/"));
    assert_eq!(absolute_url("manga/x/"), format!("{BASE_URL}/manga/x/"));
    assert_eq!(absolute_url("http://a.b/c"), "http://a.b/c");
}

#[test]
fn manga_and_chapter_pages_from_keys() {
    let bare = Manga::with_key(String::from(SAMPLE_MANGA_KEY));
    assert_eq!(manga_url(&bare), SAMPLE_MANGA_URL);
    assert_eq!(manga_url(&Manga::with_key(String::new())), BASE_URL);
    let key_only = Chapter::with_key(String::from(SAMPLE_CHAPTER_KEY));
    assert_eq!(chapter_url(&make_manga(), &key_only), SAMPLE_CHAPTER_URL.trim_end_matches('/'));
    let short = Chapter::with_key(String::from("capitulo-7"));
    assert_eq!(chapter_url(&make_manga(), &short), format!("{}capitulo-7/", SAMPLE_MANGA_URL));
}

#[test]
fn manga_links_are_not_index_or_chapter_links() {
    assert!(!is_manga_url("https://montetaiscanlator.xyz/manga/"));
    assert!(!is_manga_url(SAMPLE_CHAPTER_URL));
    assert!(!is_chapter_url(SAMPLE_MANGA_URL));
    assert_eq!(manga_key_from_url("https://montetaiscanlator.xyz/manga/ / "), None);
    assert_eq!(chapter_key_from_url(SAMPLE_MANGA_URL), None);
}

#[test]
fn series_titles_skip_labels() {
    assert!(looks_like_series_title("O Filho do Duque"));
    assert!(!looks_like_series_title("  "));
    assert!(!looks_like_series_title("#Ação"));
    assert!(!looks_like_series_title("Próximo"));
    assert!(!looks_like_series_title("LER AGORA"));
}

#[test]
fn images_and_covers() {
    assert!(has_image_extension("https://x/a.webp?v=1#top"));
    assert!(!has_image_extension("https://x/a.webp.html"));
    assert!(is_likely_cover_url("https://montetaiscanlator.xyz/wp-content/uploads/a"));
    assert!(!is_likely_cover_url("https://montetaiscanlator.xyz/logo-monte-tai.png"));
    assert!(!is_likely_cover_url("/relative.png"));
    assert!(is_chapter_image(None, None, "https://cdn/mt_madara_s3_image/1"));
    assert!(is_chapter_image(Some("wp-manga-chapter-img"), None, "https://cdn/x.jpg"));
    assert!(is_chapter_image(None, Some("page-break"), "https://cdn/x.jpg"));
    assert!(!is_chapter_image(None, None, "https://cdn/x.jpg"));
    assert!(!is_chapter_image(None, Some("reading-content"), SAMPLE_CHAPTER_URL));
}

#[test]
fn srcset_picks_the_narrowest_candidate() {
    let mut img = image("https://x/full.jpg");
    img.srcset = Some(String::from("https://x/300.jpg 300w, https://x/200.jpg 200w, https://x/big.jpg"));
    assert_eq!(image_srcset_url(&img), Some(String::from("https://x/200.jpg")));
    assert_eq!(cover_image_url(&img), Some(String::from("https://x/200.jpg")));
    let plain = image("/wp-content/uploads/a.jpg");
    assert_eq!(image_srcset_url(&plain), None);
    assert_eq!(cover_image_url(&plain), Some(format!("{BASE_URL}/wp-content/uploads/a.jpg")));
    let mut lazy = image("x");
    lazy.src = None;
    lazy.data_lazy_src = Some(String::from("https://x/l.png"));
    assert_eq!(image_url(&lazy), Some(String::from("https://x/l.png")));
}

#[test]
fn titles_from_links() {
    let mut l = link(SAMPLE_MANGA_URL, "Novo");
    l.aria_label = Some(String::from("Abrir O Filho do Duque"));
    assert_eq!(extract_title_from_link(&l, SAMPLE_MANGA_URL), Some(String::from("O Filho do Duque")));
    let bare = link(SAMPLE_MANGA_URL, "");
    assert_eq!(extract_title_from_link(&bare, SAMPLE_MANGA_URL), Some(String::from(SAMPLE_MANGA_KEY)));
}

#[test]
fn entries_from_links_keep_each_key_once() {
    let mut first = link(SAMPLE_MANGA_URL, "O Filho do Duque");
    first.ancestor_images = vec![vec![image("https://montetaiscanlator.xyz/wp-content/uploads/c.jpg")]];
    let page = ListingPage {
        links: vec![first, link(SAMPLE_MANGA_URL, "Outro"), link(SAMPLE_CHAPTER_URL, "Capitulo 126")],
        tab_items: Vec::new(),
        catalog_cards: Vec::new(),
        articles: Vec::new(),
    };
    let entries = parse_entries(&page, false);
    assert_eq!(entries.len(), 1);
    assert_eq!(entries[0].key, SAMPLE_MANGA_KEY);
    assert_eq!(entries[0].title, "O Filho do Duque");
    assert_eq!(entries[0].cover.as_deref(), Some("https://montetaiscanlator.xyz/wp-content/uploads/c.jpg"));
    assert!(manga_from_link(&link(SAMPLE_CHAPTER_URL, "x")).is_none());
}

#[test]
fn entries_fall_back_to_cards_then_articles() {
    let card = ContainerInfo {
        heading_links: vec![link(SAMPLE_MANGA_URL, "Manhwa")],
        links: vec![link(SAMPLE_MANGA_URL, "Manhwa")],
        images: vec![image("https://montetaiscanlator.xyz/wp-content/uploads/c.jpg")],
    };
    assert_eq!(
        extract_manga_url_and_title(&card),
        Some((String::from(SAMPLE_MANGA_URL), String::from(SAMPLE_MANGA_KEY)))
    );
    let page = ListingPage {
        links: Vec::new(),
        tab_items: Vec::new(),
        catalog_cards: Vec::new(),
        articles: vec![card],
    };
    assert!(parse_entries(&page, true).is_empty());
    let entries = parse_page_entries(&page, true);
    assert_eq!(entries.len(), 1);
    assert_eq!(entries[0].key, SAMPLE_MANGA_KEY);
}

#[test]
fn chapters_from_json_rows() {
    let row = |url: &str, title: Option<&str>, meta: &str| MtxChapterJsonEntry {
        url: Some(String::from(url)),
        title: title.map(String::from),
        meta: Some(String::from(meta)),
        search: None,
    };
    let rows = vec![
        row("/manga/test/capitulo-3/", None, "postado 03/01/2026"),
        row("/manga/test/capitulo-3/", Some("Capitulo 3"), ""),
        row("/manga/other/capitulo-1/", Some("Capitulo 1"), ""),
        row("/manga/test/", Some("Capitulo 9"), ""),
    ];
    let chapters = try_parse_manga_chapters_from_json(&rows, Some("test")).unwrap();
    assert_eq!(chapters.len(), 1);
    assert_eq!(chapters[0].key, "manga/test/capitulo-3");
    assert_eq!(chapters[0].title, "Capitulo 3");
    assert_eq!(chapters[0].number.as_deref(), Some("3"));
    assert!(chapters[0].date_texts.is_empty());
    assert_eq!(chapters[0].url, "https://montetaiscanlator.xyz/manga/test/capitulo-3/");
    let all = try_parse_manga_chapters(&rows, &Vec::new(), None).unwrap();
    assert_eq!(all.len(), 2);
}

#[test]
fn numbers_titles_and_tokens() {
    assert_eq!(extract_number_after_capitulo("Capítulo 5"), None);
    assert_eq!(extract_number_after_capitulo("Capitulo 12,5 - fim"), Some(String::from("12.5")));
    assert_eq!(parse_number_token("12.5."), Some(String::from("12.5")));
    assert_eq!(parse_number_token("1.2.3"), None);
    assert_eq!(parse_number_token("abc"), None);
    assert_eq!(parse_chapter_number("Extra", "https://x/manga/a/capitulo-7/"), Some(String::from("7")));
    assert_eq!(chapter_title_from_text("Ler CAPITULO 42 agora"), "CAPITULO 42");
    assert_eq!(chapter_title_from_text("Capitulo"), "");
    assert!(is_title_sliceable("Capitulo 1"));
    assert!(is_capitulo_sliceable("nada"));
    assert_eq!(extract_date_token("sem data 1/2/3"), None);
}

#[test]
fn statuses_from_text() {
    assert_eq!(status_from_text("Em Progresso"), Some(MangaStatus::Ongoing));
    assert_eq!(status_from_text("Concluído"), Some(MangaStatus::Completed));
    assert_eq!(status_from_text("Hiato"), Some(MangaStatus::Hiatus));
    assert_eq!(status_from_text("Cancelado"), Some(MangaStatus::Cancelled));
    assert_eq!(status_from_text("   "), None);
    assert_eq!(parse_manga_status(&vec![None, Some(String::from("?"))], Some("status: ongoing")), MangaStatus::Ongoing);
    assert_eq!(parse_manga_status(&Vec::new(), None), MangaStatus::Unknown);
}

#[test]
fn page_details() {
    let meta = |c: &str| Some(MetaInfo { content: Some(String::from(c)), value: None, text: None });
    assert_eq!(meta_content(&vec![None, meta("  "), meta(" A  B ")]), Some(String::from("A B")));
    assert_eq!(parse_manga_title(Some("  "), &vec![meta("Titulo")]), Some(String::from("Titulo")));
    assert_eq!(parse_manga_title(Some(" O  Duque "), &Vec::new()), Some(String::from("O Duque")));
    let long = "uma descrição longa o bastante para contar";
    assert_eq!(parse_manga_description(&vec![meta("curta")], &vec![Some(String::from(long))]), Some(String::from(long)));
    assert_eq!(parse_manga_description(&vec![meta("curta")], &Vec::new()), None);
    let tags = parse_manga_tags(&vec![Some(String::from(" Ação ")), Some(String::from("Ação")), None, Some(String::from(""))]);
    assert_eq!(tags, vec![String::from("Ação")]);
    let mut out = vec![String::from("A")];
    push_unique_text_values(&vec![Some(String::from("A")), Some(String::from("B"))], &mut out);
    assert_eq!(out, vec![String::from("A"), String::from("B")]);
}

#[test]
fn cover_prefers_the_summary_image_of_the_metadata() {
    let meta = vec![Some(MetaInfo { content: Some(String::from("https://m/wp-content/uploads/full.jpg")), value: None, text: None })];
    let mut summary = image("https://m/wp-content/uploads/full.jpg");
    summary.srcset = Some(String::from("https://m/wp-content/uploads/200x300.jpg 200w"));
    assert_eq!(
        parse_manga_cover(&meta, &vec![Some(summary)], &Vec::new()),
        Some(String::from("https://m/wp-content/uploads/200x300.jpg"))
    );
    assert_eq!(parse_manga_cover(&meta, &Vec::new(), &Vec::new()), Some(String::from("https://m/wp-content/uploads/full.jpg")));
    assert_eq!(parse_manga_cover(&Vec::new(), &vec![None], &vec![image("https://m/favicon.png"), image("https://m/a.png")]), Some(String::from("https://m/a.png")));
}

#[test]
fn chapter_pages_are_unique_chapter_images() {
    let mut a = image("https://cdn/mt_madara_s3_image/1");
    a.class_name = Some(String::from("wp-manga-chapter-img"));
    let urls = parse_chapter_page_urls(&vec![a.clone(), a, image(SAMPLE_CHAPTER_URL), image("https://cdn/favicon.png")]);
    assert_eq!(urls, vec![String::from("https://cdn/mt_madara_s3_image/1")]);
}

#[test]
fn next_page_and_entities() {
    assert!(has_next_page(true, &Vec::new()));
    assert!(has_next_page(false, &vec![None, Some(String::from(" Próximo "))]));
    assert!(!has_next_page(false, &vec![Some(String::from("anterior"))]));
    assert_eq!(decode_json_entities("&quot;a&quot;:&#039;b&apos; &amp;"), "\"a\":'b' &");
}

#[test]
fn search_requests_and_updates() {
    assert_eq!(search_request_url(Some("  duque  "), 0), (search_url("duque", 1), true));
    assert_eq!(search_request_url(Some("   "), 2), (home_url(2), false));
    assert_eq!(search_request_url(None, 1), (String::from(BASE_URL), false));

    let mut manga = Manga::with_key(String::new());
    let details = PageDetails {
        title: Some(String::from("O Duque")),
        cover: None,
        description: Some(String::from("d")),
        tags: vec![String::from("Ação")],
        authors: Vec::new(),
        artists: Vec::new(),
        status: MangaStatus::Ongoing,
    };
    apply_manga_update(&mut manga, String::from(SAMPLE_MANGA_URL), Some(details), Vec::new());
    assert_eq!(manga.key, SAMPLE_MANGA_KEY);
    assert_eq!(manga.url.as_deref(), Some(SAMPLE_MANGA_URL));
    assert_eq!(manga.title, "O Duque");
    assert!(manga.cover.is_none());
    assert!(manga.authors.is_none());
    assert_eq!(manga.status, MangaStatus::Ongoing);
    assert!(manga.chapters.is_none());
}
