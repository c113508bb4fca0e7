use ptbr_sources::model::{Chapter, DeepLink, Manga, MangaStatus};
use ptbr_sources::toonlivre::api::{
    generate_session, is_success_status, manga_by_slug_url, manga_reader_url, releases_url,
    response_error, search_url, seed_url, session_cookie_header, ApiChapter, ApiChapterDetails,
    ApiListResponse, ApiMangaCard, ApiPagination,
};
use ptbr_sources::toonlivre::manga::{
    chapter_from_api, home_sections, manga_from_card, manga_update_plan, map_list_response,
    merge_description, UpdatePlan,
};
use ptbr_sources::toonlivre::manifest::{
    choose_active_manifest, current_decryption_passphrase_for_manifest, default_manifest,
    generate_session_cookie_value, manifest_or_default, pseudo_random_segment,
    signature_value_for_url, try_generate_session_cookie_value, validate_manifest,
    ManifestRandomSegment, ManifestSessionCookieGenerator,
};
use md5::{Digest, Md5};
use ptbr_sources::toonlivre::token_server::{
    full_health_url, full_tokens_url, token_server_enabled, token_server_url, TokenServerCache,
    TokenServerConfig, TokenServerEndpoints, TokenServerFallback, TokenServerTimeout,
};
use ptbr_sources::toonlivre::utils::{
    chapter_key_or_number, chapter_number_from_url, chapter_numbers_match, chapter_segment,
    chapter_url_from_slug_and_number, civil_from_days, current_decryption_passphrase,
    current_utc_date_string, date_from_timestamp_millis, deep_link_result, is_reserved_segment,
    manga_slug_from_manga, manga_slug_from_url, manga_status_from_text, manga_url_from_slug,
    slugify_title, trim_leading_zeroes, verify_token,
};
use ptbr_sources::toonlivre::webview::{
    build_webview_cookie_header, chapter_number_hint, cookie_pair_count, cookie_value_from_header,
    parse_webview_chapter_cache, update_webview_cookie_cache, webview_chapter_storage_key,
    webview_session_cookie,
};

const SAMPLE_MANGA_URL: &str = "https://toonlivre.net/contos-de-demonios-e-deuses";
const SAMPLE_CHAPTER_URL: &str = "https://toonlivre.net/contos-de-demonios-e-deuses/522.5";
const SAMPLE_MANGA_SLUG: &str = "contos-de-demonios-e-deuses";
const SAMPLE_CHAPTER_NUMBER: &str = "522.5";
const SAMPLE_MANGA_ID: &str = "obra-dbbabf0f";
const SAMPLE_CHAPTER_ID: &str = "cap-dd9e898d-522_5";

fn config(enabled: bool) -> TokenServerConfig {
    TokenServerConfig {
        schema_version: 1,
        enabled,
        host: String::from("http://localhost:3000/"),
        endpoints: TokenServerEndpoints { tokens: String::from("/tokens"), health: String::from("health") },
        timeout: TokenServerTimeout { connect: 5, request: 10 },
        cache: TokenServerCache { enabled: true, ttl: 60 },
        fallback: TokenServerFallback { enabled: true, retry_count: 1 },
    }
}

fn api_chapter(number: &str, title: &str, timestamp: i64) -> ApiChapter {
    ApiChapter {
        id: String::from("cap-1"),
        number: String::from(number),
        title: String::from(title),
        release_date: String::new(),
        timestamp,
        page_count: None,
    }
}

#[test]
fn helper_slugifies_titles_and_formats_chapters() {
    assert_eq!(slugify_title("Técnica do Deus Marcial da Estrela"), "tecnica-do-deus-marcial-da-estrela");
    assert_eq!(
        slugify_title("Domador de Bestas - Vejo Todas as Evoluções"),
        "domador-de-bestas-vejo-todas-as-evolucoes"
    );
    assert_eq!(chapter_segment("5"), "05");
    assert_eq!(chapter_segment("05"), "05");
    assert_eq!(chapter_segment("105"), "105");
    assert_eq!(chapter_segment("522.5"), "522.5");
    assert!(chapter_numbers_match("05", "5"));
    assert!(chapter_numbers_match("005", "5"));
}

#[test]
fn helper_parses_deep_links() {
    match deep_link_result(SAMPLE_MANGA_URL) {
        Some(DeepLink::Manga { key }) => assert_eq!(key, SAMPLE_MANGA_SLUG),
        _ => panic!("expected manga deep link"),
    }
    match deep_link_result(SAMPLE_CHAPTER_URL) {
        Some(DeepLink::Chapter { manga_key, key }) => {
            assert_eq!(manga_key, SAMPLE_MANGA_SLUG);
            assert_eq!(key, SAMPLE_CHAPTER_NUMBER);
        }
        _ => panic!("expected chapter deep link"),
    }
    match deep_link_result(
        "https://toonlivre.net/read/contos-de-demonios-e-deuses/obra-dbbabf0f/cap-dd9e898d-522_5",
    ) {
        Some(DeepLink::Chapter { manga_key, key }) => {
            assert_eq!(manga_key, SAMPLE_MANGA_ID);
            assert_eq!(key, SAMPLE_CHAPTER_ID);
        }
        _ => panic!("expected reader deep link"),
    }
    assert!(deep_link_result("https://toonlivre.net/favorites").is_none());
}

#[test]
fn source_handles_deep_links() {
    match deep_link_result(&String::from(SAMPLE_MANGA_URL)) {
        Some(DeepLink::Manga { key }) => assert_eq!(key, SAMPLE_MANGA_SLUG),
        _ => panic!("expected manga deep link"),
    }
    match deep_link_result(&String::from(SAMPLE_CHAPTER_URL)) {
        Some(DeepLink::Chapter { manga_key, key }) => {
            assert_eq!(manga_key, SAMPLE_MANGA_SLUG);
            assert_eq!(key, SAMPLE_CHAPTER_NUMBER);
        }
        _ => panic!("expected chapter deep link"),
    }
}

#[test]
fn addresses_and_slugs() {
    assert_eq!(manga_url_from_slug("/contos/"), "https://toonlivre.net/contos");
    assert_eq!(chapter_url_from_slug_and_number("contos", " 7 "), "https://toonlivre.net/contos/07");
    assert_eq!(manga_slug_from_url(SAMPLE_CHAPTER_URL), Some(String::from(SAMPLE_MANGA_SLUG)));
    assert_eq!(manga_slug_from_url("https://toonlivre.net/obra-1"), None);
    assert_eq!(chapter_number_from_url(SAMPLE_CHAPTER_URL), Some(String::from("522.5")));
    assert!(is_reserved_segment("admin"));
    assert!(!is_reserved_segment("contos"));
    assert_eq!(manga_slug_from_manga(&Manga::with_key(String::from("obra-1"))), None);
    let mut c = Chapter::with_key(String::new());
    c.url = Some(String::from(SAMPLE_CHAPTER_URL));
    assert_eq!(chapter_key_or_number(&c), Some(String::from("522.5")));
}

#[test]
fn statuses_numbers_and_dates() {
    assert_eq!(manga_status_from_text(" Em Lançamento "), MangaStatus::Ongoing);
    assert_eq!(manga_status_from_text("CONCLUÍDO"), MangaStatus::Completed);
    assert_eq!(manga_status_from_text("?"), MangaStatus::Unknown);
    assert_eq!(trim_leading_zeroes(" 000 "), "0");
    assert_eq!(trim_leading_zeroes("007"), "7");
    assert!(!chapter_numbers_match("7", "70"));
    assert_eq!(date_from_timestamp_millis(1_700_000_000_123), Some(1_700_000_000));
    assert_eq!(date_from_timestamp_millis(0), None);
}

#[test]
fn civil_dates_and_passphrase() {
    assert_eq!(civil_from_days(0), (1970, 1, 1));
    assert_eq!(civil_from_days(19_723), (2024, 1, 1));
    assert_eq!(civil_from_days(-1), (1969, 12, 31));
    assert_eq!(civil_from_days(11_016), (2000, 2, 29));
    assert_eq!(current_utc_date_string(1_700_000_000), "2023-11-14");
    let p = current_decryption_passphrase(1_700_000_000);
    assert_eq!(p.len(), 30);
    assert!(p.starts_with("Dealer-Critter-Catnip4"));
    assert!(p[22..].chars().all(|c| c.is_ascii_hexdigit() && !c.is_ascii_uppercase()));
    assert_eq!(p, current_decryption_passphrase(1_700_000_000 + 3_000));
    assert_ne!(p, current_decryption_passphrase(1_700_000_000 + 86_400));
    let manifest = default_manifest();
    assert_eq!(current_decryption_passphrase_for_manifest(&manifest, 1_700_000_000), p);
}

#[test]
fn api_addresses_and_errors() {
    assert_eq!(releases_url(2, 48), "https://toonlivre.net/api/mangas/releases?page=2&limit=48");
    assert_eq!(
        search_url(" o duque ", 1, 24),
        "https://toonlivre.net/api/mangas/search?q=o+duque&page=1&limit=24&sortBy=updated&sortOrder=desc"
    );
    assert_eq!(manga_reader_url("obra-1"), "https://toonlivre.net/api/mangas/obra-1/reader");
    assert_eq!(manga_by_slug_url("/a b/"), "https://toonlivre.net/api/manga-by-slug/a+b");
    assert_eq!(seed_url(), "https://toonlivre.net/api/seed");
    assert!(is_success_status(204));
    assert!(!is_success_status(301));
    assert_eq!(
        response_error("u", 403, r#"{"error":"blocked"}"#),
        "Request failed.\nURL: u\nStatus: 403\nError: blocked"
    );
    assert_eq!(response_error("u", 500, "  oops  "), "Request failed.\nURL: u\nStatus: 500\nError: oops");
    assert_eq!(session_cookie_header("abc"), "toon_v=abc");
    assert_eq!(generate_session(0), "00");
    assert_eq!(generate_session(1), "19e3779b97f4a5c15");
    assert!(!verify_token().is_empty());
}

#[test]
fn cards_chapters_and_home() {
    let card = |id: &str, recent: Vec<ApiChapter>| ApiMangaCard {
        id: String::from(id),
        title: String::from("Contos de Demônios"),
        cover_url: None,
        slug: None,
        alternative_title: Some(String::from("Alt")),
        recent_chapters: recent,
        registered_users_only: false,
    };
    let m = manga_from_card(&card("obra-1", Vec::new()));
    assert_eq!(m.key, "obra-1");
    assert!(m.url.is_none());
    let c = chapter_from_api(&api_chapter(" 5 ", "", 1_700_000_000_000), None, "Contos de Demônios");
    assert_eq!(c.title.as_deref(), Some("Capítulo 5"));
    assert_eq!(c.url.as_deref(), Some("https://toonlivre.net/contos-de-demonios/05"));
    assert_eq!(c.date_uploaded, Some(1_700_000_000));
    let response = ApiListResponse {
        mangas: vec![card("obra-1", Vec::new()), card("obra-2", vec![api_chapter("1", "Um", 0)])],
        pagination: ApiPagination { current_page: 1, has_next_page: true },
    };
    assert!(map_list_response(&response).has_next_page);
    let home = home_sections(&response);
    assert_eq!(home.releases.len(), 2);
    assert_eq!(home.recent.len(), 1);
    assert_eq!(home.recent[0].manga.key, "obra-2");
    assert_eq!(home.more[0].manga.key, "obra-1");
    assert_eq!(merge_description(Some(" A "), Some("B")), Some(String::from("A\n\nB")));
    assert_eq!(merge_description(Some(" "), None), None);
}

#[test]
fn update_plans() {
    match manga_update_plan(&Manga::with_key(String::from(SAMPLE_MANGA_ID))).unwrap() {
        UpdatePlan::ById { id } => assert_eq!(id, SAMPLE_MANGA_ID),
        _ => panic!("expected lookup by id"),
    }
    match manga_update_plan(&Manga::with_key(String::from(SAMPLE_MANGA_SLUG))).unwrap() {
        UpdatePlan::BySlug { slug } => assert_eq!(slug, SAMPLE_MANGA_SLUG),
        _ => panic!("expected lookup by slug"),
    }
    assert!(manga_update_plan(&Manga::with_key(String::from("  "))).is_err());
}

#[test]
fn token_server_addresses() {
    assert!(!token_server_enabled(None));
    assert!(!token_server_enabled(Some(&config(false))));
    assert!(token_server_enabled(Some(&config(true))));
    assert_eq!(full_tokens_url(Some(&config(true))), Some(String::from("http://localhost:3000/tokens")));
    assert_eq!(full_health_url(Some(&config(true))), Some(String::from("http://localhost:3000/health")));
    assert_eq!(token_server_url(Some(&config(false)), "/x"), Some(String::from("http://localhost:3000/x")));
    assert_eq!(token_server_url(None, "/x"), None);
    assert_eq!(full_tokens_url(None), None);
}

#[test]
fn manifest_defaults_and_values() {
    assert!(validate_manifest(default_manifest()).is_some());
    let m = manifest_or_default(None);
    assert_eq!(m.source_id, "pt_BR.toonlivre");
    let cookie = generate_session_cookie_value(&m, 1_700_000_000, 1);
    assert_eq!(cookie.len(), 26);
    assert!(cookie.chars().all(|c| c.is_ascii_digit() || c.is_ascii_lowercase()));
    assert_eq!(cookie, generate_session_cookie_value(&m, 1_700_000_000, 1));
    assert_ne!(cookie, generate_session_cookie_value(&m, 1_700_000_000, 2));
    let sig = signature_value_for_url(&m, "https://toonlivre.net/api/mangas/x/chapters/y", 1_700_000_000);
    assert!(!sig.is_empty());
    assert_eq!(sig, signature_value_for_url(&m, "https://toonlivre.net/api/mangas/x/chapters/y", 1_700_000_000));
    let chosen = choose_active_manifest(default_manifest(), None);
    assert_eq!(chosen.site_url, "https://toonlivre.net");
}

#[test]
fn webview_cookies_and_cache() {
    assert_eq!(webview_chapter_storage_key("obra-1", "cap-2"), "toonlivre_chapter_cache_v1:obra-1:cap-2");
    assert_eq!(cookie_pair_count(&"a=1; ; b=2;".chars().collect::<Vec<char>>()), 2);
    assert_eq!(cookie_value_from_header("a=1; toon_v=xyz", "toon_v"), Some(String::from("xyz")));
    assert_eq!(update_webview_cookie_cache(None, "  "), None);
    let first = update_webview_cookie_cache(None, " a=1 ");
    assert_eq!(first, Some(String::from("a=1")));
    let more = update_webview_cookie_cache(first.clone(), "a=1; b=2");
    assert_eq!(more, Some(String::from("a=1; b=2")));
    assert_eq!(update_webview_cookie_cache(more.clone(), "c=3"), more);
    assert_eq!(update_webview_cookie_cache(more.clone(), "a=1; b=2"), more);
    assert!(build_webview_cookie_header(Some(String::from("toon_v=abc")), 5).contains("toon_v=abc"));
    assert!(build_webview_cookie_header(None, 0).contains("toon_v="));
    assert_eq!(webview_session_cookie("toon_v=abc", 0), "abc");
    assert_eq!(webview_session_cookie("x=1", 0), generate_session(0));
    assert_eq!(chapter_number_hint("https://toonlivre.net/a/522.5"), "522.5");
    let empty = ApiChapterDetails {
        id: String::from("c"),
        pages: Vec::new(),
        title: String::new(),
        number: String::new(),
        manga_id: String::new(),
        timestamp: 0,
        release_date: String::new(),
    };
    assert_eq!(
        parse_webview_chapter_cache(empty, "k").unwrap_err(),
        "WebView chapter cache does not contain pages.\nKey: k"
    );
}

fn hosted() -> TokenServerConfig {
    TokenServerConfig {
        host: String::from("https://toons.4nd.xyz"),
        endpoints: TokenServerEndpoints { tokens: String::from("/api/tokens"), health: String::from("/health") },
        ..config(true)
    }
}

#[test]
fn token_server_url_handles_leading_slash() {
    let url = token_server_url(Some(&hosted()), "/api/tokens").expect("Should handle leading slash");
    assert_eq!(url, "https://toons.4nd.xyz/api/tokens");
}

#[test]
fn token_server_url_handles_no_leading_slash() {
    let url = token_server_url(Some(&hosted()), "api/tokens").expect("Should handle no leading slash");
    assert_eq!(url, "https://toons.4nd.xyz/api/tokens");
}

#[test]
fn full_tokens_url_generates_correct_url() {
    assert_eq!(full_tokens_url(Some(&hosted())), Some(String::from("https://toons.4nd.xyz/api/tokens")));
    assert_eq!(full_health_url(Some(&hosted())), Some(String::from("https://toons.4nd.xyz/health")));
}

#[test]
fn civil_days_step_to_the_next_date() {
    assert_eq!(civil_from_days(19781), (2024, 2, 28));
    assert_eq!(civil_from_days(19782), (2024, 2, 29));
    assert_eq!(civil_from_days(19783), (2024, 3, 1));
    assert_eq!(civil_from_days(19416), (2023, 2, 28));
    assert_eq!(civil_from_days(19417), (2023, 3, 1));
    assert_eq!(civil_from_days(19722), (2023, 12, 31));
    assert_eq!(civil_from_days(19723), (2024, 1, 1));
    assert_eq!(civil_from_days(11016), (2000, 2, 29));
    assert_eq!(civil_from_days(-25509), (1900, 2, 28));
    assert_eq!(civil_from_days(-25508), (1900, 3, 1));
    let (_, m, d) = civil_from_days(i64::MAX - 719_468);
    assert!((1..=12).contains(&m) && (1..=31).contains(&d));
    let (_, m, d) = civil_from_days(i64::MIN);
    assert!((1..=12).contains(&m) && (1..=31).contains(&d));
}

fn reference_digit(value: u8) -> Option<char> {
    match value {
        0..=9 => Some((b'0' + value) as char),
        _ => b'a'.checked_add(value - 10).map(|c| c as char),
    }
}

/// The segment as a byte-level string computes it; `None` where that
/// arithmetic overflows or the range is not on character boundaries.
fn reference_segment(seed: &str, index: usize, radix: u8, start: usize, end: usize) -> Option<String> {
    let r = radix.max(2);
    let target = end.max(start.checked_add(1)?);
    let mut stream = String::new();
    let mut round = 0usize;
    while stream.len() < target {
        let digest = Md5::digest(format!("{seed}:{index}:{round}").as_bytes());
        for byte in digest.iter() {
            stream.push(reference_digit(byte % r)?);
            if stream.len() >= target {
                break;
            }
            stream.push(reference_digit((byte / r) % r)?);
            if stream.len() >= target {
                break;
            }
        }
        round += 1;
    }
    stream.get(start..target).map(String::from)
}

#[test]
fn cookie_segments_in_any_radix() {
    let seed = "1700000000:1:toonlivre:Dealer-Critter-Catnip4a1b2c3d4";
    let seed_chars: Vec<char> = seed.chars().collect();
    let mut some = 0;
    let mut none = 0;
    for radix in [0u8, 2, 10, 36, 41, 42, 50, 100, 128, 150, 168, 169, 170, 200, 255] {
        for (start, end) in [(0usize, 5usize), (2, 15), (3, 4), (7, 7), (10, 40), (31, 64)] {
            for index in 0..3usize {
                let segment = ManifestRandomSegment { radix, start, end };
                let got = pseudo_random_segment(&seed_chars, index, segment);
                let expected = reference_segment(seed, index, radix, start, end);
                assert_eq!(got, expected, "radix {radix} range {start}..{end} index {index}");
                if got.is_some() {
                    some += 1;
                } else {
                    none += 1;
                }
            }
        }
    }
    assert!(some > 0 && none > 0);
    let segment = ManifestRandomSegment { radix: 36, start: usize::MAX, end: 3 };
    assert_eq!(pseudo_random_segment(&seed_chars, 0, segment), None);
    let mut m = default_manifest();
    m.request.session_cookie.generator = ManifestSessionCookieGenerator::RandomBase36Concat { segments: vec![segment] };
    assert_eq!(try_generate_session_cookie_value(&m, 1_700_000_000, 1), None);
    let d = default_manifest();
    assert_eq!(
        try_generate_session_cookie_value(&d, 1_700_000_000, 1),
        Some(generate_session_cookie_value(&d, 1_700_000_000, 1))
    );
}
