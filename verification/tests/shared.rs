use ptbr_sources::listing::{image_referer, list_request, page_refs, ListRequest};
use ptbr_sources::toonlivre::manifest::{default_manifest, sha256_hex, signature_value_for_url};
use ptbr_sources::url::{path_segments, percent_encode};
use ptbr_sources::webview::{cached_value, next_wait_action, WaitAction};

#[test]
fn list_requests() {
    match list_request(Some("  duque "), 0) {
        ListRequest::Search { query, page } => {
            assert_eq!(query, "duque");
            assert_eq!(page, 1);
        }
        _ => panic!("expected a search"),
    }
    match list_request(Some("   "), 3) {
        ListRequest::Releases { page } => assert_eq!(page, 3),
        _ => panic!("expected the releases"),
    }
    match list_request(None, -5) {
        ListRequest::Releases { page } => assert_eq!(page, 1),
        _ => panic!("expected the releases"),
    }
}

#[test]
fn pages_carry_the_chapter_referer() {
    assert_eq!(page_refs(Vec::new(), "r", "No chapter pages found").unwrap_err(), "No chapter pages found");
    let pages = page_refs(vec![String::from("a"), String::from("b")], "https://x/c/1", "No chapter pages found").unwrap();
    assert_eq!(pages.len(), 2);
    assert_eq!(pages[1].url, "b");
    assert_eq!(pages[1].referer, "https://x/c/1");
    assert_eq!(image_referer(Some("https://x/c/1"), "https://x"), "https://x/c/1");
    assert_eq!(image_referer(None, "https://x"), "https://x");
}

#[test]
fn webview_cache_reads_and_polling() {
    assert_eq!(cached_value("  null "), None);
    assert_eq!(cached_value("undefined"), None);
    assert_eq!(cached_value(" "), None);
    assert_eq!(cached_value(" {\"a\":1} "), Some(String::from("{\"a\":1}")));
    assert_eq!(next_wait_action(1, 4, true), WaitAction::Done);
    assert_eq!(next_wait_action(1, 4, false), WaitAction::SleepThenRetry { next: 2 });
    assert_eq!(next_wait_action(4, 4, false), WaitAction::GiveUp);
}

#[test]
fn query_escaping_and_paths() {
    assert_eq!(percent_encode("ação e duque"), "a%C3%A7%C3%A3o+e+duque");
    assert_eq!(percent_encode("A-z_0.~"), "A-z_0.~");
    assert_eq!(percent_encode("a&b=c"), "a%26b%3Dc");
    assert_eq!(percent_encode("a b%"), "a+b%25");
    assert_eq!(percent_encode("\u{7f}~"), "%7F~");
    assert_eq!(path_segments(" https://h.x//a//b/?q=1#f "), vec![String::from("a"), String::from("b")]);
    assert!(path_segments("https://h.x").is_empty());
}

#[test]
fn digests_and_signatures() {
    let hex: String = sha256_hex(b"abc").into_iter().collect();
    assert_eq!(hex, "ba7816bf8f01cfea414140de5dae2223b00361a396177a9cb410ff61f20015ad");
    let m = default_manifest();
    assert_eq!(
        signature_value_for_url(&m, "https://toonlivre.net/api/mangas/x/chapters/y", 1_700_000_000),
        "NTY2NjY2NjY6NzIxMjU1YjJjZWE4ODhkMzUwNGRiNGU5NWI3ZDM3YjEzMDUyNTJkMzRmYzkxYTQ0NjNmYTZkZWEyYTBiOGEzZA=="
    );
}
