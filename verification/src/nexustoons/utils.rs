//! NexusToons: addresses, deep links and chapter identifiers.

use crate::model::{Chapter, DeepLink, DeepLinkView, Manga, deep_link_view, opt_view};
use crate::text::{append, chars_eq, chars_of, lit, string_of, trim, trim_matches, trim_matches_chars, trim_str};
use crate::url::{path_segments, path_segments_spec};
use vstd::prelude::*;

verus! {

/// The site's address.
pub open spec fn base_url() -> Seq<char> {
    "https://nexustoons.com"@
}

/// The page of a series.
pub open spec fn manga_url_spec(slug: Seq<char>) -> Seq<char> {
    base_url() + "/manga/"@ + trim_matches(trim(slug), '/')
}

/// The page of a series.
pub fn manga_url_from_slug(slug: &str) -> (r: String)
    ensures
        r@ == manga_url_spec(slug@),
{
    let mut out = lit("https://nexustoons.com");
    append(&mut out, lit("/manga/").as_slice());
    append(&mut out, trim_matches_chars(trim_str(slug).as_slice(), '/').as_slice());
    string_of(out.as_slice())
}

/// The reader page of a chapter.
pub open spec fn chapter_url_spec(slug: Seq<char>, chapter_id: Seq<char>) -> Seq<char> {
    base_url() + "/ler/"@ + trim_matches(trim(slug), '/') + seq!['/'] + trim_matches(trim(chapter_id), '/')
}

/// The reader page of a chapter.
pub fn chapter_url_from_slug_and_id(slug: &str, chapter_id: &str) -> (r: String)
    ensures
        r@ == chapter_url_spec(slug@, chapter_id@),
{
    let mut out = lit("https://nexustoons.com");
    append(&mut out, lit("/ler/").as_slice());
    append(&mut out, trim_matches_chars(trim_str(slug).as_slice(), '/').as_slice());
    out.push('/');
    append(&mut out, trim_matches_chars(trim_str(chapter_id).as_slice(), '/').as_slice());
    string_of(out.as_slice())
}

/// What a NexusToons address points at: `manga/<slug>` or `ler/<slug>/<chapter>`.
pub open spec fn deep_link_of(segs: Seq<Seq<char>>) -> Option<DeepLinkView> {
    if segs.len() == 0 {
        None
    } else if segs[0] == "manga"@ && segs.len() >= 2 {
        Some(DeepLinkView::Manga { key: segs[1] })
    } else if segs[0] == "ler"@ && segs.len() >= 3 {
        Some(DeepLinkView::Chapter { manga_key: segs[1], key: segs[2] })
    } else {
        None
    }
}

/// What a NexusToons address points at.
pub fn deep_link_result(url: &str) -> (r: Option<DeepLink>)
    ensures
        deep_link_view(r) == deep_link_of(path_segments_spec(url@)),
{
    let segs = path_segments(url);
    let ghost sv = path_segments_spec(url@);
    assert(segs@.len() == sv.len());
    assert(forall|i: int| 0 <= i < segs@.len() ==> #[trigger] segs@[i]@ == sv[i]);
    if segs.len() == 0 {
        return None;
    }
    let first = chars_of(segs[0].as_str());
    if chars_eq(first.as_slice(), lit("manga").as_slice()) && segs.len() >= 2 {
        return Some(DeepLink::Manga { key: segs[1].clone() });
    }
    if chars_eq(first.as_slice(), lit("ler").as_slice()) && segs.len() >= 3 {
        return Some(DeepLink::Chapter { manga_key: segs[1].clone(), key: segs[2].clone() });
    }
    None
}

/// The series a NexusToons address points at.
pub open spec fn manga_slug_of_url(url: Seq<char>) -> Option<Seq<char>> {
    match deep_link_of(path_segments_spec(url)) {
        Some(DeepLinkView::Manga { key }) => Some(key),
        Some(DeepLinkView::Chapter { manga_key, key: _ }) => Some(manga_key),
        None => None,
    }
}

/// The series a NexusToons address points at.
pub fn manga_slug_from_url(url: &str) -> (r: Option<String>)
    ensures
        opt_view(r) == manga_slug_of_url(url@),
{
    match deep_link_result(url) {
        Some(DeepLink::Manga { key }) => Some(key),
        Some(DeepLink::Chapter { manga_key, key: _ }) => Some(manga_key),
        None => None,
    }
}

/// The chapter a NexusToons address points at.
pub open spec fn chapter_id_of_url(url: Seq<char>) -> Option<Seq<char>> {
    match deep_link_of(path_segments_spec(url)) {
        Some(DeepLinkView::Chapter { manga_key: _, key }) => Some(key),
        _ => None,
    }
}

/// The chapter a NexusToons address points at.
pub fn chapter_id_from_url(url: &str) -> (r: Option<String>)
    ensures
        opt_view(r) == chapter_id_of_url(url@),
{
    match deep_link_result(url) {
        Some(DeepLink::Chapter { manga_key: _, key }) => Some(key),
        _ => None,
    }
}

/// The slug of a series: from its address when that yields one, else its
/// trimmed key without surrounding slashes, unless the key is blank.
pub open spec fn manga_slug_of(key: Seq<char>, url: Option<Seq<char>>) -> Option<Seq<char>> {
    if url is Some && manga_slug_of_url(url->0) is Some {
        manga_slug_of_url(url->0)
    } else if trim(key).len() == 0 {
        None
    } else {
        Some(trim_matches(trim(key), '/'))
    }
}

/// The slug of a series.
pub fn manga_slug_from_manga(manga: &Manga) -> (r: Option<String>)
    ensures
        opt_view(r) == manga_slug_of(manga.key@, opt_view(manga.url)),
{
    match &manga.url {
        Some(url) => match manga_slug_from_url(url.as_str()) {
            Some(slug) => {
                return Some(slug);
            },
            None => {},
        },
        None => {},
    }
    let k = trim_str(manga.key.as_str());
    if k.len() == 0 {
        return None;
    }
    Some(string_of(trim_matches_chars(k.as_slice(), '/').as_slice()))
}

/// How a chapter is identified: its trimmed key, else the chapter its address points at.
pub open spec fn chapter_key_or_id_of(key: Seq<char>, url: Option<Seq<char>>) -> Option<Seq<char>> {
    if trim(key).len() > 0 {
        Some(trim(key))
    } else {
        match url {
            Some(u) => chapter_id_of_url(u),
            None => None,
        }
    }
}

/// How a chapter is identified.
pub fn chapter_key_or_id(chapter: &Chapter) -> (r: Option<String>)
    ensures
        opt_view(r) == chapter_key_or_id_of(chapter.key@, opt_view(chapter.url)),
{
    let k = trim_str(chapter.key.as_str());
    if k.len() > 0 {
        return Some(string_of(k.as_slice()));
    }
    match &chapter.url {
        Some(u) => chapter_id_from_url(u.as_str()),
        None => None,
    }
}

/// The title of a chapter that has none.
pub open spec fn chapter_title_spec(number: Seq<char>) -> Seq<char> {
    "Capítulo "@ + trim(number)
}

/// The title of a chapter that has none: `Capítulo` and its trimmed number.
pub fn chapter_title_from_number(number: &str) -> (r: String)
    ensures
        r@ == chapter_title_spec(number@),
{
    let mut out = lit("Capítulo ");
    append(&mut out, trim_str(number).as_slice());
    string_of(out.as_slice())
}

/// ASCII case folding of one character.
pub open spec fn ascii_lower(c: char) -> char {
    if 'A' <= c <= 'Z' {
        ((c as u32) + 32) as char
    } else {
        c
    }
}

/// `str::eq_ignore_ascii_case`.
pub open spec fn eq_ignore_ascii_case(a: Seq<char>, b: Seq<char>) -> bool {
    a.len() == b.len() && forall|i: int| 0 <= i < a.len() ==> ascii_lower(#[trigger] a[i]) == ascii_lower(b[i])
}

fn ascii_lower_exec(c: char) -> (r: char)
    ensures
        r == ascii_lower(c),
{
    if 'A' <= c && c <= 'Z' {
        ((c as u8) + 32) as char
    } else {
        c
    }
}

/// `str::eq_ignore_ascii_case`.
pub fn eq_ignore_ascii_case_exec(a: &[char], b: &[char]) -> (r: bool)
    ensures
        r == eq_ignore_ascii_case(a@, b@),
{
    if a.len() != b.len() {
        return false;
    }
    let mut i: usize = 0;
    while i < a.len()
        invariant
            i <= a@.len(),
            a@.len() == b@.len(),
            forall|j: int| 0 <= j < i ==> ascii_lower(#[trigger] a@[j]) == ascii_lower(b@[j]),
        decreases a@.len() - i,
    {
        if ascii_lower_exec(a[i]) != ascii_lower_exec(b[i]) {
            return false;
        }
        i += 1;
    }
    true
}

/// Debug logging is on when the setting is the number 1, the boolean `true`, or
/// the text `1`, `true`, `yes` or `on` (trimmed, any ASCII case).
pub open spec fn debug_enabled_by(number: Option<i32>, flag: Option<bool>, text: Option<Seq<char>>) -> bool {
    ||| number == Some(1i32)
    ||| flag == Some(true)
    ||| (text matches Some(t) && (trim(t) == "1"@ || eq_ignore_ascii_case(trim(t), "true"@)
        || eq_ignore_ascii_case(trim(t), "yes"@) || eq_ignore_ascii_case(trim(t), "on"@)))
}

/// Whether the stored setting turns debug logging on.
pub fn debug_logs_enabled_from(number: Option<i32>, flag: Option<bool>, text: Option<&str>) -> (r: bool)
    ensures
        r == debug_enabled_by(number, flag, match text {
            Some(t) => Some(t@),
            None => None,
        }),
{
    if number == Some(1i32) {
        return true;
    }
    match flag {
        Some(true) => {
            return true;
        },
        _ => {},
    }
    match text {
        Some(t) => {
            let v = trim_str(t);
            let v = v.as_slice();
            chars_eq(v, lit("1").as_slice()) || eq_ignore_ascii_case_exec(v, lit("true").as_slice())
                || eq_ignore_ascii_case_exec(v, lit("yes").as_slice()) || eq_ignore_ascii_case_exec(
                v,
                lit("on").as_slice(),
            )
        },
        None => false,
    }
}

/// The debug-logging flag as first read, kept for the rest of the session.
pub struct DebugFlagCache {
    pub value: Option<bool>,
}

/// What asking for the flag gives: in a debug build always `true` with the
/// cache untouched; otherwise the cached value when there is one, else the
/// value the setting reads as, which the cache then keeps.
pub open spec fn debug_flag_step(
    cached: Option<bool>,
    debug_build: bool,
    number: Option<i32>,
    flag: Option<bool>,
    text: Option<Seq<char>>,
) -> (Option<bool>, bool) {
    if debug_build {
        (cached, true)
    } else {
        match cached {
            Some(v) => (cached, v),
            None => {
                let v = debug_enabled_by(number, flag, text);
                (Some(v), v)
            },
        }
    }
}

impl DebugFlagCache {
    /// An empty cache: nothing read yet.
    pub fn new() -> (c: DebugFlagCache)
        ensures
            c.value is None,
    {
        DebugFlagCache { value: None }
    }

    /// Whether the setting has to be read to answer: only in a release build
    /// before the first answer.
    pub fn needs_setting(&self, debug_build: bool) -> (r: bool)
        ensures
            r == (!debug_build && self.value is None),
    {
        !debug_build && self.value.is_none()
    }

    /// Whether debug logging is on, given the stored setting as read now
    /// (read only when `needs_setting` says so; otherwise it is not looked at).
    pub fn enabled(&mut self, debug_build: bool, number: Option<i32>, flag: Option<bool>, text: Option<&str>) -> (r: bool)
        ensures
            (final(self).value, r) == debug_flag_step(old(self).value, debug_build, number, flag, match text {
                Some(t) => Some(t@),
                None => None,
            }),
    {
        if debug_build {
            return true;
        }
        match self.value {
            Some(v) => v,
            None => {
                let v = debug_logs_enabled_from(number, flag, text);
                self.value = Some(v);
                v
            },
        }
    }
}

/// Once the flag has been answered in a release build, every later answer is
/// the same, whatever the setting reads as by then, and the cache stays as it is.
pub proof fn lemma_debug_flag_kept(
    cached: Option<bool>,
    n1: Option<i32>,
    f1: Option<bool>,
    t1: Option<Seq<char>>,
    n2: Option<i32>,
    f2: Option<bool>,
    t2: Option<Seq<char>>,
)
    ensures
        ({
            let (c1, r1) = debug_flag_step(cached, false, n1, f1, t1);
            let (c2, r2) = debug_flag_step(c1, false, n2, f2, t2);
            c2 == c1 && r2 == r1 && c1 == Some(r1)
        }),
{
}

} // verus!

verus! {

/// A plain segment has nothing to trim.
proof fn lemma_plain_untrimmed(s: Seq<char>)
    requires
        crate::url::plain_segment(s),
    ensures
        trim_matches(trim(s), '/') == s,
{
    crate::text::lemma_trim_by_noop(s, crate::text::ws_pred());
    crate::text::lemma_trim_by_noop(s, crate::text::eq_pred('/'));
}

/// The page built for a series slug leads back to that series.
pub proof fn lemma_manga_link_round_trip(slug: Seq<char>)
    requires
        crate::url::plain_segment(slug),
    ensures
        deep_link_of(path_segments_spec(manga_url_spec(slug))) == Some(DeepLinkView::Manga { key: slug }),
{
    reveal_strlit("https://nexustoons.com");
    reveal_strlit("https://");
    reveal_strlit("/manga/");
    reveal_strlit("manga");
    lemma_plain_untrimmed(slug);
    let host = "nexustoons.com"@;
    reveal_strlit("nexustoons.com");
    let path = "manga"@ + seq!['/'] + slug;
    assert(manga_url_spec(slug) =~= "https://"@ + host + seq!['/'] + path);
    assert(path.last() == slug.last());
    assert forall|i: int| 0 <= i < path.len() implies #[trigger] path[i] != '?' && path[i] != '#' by {
        if i >= 6 {
            assert(path[i] == slug[i - 6]);
        }
    }
    crate::url::lemma_url_path_https(host, path);
    crate::url::lemma_segments_cons("manga"@, slug);
    crate::url::lemma_segments_single(slug);
    assert(seq!["manga"@] + seq![slug] =~= seq!["manga"@, slug]);
}

/// The reader page built for a chapter leads back to the series and the chapter.
pub proof fn lemma_chapter_link_round_trip(slug: Seq<char>, chapter_id: Seq<char>)
    requires
        crate::url::plain_segment(slug),
        crate::url::plain_segment(chapter_id),
    ensures
        deep_link_of(path_segments_spec(chapter_url_spec(slug, chapter_id))) == Some(
            DeepLinkView::Chapter { manga_key: slug, key: chapter_id },
        ),
{
    reveal_strlit("https://nexustoons.com");
    reveal_strlit("https://");
    reveal_strlit("/ler/");
    reveal_strlit("ler");
    lemma_plain_untrimmed(slug);
    lemma_plain_untrimmed(chapter_id);
    let host = "nexustoons.com"@;
    reveal_strlit("nexustoons.com");
    let path = "ler"@ + seq!['/'] + slug + seq!['/'] + chapter_id;
    assert(chapter_url_spec(slug, chapter_id) =~= "https://"@ + host + seq!['/'] + path);
    assert(path.last() == chapter_id.last());
    assert forall|i: int| 0 <= i < path.len() implies #[trigger] path[i] != '?' && path[i] != '#' by {
        if 4 <= i < 4 + slug.len() {
            assert(path[i] == slug[i - 4]);
        } else if i >= 5 + slug.len() {
            assert(path[i] == chapter_id[i - 5 - slug.len()]);
        }
    }
    crate::url::lemma_url_path_https(host, path);
    assert(path =~= "ler"@ + seq!['/'] + (slug + seq!['/'] + chapter_id));
    crate::url::lemma_segments_cons("ler"@, slug + seq!['/'] + chapter_id);
    crate::url::lemma_segments_cons(slug, chapter_id);
    crate::url::lemma_segments_single(chapter_id);
    assert(seq!["ler"@] + (seq![slug] + seq![chapter_id]) =~= seq!["ler"@, slug, chapter_id]);
    reveal_strlit("manga");
    assert("ler"@ != "manga"@) by {
        assert("ler"@.len() != "manga"@.len());
    }
}

} // verus!
