//! ToonLivre: URLs, deep links, chapter numbering, slugs and the daily
//! decryption passphrase.

use crate::digest::{hex_text, md5_bytes, md5_digest, utf8_bytes};
use crate::model::{Chapter, DeepLink, DeepLinkView, Manga, MangaStatus, deep_link_view, opt_view};
use crate::number::{padded_decimal, padded_decimal_i64, all_digits, all_digits_exec, digit_char, digits_value, is_digit, parse_digits_i32};
use crate::text::{
    append, chars_eq, chars_of, ends_with, ends_with_exec, lit, lowercase, lowercase_chars,
    replace_all, replace_all_exec, slice_range, starts_with, starts_with_exec, string_of, trim,
    trim_chars, trim_end_matches, trim_end_matches_chars, trim_matches, trim_matches_chars,
    trim_start_matches, trim_start_matches_chars, trim_str, is_ws, ws_pred, eq_pred,
};
use crate::unicode::{char_lowercase, char_to_lowercase, combining_mark, is_combining, nfd, nfd_chars};
use crate::url::{path_segments, path_segments_spec};
use vstd::prelude::*;

verus! {

/// The site's address.
pub open spec fn base_url() -> Seq<char> {
    "https://toonlivre.net"@
}

/// The token that marks requests of this source.
pub open spec fn verify_token_text() -> Seq<char> {
    "aidoku-toonlivre"@
}

/// The token that marks requests of this source.
pub fn verify_token() -> (r: &'static str)
    ensures
        r@ == verify_token_text(),
{
    "aidoku-toonlivre"
}

/// The page of a series: the site address, `/`, and the slug without
/// surrounding slashes.
pub open spec fn manga_url_spec(slug: Seq<char>) -> Seq<char> {
    base_url() + seq!['/'] + trim_matches(slug, '/')
}

/// The page of a series.
pub fn manga_url_from_slug(slug: &str) -> (r: String)
    ensures
        r@ == manga_url_spec(slug@),
{
    let mut out = lit("https://toonlivre.net");
    out.push('/');
    let s = chars_of(slug);
    let t = trim_matches_chars(s.as_slice(), '/');
    append(&mut out, t.as_slice());
    string_of(out.as_slice())
}

/// Two decimal digits for `n < 100` (`format!("{:02}", n)`).
pub open spec fn two_digits(n: nat) -> Seq<char> {
    seq![digit_char(n / 10), digit_char(n % 10)]
}

/// How a chapter number appears in a chapter's address: trimmed; an all-digit
/// number below 100 padded to two digits; a leading `0` before a digit dropped
/// from any other number.
pub open spec fn chapter_segment_spec(value: Seq<char>) -> Seq<char> {
    let v = trim(value);
    if v.len() == 0 {
        v
    } else if all_digits(v) {
        if digits_value(v) <= i32::MAX && digits_value(v) < 100 {
            two_digits(digits_value(v))
        } else {
            v
        }
    } else if v[0] == '0' && v.len() >= 2 && is_digit(v[1]) {
        v.drop_first()
    } else {
        v
    }
}

/// How a chapter number appears in a chapter's address.
pub fn chapter_segment(value: &str) -> (r: String)
    ensures
        r@ == chapter_segment_spec(value@),
{
    let v = trim_str(value);
    if v.len() == 0 {
        return string_of(v.as_slice());
    }
    if all_digits_exec(v.as_slice()) {
        match parse_digits_i32(v.as_slice()) {
            Some(number) => {
                if number < 100 {
                    let mut out: Vec<char> = Vec::new();
                    out.push(crate::number::digit_char_exec((number / 10) as u64));
                    out.push(crate::number::digit_char_exec((number % 10) as u64));
                    return string_of(out.as_slice());
                }
            },
            None => {},
        }
        return string_of(v.as_slice());
    }
    if v.len() >= 2 && v[0] == '0' && '0' <= v[1] && v[1] <= '9' {
        let rest = slice_range(v.as_slice(), 1, v.len());
        assert(rest@ == v@.drop_first());
        return string_of(rest.as_slice());
    }
    string_of(v.as_slice())
}

/// The address of a chapter of a series.
pub open spec fn chapter_url_spec(slug: Seq<char>, number: Seq<char>) -> Seq<char> {
    manga_url_spec(slug) + seq!['/'] + chapter_segment_spec(number)
}

/// The address of a chapter of a series.
pub fn chapter_url_from_slug_and_number(slug: &str, chapter_number: &str) -> (r: String)
    ensures
        r@ == chapter_url_spec(slug@, chapter_number@),
{
    let base = manga_url_from_slug(slug);
    let mut out = chars_of(base.as_str());
    out.push('/');
    let seg = chapter_segment(chapter_number);
    let seg_chars = chars_of(seg.as_str());
    append(&mut out, seg_chars.as_slice());
    string_of(out.as_slice())
}

/// The status named by a site label, compared after trimming and lower-casing.
pub open spec fn status_of_label(lower: Seq<char>) -> MangaStatus {
    if lower == "ongoing"@ || lower == "em lancamento"@ || lower == "em lançamento"@ {
        MangaStatus::Ongoing
    } else if lower == "completed"@ || lower == "completo"@ || lower == "concluido"@ || lower
        == "concluído"@ {
        MangaStatus::Completed
    } else if lower == "cancelled"@ || lower == "cancelado"@ {
        MangaStatus::Cancelled
    } else if lower == "hiatus"@ || lower == "hiato"@ {
        MangaStatus::Hiatus
    } else {
        MangaStatus::Unknown
    }
}

/// The status named by a site label.
pub open spec fn manga_status_spec(status: Seq<char>) -> MangaStatus {
    status_of_label(lowercase(trim(status)))
}

/// Whether `l` holds the characters of the literal `s`.
fn is_label(l: &[char], s: &str) -> (r: bool)
    ensures
        r == (l@ == s@),
{
    let v = lit(s);
    chars_eq(l, v.as_slice())
}

/// The status named by a site label (`ongoing`, `em lançamento`, `completo`, ...).
pub fn manga_status_from_text(status: &str) -> (r: MangaStatus)
    ensures
        r == manga_status_spec(status@),
{
    let t = trim_str(status);
    let l = lowercase_chars(t.as_slice());
    let l = l.as_slice();
    if is_label(l, "ongoing") || is_label(l, "em lancamento") || is_label(l, "em lançamento") {
        MangaStatus::Ongoing
    } else if is_label(l, "completed") || is_label(l, "completo") || is_label(l, "concluido")
        || is_label(l, "concluído") {
        MangaStatus::Completed
    } else if is_label(l, "cancelled") || is_label(l, "cancelado") {
        MangaStatus::Cancelled
    } else if is_label(l, "hiatus") || is_label(l, "hiato") {
        MangaStatus::Hiatus
    } else {
        MangaStatus::Unknown
    }
}

/// A chapter number as the site writes it: trimmed.
pub fn normalize_chapter_number(value: &str) -> (r: String)
    ensures
        r@ == trim(value@),
{
    let t = trim_str(value);
    string_of(t.as_slice())
}

/// A chapter number without surrounding spaces and leading zeros (`"0"` for zeros only).
pub open spec fn without_leading_zeroes(value: Seq<char>) -> Seq<char> {
    let t = trim(value);
    if t.len() == 0 {
        t
    } else if trim_start_matches(t, '0').len() == 0 {
        seq!['0']
    } else {
        trim_start_matches(t, '0')
    }
}

/// A chapter number without surrounding spaces and leading zeros.
pub fn trim_leading_zeroes(value: &str) -> (r: String)
    ensures
        r@ == without_leading_zeroes(value@),
{
    let t = trim_str(value);
    if t.len() == 0 {
        return string_of(t.as_slice());
    }
    let s = trim_start_matches_chars(t.as_slice(), '0');
    if s.len() == 0 {
        let mut z: Vec<char> = Vec::new();
        z.push('0');
        string_of(z.as_slice())
    } else {
        string_of(s.as_slice())
    }
}

/// Whether two chapter numbers name the same chapter: the same once trimmed
/// and without leading zeroes.
pub open spec fn numbers_match(a: Seq<char>, b: Seq<char>) -> bool {
    without_leading_zeroes(a) == without_leading_zeroes(b)
}

/// Matching chapter numbers is an equivalence: every number matches itself,
/// matching is symmetric, and it is transitive.
pub proof fn lemma_numbers_match_equivalence(a: Seq<char>, b: Seq<char>, c: Seq<char>)
    ensures
        numbers_match(a, a),
        numbers_match(a, b) == numbers_match(b, a),
        numbers_match(a, b) && numbers_match(b, c) ==> numbers_match(a, c),
{
}

/// Leading zeroes do not change a chapter number: a number written without
/// surrounding blanks matches itself with any run of zeroes in front.
pub proof fn lemma_leading_zeroes_ignored(zeros: Seq<char>, s: Seq<char>)
    requires
        forall|i: int| 0 <= i < zeros.len() ==> #[trigger] zeros[i] == '0',
        s.len() > 0,
        !is_ws(s[0]),
        !is_ws(s.last()),
    ensures
        numbers_match(zeros + s, s),
{
    let x = zeros + s;
    assert(x.last() == s.last());
    if zeros.len() > 0 {
        assert(x[0] == '0');
    } else {
        assert(x == s);
    }
    crate::text::lemma_trim_by_noop(x, ws_pred());
    crate::text::lemma_trim_by_noop(s, ws_pred());
    crate::text::lemma_lead_len_prefix(zeros, s, eq_pred('0'));
    let k = crate::text::lead_len(s, eq_pred('0'));
    crate::text::lemma_lead_len_le(s, eq_pred('0'));
    assert(x.skip((zeros.len() + k) as int) == s.skip(k as int));
}

/// Whether two chapter numbers name the same chapter (`"05"` and `"5"` do).
pub fn chapter_numbers_match(left: &str, right: &str) -> (r: bool)
    ensures
        r == (without_leading_zeroes(left@) == without_leading_zeroes(right@)),
{
    let l = trim_leading_zeroes(left);
    let r = trim_leading_zeroes(right);
    let lc = chars_of(l.as_str());
    let rc = chars_of(r.as_str());
    chars_eq(lc.as_slice(), rc.as_slice())
}

/// The decimal text read as a chapter number: trimmed, with `,` as the decimal point turned into `.`.
pub open spec fn chapter_number_text(value: Seq<char>) -> Seq<char> {
    replace_all(trim(value), seq![','], seq!['.'])
}

/// The decimal text that a chapter number is read from (`parse_chapter_number`
/// reads it as a floating-point number).
pub fn chapter_number_token(value: &str) -> (r: String)
    ensures
        r@ == chapter_number_text(value@),
{
    let t = trim_str(value);
    let mut from: Vec<char> = Vec::new();
    from.push(',');
    let mut to: Vec<char> = Vec::new();
    to.push('.');
    let r = replace_all_exec(t.as_slice(), from.as_slice(), to.as_slice());
    string_of(r.as_slice())
}

/// Upload time in seconds for a positive millisecond timestamp.
pub fn date_from_timestamp_millis(timestamp: i64) -> (r: Option<i64>)
    ensures
        r == (if timestamp > 0 {
            Some((timestamp / 1000) as i64)
        } else {
            None
        }),
{
    if timestamp > 0 {
        Some(timestamp / 1000)
    } else {
        None
    }
}

} // verus!

verus! {

/// The characters of `cs` without combining marks, each replaced by its
/// lower-case form.
pub open spec fn lowered_letters(cs: Seq<char>) -> Seq<char>
    decreases cs.len(),
{
    if cs.len() == 0 {
        seq![]
    } else {
        lowered_letters(cs.drop_last()) + if combining_mark(cs.last()) {
            Seq::<char>::empty()
        } else {
            char_lowercase(cs.last())
        }
    }
}

/// An ASCII letter or digit.
pub open spec fn is_ascii_alnum(c: char) -> bool {
    ('a' <= c <= 'z') || ('A' <= c <= 'Z') || ('0' <= c <= '9')
}

/// The slug built from `cs` and whether it ends in a dash: ASCII letters and
/// digits are kept, every other run of characters becomes one `-`, never at the start.
pub open spec fn slug_state(cs: Seq<char>) -> (Seq<char>, bool)
    decreases cs.len(),
{
    if cs.len() == 0 {
        (seq![], false)
    } else {
        let (s, dash) = slug_state(cs.drop_last());
        let c = cs.last();
        if is_ascii_alnum(c) {
            (s.push(c), false)
        } else if !dash && s.len() > 0 {
            (s.push('-'), true)
        } else {
            (s, dash)
        }
    }
}

/// The slug of a title: decomposed, marks dropped, lower-cased, non-alphanumeric
/// runs turned into single dashes, trailing dashes dropped, and a leading
/// `custom-` replaced by `obra-`.
pub open spec fn slugify_spec(title: Seq<char>) -> Seq<char> {
    let s = trim_end_matches(slug_state(lowered_letters(nfd(title))).0, '-');
    if starts_with(s, "custom-"@) {
        "obra-"@ + s.skip(7)
    } else {
        s
    }
}

/// The slug of a title (`"Técnica do Deus"` gives `"tecnica-do-deus"`).
pub fn slugify_title(title: &str) -> (r: String)
    ensures
        r@ == slugify_spec(title@),
{
    let decomposed = nfd_chars(title);
    let mut lowered: Vec<char> = Vec::new();
    let mut i: usize = 0;
    while i < decomposed.len()
        invariant
            i <= decomposed@.len(),
            lowered@ == lowered_letters(decomposed@.take(i as int)),
        decreases decomposed@.len() - i,
    {
        assert(decomposed@.take(i + 1).drop_last() == decomposed@.take(i as int));
        let ch = decomposed[i];
        if !is_combining(ch) {
            let low = char_to_lowercase(ch);
            append(&mut lowered, low.as_slice());
        } else {
            assert(lowered@ + Seq::<char>::empty() == lowered@);
        }
        i += 1;
    }
    assert(decomposed@.take(decomposed@.len() as int) == decomposed@);
    let mut slug: Vec<char> = Vec::new();
    let mut last_was_dash = false;
    let mut j: usize = 0;
    while j < lowered.len()
        invariant
            j <= lowered@.len(),
            (slug@, last_was_dash) == slug_state(lowered@.take(j as int)),
        decreases lowered@.len() - j,
    {
        assert(lowered@.take(j + 1).drop_last() == lowered@.take(j as int));
        let c = lowered[j];
        if ('a' <= c && c <= 'z') || ('A' <= c && c <= 'Z') || ('0' <= c && c <= '9') {
            slug.push(c);
            last_was_dash = false;
        } else if !last_was_dash && slug.len() > 0 {
            slug.push('-');
            last_was_dash = true;
        }
        j += 1;
    }
    assert(lowered@.take(lowered@.len() as int) == lowered@);
    let trimmed = trim_end_matches_chars(slug.as_slice(), '-');
    let prefix = lit("custom-");
    proof {
        reveal_strlit("custom-");
    }
    if starts_with_exec(trimmed.as_slice(), prefix.as_slice()) {
        let mut out = lit("obra-");
        let rest = slice_range(trimmed.as_slice(), 7, trimmed.len());
        assert(rest@ == trimmed@.skip(7));
        append(&mut out, rest.as_slice());
        string_of(out.as_slice())
    } else {
        string_of(trimmed.as_slice())
    }
}

/// First path segments that are site pages rather than series.
pub open spec fn is_reserved(segment: Seq<char>) -> bool {
    segment == "favorites"@ || segment == "profile"@ || segment == "admin"@ || segment == "read"@
        || segment == "api"@ || segment == "password-reset"@
}

/// Whether `segment` is a site page rather than a series.
pub fn is_reserved_segment(segment: &str) -> (r: bool)
    ensures
        r == is_reserved(segment@),
{
    let s = chars_of(segment);
    let s = s.as_slice();
    is_label(s, "favorites") || is_label(s, "profile") || is_label(s, "admin") || is_label(
        s,
        "read",
    ) || is_label(s, "api") || is_label(s, "password-reset")
}

/// What a ToonLivre address points at, from its path segments: the reader
/// (`read/...`), a series under `manga/...`, or `series[/chapter]` unless the
/// first segment is a reserved page.
pub open spec fn deep_link_of(segs: Seq<Seq<char>>) -> Option<DeepLinkView> {
    if segs.len() == 0 {
        None
    } else if segs[0] == "read"@ {
        if segs.len() >= 4 {
            Some(DeepLinkView::Chapter { manga_key: segs[2], key: segs[3] })
        } else if segs.len() >= 3 {
            Some(DeepLinkView::Chapter { manga_key: segs[1], key: segs[2] })
        } else {
            None
        }
    } else if segs[0] == "manga"@ {
        if segs.len() >= 3 {
            Some(DeepLinkView::Manga { key: segs[2] })
        } else if segs.len() >= 2 {
            Some(DeepLinkView::Manga { key: segs[1] })
        } else {
            None
        }
    } else if is_reserved(segs[0]) {
        None
    } else if segs.len() >= 2 {
        Some(DeepLinkView::Chapter { manga_key: segs[0], key: segs[1] })
    } else {
        Some(DeepLinkView::Manga { key: segs[0] })
    }
}

/// A copy of `s`.
fn copy_string(s: &String) -> (r: String)
    ensures
        r@ == s@,
{
    let v = chars_of(s.as_str());
    string_of(v.as_slice())
}

/// What a ToonLivre address points at.
pub fn deep_link_result(url: &str) -> (r: Option<DeepLink>)
    ensures
        deep_link_view(r) == deep_link_of(path_segments_spec(url@)),
{
    let segs = path_segments(url);
    let ghost sv = path_segments_spec(url@);
    assert(segs@.len() == sv.len());
    assert(forall|i: int| 0 <= i < segs@.len() ==> #[trigger] segs@[i]@ == sv[i]);
    if segs.len() == 0 {
        return None;
    }
    let first = chars_of(segs[0].as_str());
    if is_label(first.as_slice(), "read") {
        if segs.len() >= 4 {
            return Some(
                DeepLink::Chapter { manga_key: copy_string(&segs[2]), key: copy_string(&segs[3]) },
            );
        }
        if segs.len() >= 3 {
            return Some(
                DeepLink::Chapter { manga_key: copy_string(&segs[1]), key: copy_string(&segs[2]) },
            );
        }
        return None;
    }
    if is_label(first.as_slice(), "manga") {
        if segs.len() >= 3 {
            return Some(DeepLink::Manga { key: copy_string(&segs[2]) });
        }
        if segs.len() >= 2 {
            return Some(DeepLink::Manga { key: copy_string(&segs[1]) });
        }
        return None;
    }
    if is_reserved_segment(segs[0].as_str()) {
        return None;
    }
    if segs.len() >= 2 {
        return Some(
            DeepLink::Chapter { manga_key: copy_string(&segs[0]), key: copy_string(&segs[1]) },
        );
    }
    Some(DeepLink::Manga { key: copy_string(&segs[0]) })
}

/// The slug of the series that a ToonLivre address points at, unless it is an
/// internal `obra-` identifier.
pub open spec fn manga_slug_of_url(url: Seq<char>) -> Option<Seq<char>> {
    match deep_link_of(path_segments_spec(url)) {
        Some(DeepLinkView::Manga { key }) => if starts_with(key, "obra-"@) {
            None
        } else {
            Some(key)
        },
        Some(DeepLinkView::Chapter { manga_key, key: _ }) => if starts_with(manga_key, "obra-"@) {
            None
        } else {
            Some(manga_key)
        },
        None => None,
    }
}

/// The slug of the series that a ToonLivre address points at.
pub fn manga_slug_from_url(url: &str) -> (r: Option<String>)
    ensures
        opt_view(r) == manga_slug_of_url(url@),
{
    let obra = lit("obra-");
    match deep_link_result(url) {
        Some(DeepLink::Manga { key }) => {
            let k = chars_of(key.as_str());
            if starts_with_exec(k.as_slice(), obra.as_slice()) {
                None
            } else {
                Some(key)
            }
        },
        Some(DeepLink::Chapter { manga_key, key: _ }) => {
            let k = chars_of(manga_key.as_str());
            if starts_with_exec(k.as_slice(), obra.as_slice()) {
                None
            } else {
                Some(manga_key)
            }
        },
        None => None,
    }
}

/// The slug of a series: from its address when that yields one, else from its
/// key unless the key is empty or an internal `obra-` identifier; a key that is
/// itself an address is read as one.
pub open spec fn manga_slug_of(key: Seq<char>, url: Option<Seq<char>>) -> Option<Seq<char>> {
    if url is Some && manga_slug_of_url(url->0) is Some {
        manga_slug_of_url(url->0)
    } else {
        let k = trim(key);
        if k.len() == 0 || starts_with(k, "obra-"@) {
            None
        } else if starts_with(k, "http://"@) || starts_with(k, "https://"@) {
            manga_slug_of_url(k)
        } else {
            Some(trim_matches(k, '/'))
        }
    }
}

/// The slug of a series.
pub fn manga_slug_from_manga(manga: &Manga) -> (r: Option<String>)
    ensures
        opt_view(r) == manga_slug_of(manga.key@, opt_view(manga.url)),
{
    match &manga.url {
        Some(url) => {
            match manga_slug_from_url(url.as_str()) {
                Some(slug) => {
                    return Some(slug);
                },
                None => {},
            }
        },
        None => {},
    }
    let k = trim_str(manga.key.as_str());
    let obra = lit("obra-");
    if k.len() == 0 || starts_with_exec(k.as_slice(), obra.as_slice()) {
        return None;
    }
    let http = lit("http://");
    let https = lit("https://");
    if starts_with_exec(k.as_slice(), http.as_slice()) || starts_with_exec(
        k.as_slice(),
        https.as_slice(),
    ) {
        let ks = string_of(k.as_slice());
        return manga_slug_from_url(ks.as_str());
    }
    let t = trim_matches_chars(k.as_slice(), '/');
    Some(string_of(t.as_slice()))
}

/// The chapter that a ToonLivre address points at.
pub open spec fn chapter_number_of_url(url: Seq<char>) -> Option<Seq<char>> {
    match deep_link_of(path_segments_spec(url)) {
        Some(DeepLinkView::Chapter { manga_key: _, key }) => Some(key),
        _ => None,
    }
}

/// The chapter that a ToonLivre address points at.
pub fn chapter_number_from_url(url: &str) -> (r: Option<String>)
    ensures
        opt_view(r) == chapter_number_of_url(url@),
{
    match deep_link_result(url) {
        Some(DeepLink::Chapter { manga_key: _, key }) => Some(key),
        _ => None,
    }
}

/// A chapter's number text without a trailing `.0`.
pub open spec fn number_without_zero_fraction(text: Seq<char>) -> Seq<char> {
    if ends_with(text, ".0"@) {
        text.take(text.len() - 2)
    } else {
        text
    }
}

/// How a chapter is identified: its trimmed key when there is one, else the
/// chapter its address points at, else its number without a `.0` fraction.
pub open spec fn chapter_key_or_number_of(
    key: Seq<char>,
    url: Option<Seq<char>>,
    number: Option<Seq<char>>,
) -> Option<Seq<char>> {
    if trim(key).len() > 0 {
        Some(trim(key))
    } else if url is Some && chapter_number_of_url(url->0) is Some {
        chapter_number_of_url(url->0)
    } else {
        match number {
            Some(t) => Some(number_without_zero_fraction(t)),
            None => None,
        }
    }
}

/// How a chapter is identified (key, address, or number).
pub fn chapter_key_or_number(chapter: &Chapter) -> (r: Option<String>)
    ensures
        opt_view(r) == chapter_key_or_number_of(
            chapter.key@,
            opt_view(chapter.url),
            opt_view(chapter.chapter_number),
        ),
{
    let k = trim_str(chapter.key.as_str());
    if k.len() > 0 {
        return Some(string_of(k.as_slice()));
    }
    match &chapter.url {
        Some(url) => match chapter_number_from_url(url.as_str()) {
            Some(v) => {
                return Some(v);
            },
            None => {},
        },
        None => {},
    }
    match &chapter.chapter_number {
        Some(text) => {
            let t = chars_of(text.as_str());
            let suffix = lit(".0");
            proof {
                reveal_strlit(".0");
            }
            if ends_with_exec(t.as_slice(), suffix.as_slice()) {
                let cut = slice_range(t.as_slice(), 0, t.len() - 2);
                Some(string_of(cut.as_slice()))
            } else {
                Some(string_of(t.as_slice()))
            }
        },
        None => None,
    }
}

} // verus!
verus! {

/// The proleptic Gregorian date (year, month, day) of a day count since
/// 1970-01-01, by the days-to-civil algorithm: 400-year eras of 146097 days,
/// years starting in March.
pub open spec fn civil_of_days(days: int) -> (int, int, int) {
    let z = days + 719468;
    let era = z / 146097;
    let doe = z - era * 146097;
    let yoe = (doe - doe / 1460 + doe / 36524 - doe / 146096) / 365;
    let y = yoe + era * 400;
    let doy = doe - (365 * yoe + yoe / 4 - yoe / 100);
    let mp = (5 * doy + 2) / 153;
    let day = doy - (153 * mp + 2) / 5 + 1;
    let month = if mp < 10 {
        mp + 3
    } else {
        mp - 9
    };
    let year = if month <= 2 {
        y + 1
    } else {
        y
    };
    (year, month, day)
}

/// The calendar date of a day count since 1970-01-01 (the year truncated to `i32`).
#[verifier::spinoff_prover]
#[verifier::rlimit(40)]
pub fn civil_from_days(days_since_unix_epoch: i64) -> (r: (i32, u32, u32))
    requires
        days_since_unix_epoch <= i64::MAX - 719468,
    ensures
        r.0 == #[verifier::truncate] (civil_of_days(days_since_unix_epoch as int).0 as i32),
        r.1 as int == civil_of_days(days_since_unix_epoch as int).1,
        r.2 as int == civil_of_days(days_since_unix_epoch as int).2,
{
    let z = days_since_unix_epoch + 719_468;
    // Floor division: the era that contains day `z` (negative eras before year 0).
    let era: i64 = match z.checked_div_euclid(146_097) {
        Some(e) => e,
        None => 0,
    };
    assert(era == z / 146097);
    assert(z - 146097 < era * 146097 <= z) by (nonlinear_arith)
        requires
            era == z / 146097,
    ;
    let doe = z - era * 146_097;
    assert(0 <= doe < 146097) by (nonlinear_arith)
        requires
            era == z / 146097,
            doe == z - era * 146097,
    ;
    let yoe = (doe - doe / 1_460 + doe / 36_524 - doe / 146_096) / 365;
    assert(0 <= yoe <= 400);
    let y = yoe + era * 400;
    let doy = doe - (365 * yoe + yoe / 4 - yoe / 100);
    assert(0 <= doy < 366);
    let mp = (5 * doy + 2) / 153;
    let day = doy - (153 * mp + 2) / 5 + 1;
    let month = mp + if mp < 10 {
        3
    } else {
        -9
    };
    let year = y + if month <= 2 {
        1
    } else {
        0
    };
    (#[verifier::truncate] (year as i32), month as u32, day as u32)
}

} // verus!

verus! {

/// `YYYY-MM-DD` for the UTC day that contains the Unix time `now` (seconds).
pub open spec fn utc_date_text(now: int) -> Seq<char> {
    let (y, m, d) = civil_of_days(now / 86400);
    padded_decimal(#[verifier::truncate] ((y as i32) as int), 4) + seq!['-'] + padded_decimal(m, 2)
        + seq!['-'] + padded_decimal(d, 2)
}

/// `YYYY-MM-DD` for the UTC day that contains the Unix time `now`.
pub fn current_utc_date_string(now: i64) -> (r: String)
    ensures
        r@ == utc_date_text(now as int),
{
    let days: i64 = match now.checked_div_euclid(86_400) {
        Some(d) => d,
        None => 0,
    };
    assert(days == now / 86400);
    assert(days <= i64::MAX - 719468) by (nonlinear_arith)
        requires
            days == now / 86400,
            i64::MIN <= now <= i64::MAX,
    ;
    let (year, month, day) = civil_from_days(days);
    let mut out = padded_decimal_i64(year as i64, 4);
    out.push('-');
    let m = padded_decimal_i64(month as i64, 2);
    append(&mut out, m.as_slice());
    out.push('-');
    let d = padded_decimal_i64(day as i64, 2);
    append(&mut out, d.as_slice());
    string_of(out.as_slice())
}

/// The seed of the daily passphrase: the UTC date, the salt, then the suffix.
pub open spec fn passphrase_seed(now: int) -> Seq<char> {
    utc_date_text(now) + "toonlivre.tv::v8"@ + "t17_4v19_b2"@
}

/// The daily decryption passphrase: the fixed prefix followed by the first four
/// bytes of the MD5 digest of the seed, in lower-case hexadecimal.
pub open spec fn daily_passphrase(now: int) -> Seq<char> {
    "Dealer-Critter-Catnip4"@ + hex_text(
        md5_digest(vstd::utf8::encode_utf8(passphrase_seed(now))).take(4),
    )
}

/// The decryption passphrase for the UTC day of `now`.
pub fn current_decryption_passphrase(now: i64) -> (r: String)
    ensures
        r@ == daily_passphrase(now as int),
        r@.len() == 30,
        r@.take(22) == "Dealer-Critter-Catnip4"@,
        forall|i: int| 22 <= i < 30 ==> crate::digest::is_lower_hex(#[trigger] r@[i]),
{
    let date = current_utc_date_string(now);
    let mut seed = chars_of(date.as_str());
    let salt = lit("toonlivre.tv::v8");
    append(&mut seed, salt.as_slice());
    let suffix = lit("t17_4v19_b2");
    append(&mut seed, suffix.as_slice());
    let bytes = utf8_bytes(seed.as_slice());
    let digest = md5_bytes(bytes.as_slice());
    let head: Vec<u8> = vec![digest[0], digest[1], digest[2], digest[3]];
    assert(head@ == digest@.take(4));
    let hex = crate::digest::hex_string(head.as_slice());
    let mut out = lit("Dealer-Critter-Catnip4");
    proof {
        reveal_strlit("Dealer-Critter-Catnip4");
    }
    let ghost prefix = out@;
    append(&mut out, hex.as_slice());
    assert(out@.take(22) == prefix);
    assert forall|i: int| 22 <= i < 30 implies crate::digest::is_lower_hex(#[trigger] out@[i]) by {
        assert(out@[i] == hex@[i - 22]);
    }
    string_of(out.as_slice())
}

/// The decryption passphrase depends only on the UTC day: two times of the
/// same day give the same passphrase.
pub proof fn lemma_passphrase_same_day(a: int, b: int)
    requires
        a / 86400 == b / 86400,
    ensures
        daily_passphrase(a) == daily_passphrase(b),
{
}

} // verus!

verus! {

/// A series slug that names a series page: a plain segment that is not one
/// of the site's own pages and does not start the reader or `manga/` paths.
pub open spec fn series_slug(slug: Seq<char>) -> bool {
    crate::url::plain_segment(slug) && !is_reserved(slug) && slug != "manga"@
}

/// The page built for a series slug leads back to that series.
pub proof fn lemma_manga_link_round_trip(slug: Seq<char>)
    requires
        series_slug(slug),
    ensures
        deep_link_of(path_segments_spec(manga_url_spec(slug))) == Some(DeepLinkView::Manga { key: slug }),
{
    reveal_strlit("https://toonlivre.net");
    reveal_strlit("https://");
    reveal_strlit("toonlivre.net");
    reveal_strlit("read");
    crate::text::lemma_trim_by_noop(slug, eq_pred('/'));
    let host = "toonlivre.net"@;
    assert(manga_url_spec(slug) =~= "https://"@ + host + seq!['/'] + slug);
    crate::url::lemma_url_path_https(host, slug);
    crate::url::lemma_segments_single(slug);
}

/// A `manga/<slug>` address of the site opens the series `slug`, and so does
/// `manga/<any>/<slug>`.
pub proof fn lemma_manga_path_link(slug: Seq<char>, middle: Seq<char>)
    requires
        crate::url::plain_segment(slug),
        crate::url::plain_segment(middle),
    ensures
        deep_link_of(path_segments_spec("https://toonlivre.net/manga/"@ + slug)) == Some(
            DeepLinkView::Manga { key: slug },
        ),
        deep_link_of(path_segments_spec("https://toonlivre.net/manga/"@ + middle + "/"@ + slug)) == Some(
            DeepLinkView::Manga { key: slug },
        ),
{
    reveal_strlit("https://toonlivre.net/manga/");
    reveal_strlit("https://");
    reveal_strlit("toonlivre.net");
    reveal_strlit("manga");
    reveal_strlit("read");
    reveal_strlit("/");
    let host = "toonlivre.net"@;
    let path = "manga"@ + seq!['/'] + slug;
    assert("https://toonlivre.net/manga/"@ + slug =~= "https://"@ + host + seq!['/'] + path);
    assert(path.last() == slug.last());
    assert forall|i: int| 0 <= i < path.len() implies #[trigger] path[i] != '?' && path[i] != '#' by {
        if i >= 6 {
            assert(path[i] == slug[i - 6]);
        }
    }
    crate::url::lemma_url_path_https(host, path);
    crate::url::lemma_segments_cons("manga"@, slug);
    crate::url::lemma_segments_single(slug);
    assert(seq!["manga"@] + seq![slug] =~= seq!["manga"@, slug]);

    let tail = middle + seq!['/'] + slug;
    let path3 = "manga"@ + seq!['/'] + tail;
    assert("https://toonlivre.net/manga/"@ + middle + "/"@ + slug =~= "https://"@ + host + seq!['/'] + path3);
    assert(path3.last() == slug.last());
    assert forall|i: int| 0 <= i < path3.len() implies #[trigger] path3[i] != '?' && path3[i] != '#' by {
        if 6 <= i < 6 + middle.len() {
            assert(path3[i] == middle[i - 6]);
        } else if i > 6 + middle.len() {
            assert(path3[i] == slug[i - 7 - middle.len()]);
        }
    }
    crate::url::lemma_url_path_https(host, path3);
    crate::url::lemma_segments_cons("manga"@, tail);
    crate::url::lemma_segments_cons(middle, slug);
    assert(seq!["manga"@] + (seq![middle] + seq![slug]) =~= seq!["manga"@, middle, slug]);
}

/// The page built for a chapter of a series leads back to the series and to
/// the chapter's segment.
pub proof fn lemma_chapter_link_round_trip(slug: Seq<char>, number: Seq<char>)
    requires
        series_slug(slug),
        crate::url::plain_segment(chapter_segment_spec(number)),
    ensures
        deep_link_of(path_segments_spec(chapter_url_spec(slug, number))) == Some(
            DeepLinkView::Chapter { manga_key: slug, key: chapter_segment_spec(number) },
        ),
{
    reveal_strlit("https://toonlivre.net");
    reveal_strlit("https://");
    reveal_strlit("toonlivre.net");
    reveal_strlit("read");
    crate::text::lemma_trim_by_noop(slug, eq_pred('/'));
    let seg = chapter_segment_spec(number);
    let host = "toonlivre.net"@;
    let path = slug + seq!['/'] + seg;
    assert(chapter_url_spec(slug, number) =~= "https://"@ + host + seq!['/'] + path);
    assert(path.last() == seg.last());
    assert forall|i: int| 0 <= i < path.len() implies #[trigger] path[i] != '?' && path[i] != '#' by {
        if i < slug.len() {
            assert(path[i] == slug[i]);
        } else if i > slug.len() {
            assert(path[i] == seg[i - slug.len() - 1]);
        }
    }
    crate::url::lemma_url_path_https(host, path);
    crate::url::lemma_segments_cons(slug, seg);
    crate::url::lemma_segments_single(seg);
    assert(seq![slug] + seq![seg] =~= seq![slug, seg]);
}

} // verus!

verus! {

/// Every day count names a real calendar date: a month from 1 to 12 and a
/// day from 1 to 31.
pub proof fn lemma_civil_date_ranges(days: int)
    ensures
        1 <= civil_of_days(days).1 <= 12,
        1 <= civil_of_days(days).2 <= 31,
{
    let z = days + 719468;
    let era = z / 146097;
    let doe = z - era * 146097;
    assert(0 <= doe < 146097) by (nonlinear_arith)
        requires
            era == z / 146097,
            doe == z - era * 146097,
    ;
    let yoe = (doe - doe / 1460 + doe / 36524 - doe / 146096) / 365;
    assert(0 <= yoe <= 400);
    let doy = doe - (365 * yoe + yoe / 4 - yoe / 100);
    assert(0 <= doy < 366);
    let mp = (5 * doy + 2) / 153;
    assert(0 <= mp <= 11);
    assert(153 * mp <= 5 * doy + 2 < 153 * mp + 153);
    let day = doy - (153 * mp + 2) / 5 + 1;
    assert(1 <= day <= 31);
}

} // verus!

verus! {

/// Text made of ASCII letters, digits and single dashes, not starting with a dash.
pub open spec fn slug_shaped(s: Seq<char>) -> bool {
    &&& forall|i: int| 0 <= i < s.len() ==> is_ascii_alnum(#[trigger] s[i]) || s[i] == '-'
    &&& s.len() > 0 ==> s[0] != '-'
    &&& forall|i: int| 0 <= i < s.len() - 1 ==> !(#[trigger] s[i] == '-' && s[i + 1] == '-')
}

proof fn lemma_slug_state(cs: Seq<char>)
    ensures
        slug_shaped(slug_state(cs).0),
        slug_state(cs).1 <==> (slug_state(cs).0.len() > 0 && slug_state(cs).0.last() == '-'),
    decreases cs.len(),
{
    if cs.len() > 0 {
        lemma_slug_state(cs.drop_last());
        let (s, dash) = slug_state(cs.drop_last());
        let c = cs.last();
        if is_ascii_alnum(c) {
            let n = s.push(c);
            assert forall|i: int| 0 <= i < n.len() - 1 implies !(#[trigger] n[i] == '-' && n[i + 1] == '-') by {
                assert(n[i] == s[i]);
                if i + 1 < s.len() {
                    assert(n[i + 1] == s[i + 1]);
                }
            }
            assert forall|i: int| 0 <= i < n.len() implies is_ascii_alnum(#[trigger] n[i]) || n[i] == '-' by {
                if i < s.len() {
                    assert(n[i] == s[i]);
                }
            }
        } else if !dash && s.len() > 0 {
            let n = s.push('-');
            assert forall|i: int| 0 <= i < n.len() - 1 implies !(#[trigger] n[i] == '-' && n[i + 1] == '-') by {
                assert(n[i] == s[i]);
                if i + 1 < s.len() {
                    assert(n[i + 1] == s[i + 1]);
                }
            }
            assert forall|i: int| 0 <= i < n.len() implies is_ascii_alnum(#[trigger] n[i]) || n[i] == '-' by {
                if i < s.len() {
                    assert(n[i] == s[i]);
                }
            }
        }
    }
}

/// A slug is made of ASCII letters, digits and single dashes, and neither
/// starts nor ends with a dash.
pub proof fn lemma_slug_shape(title: Seq<char>)
    ensures
        slug_shaped(slugify_spec(title)),
        slugify_spec(title).len() > 0 ==> slugify_spec(title).last() != '-',
{
    let cs = lowered_letters(nfd(title));
    lemma_slug_state(cs);
    let s = slug_state(cs).0;
    let t = trim_end_matches(s, '-');
    if s.len() > 0 && s.last() == '-' {
        assert(s.len() >= 2);
        assert(s[s.len() - 2] != '-');
        assert(s.drop_last().last() == s[s.len() - 2]);
        assert(crate::text::trail_len(s.drop_last(), eq_pred('-')) == 0);
        assert(crate::text::trail_len(s, eq_pred('-')) == 1);
        assert(t == s.drop_last());
    } else {
        assert(crate::text::trail_len(s, eq_pred('-')) == 0);
        assert(t == s);
    }
    assert(slug_shaped(t)) by {
        assert forall|i: int| 0 <= i < t.len() implies is_ascii_alnum(#[trigger] t[i]) || t[i] == '-' by {
            assert(t[i] == s[i]);
        }
        assert forall|i: int| 0 <= i < t.len() - 1 implies !(#[trigger] t[i] == '-' && t[i + 1] == '-') by {
            assert(t[i] == s[i]);
            assert(t[i + 1] == s[i + 1]);
        }
        if t.len() > 0 {
            assert(t[0] == s[0]);
        }
    }
    reveal_strlit("custom-");
    reveal_strlit("obra-");
    if starts_with(t, "custom-"@) {
        assert(t.subrange(0, 7)[6] == t[6]);
        assert(t[6] == '-');
        assert(t.len() > 7);
        assert(t[7] != '-');
        let r = "obra-"@ + t.skip(7);
        assert(r.last() == t.last());
        assert forall|i: int| 0 <= i < r.len() implies is_ascii_alnum(#[trigger] r[i]) || r[i] == '-' by {
            if i >= 5 {
                assert(r[i] == t[i + 2]);
            }
        }
        assert forall|i: int| 0 <= i < r.len() - 1 implies !(#[trigger] r[i] == '-' && r[i + 1] == '-') by {
            if i >= 5 {
                assert(r[i] == t[i + 2]);
                assert(r[i + 1] == t[i + 3]);
            } else if i == 4 {
                assert(r[5] == t[7]);
            }
        }
    }
}

} // verus!
