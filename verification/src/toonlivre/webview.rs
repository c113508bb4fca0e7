//! ToonLivre: the web view's chapter cache and the cookies it is loaded with.

use crate::model::opt_view;
use crate::text::{append, chars_of, contains, contains_exec, lit, string_of, trim, trim_str, find, find_exec, lemma_find_some, slice_range};
use crate::toonlivre::api::{ApiChapterDetails, generate_session, session_text};
use vstd::prelude::*;

verus! {

/// The storage key of a chapter's cache.
pub open spec fn chapter_storage_key(manga_id: Seq<char>, chapter_id: Seq<char>) -> Seq<char> {
    "toonlivre_chapter_cache_v1:"@ + manga_id + seq![':'] + chapter_id
}

/// The storage key of a chapter's cache.
pub fn webview_chapter_storage_key(manga_id: &str, chapter_id: &str) -> (r: String)
    ensures
        r@ == chapter_storage_key(manga_id@, chapter_id@),
{
    let mut out = lit("toonlivre_chapter_cache_v1:");
    append(&mut out, chars_of(manga_id).as_slice());
    out.push(':');
    append(&mut out, chars_of(chapter_id).as_slice());
    string_of(out.as_slice())
}

/// A chapter cache is usable when it lists pages.
pub fn parse_webview_chapter_cache(chapter: ApiChapterDetails, storage_key: &str) -> (r: Result<ApiChapterDetails, String>)
    ensures
        chapter.pages@.len() > 0 ==> r == Ok::<ApiChapterDetails, String>(chapter),
        chapter.pages@.len() == 0 ==> (r matches Err(e) && e@
            == "WebView chapter cache does not contain pages.\nKey: "@ + storage_key@),
{
    if chapter.pages.len() == 0 {
        let mut msg = lit("WebView chapter cache does not contain pages.\nKey: ");
        append(&mut msg, chars_of(storage_key).as_slice());
        return Err(string_of(msg.as_slice()));
    }
    Ok(chapter)
}

/// The `;`-separated pieces of `s`, empty ones included (`str::split(';')`).
pub open spec fn split_semicolons(s: Seq<char>) -> Seq<Seq<char>>
    decreases s.len(),
{
    match find(s, seq![';']) {
        None => seq![s],
        Some(k) => {
            proof {
                lemma_find_some(s, seq![';'], 0);
            }
            seq![s.take(k)] + split_semicolons(s.skip(k + 1))
        },
    }
}

/// Number of non-blank pieces of a cookie header.
pub open spec fn count_pairs(pieces: Seq<Seq<char>>) -> nat
    decreases pieces.len(),
{
    if pieces.len() == 0 {
        0
    } else {
        count_pairs(pieces.drop_last()) + if trim(pieces.last()).len() > 0 {
            1nat
        } else {
            0nat
        }
    }
}

/// Number of non-blank `;`-separated pairs of a cookie header.
pub open spec fn cookie_pairs(s: Seq<char>) -> nat {
    count_pairs(split_semicolons(s))
}

/// Number of non-blank `;`-separated pairs of `s`.
pub fn cookie_pair_count(s: &[char]) -> (n: usize)
    ensures
        n == cookie_pairs(s@),
{
    let mut count: usize = 0;
    let mut i: usize = 0;
    let mut semi: Vec<char> = Vec::new();
    semi.push(';');
    let ghost mut done: Seq<Seq<char>> = seq![];
    assert(s@.skip(0) == s@);
    loop
        invariant
            i <= s@.len(),
            semi@ == seq![';'],
            done + split_semicolons(s@.skip(i as int)) == split_semicolons(s@),
            count == count_pairs(done),
            count <= done.len(),
            done.len() <= i,
        decreases s@.len() - i,
    {
        let rest = slice_range(s, i, s.len());
        assert(rest@ == s@.skip(i as int));
        match find_exec(rest.as_slice(), semi.as_slice()) {
            Some(k) => {
                proof {
                    lemma_find_some(rest@, seq![';'], 0);
                }
                let piece = slice_range(rest.as_slice(), 0, k);
                assert(piece@ == rest@.take(k as int));
                assert(rest@.skip(k + 1) == s@.skip(i + k + 1));
                if crate::text::trim_chars(piece.as_slice()).len() > 0 {
                    count += 1;
                }
                proof {
                    assert(done.push(piece@).drop_last() == done);
                    assert(done.push(piece@) + split_semicolons(s@.skip(i + k + 1)) == done + split_semicolons(rest@));
                    done = done.push(piece@);
                }
                i = i + k + 1;
            },
            None => {
                if crate::text::trim_chars(rest.as_slice()).len() > 0 {
                    count += 1;
                }
                proof {
                    assert(done.push(rest@).drop_last() == done);
                    assert(done.push(rest@) == done + split_semicolons(rest@));
                    done = done.push(rest@);
                }
                return count;
            },
        }
    }
}

/// A candidate cookie header replaces the cached one when it has more pairs,
/// or as many pairs and at least as many bytes.
pub open spec fn replaces_cookie(c: Seq<char>, e: Seq<char>) -> bool {
    cookie_pairs(c) > cookie_pairs(e) || (cookie_pairs(c) == cookie_pairs(e) && (
    vstd::utf8::encode_utf8(c).len() as usize) >= (vstd::utf8::encode_utf8(e).len() as usize))
}

/// The cookie cache after the page showed `candidate`: a non-blank (trimmed)
/// candidate is kept when there is no cache or when it replaces the cache.
pub open spec fn updated_cookie_cache(existing: Option<Seq<char>>, candidate: Seq<char>) -> Option<Seq<char>> {
    if trim(candidate).len() == 0 {
        existing
    } else {
        match existing {
            Some(e) => if replaces_cookie(trim(candidate), e) {
                Some(trim(candidate))
            } else {
                Some(e)
            },
            None => Some(trim(candidate)),
        }
    }
}

/// The cookie cache after the page showed `cookie_header`.
pub fn update_webview_cookie_cache(existing: Option<String>, cookie_header: &str) -> (r: Option<String>)
    ensures
        opt_view(r) == updated_cookie_cache(opt_view(existing), cookie_header@),
{
    let c = trim_str(cookie_header);
    if c.len() == 0 {
        return existing;
    }
    let candidate = string_of(c.as_slice());
    let candidate_pairs = cookie_pair_count(c.as_slice());
    match existing {
        Some(e) => {
            let ec = chars_of(e.as_str());
            let existing_pairs = cookie_pair_count(ec.as_slice());
            let cl = candidate.as_str().len();
            let el = e.as_str().len();
            let replace = candidate_pairs > existing_pairs || (candidate_pairs == existing_pairs
                && cl >= el);
            assert(replace == replaces_cookie(c@, e@));
            if replace {
                Some(candidate)
            } else {
                Some(e)
            }
        },
        None => Some(candidate),
    }
}

/// The cookie header a chapter page is loaded with: the cached cookies when they
/// hold `toon_v=`, else the cached cookies (when non-blank) followed by a fresh
/// `toon_v` session, else the fresh session alone.
pub open spec fn cookie_header_for(cache: Option<Seq<char>>, now: int) -> Seq<char> {
    match cache {
        Some(c) => if contains(c, "toon_v="@) {
            c
        } else if trim(c).len() > 0 {
            c + "; toon_v="@ + session_text(now)
        } else {
            "toon_v="@ + session_text(now)
        },
        None => "toon_v="@ + session_text(now),
    }
}

/// The cookie header a chapter page is loaded with.
pub fn build_webview_cookie_header(cache: Option<String>, now: i64) -> (r: String)
    ensures
        r@ == cookie_header_for(opt_view(cache), now as int),
{
    let marker = lit("toon_v=");
    match cache {
        Some(c) => {
            let cc = chars_of(c.as_str());
            if contains_exec(cc.as_slice(), marker.as_slice()) {
                return c;
            }
            let session = generate_session(now);
            if trim_str(c.as_str()).len() > 0 {
                let mut out = cc;
                append(&mut out, lit("; toon_v=").as_slice());
                append(&mut out, chars_of(session.as_str()).as_slice());
                string_of(out.as_slice())
            } else {
                let mut out = lit("toon_v=");
                append(&mut out, chars_of(session.as_str()).as_slice());
                string_of(out.as_slice())
            }
        },
        None => {
            let session = generate_session(now);
            let mut out = lit("toon_v=");
            append(&mut out, chars_of(session.as_str()).as_slice());
            string_of(out.as_slice())
        },
    }
}

} // verus!

verus! {

/// The value of a `name=value` piece whose trimmed name is `name`.
pub open spec fn pair_value(piece: Seq<char>, name: Seq<char>) -> Option<Seq<char>> {
    let t = trim(piece);
    match find(t, seq!['=']) {
        Some(k) => if trim(t.take(k)) == name {
            Some(trim(t.skip(k + 1)))
        } else {
            None
        },
        None => None,
    }
}

/// The value of the first pair of a cookie header named `name`.
pub open spec fn first_pair_value(pieces: Seq<Seq<char>>, name: Seq<char>, i: int) -> Option<Seq<char>>
    decreases pieces.len() - i,
{
    if i < 0 || i >= pieces.len() {
        None
    } else if pair_value(pieces[i], name) is Some {
        pair_value(pieces[i], name)
    } else {
        first_pair_value(pieces, name, i + 1)
    }
}

fn pair_value_exec(piece: &[char], name: &[char]) -> (r: Option<String>)
    ensures
        opt_view(r) == pair_value(piece@, name@),
{
    let t = crate::text::trim_chars(piece);
    let mut eq: Vec<char> = Vec::new();
    eq.push('=');
    match find_exec(t.as_slice(), eq.as_slice()) {
        Some(k) => {
            proof {
                lemma_find_some(t@, seq!['='], 0);
            }
            let key = slice_range(t.as_slice(), 0, k);
            let key_t = crate::text::trim_chars(key.as_slice());
            assert(key@ == t@.take(k as int));
            if crate::text::chars_eq(key_t.as_slice(), name) {
                let tl = t.len();
                assert(k + 1 <= tl);
                let value = slice_range(t.as_slice(), k + 1, tl);
                assert(value@ == t@.skip(k + 1));
                Some(string_of(crate::text::trim_chars(value.as_slice()).as_slice()))
            } else {
                None
            }
        },
        None => None,
    }
}

/// The value of the cookie `name` in a cookie header.
pub fn cookie_value_from_header(cookie_header: &str, name: &str) -> (r: Option<String>)
    ensures
        opt_view(r) == first_pair_value(split_semicolons(cookie_header@), name@, 0),
{
    let s = chars_of(cookie_header);
    let n = chars_of(name);
    let mut i: usize = 0;
    let mut semi: Vec<char> = Vec::new();
    semi.push(';');
    let ghost mut done: Seq<Seq<char>> = seq![];
    assert(s@.skip(0) == s@);
    loop
        invariant
            i <= s@.len(),
            semi@ == seq![';'],
            n@ == name@,
            done + split_semicolons(s@.skip(i as int)) == split_semicolons(cookie_header@),
            s@ == cookie_header@,
            first_pair_value(split_semicolons(cookie_header@), name@, 0) == first_pair_value(
                split_semicolons(cookie_header@),
                name@,
                done.len() as int,
            ),
        decreases s@.len() - i,
    {
        let ghost all = split_semicolons(cookie_header@);
        let rest = slice_range(s.as_slice(), i, s.len());
        assert(rest@ == s@.skip(i as int));
        match find_exec(rest.as_slice(), semi.as_slice()) {
            Some(k) => {
                proof {
                    lemma_find_some(rest@, seq![';'], 0);
                }
                let piece = slice_range(rest.as_slice(), 0, k);
                assert(piece@ == rest@.take(k as int));
                assert(rest@.skip(k + 1) == s@.skip(i + k + 1));
                assert(all[done.len() as int] == piece@);
                match pair_value_exec(piece.as_slice(), n.as_slice()) {
                    Some(v) => {
                        return Some(v);
                    },
                    None => {},
                }
                proof {
                    assert(done.push(piece@) + split_semicolons(s@.skip(i + k + 1)) == done + split_semicolons(rest@));
                    done = done.push(piece@);
                }
                i = i + k + 1;
            },
            None => {
                assert(all[done.len() as int] == rest@);
                assert(all.len() == done.len() + 1);
                assert(first_pair_value(all, name@, done.len() + 1int) is None);
                return pair_value_exec(rest.as_slice(), n.as_slice());
            },
        }
    }
}

} // verus!

verus! {

/// The chapter number hint of a chapter page: the text after its last `/`.
pub open spec fn number_hint(url: Seq<char>) -> Seq<char> {
    crate::text::split_on(url, '/').last()
}

/// The chapter number hint of a chapter page (`rsplit('/').next()`).
pub fn chapter_number_hint(chapter_url: &str) -> (r: String)
    ensures
        r@ == number_hint(chapter_url@),
{
    let pieces = crate::text::split_on_chars(chars_of(chapter_url).as_slice(), '/');
    proof {
        lemma_split_on_nonempty(chapter_url@, '/');
    }
    let last = pieces.len() - 1;
    assert(crate::text::views(pieces@)[last as int] == pieces@[last as int]@);
    string_of(pieces[last].as_slice())
}

/// `str::split` always gives at least one piece.
pub proof fn lemma_split_on_nonempty(s: Seq<char>, c: char)
    ensures
        crate::text::split_on(s, c).len() > 0,
    decreases s.len(),
{
    match find(s, seq![c]) {
        None => {},
        Some(k) => {
            lemma_find_some(s, seq![c], 0);
            lemma_split_on_nonempty(s.skip(k + 1), c);
        },
    }
}

/// The session the web view's page is loaded with: the `toon_v` cookie of
/// the header, else a new session for the time `now`.
pub open spec fn webview_session(cookie_header: Seq<char>, now: int) -> Seq<char> {
    match first_pair_value(split_semicolons(cookie_header), "toon_v"@, 0) {
        Some(v) => v,
        None => session_text(now),
    }
}

/// The session the web view's page is loaded with.
pub fn webview_session_cookie(cookie_header: &str, now: i64) -> (r: String)
    ensures
        r@ == webview_session(cookie_header@, now as int),
{
    match cookie_value_from_header(cookie_header, "toon_v") {
        Some(v) => v,
        None => generate_session(now),
    }
}

} // verus!

verus! {

/// Showing the page the same cookie header a second time leaves the cookie
/// cache as the first time left it.
pub proof fn lemma_cookie_cache_idempotent(existing: Option<Seq<char>>, candidate: Seq<char>)
    ensures
        updated_cookie_cache(updated_cookie_cache(existing, candidate), candidate) == updated_cookie_cache(
            existing,
            candidate,
        ),
{
}

/// A filled cookie cache stays filled, whatever header the page shows.
pub proof fn lemma_cookie_cache_kept(existing: Option<Seq<char>>, candidate: Seq<char>)
    ensures
        existing is Some ==> updated_cookie_cache(existing, candidate) is Some,
        trim(candidate).len() > 0 ==> updated_cookie_cache(existing, candidate) is Some,
{
}

} // verus!
