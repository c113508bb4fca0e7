//! Monte Tai Scanlator: chapter numbers, chapter titles and upload dates read
//! from free text.
//!
//! The site's texts are searched for `capitulo` in their lowercase form, and
//! the byte offset found there is applied to the text itself. Where lowercasing
//! changes the length of a character before the match, that offset can fall
//! inside a character of the text; slicing there is not possible, so the
//! functions that slice ask, in `requires`, that it does not happen, and each
//! has a test (`*_sliceable`) that says whether it does.

use crate::number::{is_digit, parse_u32};
use crate::text::{
    append, chars_of, contains, find, lit, lowercase, normalize, normalize_chars, split_words,
    string_of, trim_any, trim_any_chars, trim_end_matches, trim_end_matches_chars, views, words,
    str_to_lowercase,
};
use vstd::prelude::*;
use vstd::utf8::{decode_utf8, encode_utf8, is_char_boundary};

verus! {

/// Number of times `c` occurs in `s`.
pub open spec fn count_of(s: Seq<char>, c: char) -> nat
    decreases s.len(),
{
    if s.len() == 0 {
        0
    } else {
        count_of(s.drop_last(), c) + if s.last() == c {
            1nat
        } else {
            0nat
        }
    }
}

fn count_exec(s: &[char], c: char) -> (n: usize)
    ensures
        n == count_of(s@, c),
{
    let mut n: usize = 0;
    let mut i: usize = 0;
    while i < s.len()
        invariant
            i <= s@.len(),
            n == count_of(s@.take(i as int), c),
            n <= i,
        decreases s@.len() - i,
    {
        assert(s@.take(i + 1).drop_last() == s@.take(i as int));
        if s[i] == c {
            n += 1;
        }
        i += 1;
    }
    assert(s@.take(s@.len() as int) == s@);
    n
}

/// A character kept in a date: a digit or a slash.
pub open spec fn date_char(c: char) -> bool {
    is_digit(c) || c == '/'
}

/// The digits and slashes of `s`, in order.
pub open spec fn keep_date_chars(s: Seq<char>) -> Seq<char>
    decreases s.len(),
{
    if s.len() == 0 {
        s
    } else if date_char(s.last()) {
        keep_date_chars(s.drop_last()).push(s.last())
    } else {
        keep_date_chars(s.drop_last())
    }
}

/// The punctuation trimmed off a word before it is read as a date.
pub open spec fn date_punct() -> Seq<char> {
    seq![',', ';', '.']
}

/// A word of a text as a date candidate: without surrounding `,;.`, and then
/// only its digits and slashes.
pub open spec fn date_token_of(word: Seq<char>) -> Seq<char> {
    keep_date_chars(trim_any(word, date_punct()))
}

/// A candidate with two slashes and at least eight characters is a date.
pub open spec fn is_date_token(t: Seq<char>) -> bool {
    count_of(t, '/') == 2 && t.len() >= 8
}

/// The first word of `ws` whose candidate is a date, as that candidate.
pub open spec fn first_date_token(ws: Seq<Seq<char>>) -> Option<Seq<char>>
    decreases ws.len(),
{
    if ws.len() == 0 {
        None
    } else if is_date_token(date_token_of(ws[0])) {
        Some(date_token_of(ws[0]))
    } else {
        first_date_token(ws.drop_first())
    }
}

fn date_token_exec(word: &[char]) -> (r: Vec<char>)
    ensures
        r@ == date_token_of(word@),
{
    let punct: Vec<char> = vec![',', ';', '.'];
    assert(punct@ == date_punct());
    let t = trim_any_chars(word, punct.as_slice());
    let mut out: Vec<char> = Vec::new();
    let mut i: usize = 0;
    while i < t.len()
        invariant
            i <= t@.len(),
            out@ == keep_date_chars(t@.take(i as int)),
        decreases t@.len() - i,
    {
        assert(t@.take(i + 1).drop_last() == t@.take(i as int));
        let c = t[i];
        if ('0' <= c && c <= '9') || c == '/' {
            out.push(c);
        }
        i += 1;
    }
    assert(t@.take(t@.len() as int) == t@);
    out
}

/// The first date (`dd/mm/yyyy`-like run of digits and slashes) among the words of a text.
pub fn extract_date_token(text: &str) -> (r: Option<String>)
    ensures
        crate::model::opt_view(r) == first_date_token(words(text@)),
{
    let ws = split_words(chars_of(text).as_slice());
    let mut i: usize = 0;
    assert(views(ws@).skip(0) == views(ws@));
    while i < ws.len()
        invariant
            i <= ws@.len(),
            views(ws@).len() == ws@.len(),
            views(ws@) == words(text@),
            first_date_token(views(ws@).skip(i as int)) == first_date_token(words(text@)),
        decreases ws@.len() - i,
    {
        let ghost rest = views(ws@).skip(i as int);
        assert(rest[0] == ws@[i as int]@);
        assert(rest.drop_first() == views(ws@).skip(i + 1));
        let t = date_token_exec(ws[i].as_slice());
        let slashes = count_exec(t.as_slice(), '/');
        if slashes == 2 && t.len() >= 8 {
            return Some(string_of(t.as_slice()));
        }
        i += 1;
    }
    None
}

/// The characters of a number token: its digits and the first of each run
/// of dots (other characters are skipped and do not end a run).
pub open spec fn token_chars(s: Seq<char>, last_dot: bool) -> Seq<char>
    decreases s.len(),
{
    if s.len() == 0 {
        s
    } else if is_digit(s[0]) {
        seq![s[0]] + token_chars(s.drop_first(), false)
    } else if s[0] == '.' && !last_dot {
        seq!['.'] + token_chars(s.drop_first(), true)
    } else {
        token_chars(s.drop_first(), last_dot)
    }
}

/// The decimal text of a number token: its digits and single dots, without
/// trailing dots; none when that is empty or holds more than one dot (which
/// are exactly the texts that do not read as a float).
pub open spec fn number_token(token: Seq<char>) -> Option<Seq<char>> {
    let t = trim_end_matches(token_chars(token, false), '.');
    if t.len() == 0 || count_of(t, '.') > 1 {
        None
    } else {
        Some(t)
    }
}

/// The decimal text of a number token.
pub fn parse_number_token(token: &str) -> (r: Option<String>)
    ensures
        crate::model::opt_view(r) == number_token(token@),
{
    let s = chars_of(token);
    let mut out: Vec<char> = Vec::new();
    let mut last_dot = false;
    let mut i: usize = 0;
    assert(s@.skip(0) == s@);
    assert(out@ + token_chars(s@, false) == token_chars(s@, false));
    while i < s.len()
        invariant
            i <= s@.len(),
            out@ + token_chars(s@.skip(i as int), last_dot) == token_chars(s@, false),
        decreases s@.len() - i,
    {
        let ghost rest = s@.skip(i as int);
        assert(rest.drop_first() == s@.skip(i + 1));
        assert(rest[0] == s@[i as int]);
        let c = s[i];
        if '0' <= c && c <= '9' {
            proof {
                assert((out@ + seq![c]) + token_chars(s@.skip(i + 1), false) == out@ + (seq![c]
                    + token_chars(rest.drop_first(), false)));
            }
            out.push(c);
            last_dot = false;
        } else if c == '.' && !last_dot {
            proof {
                assert((out@ + seq!['.']) + token_chars(s@.skip(i + 1), true) == out@ + (seq!['.']
                    + token_chars(rest.drop_first(), true)));
            }
            out.push('.');
            last_dot = true;
        }
        i += 1;
    }
    assert(s@.skip(s@.len() as int).len() == 0);
    assert(out@ + Seq::<char>::empty() == out@);
    let t = trim_end_matches_chars(out.as_slice(), '.');
    if t.len() == 0 || count_exec(t.as_slice(), '.') > 1 {
        None
    } else {
        Some(string_of(t.as_slice()))
    }
}

/// The number that follows `capitulo`: its digits, with `.`, `,` or `-`
/// after the first digit read as a decimal point, up to the first other
/// character after it.
pub open spec fn number_chars(s: Seq<char>, started: bool) -> Seq<char>
    decreases s.len(),
{
    if s.len() == 0 {
        s
    } else if is_digit(s[0]) {
        seq![s[0]] + number_chars(s.drop_first(), true)
    } else if started && (s[0] == '.' || s[0] == ',' || s[0] == '-') {
        seq!['.'] + number_chars(s.drop_first(), true)
    } else if started {
        Seq::<char>::empty()
    } else {
        number_chars(s.drop_first(), false)
    }
}

/// The bytes of `capitulo`.
pub open spec fn capitulo_bytes() -> Seq<u8> {
    seq![99u8, 97u8, 112u8, 105u8, 116u8, 117u8, 108u8, 111u8]
}

/// The bytes of `capitulo-`.
pub open spec fn capitulo_dash_bytes() -> Seq<u8> {
    capitulo_bytes().push(45u8)
}

/// The UTF-8 bytes of the lowercase form of a text.
pub open spec fn lower_bytes(text: Seq<char>) -> Seq<u8> {
    encode_utf8(lowercase(text))
}

/// The byte offset just after `capitulo-` (or else `capitulo`) in the
/// lowercase form of a text.
pub open spec fn capitulo_start(text: Seq<char>) -> Option<int> {
    let lb = lower_bytes(text);
    match find(lb, capitulo_dash_bytes()) {
        Some(k) => Some(k + 9),
        None => match find(lb, capitulo_bytes()) {
            Some(k) => Some(k + 8),
            None => None,
        },
    }
}

/// The characters of a text from byte offset `at` on.
pub open spec fn tail_from_byte(text: Seq<char>, at: int) -> Seq<char> {
    decode_utf8(encode_utf8(text).subrange(at, encode_utf8(text).len() as int))
}

/// Whether the text can be cut where `capitulo` ends in its lowercase form.
pub open spec fn capitulo_sliceable(text: Seq<char>) -> bool {
    match capitulo_start(text) {
        Some(s) => is_char_boundary(encode_utf8(text), s),
        None => true,
    }
}

/// The number after `capitulo` in a text, if it has one.
pub open spec fn capitulo_number(text: Seq<char>) -> Option<Seq<char>> {
    match capitulo_start(text) {
        None => None,
        Some(s) => {
            let n = number_chars(tail_from_byte(text, s), false);
            if n.len() == 0 {
                None
            } else {
                Some(n)
            }
        },
    }
}

fn capitulo_pattern(dash: bool) -> (r: Vec<u8>)
    ensures
        r@ == (if dash {
            capitulo_dash_bytes()
        } else {
            capitulo_bytes()
        }),
{
    let mut v: Vec<u8> = vec![99u8, 97u8, 112u8, 105u8, 116u8, 117u8, 108u8, 111u8];
    if dash {
        v.push(45u8);
    }
    v
}

/// Byte offset after `capitulo-`/`capitulo` in the lowercase form of `text`.
fn capitulo_start_exec(text: &str) -> (r: Option<usize>)
    ensures
        match r {
            Some(s) => capitulo_start(text@) == Some(s as int),
            None => capitulo_start(text@) is None,
        },
{
    let lower = str_to_lowercase(text);
    let lb = lower.as_str().as_bytes();
    let dashed = capitulo_pattern(true);
    let total = lb.len();
    assert(total == lb@.len());
    match crate::text::find_bytes(lb, dashed.as_slice()) {
        Some(k) => {
            proof {
                crate::text::lemma_find_some(lb@, dashed@, 0);
            }
            Some(k + 9)
        },
        None => {
            let plain = capitulo_pattern(false);
            match crate::text::find_bytes(lb, plain.as_slice()) {
                Some(k) => {
                    proof {
                        crate::text::lemma_find_some(lb@, plain@, 0);
                    }
                    Some(k + 8)
                },
                None => None,
            }
        },
    }
}

/// Whether the text can be cut where `capitulo` ends in its lowercase form.
pub fn is_capitulo_sliceable(text: &str) -> (b: bool)
    ensures
        b == capitulo_sliceable(text@),
{
    match capitulo_start_exec(text) {
        Some(s) => text.is_char_boundary(s),
        None => true,
    }
}

/// The characters of `text` from the byte offset `at`, a character boundary.
fn tail_exec(text: &str, at: usize) -> (r: Vec<char>)
    requires
        is_char_boundary(encode_utf8(text@), at as int),
    ensures
        r@ == tail_from_byte(text@, at as int),
{
    let (_head, tail) = text.split_at(at);
    proof {
        vstd::utf8::encode_utf8_decode_utf8(tail@);
    }
    chars_of(tail)
}

fn number_chars_exec(s: &[char]) -> (r: Vec<char>)
    ensures
        r@ == number_chars(s@, false),
{
    let mut out: Vec<char> = Vec::new();
    let mut started = false;
    let mut i: usize = 0;
    assert(s@.skip(0) == s@);
    assert(out@ + number_chars(s@, false) == number_chars(s@, false));
    while i < s.len()
        invariant
            i <= s@.len(),
            out@ + number_chars(s@.skip(i as int), started) == number_chars(s@, false),
        decreases s@.len() - i,
    {
        let ghost rest = s@.skip(i as int);
        assert(rest.drop_first() == s@.skip(i + 1));
        assert(rest[0] == s@[i as int]);
        let c = s[i];
        if '0' <= c && c <= '9' {
            proof {
                assert((out@ + seq![c]) + number_chars(s@.skip(i + 1), true) == out@ + (seq![c]
                    + number_chars(rest.drop_first(), true)));
            }
            out.push(c);
            started = true;
        } else if started && (c == '.' || c == ',' || c == '-') {
            proof {
                assert((out@ + seq!['.']) + number_chars(s@.skip(i + 1), true) == out@ + (seq!['.']
                    + number_chars(rest.drop_first(), true)));
            }
            out.push('.');
        } else if started {
            assert(out@ + Seq::<char>::empty() == out@);
            return out;
        }
        i += 1;
    }
    assert(s@.skip(s@.len() as int).len() == 0);
    assert(out@ + Seq::<char>::empty() == out@);
    out
}

/// The number after `capitulo` (or `capitulo-`) in a text.
pub fn extract_number_after_capitulo(text: &str) -> (r: Option<String>)
    requires
        capitulo_sliceable(text@),
    ensures
        crate::model::opt_view(r) == capitulo_number(text@),
{
    match capitulo_start_exec(text) {
        None => None,
        Some(s) => {
            let tail = tail_exec(text, s);
            let n = number_chars_exec(tail.as_slice());
            if n.len() == 0 {
                None
            } else {
                Some(string_of(n.as_slice()))
            }
        },
    }
}

} // verus!

verus! {

/// The number of a chapter read from `text` (a title or link text), else
/// from its link: the number after `capitulo`, as decimal text.
pub open spec fn number_in(text: Seq<char>) -> Option<Seq<char>> {
    match capitulo_number(text) {
        Some(v) => number_token(v),
        None => None,
    }
}

/// The number of a chapter from its text, else from its link.
pub open spec fn chapter_number_of(text: Seq<char>, url: Seq<char>) -> Option<Seq<char>> {
    match number_in(text) {
        Some(x) => Some(x),
        None => number_in(url),
    }
}

/// Whether every text that the chapter number is read from can be cut.
pub open spec fn chapter_number_sliceable(text: Seq<char>, url: Seq<char>) -> bool {
    capitulo_sliceable(text) && (number_in(text) is None ==> capitulo_sliceable(url))
}

fn number_in_exec(text: &str) -> (r: Option<String>)
    requires
        capitulo_sliceable(text@),
    ensures
        crate::model::opt_view(r) == number_in(text@),
{
    match extract_number_after_capitulo(text) {
        Some(v) => parse_number_token(v.as_str()),
        None => None,
    }
}

/// The number of a chapter (as decimal text) from its text, else from its link.
pub fn parse_chapter_number(text: &str, url: &str) -> (r: Option<String>)
    requires
        chapter_number_sliceable(text@, url@),
    ensures
        crate::model::opt_view(r) == chapter_number_of(text@, url@),
{
    match number_in_exec(text) {
        Some(x) => Some(x),
        None => number_in_exec(url),
    }
}

/// Whether the chapter number of `text` and `url` can be read without a cut
/// inside a character.
pub fn is_chapter_number_sliceable(text: &str, url: &str) -> (b: bool)
    ensures
        b == chapter_number_sliceable(text@, url@),
{
    if !is_capitulo_sliceable(text) {
        return false;
    }
    match number_in_exec(text) {
        Some(_) => true,
        None => is_capitulo_sliceable(url),
    }
}

/// The byte offset of `capitulo` in the lowercase form of a text.
pub open spec fn title_start(n: Seq<char>) -> Option<int> {
    find(lower_bytes(n), capitulo_bytes())
}

/// Whether the normalized text can be cut where `capitulo` starts in its lowercase form.
pub open spec fn title_sliceable(text: Seq<char>) -> bool {
    let n = normalize(text);
    match title_start(n) {
        Some(i) => is_char_boundary(encode_utf8(n), i),
        None => true,
    }
}

/// The title of a chapter in a text: `capitulo` (as written) and the word
/// after it, else empty.
pub open spec fn chapter_title_of(text: Seq<char>) -> Seq<char> {
    let n = normalize(text);
    match title_start(n) {
        None => Seq::<char>::empty(),
        Some(i) => {
            let w = words(tail_from_byte(n, i));
            if w.len() >= 2 {
                w[0] + seq![' '] + w[1]
            } else {
                Seq::<char>::empty()
            }
        },
    }
}

fn title_start_exec(n: &str) -> (r: Option<usize>)
    ensures
        match r {
            Some(i) => title_start(n@) == Some(i as int),
            None => title_start(n@) is None,
        },
{
    let lower = str_to_lowercase(n);
    let lb = lower.as_str().as_bytes();
    let plain = capitulo_pattern(false);
    crate::text::find_bytes(lb, plain.as_slice())
}

/// Whether the chapter title of a text can be read without a cut inside a character.
pub fn is_title_sliceable(text: &str) -> (b: bool)
    ensures
        b == title_sliceable(text@),
{
    let n = string_of(normalize_chars(chars_of(text).as_slice()).as_slice());
    match title_start_exec(n.as_str()) {
        Some(i) => n.as_str().is_char_boundary(i),
        None => true,
    }
}

/// The title of a chapter in a text (`Capitulo 12`), else empty.
pub fn chapter_title_from_text(text: &str) -> (r: String)
    requires
        title_sliceable(text@),
    ensures
        r@ == chapter_title_of(text@),
{
    let n = string_of(normalize_chars(chars_of(text).as_slice()).as_slice());
    match title_start_exec(n.as_str()) {
        None => String::new(),
        Some(i) => {
            let tail = tail_exec(n.as_str(), i);
            let w = split_words(tail.as_slice());
            if w.len() >= 2 {
                proof {
                    assert(views(w@)[0] == w@[0]@);
                    assert(views(w@)[1] == w@[1]@);
                }
                let mut out = w[0].clone();
                out.push(' ');
                append(&mut out, w[1].as_slice());
                string_of(out.as_slice())
            } else {
                String::new()
            }
        },
    }
}

} // verus!

verus! {

/// No character of `s` is a slash.
pub open spec fn slash_free(s: Seq<char>) -> bool {
    forall|k: int| 0 <= k < s.len() ==> #[trigger] s[k] != '/'
}

/// A date word: only digits except two slashes, at positions `i < j`, and at
/// least eight characters (`d/M/yyyy`, `dd/MM/yyyy` and the like).
pub open spec fn date_word(w: Seq<char>, i: int, j: int) -> bool {
    &&& 0 <= i < j < w.len()
    &&& w.len() >= 8
    &&& w[i] == '/'
    &&& w[j] == '/'
    &&& forall|k: int| 0 <= k < w.len() && k != i && k != j ==> is_digit(#[trigger] w[k])
}

proof fn lemma_trail_len_le(s: Seq<char>, f: spec_fn(char) -> bool)
    ensures
        crate::text::trail_len(s, f) <= s.len(),
    decreases s.len(),
{
    if s.len() > 0 && f(s.last()) {
        lemma_trail_len_le(s.drop_last(), f);
    }
}

proof fn lemma_keep_date_chars_slash_free(s: Seq<char>)
    requires
        slash_free(s),
    ensures
        slash_free(keep_date_chars(s)),
    decreases s.len(),
{
    if s.len() > 0 {
        lemma_keep_date_chars_slash_free(s.drop_last());
    }
}

proof fn lemma_count_slash_free(s: Seq<char>)
    requires
        slash_free(s),
    ensures
        count_of(s, '/') == 0,
    decreases s.len(),
{
    if s.len() > 0 {
        lemma_count_slash_free(s.drop_last());
    }
}

/// A word without a slash is never a date.
proof fn lemma_slash_free_not_date(w: Seq<char>)
    requires
        slash_free(w),
    ensures
        !is_date_token(date_token_of(w)),
{
    let f = crate::text::any_of_pred(date_punct());
    crate::text::lemma_lead_len_le(w, f);
    let a = w.skip(crate::text::lead_len(w, f) as int);
    lemma_trail_len_le(a, f);
    let t = trim_any(w, date_punct());
    assert(slash_free(t)) by {
        assert forall|k: int| 0 <= k < t.len() implies #[trigger] t[k] != '/' by {
            assert(t[k] == a[k]);
            assert(a[k] == w[k + crate::text::lead_len(w, f)]);
        }
    }
    lemma_keep_date_chars_slash_free(t);
    lemma_count_slash_free(keep_date_chars(t));
}

proof fn lemma_keep_date_chars_all(s: Seq<char>)
    requires
        forall|k: int| 0 <= k < s.len() ==> date_char(#[trigger] s[k]),
    ensures
        keep_date_chars(s) == s,
    decreases s.len(),
{
    if s.len() > 0 {
        lemma_keep_date_chars_all(s.drop_last());
        assert(s.drop_last().push(s.last()) == s);
    }
}

proof fn lemma_count_two_slashes(w: Seq<char>, i: int, j: int, n: int)
    requires
        date_word(w, i, j),
        0 <= n <= w.len(),
    ensures
        count_of(w.take(n), '/') == (if i < n { 1int } else { 0int }) + (if j < n { 1int } else { 0int }),
    decreases n,
{
    if n > 0 {
        lemma_count_two_slashes(w, i, j, n - 1);
        assert(w.take(n).drop_last() == w.take(n - 1));
        if n - 1 != i && n - 1 != j {
            assert(is_digit(w[n - 1]));
        }
    }
}

/// A date word is read as a date, as it is.
pub proof fn lemma_date_word_is_date(w: Seq<char>, i: int, j: int)
    requires
        date_word(w, i, j),
    ensures
        date_token_of(w) == w,
        is_date_token(date_token_of(w)),
{
    let f = crate::text::any_of_pred(date_punct());
    assert(!date_punct().contains(w[0])) by {
        if w[0] != '/' {
            assert(is_digit(w[0]));
        }
        assert(date_punct() == seq![',', ';', '.']);
    }
    assert(!date_punct().contains(w.last())) by {
        if w.len() - 1 != j {
            assert(is_digit(w[w.len() - 1]));
        }
    }
    crate::text::lemma_trim_by_noop(w, f);
    assert forall|k: int| 0 <= k < w.len() implies date_char(#[trigger] w[k]) by {
        if k != i && k != j {
            assert(is_digit(w[k]));
        }
    }
    lemma_keep_date_chars_all(w);
    lemma_count_two_slashes(w, i, j, w.len() as int);
    assert(w.take(w.len() as int) == w);
}

/// Among words, the first date word after words without a slash is the date
/// found, as it is.
pub proof fn lemma_first_date_word(pre: Seq<Seq<char>>, w: Seq<char>, rest: Seq<Seq<char>>, i: int, j: int)
    requires
        forall|k: int| 0 <= k < pre.len() ==> slash_free(#[trigger] pre[k]),
        date_word(w, i, j),
    ensures
        first_date_token(pre + seq![w] + rest) == Some(w),
    decreases pre.len(),
{
    let ws = pre + seq![w] + rest;
    if pre.len() == 0 {
        assert(ws[0] == w);
        lemma_date_word_is_date(w, i, j);
    } else {
        assert(ws[0] == pre[0]);
        lemma_slash_free_not_date(pre[0]);
        assert(ws.drop_first() == pre.drop_first() + seq![w] + rest);
        lemma_first_date_word(pre.drop_first(), w, rest, i, j);
    }
}

/// Words none of which has a slash hold no date.
pub proof fn lemma_no_date_without_slash(ws: Seq<Seq<char>>)
    requires
        forall|k: int| 0 <= k < ws.len() ==> slash_free(#[trigger] ws[k]),
    ensures
        first_date_token(ws) is None,
    decreases ws.len(),
{
    if ws.len() > 0 {
        lemma_slash_free_not_date(ws[0]);
        lemma_no_date_without_slash(ws.drop_first());
    }
}

} // verus!
