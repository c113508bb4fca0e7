//! URL helpers shared by the sources: path segments and query escaping.

use crate::text::{
    before_char, before_char_exec, find, find_exec, lemma_find_some, lit, slice_range, string_of,
    trim, trim_start_matches, trim_start_matches_chars, trim_str,
};
use vstd::prelude::*;

verus! {

/// The non-empty pieces of `s` between `/` separators.
pub open spec fn segments(s: Seq<char>) -> Seq<Seq<char>>
    decreases s.len(),
{
    match find(s, seq!['/']) {
        None => if s.len() == 0 {
            seq![]
        } else {
            seq![s]
        },
        Some(k) => {
            proof {
                lemma_find_some(s, seq!['/'], 0);
            }
            (if k == 0 {
                seq![]
            } else {
                seq![s.take(k)]
            }) + segments(s.skip(k + 1))
        },
    }
}

/// The path of `url`: after `scheme://host/` when a scheme is present, without
/// leading slashes, and cut at the first `?` and then at the first `#`.
pub open spec fn url_path(url: Seq<char>) -> Seq<char> {
    let cleaned = trim(url);
    let after_host = match find(cleaned, "://"@) {
        Some(k) => {
            let rest = cleaned.skip(k + 3);
            match find(rest, seq!['/']) {
                Some(j) => rest.skip(j + 1),
                None => seq![],
            }
        },
        None => cleaned,
    };
    before_char(before_char(trim_start_matches(after_host, '/'), '?'), '#')
}

/// The non-empty path segments of `url`.
pub open spec fn path_segments_spec(url: Seq<char>) -> Seq<Seq<char>> {
    segments(url_path(url))
}

/// The views of a vector of strings.
pub open spec fn strings_view(v: Seq<String>) -> Seq<Seq<char>> {
    v.map_values(|s: String| s@)
}

/// The path of `url` (see `url_path`).
pub fn url_path_exec(url: &str) -> (r: Vec<char>)
    ensures
        r@ == url_path(url@),
{
    let cleaned = trim_str(url);
    let sep = lit("://");
    proof {
        reveal_strlit("://");
    }
    let after_host: Vec<char> = match find_exec(cleaned.as_slice(), sep.as_slice()) {
        Some(k) => {
            proof {
                lemma_find_some(cleaned@, "://"@, 0);
            }
            let n = cleaned.len();
            assert(k + 3 <= n);
            let rest = slice_range(cleaned.as_slice(), k + 3, n);
            assert(rest@ == cleaned@.skip(k + 3));
            let mut slash: Vec<char> = Vec::new();
            slash.push('/');
            match find_exec(rest.as_slice(), slash.as_slice()) {
                Some(j) => {
                    proof {
                        lemma_find_some(rest@, seq!['/'], 0);
                    }
                    let r = slice_range(rest.as_slice(), j + 1, rest.len());
                    assert(r@ == rest@.skip(j + 1));
                    r
                },
                None => Vec::new(),
            }
        },
        None => cleaned,
    };
    let a = trim_start_matches_chars(after_host.as_slice(), '/');
    let b = before_char_exec(a.as_slice(), '?');
    before_char_exec(b.as_slice(), '#')
}

/// The non-empty `/`-separated segments of `s`.
pub fn segments_exec(s: &[char]) -> (r: Vec<String>)
    ensures
        strings_view(r@) == segments(s@),
{
    let mut out: Vec<String> = Vec::new();
    let mut i: usize = 0;
    let mut slash: Vec<char> = Vec::new();
    slash.push('/');
    assert(s@.skip(0) == s@);
    while i < s.len()
        invariant
            i <= s@.len(),
            slash@ == seq!['/'],
            strings_view(out@) + segments(s@.skip(i as int)) == segments(s@),
        decreases s@.len() - i,
    {
        let rest = slice_range(s, i, s.len());
        assert(rest@ == s@.skip(i as int));
        match find_exec(rest.as_slice(), slash.as_slice()) {
            Some(k) => {
                proof {
                    lemma_find_some(rest@, seq!['/'], 0);
                }
                assert(rest@.skip(k + 1) == s@.skip(i + k + 1));
                if k > 0 {
                    let piece = slice_range(rest.as_slice(), 0, k);
                    assert(piece@ == rest@.take(k as int));
                    let ghost before = strings_view(out@);
                    out.push(string_of(piece.as_slice()));
                    assert(strings_view(out@) == before.push(piece@));
                    assert(before.push(piece@) + segments(s@.skip(i + k + 1)) == before + (seq![
                        piece@,
                    ] + segments(s@.skip(i + k + 1))));
                } else {
                    assert(Seq::<Seq<char>>::empty() + segments(s@.skip(i + k + 1)) == segments(
                        s@.skip(i + k + 1),
                    ));
                }
                i = i + k + 1;
            },
            None => {
                let ghost before = strings_view(out@);
                out.push(string_of(rest.as_slice()));
                assert(strings_view(out@) == before.push(rest@));
                assert(before.push(rest@) == before + seq![rest@]);
                assert(segments(s@.skip(s@.len() as int)) == Seq::<Seq<char>>::empty());
                i = s.len();
            },
        }
    }
    assert(segments(s@.skip(s@.len() as int)) == Seq::<Seq<char>>::empty());
    assert(strings_view(out@) + Seq::<Seq<char>>::empty() == strings_view(out@));
    out
}

/// `path_segments`: the non-empty path segments of `url`.
pub fn path_segments(url: &str) -> (r: Vec<String>)
    ensures
        strings_view(r@) == path_segments_spec(url@),
{
    let p = url_path_exec(url);
    segments_exec(p.as_slice())
}

/// A byte that query escaping leaves as it is.
pub open spec fn is_unreserved(b: u8) -> bool {
    ||| 65 <= b <= 90
    ||| 97 <= b <= 122
    ||| 48 <= b <= 57
    ||| b == 45
    ||| b == 46
    ||| b == 95
    ||| b == 126
}

/// The upper-case hexadecimal digit (`'0'..='9'`, then `'A'` onwards).
pub open spec fn upper_hex_char(v: nat) -> char {
    if v <= 9 {
        (('0' as u32) + v) as char
    } else {
        (('A' as u32) + v - 10) as char
    }
}

/// The escape of one byte: an unreserved byte stays, a space becomes `+`,
/// every other byte becomes `%` and two upper-case hexadecimal digits.
pub open spec fn byte_escape(b: u8) -> Seq<char> {
    if is_unreserved(b) {
        seq![b as char]
    } else if b == 32 {
        seq!['+']
    } else {
        seq!['%', upper_hex_char(b as nat / 16), upper_hex_char(b as nat % 16)]
    }
}

/// Query escaping of UTF-8 bytes: the escapes of the bytes, in order.
pub open spec fn percent_encoded(bytes: Seq<u8>) -> Seq<char>
    decreases bytes.len(),
{
    if bytes.len() == 0 {
        seq![]
    } else {
        percent_encoded(bytes.drop_last()) + byte_escape(bytes.last())
    }
}

/// The upper-case hexadecimal digit of `value`.
pub fn upper_hex_digit(value: u8) -> (c: char)
    requires
        value <= 200,
    ensures
        c == upper_hex_char(value as nat),
{
    if value <= 9 {
        ((48u8 + value) as char)
    } else {
        ((65u8 + (value - 10)) as char)
    }
}

/// Escapes `input` for a query string (see `percent_encoded`).
pub fn percent_encode(input: &str) -> (r: String)
    ensures
        r@ == percent_encoded(vstd::utf8::encode_utf8(input@)),
{
    let bytes = input.as_bytes();
    let mut out: Vec<char> = Vec::new();
    let mut i: usize = 0;
    while i < bytes.len()
        invariant
            i <= bytes@.len(),
            bytes@ == vstd::utf8::encode_utf8(input@),
            out@ == percent_encoded(bytes@.take(i as int)),
        decreases bytes@.len() - i,
    {
        assert(bytes@.take(i + 1).drop_last() == bytes@.take(i as int));
        let b = bytes[i];
        if (65 <= b && b <= 90) || (97 <= b && b <= 122) || (48 <= b && b <= 57) || b == 45 || b
            == 46 || b == 95 || b == 126 {
            out.push(b as char);
        } else if b == 32 {
            out.push('+');
        } else {
            out.push('%');
            out.push(upper_hex_digit(b / 16));
            out.push(upper_hex_digit(b % 16));
        }
        i += 1;
    }
    assert(bytes@.take(bytes@.len() as int) == bytes@);
    string_of(out.as_slice())
}

} // verus!

verus! {

/// A character that may stand in an escaped query: an unreserved ASCII
/// character, `+` or `%`.
pub open spec fn url_safe(c: char) -> bool {
    ||| 'A' <= c <= 'Z'
    ||| 'a' <= c <= 'z'
    ||| '0' <= c <= '9'
    ||| c == '-'
    ||| c == '.'
    ||| c == '_'
    ||| c == '~'
    ||| c == '+'
    ||| c == '%'
}

/// Query escaping only ever writes URL-safe characters: no space, `&`, `=`,
/// `#` or non-ASCII character survives it.
pub proof fn lemma_percent_encoded_safe(bytes: Seq<u8>)
    ensures
        forall|i: int| 0 <= i < percent_encoded(bytes).len() ==> url_safe(#[trigger] percent_encoded(bytes)[i]),
    decreases bytes.len(),
{
    if bytes.len() > 0 {
        let b = bytes.last();
        lemma_percent_encoded_safe(bytes.drop_last());
        let prev = percent_encoded(bytes.drop_last());
        let tail = byte_escape(b);
        assert(b as nat / 16 < 16);
        assert(b as nat % 16 < 16);
        assert forall|i: int| 0 <= i < tail.len() implies url_safe(#[trigger] tail[i]) by {}
        assert forall|i: int| 0 <= i < percent_encoded(bytes).len() implies url_safe(#[trigger] percent_encoded(bytes)[i]) by {
            if i < prev.len() {
                assert(percent_encoded(bytes)[i] == prev[i]);
            } else {
                assert(percent_encoded(bytes)[i] == tail[i - prev.len()]);
            }
        }
    }
}

/// The number of characters that escaping writes for the byte `b`.
pub open spec fn escape_len(b: u8) -> nat {
    if is_unreserved(b) || b == 32 {
        1
    } else {
        3
    }
}

/// The number of characters that escaping writes for `bytes`: one for each
/// unreserved byte or space, three for every other byte.
pub open spec fn encoded_len(bytes: Seq<u8>) -> nat
    decreases bytes.len(),
{
    if bytes.len() == 0 {
        0
    } else {
        encoded_len(bytes.drop_last()) + escape_len(bytes.last())
    }
}

/// An upper-case hexadecimal digit.
pub open spec fn is_upper_hex(c: char) -> bool {
    ('0' <= c <= '9') || ('A' <= c <= 'F')
}

/// The value of a hexadecimal digit.
pub open spec fn hex_value(c: char) -> int {
    if '0' <= c <= '9' {
        c as int - '0' as int
    } else if 'A' <= c <= 'F' {
        c as int - 'A' as int + 10
    } else if 'a' <= c <= 'f' {
        c as int - 'a' as int + 10
    } else {
        0
    }
}

/// Query unescaping: `%XY` is the byte `0xXY`, `+` is a space, and any other
/// character is its own code as a byte.
pub open spec fn percent_decoded(cs: Seq<char>) -> Seq<u8>
    decreases cs.len(),
{
    if cs.len() == 0 {
        seq![]
    } else if cs[0] == '%' && cs.len() >= 3 {
        seq![(hex_value(cs[1]) * 16 + hex_value(cs[2])) as u8] + percent_decoded(cs.skip(3))
    } else if cs[0] == '+' {
        seq![32u8] + percent_decoded(cs.skip(1))
    } else {
        seq![cs[0] as u8] + percent_decoded(cs.skip(1))
    }
}

proof fn lemma_percent_encoded_concat(a: Seq<u8>, b: Seq<u8>)
    ensures
        percent_encoded(a + b) == percent_encoded(a) + percent_encoded(b),
    decreases b.len(),
{
    if b.len() == 0 {
        assert(a + b == a);
    } else {
        lemma_percent_encoded_concat(a, b.drop_last());
        assert((a + b).drop_last() == a + b.drop_last());
        assert((a + b).last() == b.last());
    }
}

proof fn lemma_upper_hex_round_trip(v: nat)
    requires
        v < 16,
    ensures
        is_upper_hex(upper_hex_char(v)),
        hex_value(upper_hex_char(v)) == v,
{
}

/// Escaping writes one character for each unreserved byte or space and
/// three for every other byte.
pub proof fn lemma_percent_encoded_len(bytes: Seq<u8>)
    ensures
        percent_encoded(bytes).len() == encoded_len(bytes),
    decreases bytes.len(),
{
    if bytes.len() > 0 {
        lemma_percent_encoded_len(bytes.drop_last());
    }
}

/// Every `%` that escaping writes is followed by two upper-case hexadecimal
/// digits.
pub proof fn lemma_percent_encoded_escapes(bytes: Seq<u8>)
    ensures
        forall|i: int|
            0 <= i < percent_encoded(bytes).len() && #[trigger] percent_encoded(bytes)[i] == '%' ==> i + 2
                < percent_encoded(bytes).len() && is_upper_hex(percent_encoded(bytes)[i + 1])
                && is_upper_hex(percent_encoded(bytes)[i + 2]),
    decreases bytes.len(),
{
    if bytes.len() > 0 {
        let b = bytes.last();
        lemma_percent_encoded_escapes(bytes.drop_last());
        let prev = percent_encoded(bytes.drop_last());
        let tail = byte_escape(b);
        let all = percent_encoded(bytes);
        assert(all == prev + tail);
        lemma_upper_hex_round_trip(b as nat / 16);
        lemma_upper_hex_round_trip(b as nat % 16);
        assert forall|i: int| 0 <= i < all.len() && #[trigger] all[i] == '%' implies i + 2 < all.len()
            && is_upper_hex(all[i + 1]) && is_upper_hex(all[i + 2]) by {
            if i < prev.len() {
                assert(all[i] == prev[i]);
                assert(all[i + 1] == prev[i + 1]);
                assert(all[i + 2] == prev[i + 2]);
            } else {
                assert(all[i] == tail[i - prev.len()]);
                assert(i == prev.len());
                assert(all[i + 1] == tail[1]);
                assert(all[i + 2] == tail[2]);
            }
        }
    }
}

/// Unescaping what escaping wrote gives the bytes back.
pub proof fn lemma_percent_decode_round_trip(bytes: Seq<u8>)
    ensures
        percent_decoded(percent_encoded(bytes)) == bytes,
    decreases bytes.len(),
{
    if bytes.len() > 0 {
        let b0 = bytes[0];
        let rest = bytes.skip(1);
        assert(bytes == seq![b0] + rest);
        lemma_percent_encoded_concat(seq![b0], rest);
        assert(seq![b0].drop_last() == Seq::<u8>::empty());
        assert(percent_encoded(seq![b0]) == percent_encoded(Seq::<u8>::empty()) + byte_escape(b0));
        let esc = byte_escape(b0);
        let er = percent_encoded(rest);
        let all = esc + er;
        assert(percent_encoded(bytes) == all);
        lemma_percent_decode_round_trip(rest);
        lemma_upper_hex_round_trip(b0 as nat / 16);
        lemma_upper_hex_round_trip(b0 as nat % 16);
        assert(all.skip(esc.len() as int) == er);
        if is_unreserved(b0) {
            assert(all[0] == b0 as char);
            assert((b0 as char) as u8 == b0);
        } else if b0 == 32 {
            assert(all[0] == '+');
        } else {
            assert(all[0] == '%');
            assert(all[1] == upper_hex_char(b0 as nat / 16));
            assert(all[2] == upper_hex_char(b0 as nat % 16));
            assert((b0 as nat / 16) * 16 + b0 as nat % 16 == b0);
        }
        assert(percent_decoded(all) == seq![b0] + percent_decoded(er));
    }
}

} // verus!

verus! {

/// A path segment that an address keeps as it is: not empty, and without
/// `/`, `?`, `#` or whitespace.
pub open spec fn plain_segment(s: Seq<char>) -> bool {
    s.len() > 0 && forall|i: int|
        0 <= i < s.len() ==> !(#[trigger] s[i] == '/' || s[i] == '?' || s[i] == '#' || crate::text::is_ws(s[i]))
}

/// A host name: not empty, and without `/`, `:` or whitespace.
pub open spec fn plain_host(h: Seq<char>) -> bool {
    h.len() > 0 && forall|i: int| 0 <= i < h.len() ==> !(#[trigger] h[i] == '/' || h[i] == ':' || crate::text::is_ws(h[i]))
}

/// A plain segment is its own only segment.
pub proof fn lemma_segments_single(a: Seq<char>)
    requires
        plain_segment(a),
    ensures
        segments(a) == seq![a],
{
    crate::text::lemma_find_absent(a, seq!['/'], 0);
}

/// A plain segment followed by `/` starts the segments.
pub proof fn lemma_segments_cons(a: Seq<char>, b: Seq<char>)
    requires
        plain_segment(a),
    ensures
        segments(a + seq!['/'] + b) == seq![a] + segments(b),
{
    let s = a + seq!['/'] + b;
    assert(s.subrange(a.len() as int, (a.len() + 1) as int) == seq!['/']);
    assert forall|j: int| 0 <= j < a.len() implies s[j] != seq!['/'][0] by {
        assert(s[j] == a[j]);
    }
    crate::text::lemma_find_at(s, seq!['/'], a.len() as int, 0);
    assert(s.take(a.len() as int) == a);
    assert(s.skip((a.len() + 1) as int) == b);
}

/// The path of an `https` address on a plain host is what follows the host,
/// when that does not start with `/`, holds no `?` or `#`, and ends with a
/// non-blank character.
pub proof fn lemma_url_path_https(host: Seq<char>, path: Seq<char>)
    requires
        plain_host(host),
        path.len() > 0,
        path[0] != '/',
        !crate::text::is_ws(path.last()),
        forall|i: int| 0 <= i < path.len() ==> #[trigger] path[i] != '?' && path[i] != '#',
    ensures
        url_path("https://"@ + host + seq!['/'] + path) == path,
{
    reveal_strlit("https://");
    reveal_strlit("://");
    let url = "https://"@ + host + seq!['/'] + path;
    assert(url[0] == 'h');
    assert(url.last() == path.last());
    crate::text::lemma_trim_by_noop(url, crate::text::ws_pred());
    assert(url.subrange(5, 8) =~= "://"@);
    assert forall|j: int| 0 <= j < 5 implies url[j] != "://"@[0] by {}
    crate::text::lemma_find_at(url, "://"@, 5, 0);
    let rest = url.skip(8);
    assert(rest =~= host + seq!['/'] + path);
    assert(rest.subrange(host.len() as int, (host.len() + 1) as int) =~= seq!['/']);
    assert forall|j: int| 0 <= j < host.len() implies rest[j] != seq!['/'][0] by {
        assert(rest[j] == host[j]);
    }
    crate::text::lemma_find_at(rest, seq!['/'], host.len() as int, 0);
    let after = rest.skip((host.len() + 1) as int);
    assert(after =~= path);
    assert(crate::text::lead_len(path, crate::text::eq_pred('/')) == 0);
    assert(path.skip(0) == path);
    crate::text::lemma_find_absent(path, seq!['?'], 0);
    crate::text::lemma_find_absent(path, seq!['#'], 0);
}

} // verus!
