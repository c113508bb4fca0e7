//! Character-sequence toolkit: the string operations of the sources, each
//! with a specification over `Seq<char>`.

use vstd::prelude::*;

verus! {

/// Unicode `White_Space`: exactly the characters for which `char::is_whitespace` holds.
pub open spec fn is_ws(c: char) -> bool {
    let n = c as u32;
    ||| 0x09 <= n <= 0x0D
    ||| n == 0x20
    ||| n == 0x85
    ||| n == 0xA0
    ||| n == 0x1680
    ||| 0x2000 <= n <= 0x200A
    ||| n == 0x2028
    ||| n == 0x2029
    ||| n == 0x202F
    ||| n == 0x205F
    ||| n == 0x3000
}

/// Whether `c` is a Unicode whitespace character.
pub fn is_whitespace(c: char) -> (b: bool)
    ensures
        b == is_ws(c),
{
    let n = c as u32;
    (0x09 <= n && n <= 0x0D) || n == 0x20 || n == 0x85 || n == 0xA0 || n == 0x1680 || (0x2000
        <= n && n <= 0x200A) || n == 0x2028 || n == 0x2029 || n == 0x202F || n == 0x205F || n
        == 0x3000
}

/// The characters of `s`, in order.
pub fn chars_of(s: &str) -> (v: Vec<char>)
    ensures
        v@ == s@,
{
    let mut v: Vec<char> = Vec::new();
    for c in it: s.chars()
        invariant
            it.seq() == s@,
            v@ == s@.take(it.index() as int),
    {
        v.push(c);
    }
    v
}

} // verus!

verus! {

/// Appends `c` to `s` (`String::push`).
#[verifier::external_body]
pub(crate) fn push_char(s: &mut String, c: char)
    ensures
        final(s)@ == old(s)@.push(c),
{
    s.push(c);
}

/// The string made of the characters of `v`.
pub fn string_of(v: &[char]) -> (s: String)
    ensures
        s@ == v@,
{
    let mut s = String::new();
    let mut i: usize = 0;
    while i < v.len()
        invariant
            i <= v@.len(),
            s@ == v@.take(i as int),
        decreases v@.len() - i,
    {
        push_char(&mut s, v[i]);
        i += 1;
        assert(s@ == v@.take(i as int));
    }
    assert(v@.take(v@.len() as int) == v@);
    s
}

/// Number of leading characters of `s` that satisfy `f`.
pub open spec fn lead_len(s: Seq<char>, f: spec_fn(char) -> bool) -> nat
    decreases s.len(),
{
    if s.len() > 0 && f(s[0]) {
        1 + lead_len(s.drop_first(), f)
    } else {
        0
    }
}

/// Number of trailing characters of `s` that satisfy `f`.
pub open spec fn trail_len(s: Seq<char>, f: spec_fn(char) -> bool) -> nat
    decreases s.len(),
{
    if s.len() > 0 && f(s.last()) {
        1 + trail_len(s.drop_last(), f)
    } else {
        0
    }
}

/// `s` without its leading characters that satisfy `f`.
pub open spec fn trim_start_by(s: Seq<char>, f: spec_fn(char) -> bool) -> Seq<char> {
    s.skip(lead_len(s, f) as int)
}

/// `s` without its trailing characters that satisfy `f`.
pub open spec fn trim_end_by(s: Seq<char>, f: spec_fn(char) -> bool) -> Seq<char> {
    s.take(s.len() - trail_len(s, f))
}

/// `s` without its leading and trailing characters that satisfy `f`.
pub open spec fn trim_by(s: Seq<char>, f: spec_fn(char) -> bool) -> Seq<char> {
    trim_end_by(trim_start_by(s, f), f)
}

pub open spec fn ws_pred() -> spec_fn(char) -> bool {
    |c: char| is_ws(c)
}

pub open spec fn eq_pred(x: char) -> spec_fn(char) -> bool {
    |c: char| c == x
}

/// `str::trim`.
pub open spec fn trim(s: Seq<char>) -> Seq<char> {
    trim_by(s, ws_pred())
}

/// `str::trim_matches` with a single character.
pub open spec fn trim_matches(s: Seq<char>, x: char) -> Seq<char> {
    trim_by(s, eq_pred(x))
}

/// `str::trim_start_matches` with a single character.
pub open spec fn trim_start_matches(s: Seq<char>, x: char) -> Seq<char> {
    trim_start_by(s, eq_pred(x))
}

/// `str::trim_end_matches` with a single character.
pub open spec fn trim_end_matches(s: Seq<char>, x: char) -> Seq<char> {
    trim_end_by(s, eq_pred(x))
}

proof fn lemma_lead_len(s: Seq<char>, f: spec_fn(char) -> bool, i: int)
    requires
        0 <= i <= s.len(),
        forall|j: int| 0 <= j < i ==> f(#[trigger] s[j]),
        i == s.len() || !f(s[i]),
    ensures
        lead_len(s, f) == i,
    decreases s.len(),
{
    if s.len() > 0 && f(s[0]) {
        assert(i > 0);
        lemma_lead_len(s.drop_first(), f, i - 1);
    }
}

proof fn lemma_trail_len(s: Seq<char>, f: spec_fn(char) -> bool, k: int)
    requires
        0 <= k <= s.len(),
        forall|j: int| s.len() - k <= j < s.len() ==> f(#[trigger] s[j]),
        k == s.len() || !f(s[s.len() - k - 1]),
    ensures
        trail_len(s, f) == k,
    decreases s.len(),
{
    if s.len() > 0 && f(s.last()) {
        assert(k > 0);
        lemma_trail_len(s.drop_last(), f, k - 1);
    }
}

/// Number of leading whitespace characters of `s[from..to]`.
fn lead_ws(s: &[char], from: usize, to: usize) -> (n: usize)
    requires
        from <= to <= s@.len(),
    ensures
        n == lead_len(s@.subrange(from as int, to as int), ws_pred()),
        from + n <= to,
{
    let mut i = from;
    while i < to && is_whitespace(s[i])
        invariant
            from <= i <= to <= s@.len(),
            forall|j: int| from <= j < i ==> is_ws(s@[j]),
        decreases to - i,
    {
        i += 1;
    }
    proof {
        lemma_lead_len(s@.subrange(from as int, to as int), ws_pred(), i - from);
    }
    i - from
}

/// Number of trailing whitespace characters of `s[from..to]`.
fn trail_ws(s: &[char], from: usize, to: usize) -> (n: usize)
    requires
        from <= to <= s@.len(),
    ensures
        n == trail_len(s@.subrange(from as int, to as int), ws_pred()),
        from + n <= to,
{
    let mut k: usize = 0;
    while k < to - from && is_whitespace(s[to - k - 1])
        invariant
            from <= to <= s@.len(),
            k <= to - from,
            forall|j: int| to - k <= j < to ==> is_ws(s@[j]),
        decreases to - from - k,
    {
        k += 1;
    }
    proof {
        lemma_trail_len(s@.subrange(from as int, to as int), ws_pred(), k as int);
    }
    k
}

/// `str::trim`: `s` without leading and trailing whitespace.
pub fn trim_chars(s: &[char]) -> (r: Vec<char>)
    ensures
        r@ == trim(s@),
{
    let a = lead_ws(s, 0, s.len());
    let b = trail_ws(s, a, s.len());
    proof {
        assert(s@.subrange(0, s@.len() as int) == s@);
        assert(trim_start_by(s@, ws_pred()) == s@.subrange(a as int, s@.len() as int));
    }
    slice_range(s, a, s.len() - b)
}

/// A copy of `s[from..to]`.
pub fn slice_range(s: &[char], from: usize, to: usize) -> (r: Vec<char>)
    requires
        from <= to <= s@.len(),
    ensures
        r@ == s@.subrange(from as int, to as int),
{
    let mut r: Vec<char> = Vec::new();
    let mut i = from;
    while i < to
        invariant
            from <= i <= to <= s@.len(),
            r@ == s@.subrange(from as int, i as int),
        decreases to - i,
    {
        r.push(s[i]);
        i += 1;
    }
    r
}

} // verus!

verus! {

/// Number of leading characters equal to `x` in `s[from..to]`.
fn lead_eq(s: &[char], from: usize, to: usize, x: char) -> (n: usize)
    requires
        from <= to <= s@.len(),
    ensures
        n == lead_len(s@.subrange(from as int, to as int), eq_pred(x)),
        from + n <= to,
{
    let mut i = from;
    while i < to && s[i] == x
        invariant
            from <= i <= to <= s@.len(),
            forall|j: int| from <= j < i ==> s@[j] == x,
        decreases to - i,
    {
        i += 1;
    }
    proof {
        lemma_lead_len(s@.subrange(from as int, to as int), eq_pred(x), i - from);
    }
    i - from
}

/// Number of trailing characters equal to `x` in `s[from..to]`.
fn trail_eq(s: &[char], from: usize, to: usize, x: char) -> (n: usize)
    requires
        from <= to <= s@.len(),
    ensures
        n == trail_len(s@.subrange(from as int, to as int), eq_pred(x)),
        from + n <= to,
{
    let mut k: usize = 0;
    while k < to - from && s[to - k - 1] == x
        invariant
            from <= to <= s@.len(),
            k <= to - from,
            forall|j: int| to - k <= j < to ==> s@[j] == x,
        decreases to - from - k,
    {
        k += 1;
    }
    proof {
        lemma_trail_len(s@.subrange(from as int, to as int), eq_pred(x), k as int);
    }
    k
}

/// `str::trim_matches(x)`.
pub fn trim_matches_chars(s: &[char], x: char) -> (r: Vec<char>)
    ensures
        r@ == trim_matches(s@, x),
{
    let a = lead_eq(s, 0, s.len(), x);
    let b = trail_eq(s, a, s.len(), x);
    proof {
        assert(s@.subrange(0, s@.len() as int) == s@);
        assert(trim_start_by(s@, eq_pred(x)) == s@.subrange(a as int, s@.len() as int));
    }
    slice_range(s, a, s.len() - b)
}

/// Holds of the characters listed in `xs`.
pub open spec fn any_of_pred(xs: Seq<char>) -> spec_fn(char) -> bool {
    |c: char| xs.contains(c)
}

/// `str::trim_matches` with a pattern that matches any of the characters `xs`.
pub open spec fn trim_any(s: Seq<char>, xs: Seq<char>) -> Seq<char> {
    trim_by(s, any_of_pred(xs))
}

fn is_one_of(c: char, xs: &[char]) -> (b: bool)
    ensures
        b == xs@.contains(c),
{
    let mut i: usize = 0;
    while i < xs.len()
        invariant
            i <= xs@.len(),
            forall|j: int| 0 <= j < i ==> xs@[j] != c,
        decreases xs@.len() - i,
    {
        if xs[i] == c {
            return true;
        }
        i += 1;
    }
    false
}

/// `str::trim_matches` with a pattern that matches any of the characters `xs`.
pub fn trim_any_chars(s: &[char], xs: &[char]) -> (r: Vec<char>)
    ensures
        r@ == trim_any(s@, xs@),
{
    let mut a: usize = 0;
    while a < s.len() && is_one_of(s[a], xs)
        invariant
            a <= s@.len(),
            forall|j: int| 0 <= j < a ==> xs@.contains(s@[j]),
        decreases s@.len() - a,
    {
        a += 1;
    }
    proof {
        lemma_lead_len(s@, any_of_pred(xs@), a as int);
    }
    let mut k: usize = 0;
    while k < s.len() - a && is_one_of(s[s.len() - k - 1], xs)
        invariant
            a <= s@.len(),
            k <= s@.len() - a,
            forall|j: int| s@.len() - k <= j < s@.len() ==> xs@.contains(s@[j]),
        decreases s@.len() - a - k,
    {
        k += 1;
    }
    let ghost mid = s@.subrange(a as int, s@.len() as int);
    proof {
        assert(trim_start_by(s@, any_of_pred(xs@)) == mid);
        assert forall|j: int| mid.len() - k <= j < mid.len() implies any_of_pred(xs@)(#[trigger] mid[j]) by {
            assert(mid[j] == s@[a + j]);
        }
        if k < mid.len() {
            assert(mid[mid.len() - k - 1] == s@[s@.len() - k - 1]);
        }
        lemma_trail_len(mid, any_of_pred(xs@), k as int);
    }
    slice_range(s, a, s.len() - k)
}

/// `str::trim_start_matches(x)`.
pub fn trim_start_matches_chars(s: &[char], x: char) -> (r: Vec<char>)
    ensures
        r@ == trim_start_matches(s@, x),
{
    let a = lead_eq(s, 0, s.len(), x);
    proof {
        assert(s@.subrange(0, s@.len() as int) == s@);
    }
    slice_range(s, a, s.len())
}

/// `str::trim_end_matches(x)`.
pub fn trim_end_matches_chars(s: &[char], x: char) -> (r: Vec<char>)
    ensures
        r@ == trim_end_matches(s@, x),
{
    let b = trail_eq(s, 0, s.len(), x);
    proof {
        assert(s@.subrange(0, s@.len() as int) == s@);
    }
    slice_range(s, 0, s.len() - b)
}

/// `p` occurs in `s` at index `i`.
pub open spec fn occurs_at<T>(s: Seq<T>, p: Seq<T>, i: int) -> bool {
    0 <= i && i + p.len() <= s.len() && s.subrange(i, i + p.len()) == p
}

/// `str::starts_with`.
pub open spec fn starts_with(s: Seq<char>, p: Seq<char>) -> bool {
    occurs_at(s, p, 0)
}

/// `str::ends_with`.
pub open spec fn ends_with(s: Seq<char>, p: Seq<char>) -> bool {
    occurs_at(s, p, s.len() - p.len())
}

/// First index `>= i` at which `p` occurs in `s`.
pub open spec fn find_from<T>(s: Seq<T>, p: Seq<T>, i: int) -> Option<int>
    decreases s.len() + 1 - i,
{
    if i < 0 || i + p.len() > s.len() {
        None
    } else if occurs_at(s, p, i) {
        Some(i)
    } else {
        find_from(s, p, i + 1)
    }
}

/// `str::find` (as a character index).
pub open spec fn find<T>(s: Seq<T>, p: Seq<T>) -> Option<int> {
    find_from(s, p, 0)
}

/// `str::contains`.
pub open spec fn contains<T>(s: Seq<T>, p: Seq<T>) -> bool {
    find(s, p) is Some
}

/// Whether `p` occurs in `s` at index `i`.
pub fn occurs_at_exec(s: &[char], p: &[char], i: usize) -> (b: bool)
    ensures
        b == occurs_at(s@, p@, i as int),
{
    if i > s.len() || p.len() > s.len() - i {
        return false;
    }
    let mut j: usize = 0;
    while j < p.len()
        invariant
            i + p.len() <= s.len(),
            j <= p@.len(),
            forall|k: int| 0 <= k < j ==> s@[i + k] == p@[k],
        decreases p@.len() - j,
    {
        if s[i + j] != p[j] {
            assert(s@.subrange(i as int, i + p@.len())[j as int] != p@[j as int]);
            return false;
        }
        j += 1;
    }
    assert(s@.subrange(i as int, i + p@.len()) == p@);
    true
}

/// `str::starts_with`.
pub fn starts_with_exec(s: &[char], p: &[char]) -> (b: bool)
    ensures
        b == starts_with(s@, p@),
{
    occurs_at_exec(s, p, 0)
}

/// `str::ends_with`.
pub fn ends_with_exec(s: &[char], p: &[char]) -> (b: bool)
    ensures
        b == ends_with(s@, p@),
{
    if p.len() > s.len() {
        false
    } else {
        occurs_at_exec(s, p, s.len() - p.len())
    }
}

/// `str::find`, from index `from` on.
pub fn find_from_exec(s: &[char], p: &[char], from: usize) -> (r: Option<usize>)
    ensures
        match r {
            Some(i) => find_from(s@, p@, from as int) == Some(i as int),
            None => find_from(s@, p@, from as int) is None,
        },
{
    if p.len() > s.len() || from > s.len() - p.len() {
        assert(from + p@.len() > s@.len());
        assert(find_from(s@, p@, from as int) is None);
        return None;
    }
    let last = s.len() - p.len();
    let mut i = from;
    loop
        invariant
            from <= i <= last,
            last + p@.len() == s@.len(),
            find_from(s@, p@, from as int) == find_from(s@, p@, i as int),
        decreases last - i,
    {
        if occurs_at_exec(s, p, i) {
            return Some(i);
        }
        if i == last {
            assert(find_from(s@, p@, i + 1) is None);
            return None;
        }
        i += 1;
    }
}

/// `str::find`.
pub fn find_exec(s: &[char], p: &[char]) -> (r: Option<usize>)
    ensures
        match r {
            Some(i) => find(s@, p@) == Some(i as int),
            None => find(s@, p@) is None,
        },
{
    find_from_exec(s, p, 0)
}

/// `str::contains`.
pub fn contains_exec(s: &[char], p: &[char]) -> (b: bool)
    ensures
        b == contains(s@, p@),
{
    find_exec(s, p).is_some()
}

/// Whether the bytes `p` occur in `s` at index `i`.
pub fn occurs_at_bytes(s: &[u8], p: &[u8], i: usize) -> (b: bool)
    ensures
        b == occurs_at(s@, p@, i as int),
{
    if i > s.len() || p.len() > s.len() - i {
        return false;
    }
    let mut j: usize = 0;
    while j < p.len()
        invariant
            i + p.len() <= s.len(),
            j <= p@.len(),
            forall|k: int| 0 <= k < j ==> s@[i + k] == p@[k],
        decreases p@.len() - j,
    {
        if s[i + j] != p[j] {
            assert(s@.subrange(i as int, i + p@.len())[j as int] != p@[j as int]);
            return false;
        }
        j += 1;
    }
    assert(s@.subrange(i as int, i + p@.len()) == p@);
    true
}

/// The first index at which the bytes `p` occur in `s` (`<[u8]>` search as `str::find` does it).
pub fn find_bytes(s: &[u8], p: &[u8]) -> (r: Option<usize>)
    ensures
        match r {
            Some(i) => find(s@, p@) == Some(i as int),
            None => find(s@, p@) is None,
        },
{
    if p.len() > s.len() {
        assert(find_from(s@, p@, 0) is None);
        return None;
    }
    let last = s.len() - p.len();
    let mut i: usize = 0;
    loop
        invariant
            i <= last,
            last + p@.len() == s@.len(),
            find(s@, p@) == find_from(s@, p@, i as int),
        decreases last - i,
    {
        if occurs_at_bytes(s, p, i) {
            return Some(i);
        }
        if i == last {
            assert(find_from(s@, p@, i + 1) is None);
            return None;
        }
        i += 1;
    }
}

} // verus!

verus! {

/// `str::replace(from, to)`: every non-overlapping occurrence of `from`,
/// scanned left to right, replaced by `to`.
pub open spec fn replace_all(s: Seq<char>, from: Seq<char>, to: Seq<char>) -> Seq<char>
    decreases s.len(),
{
    if from.len() == 0 || s.len() < from.len() {
        s
    } else if starts_with(s, from) {
        to + replace_all(s.skip(from.len() as int), from, to)
    } else {
        seq![s[0]] + replace_all(s.drop_first(), from, to)
    }
}

/// Appends `s[from..to]` to `out`.
pub fn extend_range(out: &mut Vec<char>, s: &[char], from: usize, to: usize)
    requires
        from <= to <= s@.len(),
    ensures
        final(out)@ == old(out)@ + s@.subrange(from as int, to as int),
{
    let mut i = from;
    while i < to
        invariant
            from <= i <= to <= s@.len(),
            out@ == old(out)@ + s@.subrange(from as int, i as int),
        decreases to - i,
    {
        out.push(s[i]);
        i += 1;
        assert(out@ == old(out)@ + s@.subrange(from as int, i as int));
    }
}

/// `str::replace(from, to)` for a non-empty `from`.
pub fn replace_all_exec(s: &[char], from: &[char], to: &[char]) -> (r: Vec<char>)
    requires
        from@.len() > 0,
    ensures
        r@ == replace_all(s@, from@, to@),
{
    let mut out: Vec<char> = Vec::new();
    let mut i: usize = 0;
    assert(s@.skip(0) == s@);
    assert(out@ + replace_all(s@, from@, to@) == replace_all(s@, from@, to@));
    while i < s.len()
        invariant
            i <= s@.len(),
            from@.len() > 0,
            out@ + replace_all(s@.skip(i as int), from@, to@) == replace_all(s@, from@, to@),
        decreases s@.len() - i,
    {
        let ghost rest = s@.skip(i as int);
        if from.len() > s.len() - i {
            assert(replace_all(rest, from@, to@) == rest);
            extend_range(&mut out, s, i, s.len());
            assert(s@.subrange(i as int, s@.len() as int) == rest);
            assert(out@ + replace_all(s@.skip(s@.len() as int), from@, to@) == out@);
            i = s.len();
        } else if occurs_at_exec(s, from, i) {
            assert(rest.subrange(0, from@.len() as int) == s@.subrange(i as int, i + from@.len()));
            assert(rest.skip(from@.len() as int) == s@.skip(i + from@.len()));
            extend_range(&mut out, to, 0, to.len());
            assert(to@.subrange(0, to@.len() as int) == to@);
            i += from.len();
        } else {
            assert(rest.subrange(0, from@.len() as int) == s@.subrange(i as int, i + from@.len()));
            assert(rest.drop_first() == s@.skip(i + 1));
            out.push(s[i]);
            i += 1;
        }
    }
    assert(s@.skip(s@.len() as int).len() == 0);
    out
}

/// The character `c` turned into a one-character sequence.
pub open spec fn single(c: char) -> Seq<char> {
    seq![c]
}

/// The part of `s` before the first `c` (`s.split(c).next()`).
pub open spec fn before_char(s: Seq<char>, c: char) -> Seq<char> {
    match find(s, seq![c]) {
        Some(k) => s.take(k),
        None => s,
    }
}

/// The part of `s` before the first `c`.
pub fn before_char_exec(s: &[char], c: char) -> (r: Vec<char>)
    ensures
        r@ == before_char(s@, c),
{
    let mut pat: Vec<char> = Vec::new();
    pat.push(c);
    match find_exec(s, pat.as_slice()) {
        Some(k) => {
            proof {
                lemma_find_some(s@, seq![c], 0);
            }
            slice_range(s, 0, k)
        },
        None => slice_range(s, 0, s.len()),
    }
}

/// A found index is an occurrence.
pub proof fn lemma_find_some<T>(s: Seq<T>, p: Seq<T>, i: int)
    ensures
        find_from(s, p, i) matches Some(k) ==> i <= k && occurs_at(s, p, k),
    decreases s.len() + 1 - i,
{
    if !(i < 0 || i + p.len() > s.len()) && !occurs_at(s, p, i) {
        lemma_find_some(s, p, i + 1);
    }
}

/// No occurrence before a found index, and none at all when nothing is found.
pub proof fn lemma_find_first<T>(s: Seq<T>, p: Seq<T>, i: int, j: int)
    requires
        0 <= i <= j,
        match find_from(s, p, i) {
            Some(k) => j < k,
            None => true,
        },
    ensures
        !occurs_at(s, p, j),
    decreases j - i,
{
    if i + p.len() > s.len() {
    } else if occurs_at(s, p, i) {
    } else if i < j {
        lemma_find_first(s, p, i + 1, j);
    }
}

} // verus!

verus! {

pub open spec fn not_ws_pred() -> spec_fn(char) -> bool {
    |c: char| !is_ws(c)
}

/// `str::split_whitespace`: the maximal runs of non-whitespace characters.
pub open spec fn words(s: Seq<char>) -> Seq<Seq<char>>
    decreases s.len(),
{
    if s.len() == 0 {
        seq![]
    } else if is_ws(s[0]) {
        words(s.drop_first())
    } else {
        let n = lead_len(s, not_ws_pred());
        proof {
            lemma_lead_len_le(s, not_ws_pred());
        }
        seq![s.take(n as int)] + words(s.skip(n as int))
    }
}

/// The leading run is no longer than the sequence.
pub proof fn lemma_lead_len_le(s: Seq<char>, f: spec_fn(char) -> bool)
    ensures
        lead_len(s, f) <= s.len(),
    decreases s.len(),
{
    if s.len() > 0 && f(s[0]) {
        lemma_lead_len_le(s.drop_first(), f);
    }
}

/// The pieces of `ws` joined with `sep` between them.
pub open spec fn join(ws: Seq<Seq<char>>, sep: Seq<char>) -> Seq<char>
    decreases ws.len(),
{
    if ws.len() == 0 {
        seq![]
    } else if ws.len() == 1 {
        ws[0]
    } else {
        join(ws.drop_last(), sep) + sep + ws.last()
    }
}

/// The words of `s` joined by single spaces.
pub open spec fn normalize(s: Seq<char>) -> Seq<char> {
    join(words(s), seq![' '])
}

proof fn lemma_join_push(ws: Seq<Seq<char>>, w: Seq<char>, sep: Seq<char>)
    ensures
        join(ws.push(w), sep) == if ws.len() == 0 {
            w
        } else {
            join(ws, sep) + sep + w
        },
{
    assert(ws.push(w).drop_last() == ws);
}

/// Number of leading non-whitespace characters of `s[from..to]`.
fn lead_not_ws(s: &[char], from: usize, to: usize) -> (n: usize)
    requires
        from <= to <= s@.len(),
    ensures
        n == lead_len(s@.subrange(from as int, to as int), not_ws_pred()),
        from + n <= to,
{
    let mut i = from;
    while i < to && !is_whitespace(s[i])
        invariant
            from <= i <= to <= s@.len(),
            forall|j: int| from <= j < i ==> !is_ws(s@[j]),
        decreases to - i,
    {
        i += 1;
    }
    proof {
        lemma_lead_len(s@.subrange(from as int, to as int), not_ws_pred(), i - from);
    }
    i - from
}

/// The views of a list of character vectors.
pub open spec fn views(v: Seq<Vec<char>>) -> Seq<Seq<char>> {
    v.map_values(|w: Vec<char>| w@)
}

/// `str::split_whitespace`: the words of `s`, in order.
pub fn split_words(s: &[char]) -> (r: Vec<Vec<char>>)
    ensures
        views(r@) == words(s@),
{
    let mut out: Vec<Vec<char>> = Vec::new();
    let mut i: usize = 0;
    assert(s@.skip(0) == s@);
    while i < s.len()
        invariant
            i <= s@.len(),
            views(out@) + words(s@.skip(i as int)) == words(s@),
        decreases s@.len() - i,
    {
        let ghost rest = s@.skip(i as int);
        assert(rest.drop_first() == s@.skip(i + 1));
        if is_whitespace(s[i]) {
            i += 1;
        } else {
            let n = lead_not_ws(s, i, s.len());
            assert(rest == s@.subrange(i as int, s@.len() as int));
            assert(rest.take(n as int) == s@.subrange(i as int, i + n));
            assert(rest.skip(n as int) == s@.skip(i + n));
            let w = slice_range(s, i, i + n);
            assert(words(rest) == seq![w@] + words(s@.skip(i + n)));
            let ghost before = out@;
            out.push(w);
            assert(views(out@) == views(before).push(w@));
            assert(views(out@) + words(s@.skip(i + n)) == views(before) + words(rest));
            i += n;
        }
    }
    assert(words(s@.skip(s@.len() as int)) == Seq::<Seq<char>>::empty());
    assert(views(out@) + Seq::<Seq<char>>::empty() == views(out@));
    out
}

/// The words of `s` (as in `str::split_whitespace`) joined by single spaces.
pub fn normalize_chars(s: &[char]) -> (r: Vec<char>)
    ensures
        r@ == normalize(s@),
{
    let mut out: Vec<char> = Vec::new();
    let ghost mut done: Seq<Seq<char>> = seq![];
    let mut i: usize = 0;
    assert(s@.skip(0) == s@);
    while i < s.len()
        invariant
            i <= s@.len(),
            done + words(s@.skip(i as int)) == words(s@),
            out@ == join(done, seq![' ']),
            out@.len() == 0 <==> done.len() == 0,
            forall|k: int| 0 <= k < done.len() ==> #[trigger] done[k].len() > 0,
        decreases s@.len() - i,
    {
        let ghost rest = s@.skip(i as int);
        assert(rest.drop_first() == s@.skip(i + 1));
        if is_whitespace(s[i]) {
            i += 1;
        } else {
            let n = lead_not_ws(s, i, s.len());
            assert(rest == s@.subrange(i as int, s@.len() as int));
            assert(rest.take(n as int) == s@.subrange(i as int, i + n));
            assert(rest.skip(n as int) == s@.skip(i + n));
            let ghost w = s@.subrange(i as int, i + n);
            assert(words(rest) == seq![w] + words(s@.skip(i + n)));
            if out.len() > 0 {
                out.push(' ');
            }
            extend_range(&mut out, s, i, i + n);
            proof {
                lemma_join_push(done, w, seq![' ']);
                assert(done.push(w) + words(s@.skip(i + n)) == done + words(rest));
                done = done.push(w);
            }
            i += n;
        }
    }
    assert(words(s@.skip(s@.len() as int)) == Seq::<Seq<char>>::empty());
    assert(done + Seq::<Seq<char>>::empty() == done);
    out
}

} // verus!

verus! {

/// What `str::to_lowercase` returns for a string with characters `s`
/// (the Unicode lowercase mapping).
pub uninterp spec fn lowercase(s: Seq<char>) -> Seq<char>;

/// Calls `str::to_lowercase`; the result is named by `lowercase`.
#[verifier::external_body]
pub(crate) fn str_to_lowercase(s: &str) -> (r: String)
    ensures
        r@ == lowercase(s@),
{
    s.to_lowercase()
}

/// The Unicode lowercase form of the characters `s`.
pub fn lowercase_chars(s: &[char]) -> (r: Vec<char>)
    ensures
        r@ == lowercase(s@),
{
    let t = string_of(s);
    let l = str_to_lowercase(t.as_str());
    chars_of(l.as_str())
}

/// A sequence made of a string literal's characters.
pub fn lit(s: &str) -> (v: Vec<char>)
    ensures
        v@ == s@,
{
    chars_of(s)
}

} // verus!

verus! {

/// Appends all of `s` to `out`.
pub fn append(out: &mut Vec<char>, s: &[char])
    ensures
        final(out)@ == old(out)@ + s@,
{
    extend_range(out, s, 0, s.len());
    assert(s@.subrange(0, s@.len() as int) == s@);
}

/// Whether `a` and `b` hold the same characters.
pub fn chars_eq(a: &[char], b: &[char]) -> (r: bool)
    ensures
        r == (a@ == b@),
{
    if a.len() != b.len() {
        return false;
    }
    let mut i: usize = 0;
    while i < a.len()
        invariant
            i <= a@.len(),
            a@.len() == b@.len(),
            forall|j: int| 0 <= j < i ==> a@[j] == b@[j],
        decreases a@.len() - i,
    {
        if a[i] != b[i] {
            return false;
        }
        i += 1;
    }
    assert(a@ == b@);
    true
}

/// Whether the string `a` holds the characters `b`.
pub fn str_eq_chars(a: &str, b: &[char]) -> (r: bool)
    ensures
        r == (a@ == b@),
{
    let v = chars_of(a);
    chars_eq(v.as_slice(), b)
}

/// `str::trim` on a string.
pub fn trim_str(s: &str) -> (r: Vec<char>)
    ensures
        r@ == trim(s@),
{
    let v = chars_of(s);
    trim_chars(v.as_slice())
}

} // verus!

verus! {

/// A copy of an optional string.
pub fn copy_opt_string(o: &Option<String>) -> (r: Option<String>)
    ensures
        r == *o,
{
    match o {
        Some(s) => Some(s.clone()),
        None => None,
    }
}

/// A copy of a list of strings.
pub fn copy_strings(v: &Vec<String>) -> (r: Vec<String>)
    ensures
        r@ == v@,
{
    let mut out: Vec<String> = Vec::new();
    let mut i: usize = 0;
    while i < v.len()
        invariant
            i <= v@.len(),
            out@ == v@.take(i as int),
        decreases v@.len() - i,
    {
        out.push(v[i].clone());
        i += 1;
    }
    assert(v@.take(v@.len() as int) == v@);
    out
}

} // verus!

verus! {

/// `str::split(c)`: the pieces of `s` between occurrences of `c`, empty ones included.
pub open spec fn split_on(s: Seq<char>, c: char) -> Seq<Seq<char>>
    decreases s.len(),
{
    match find(s, seq![c]) {
        None => seq![s],
        Some(k) => {
            proof {
                lemma_find_some(s, seq![c], 0);
            }
            seq![s.take(k)] + split_on(s.skip(k + 1), c)
        },
    }
}

/// `str::split(c)`.
pub fn split_on_chars(s: &[char], c: char) -> (r: Vec<Vec<char>>)
    ensures
        views(r@) == split_on(s@, c),
{
    let mut out: Vec<Vec<char>> = Vec::new();
    let mut i: usize = 0;
    let mut sep: Vec<char> = Vec::new();
    sep.push(c);
    assert(s@.skip(0) == s@);
    loop
        invariant
            i <= s@.len(),
            sep@ == seq![c],
            views(out@) + split_on(s@.skip(i as int), c) == split_on(s@, c),
        decreases s@.len() - i,
    {
        let rest = slice_range(s, i, s.len());
        assert(rest@ == s@.skip(i as int));
        let ghost before = out@;
        match find_exec(rest.as_slice(), sep.as_slice()) {
            Some(k) => {
                proof {
                    lemma_find_some(rest@, seq![c], 0);
                }
                let piece = slice_range(rest.as_slice(), 0, k);
                assert(piece@ == rest@.take(k as int));
                assert(rest@.skip(k + 1) == s@.skip(i + k + 1));
                out.push(piece);
                assert(views(out@) == views(before).push(piece@));
                assert(views(out@) + split_on(s@.skip(i + k + 1), c) == views(before) + split_on(rest@, c));
                i = i + k + 1;
            },
            None => {
                out.push(rest);
                assert(views(out@) == views(before).push(rest@));
                assert(views(out@) == views(before) + split_on(rest@, c));
                return out;
            },
        }
    }
}

} // verus!

verus! {

/// Trimming by `f` leaves a text alone when neither end satisfies `f`.
pub proof fn lemma_trim_by_noop(s: Seq<char>, f: spec_fn(char) -> bool)
    requires
        s.len() == 0 || (!f(s[0]) && !f(s.last())),
    ensures
        trim_by(s, f) == s,
{
    assert(lead_len(s, f) == 0);
    assert(s.skip(0) == s);
    assert(trail_len(s, f) == 0);
    assert(s.take(s.len() as int) == s);
}

/// A run of `k` characters satisfying `f` in front of `s` adds `k` to the leading run.
pub proof fn lemma_lead_len_prefix(run: Seq<char>, s: Seq<char>, f: spec_fn(char) -> bool)
    requires
        forall|i: int| 0 <= i < run.len() ==> f(#[trigger] run[i]),
    ensures
        lead_len(run + s, f) == run.len() + lead_len(s, f),
    decreases run.len(),
{
    if run.len() > 0 {
        assert((run + s).drop_first() == run.drop_first() + s);
        assert((run + s)[0] == run[0]);
        lemma_lead_len_prefix(run.drop_first(), s, f);
    } else {
        assert(run + s == s);
    }
}

} // verus!

verus! {

/// `p` is found at `k` when it occurs there and its first element does not
/// occur before `k`.
pub proof fn lemma_find_at<T>(s: Seq<T>, p: Seq<T>, k: int, i: int)
    requires
        p.len() > 0,
        0 <= i <= k,
        occurs_at(s, p, k),
        forall|j: int| 0 <= j < k ==> s[j] != p[0],
    ensures
        find_from(s, p, i) == Some(k),
    decreases k - i,
{
    if i < k {
        assert(s.subrange(i, i + p.len())[0] == s[i]);
        assert(!occurs_at(s, p, i));
        lemma_find_at(s, p, k, i + 1);
    }
}

/// `p` is not found when its first element does not occur.
pub proof fn lemma_find_absent<T>(s: Seq<T>, p: Seq<T>, i: int)
    requires
        p.len() > 0,
        0 <= i,
        forall|j: int| 0 <= j < s.len() ==> s[j] != p[0],
    ensures
        find_from(s, p, i) is None,
    decreases s.len() + 1 - i,
{
    if !(i + p.len() > s.len()) {
        assert(s.subrange(i, i + p.len())[0] == s[i]);
        lemma_find_absent(s, p, i + 1);
    }
}

} // verus!

verus! {

/// `p` is found at `k` when it occurs there and nowhere between `i` and `k`.
pub proof fn lemma_find_first_at<T>(s: Seq<T>, p: Seq<T>, k: int, i: int)
    requires
        0 <= i <= k,
        occurs_at(s, p, k),
        forall|j: int| i <= j < k ==> !occurs_at(s, p, j),
    ensures
        find_from(s, p, i) == Some(k),
    decreases k - i,
{
    if i < k {
        lemma_find_first_at(s, p, k, i + 1);
    }
}

/// A leading run that covers the whole sequence.
pub proof fn lemma_lead_len_all(s: Seq<char>, f: spec_fn(char) -> bool)
    requires
        forall|i: int| 0 <= i < s.len() ==> f(#[trigger] s[i]),
    ensures
        lead_len(s, f) == s.len(),
{
    lemma_lead_len(s, f, s.len() as int);
}

/// A text without whitespace is its own normalized form.
pub proof fn lemma_normalize_word(s: Seq<char>)
    requires
        s.len() > 0,
        forall|i: int| 0 <= i < s.len() ==> !is_ws(#[trigger] s[i]),
    ensures
        words(s) == seq![s],
        normalize(s) == s,
{
    lemma_lead_len_all(s, not_ws_pred());
    assert(s.take(s.len() as int) == s);
    assert(s.skip(s.len() as int) == Seq::<char>::empty());
    assert(words(s) == seq![s] + words(Seq::<char>::empty()));
    assert(seq![s] + Seq::<Seq<char>>::empty() == seq![s]);
}

/// Replacing a pattern whose first element does not occur changes nothing.
pub proof fn lemma_replace_absent(s: Seq<char>, from: Seq<char>, to: Seq<char>)
    requires
        from.len() > 0,
        forall|i: int| 0 <= i < s.len() ==> #[trigger] s[i] != from[0],
    ensures
        replace_all(s, from, to) == s,
    decreases s.len(),
{
    if s.len() >= from.len() {
        assert(s.subrange(0, from.len() as int)[0] == s[0]);
        assert(!starts_with(s, from));
        lemma_replace_absent(s.drop_first(), from, to);
        assert(seq![s[0]] + s.drop_first() == s);
    }
}

} // verus!
