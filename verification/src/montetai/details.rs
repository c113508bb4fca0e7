//! Monte Tai Scanlator: the details of a series page (title, cover,
//! description, people, tags, status), the images of a chapter page, and
//! whether a listing has a next page.

use crate::model::{Manga, MangaStatus, opt_view};
use crate::montetai::elements::{ImageInfo, cover_image_url, cover_link, image_link, image_url, norm_of};
use crate::montetai::utils::{
    absolute, absolute_url, chapter_image, is_chapter_image, is_likely_cover_url, likely_cover,
    normalize_text, status_from_text, status_in_text,
};
use crate::text::{chars_eq, chars_of, lit, lowercase, lowercase_chars, normalize, replace_all, replace_all_exec, string_of};
use crate::url::strings_view;
use vstd::prelude::*;
use vstd::utf8::encode_utf8;

verus! {

/// What the scraper reads of a `<meta>` (or other) element: its `content`,
/// its `value` and its text.
#[derive(Clone, Debug)]
pub struct MetaInfo {
    pub content: Option<String>,
    pub value: Option<String>,
    pub text: Option<String>,
}

/// The value of an element: its `content`, else its `value`, else its text.
pub open spec fn meta_value(m: MetaInfo) -> Option<Seq<char>> {
    match m.content {
        Some(c) => Some(c@),
        None => match m.value {
            Some(v) => Some(v@),
            None => opt_view(m.text),
        },
    }
}

/// The first element found (in selector order) whose value is not blank, as
/// its normalized value.
pub open spec fn first_meta(ms: Seq<Option<MetaInfo>>) -> Option<Seq<char>>
    decreases ms.len(),
{
    if ms.len() == 0 {
        None
    } else {
        match ms[0] {
            Some(m) => match meta_value(m) {
                Some(v) => if normalize(v).len() > 0 {
                    Some(normalize(v))
                } else {
                    first_meta(ms.drop_first())
                },
                None => first_meta(ms.drop_first()),
            },
            None => first_meta(ms.drop_first()),
        }
    }
}

/// The first element found whose value is not blank, normalized.
pub fn meta_content(ms: &Vec<Option<MetaInfo>>) -> (r: Option<String>)
    ensures
        opt_view(r) == first_meta(ms@),
{
    let mut i: usize = 0;
    assert(ms@.skip(0) == ms@);
    while i < ms.len()
        invariant
            i <= ms@.len(),
            first_meta(ms@.skip(i as int)) == first_meta(ms@),
        decreases ms@.len() - i,
    {
        assert(ms@.skip(i as int)[0] == ms@[i as int]);
        assert(ms@.skip(i as int).drop_first() == ms@.skip(i + 1));
        match &ms[i] {
            Some(m) => {
                let v = match &m.content {
                    Some(c) => Some(c),
                    None => match &m.value {
                        Some(v) => Some(v),
                        None => match &m.text {
                            Some(t) => Some(t),
                            None => None,
                        },
                    },
                };
                match v {
                    Some(s) => {
                        let n = normalize_text(s.as_str());
                        if !n.as_str().is_empty() {
                            return Some(n);
                        }
                    },
                    None => {},
                }
            },
            None => {},
        }
        i += 1;
    }
    None
}

/// The title of a series page: the text of its first heading, else its
/// `og:title`/`twitter:title` metadata.
pub open spec fn page_title(h1_text: Option<Seq<char>>, metas: Seq<Option<MetaInfo>>) -> Option<Seq<char>> {
    match h1_text {
        Some(t) => if normalize(t).len() > 0 {
            Some(normalize(t))
        } else {
            first_meta(metas)
        },
        None => first_meta(metas),
    }
}

/// The title of a series page.
pub fn parse_manga_title(h1_text: Option<&str>, metas: &Vec<Option<MetaInfo>>) -> (r: Option<String>)
    ensures
        opt_view(r) == page_title(match h1_text {
            Some(t) => Some(t@),
            None => None,
        }, metas@),
{
    match h1_text {
        Some(t) => {
            let n = normalize_text(t);
            if !n.as_str().is_empty() {
                return Some(n);
            }
        },
        None => {},
    }
    meta_content(metas)
}

/// Number of UTF-8 bytes of a text.
pub open spec fn byte_len(s: Seq<char>) -> int {
    (encode_utf8(s).len() as usize) as int
}

/// The first section text whose normalized form is longer than 30 bytes.
pub open spec fn long_text(texts: Seq<Option<String>>) -> Option<Seq<char>>
    decreases texts.len(),
{
    if texts.len() == 0 {
        None
    } else {
        match texts[0] {
            Some(t) => if byte_len(normalize(t@)) > 30 {
                Some(normalize(t@))
            } else {
                long_text(texts.drop_first())
            },
            None => long_text(texts.drop_first()),
        }
    }
}

/// The description of a series page: its description metadata when longer
/// than 30 bytes, else the first synopsis section that is.
pub open spec fn page_description(metas: Seq<Option<MetaInfo>>, sections: Seq<Option<String>>) -> Option<Seq<char>> {
    match first_meta(metas) {
        Some(d) => if byte_len(d) > 30 {
            Some(d)
        } else {
            long_text(sections)
        },
        None => long_text(sections),
    }
}

/// The description of a series page.
pub fn parse_manga_description(metas: &Vec<Option<MetaInfo>>, sections: &Vec<Option<String>>) -> (r: Option<String>)
    ensures
        opt_view(r) == page_description(metas@, sections@),
{
    match meta_content(metas) {
        Some(d) => {
            if d.as_str().len() > 30 {
                return Some(d);
            }
        },
        None => {},
    }
    let mut i: usize = 0;
    assert(sections@.skip(0) == sections@);
    while i < sections.len()
        invariant
            i <= sections@.len(),
            page_description(metas@, sections@) == long_text(sections@),
            long_text(sections@.skip(i as int)) == long_text(sections@),
        decreases sections@.len() - i,
    {
        assert(sections@.skip(i as int)[0] == sections@[i as int]);
        assert(sections@.skip(i as int).drop_first() == sections@.skip(i + 1));
        match &sections[i] {
            Some(t) => {
                let n = normalize_text(t.as_str());
                if n.as_str().len() > 30 {
                    return Some(n);
                }
            },
            None => {},
        }
        i += 1;
    }
    None
}

/// The cover of the first image found whose image address is `mc` and whose
/// cover address can be a cover.
pub open spec fn matching_cover(sel: Seq<Option<ImageInfo>>, mc: Seq<char>) -> Option<Seq<char>>
    decreases sel.len(),
{
    if sel.len() == 0 {
        None
    } else {
        match sel[0] {
            Some(img) => if image_link(img) == Some(mc) && (cover_link(img) matches Some(p) && likely_cover(p)) {
                cover_link(img)
            } else {
                matching_cover(sel.drop_first(), mc)
            },
            None => matching_cover(sel.drop_first(), mc),
        }
    }
}

/// The cover address of the first image found whose cover address can be a cover.
pub open spec fn first_found_cover(sel: Seq<Option<ImageInfo>>) -> Option<Seq<char>>
    decreases sel.len(),
{
    if sel.len() == 0 {
        None
    } else {
        match sel[0] {
            Some(img) => if cover_link(img) matches Some(p) && likely_cover(p) {
                cover_link(img)
            } else {
                first_found_cover(sel.drop_first())
            },
            None => first_found_cover(sel.drop_first()),
        }
    }
}

/// The cover address of the first image whose cover address can be a cover.
pub open spec fn first_image_cover(imgs: Seq<ImageInfo>) -> Option<Seq<char>>
    decreases imgs.len(),
{
    if imgs.len() == 0 {
        None
    } else if cover_link(imgs[0]) matches Some(p) && likely_cover(p) {
        cover_link(imgs[0])
    } else {
        first_image_cover(imgs.drop_first())
    }
}

/// The cover of a series page. With cover metadata: the cover of the
/// summary image that shows it, else the metadata's address when it can be
/// a cover. Otherwise (or failing that): the first summary image, then the
/// first image of the page, whose cover can be a cover.
pub open spec fn page_cover(metas: Seq<Option<MetaInfo>>, sel: Seq<Option<ImageInfo>>, all: Seq<ImageInfo>) -> Option<Seq<char>> {
    let from_meta = match first_meta(metas) {
        Some(v) => {
            let mc = absolute(v);
            match matching_cover(sel, mc) {
                Some(p) => Some(p),
                None => if likely_cover(mc) {
                    Some(mc)
                } else {
                    None
                },
            }
        },
        None => None,
    };
    match from_meta {
        Some(p) => Some(p),
        None => match first_found_cover(sel) {
            Some(p) => Some(p),
            None => first_image_cover(all),
        },
    }
}

fn matching_cover_exec(sel: &Vec<Option<ImageInfo>>, mc: &String) -> (r: Option<String>)
    ensures
        opt_view(r) == matching_cover(sel@, mc@),
{
    let mut i: usize = 0;
    assert(sel@.skip(0) == sel@);
    while i < sel.len()
        invariant
            i <= sel@.len(),
            matching_cover(sel@.skip(i as int), mc@) == matching_cover(sel@, mc@),
        decreases sel@.len() - i,
    {
        assert(sel@.skip(i as int)[0] == sel@[i as int]);
        assert(sel@.skip(i as int).drop_first() == sel@.skip(i + 1));
        match &sel[i] {
            Some(img) => {
                match image_url(img) {
                    Some(u) => {
                        if u == *mc {
                            match cover_image_url(img) {
                                Some(p) => {
                                    if is_likely_cover_url(p.as_str()) {
                                        return Some(p);
                                    }
                                },
                                None => {},
                            }
                        }
                    },
                    None => {},
                }
            },
            None => {},
        }
        i += 1;
    }
    None
}

fn first_found_cover_exec(sel: &Vec<Option<ImageInfo>>) -> (r: Option<String>)
    ensures
        opt_view(r) == first_found_cover(sel@),
{
    let mut i: usize = 0;
    assert(sel@.skip(0) == sel@);
    while i < sel.len()
        invariant
            i <= sel@.len(),
            first_found_cover(sel@.skip(i as int)) == first_found_cover(sel@),
        decreases sel@.len() - i,
    {
        assert(sel@.skip(i as int)[0] == sel@[i as int]);
        assert(sel@.skip(i as int).drop_first() == sel@.skip(i + 1));
        match &sel[i] {
            Some(img) => {
                match cover_image_url(img) {
                    Some(p) => {
                        if is_likely_cover_url(p.as_str()) {
                            return Some(p);
                        }
                    },
                    None => {},
                }
            },
            None => {},
        }
        i += 1;
    }
    None
}

fn first_image_cover_exec(all: &Vec<ImageInfo>) -> (r: Option<String>)
    ensures
        opt_view(r) == first_image_cover(all@),
{
    let mut i: usize = 0;
    assert(all@.skip(0) == all@);
    while i < all.len()
        invariant
            i <= all@.len(),
            first_image_cover(all@.skip(i as int)) == first_image_cover(all@),
        decreases all@.len() - i,
    {
        assert(all@.skip(i as int)[0] == all@[i as int]);
        assert(all@.skip(i as int).drop_first() == all@.skip(i + 1));
        match cover_image_url(&all[i]) {
            Some(p) => {
                if is_likely_cover_url(p.as_str()) {
                    return Some(p);
                }
            },
            None => {},
        }
        i += 1;
    }
    None
}

/// The cover of a series page, from its cover metadata, the first image of
/// each summary selector, and all its images.
pub fn parse_manga_cover(metas: &Vec<Option<MetaInfo>>, selector_images: &Vec<Option<ImageInfo>>, all_images: &Vec<ImageInfo>) -> (r: Option<String>)
    ensures
        opt_view(r) == page_cover(metas@, selector_images@, all_images@),
{
    match meta_content(metas) {
        Some(v) => {
            let mc = absolute_url(v.as_str());
            match matching_cover_exec(selector_images, &mc) {
                Some(p) => {
                    return Some(p);
                },
                None => {},
            }
            if is_likely_cover_url(mc.as_str()) {
                return Some(mc);
            }
        },
        None => {},
    }
    match first_found_cover_exec(selector_images) {
        Some(p) => Some(p),
        None => first_image_cover_exec(all_images),
    }
}

/// `out` with each text of `texts`, normalized, appended unless it is blank
/// or already there.
pub open spec fn push_unique_texts(out: Seq<Seq<char>>, texts: Seq<Option<String>>) -> Seq<Seq<char>>
    decreases texts.len(),
{
    if texts.len() == 0 {
        out
    } else {
        let o = push_unique_texts(out, texts.drop_last());
        match texts.last() {
            Some(t) => {
                let v = normalize(t@);
                if v.len() == 0 || o.contains(v) {
                    o
                } else {
                    o.push(v)
                }
            },
            None => o,
        }
    }
}

fn contains_string(v: &Vec<String>, s: &String) -> (b: bool)
    ensures
        b == strings_view(v@).contains(s@),
{
    let mut i: usize = 0;
    while i < v.len()
        invariant
            i <= v@.len(),
            forall|j: int| 0 <= j < i ==> v@[j]@ != s@,
        decreases v@.len() - i,
    {
        if v[i] == *s {
            assert(strings_view(v@)[i as int] == s@);
            return true;
        }
        i += 1;
    }
    assert forall|j: int| 0 <= j < strings_view(v@).len() implies strings_view(v@)[j] != s@ by {
        assert(strings_view(v@)[j] == v@[j]@);
    }
    false
}

/// Appends the texts of the elements found, normalized, skipping blank ones
/// and ones already in `output`.
pub fn push_unique_text_values(texts: &Vec<Option<String>>, output: &mut Vec<String>)
    ensures
        strings_view(final(output)@) == push_unique_texts(strings_view(old(output)@), texts@),
{
    let ghost start = strings_view(output@);
    let mut i: usize = 0;
    assert(texts@.take(0) == Seq::<Option<String>>::empty());
    while i < texts.len()
        invariant
            i <= texts@.len(),
            strings_view(output@) == push_unique_texts(start, texts@.take(i as int)),
        decreases texts@.len() - i,
    {
        assert(texts@.take(i + 1).drop_last() == texts@.take(i as int));
        assert(texts@.take(i + 1).last() == texts@[i as int]);
        match &texts[i] {
            Some(t) => {
                let v = normalize_text(t.as_str());
                if !v.as_str().is_empty() && !contains_string(output, &v) {
                    let ghost before = output@;
                    output.push(v);
                    assert(strings_view(output@) == strings_view(before).push(v@));
                }
            },
            None => {},
        }
        i += 1;
    }
    assert(texts@.take(texts@.len() as int) == texts@);
}

/// The texts of the elements found, normalized, each once, blank ones skipped.
pub fn parse_text_values(texts: &Vec<Option<String>>) -> (r: Vec<String>)
    ensures
        strings_view(r@) == push_unique_texts(Seq::<Seq<char>>::empty(), texts@),
{
    let mut out: Vec<String> = Vec::new();
    assert(strings_view(out@) == Seq::<Seq<char>>::empty());
    push_unique_text_values(texts, &mut out);
    out
}

/// The tags of a series page: the texts of its genre links, each once.
pub fn parse_manga_tags(genre_texts: &Vec<Option<String>>) -> (r: Vec<String>)
    ensures
        strings_view(r@) == push_unique_texts(Seq::<Seq<char>>::empty(), genre_texts@),
{
    parse_text_values(genre_texts)
}

/// The first section text that names a status.
pub open spec fn first_status(texts: Seq<Option<String>>) -> Option<MangaStatus>
    decreases texts.len(),
{
    if texts.len() == 0 {
        None
    } else {
        match texts[0] {
            Some(t) => match status_in_text(t@) {
                Some(s) => Some(s),
                None => first_status(texts.drop_first()),
            },
            None => first_status(texts.drop_first()),
        }
    }
}

/// The status of a series page: named by a status section, else by the
/// page's text, else unknown.
pub open spec fn page_status(sections: Seq<Option<String>>, body: Option<Seq<char>>) -> MangaStatus {
    match first_status(sections) {
        Some(s) => s,
        None => match body {
            Some(b) => match status_in_text(b) {
                Some(s) => s,
                None => MangaStatus::Unknown,
            },
            None => MangaStatus::Unknown,
        },
    }
}

/// The status of a series page.
pub fn parse_manga_status(sections: &Vec<Option<String>>, body_text: Option<&str>) -> (r: MangaStatus)
    ensures
        r == page_status(sections@, match body_text {
            Some(b) => Some(b@),
            None => None,
        }),
{
    let mut i: usize = 0;
    assert(sections@.skip(0) == sections@);
    while i < sections.len()
        invariant
            i <= sections@.len(),
            first_status(sections@.skip(i as int)) == first_status(sections@),
        decreases sections@.len() - i,
    {
        assert(sections@.skip(i as int)[0] == sections@[i as int]);
        assert(sections@.skip(i as int).drop_first() == sections@.skip(i + 1));
        match &sections[i] {
            Some(t) => {
                match status_from_text(t.as_str()) {
                    Some(s) => {
                        return s;
                    },
                    None => {},
                }
            },
            None => {},
        }
        i += 1;
    }
    match body_text {
        Some(b) => match status_from_text(b) {
            Some(s) => s,
            None => MangaStatus::Unknown,
        },
        None => MangaStatus::Unknown,
    }
}

/// The page images of a chapter, from the reader's images in selector order:
/// those whose address is a chapter image, each address once.
pub open spec fn page_urls(imgs: Seq<ImageInfo>) -> Seq<Seq<char>>
    decreases imgs.len(),
{
    if imgs.len() == 0 {
        Seq::<Seq<char>>::empty()
    } else {
        let o = page_urls(imgs.drop_last());
        let img = imgs.last();
        match image_link(img) {
            Some(u) => if chapter_image(opt_view(img.class_name), opt_view(img.parent_class), u) && !o.contains(u) {
                o.push(u)
            } else {
                o
            },
            None => o,
        }
    }
}

/// The page images of a chapter.
pub fn parse_chapter_page_urls(images: &Vec<ImageInfo>) -> (r: Vec<String>)
    ensures
        strings_view(r@) == page_urls(images@),
{
    let mut out: Vec<String> = Vec::new();
    let mut i: usize = 0;
    assert(images@.take(0) == Seq::<ImageInfo>::empty());
    while i < images.len()
        invariant
            i <= images@.len(),
            strings_view(out@) == page_urls(images@.take(i as int)),
        decreases images@.len() - i,
    {
        assert(images@.take(i + 1).drop_last() == images@.take(i as int));
        assert(images@.take(i + 1).last() == images@[i as int]);
        let img = &images[i];
        match image_url(img) {
            Some(u) => {
                let class = match &img.class_name {
                    Some(c) => Some(c.as_str()),
                    None => None,
                };
                let parent = match &img.parent_class {
                    Some(c) => Some(c.as_str()),
                    None => None,
                };
                if is_chapter_image(class, parent, u.as_str()) && !contains_string(&out, &u) {
                    let ghost before = out@;
                    out.push(u);
                    assert(strings_view(out@) == strings_view(before).push(u@));
                }
            },
            None => {},
        }
        i += 1;
    }
    assert(images@.take(images@.len() as int) == images@);
    out
}

/// A link text that names the next page.
pub open spec fn is_next_word(l: Seq<char>) -> bool {
    l == "proximo"@ || l == "próximo"@ || l == "next"@
}

/// Whether a listing has a next page: it has a pagination "next" link, or a
/// link whose text is "próximo" or "next".
pub open spec fn next_page(has_next_link: bool, texts: Seq<Option<String>>) -> bool {
    has_next_link || exists|i: int| 0 <= i < texts.len() && is_next_word(lowercase(norm_of(#[trigger] texts[i])))
}

/// Whether a listing has a next page.
pub fn has_next_page(has_next_link: bool, link_texts: &Vec<Option<String>>) -> (b: bool)
    ensures
        b == next_page(has_next_link, link_texts@),
{
    if has_next_link {
        return true;
    }
    let mut i: usize = 0;
    while i < link_texts.len()
        invariant
            i <= link_texts@.len(),
            forall|j: int| 0 <= j < i ==> !is_next_word(lowercase(norm_of(#[trigger] link_texts@[j]))),
        decreases link_texts@.len() - i,
    {
        let n = match &link_texts[i] {
            Some(t) => normalize_text(t.as_str()),
            None => normalize_text(String::new().as_str()),
        };
        let l = lowercase_chars(chars_of(n.as_str()).as_slice());
        if chars_eq(l.as_slice(), lit("proximo").as_slice()) || chars_eq(l.as_slice(), lit("próximo").as_slice())
            || chars_eq(l.as_slice(), lit("next").as_slice()) {
            return true;
        }
        i += 1;
    }
    false
}

/// The text of the page's JSON chapter data with its HTML escapes of quotes,
/// apostrophes and `&` undone.
pub open spec fn decoded_entities(raw: Seq<char>) -> Seq<char> {
    replace_all(
        replace_all(
            replace_all(replace_all(replace_all(raw, "&quot;"@, "\""@), "&#34;"@, "\""@), "&amp;"@, "&"@),
            "&#039;"@,
            "'"@,
        ),
        "&apos;"@,
        "'"@,
    )
}

/// The text of the page's JSON chapter data with its HTML escapes undone.
pub fn decode_json_entities(raw: &str) -> (r: String)
    ensures
        r@ == decoded_entities(raw@),
{
    proof {
        reveal_strlit("&quot;");
        reveal_strlit("&#34;");
        reveal_strlit("&amp;");
        reveal_strlit("&#039;");
        reveal_strlit("&apos;");
    }
    let q = lit("\"");
    let a = lit("'");
    let s0 = chars_of(raw);
    let s1 = replace_all_exec(s0.as_slice(), lit("&quot;").as_slice(), q.as_slice());
    let s2 = replace_all_exec(s1.as_slice(), lit("&#34;").as_slice(), q.as_slice());
    let s3 = replace_all_exec(s2.as_slice(), lit("&amp;").as_slice(), lit("&").as_slice());
    let s4 = replace_all_exec(s3.as_slice(), lit("&#039;").as_slice(), a.as_slice());
    let s5 = replace_all_exec(s4.as_slice(), lit("&apos;").as_slice(), a.as_slice());
    string_of(s5.as_slice())
}

} // verus!

verus! {

/// The page images of a chapter are distinct, and each is a chapter image.
pub proof fn lemma_page_urls(imgs: Seq<ImageInfo>)
    ensures
        forall|i: int, j: int| 0 <= i < j < page_urls(imgs).len() ==> #[trigger] page_urls(imgs)[i] != #[trigger] page_urls(imgs)[j],
        forall|i: int| 0 <= i < page_urls(imgs).len() ==> exists|k: int|
            0 <= k < imgs.len() && image_link(imgs[k]) == Some(#[trigger] page_urls(imgs)[i]) && chapter_image(
                opt_view(imgs[k].class_name),
                opt_view(imgs[k].parent_class),
                page_urls(imgs)[i],
            ),
    decreases imgs.len(),
{
    if imgs.len() > 0 {
        let rest = imgs.drop_last();
        lemma_page_urls(rest);
        let o = page_urls(rest);
        assert forall|i: int| 0 <= i < o.len() implies exists|k: int|
            0 <= k < imgs.len() && image_link(imgs[k]) == Some(#[trigger] o[i]) && chapter_image(
                opt_view(imgs[k].class_name),
                opt_view(imgs[k].parent_class),
                o[i],
            ) by {
            let k = choose|k: int| 0 <= k < rest.len() && image_link(rest[k]) == Some(o[i]) && chapter_image(
                opt_view(rest[k].class_name),
                opt_view(rest[k].parent_class),
                o[i],
            );
            assert(imgs[k] == rest[k]);
        }
        assert(imgs[imgs.len() - 1] == imgs.last());
    }
}

} // verus!

verus! {

/// A listing has a next page exactly when it has a pagination "next" link or
/// one of its link texts, normalized and in lower case, is `proximo`,
/// `próximo` or `next`.
pub proof fn lemma_next_page_words(has_next_link: bool, texts: Seq<Option<String>>)
    ensures
        next_page(has_next_link, texts) <==> (has_next_link || exists|i: int|
            0 <= i < texts.len() && ({
                let l = #[trigger] lowercase(norm_of(texts[i]));
                l == "proximo"@ || l == "próximo"@ || l == "next"@
            })),
{
}

} // verus!
