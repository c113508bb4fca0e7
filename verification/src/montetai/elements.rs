//! Monte Tai Scanlator: what the scraper reads of the page's elements (links
//! and images, as plain values) and the links, titles and covers it takes
//! from them.

use crate::model::opt_view;
use crate::montetai::utils::{
    absolute, absolute_url, is_manga_link, is_manga_url, likely_cover, is_likely_cover_url,
    looks_like_series_title, manga_key_from_url, manga_key_of, normalize_text, or_empty,
    series_title_like,
};
use crate::number::{parse_u32, parse_u32_exec};
use crate::text::{
    chars_of, ends_with, ends_with_exec, lit, normalize, normalize_chars, slice_range, split_on,
    split_on_chars, split_words, starts_with, starts_with_exec, string_of, views, words,
};
use vstd::prelude::*;

verus! {

/// The attributes of an `<img>` element that the scraper reads, with the
/// class of its parent element.
#[derive(Clone, Debug)]
pub struct ImageInfo {
    pub src: Option<String>,
    pub data_src: Option<String>,
    pub data_lazy_src: Option<String>,
    pub data_original: Option<String>,
    pub abs_src: Option<String>,
    pub srcset: Option<String>,
    pub data_srcset: Option<String>,
    pub alt: Option<String>,
    pub class_name: Option<String>,
    pub parent_class: Option<String>,
}

/// The attributes and text of an `<a>` element that the scraper reads, with
/// the `<img>` elements inside it and those inside each of its ancestors,
/// nearest first.
#[derive(Clone, Debug)]
pub struct LinkInfo {
    pub abs_href: Option<String>,
    pub href: Option<String>,
    pub text: Option<String>,
    pub aria_label: Option<String>,
    pub title: Option<String>,
    pub class_name: Option<String>,
    pub images: Vec<ImageInfo>,
    pub ancestor_images: Vec<Vec<ImageInfo>>,
}

/// The first of two optional strings that is present.
pub open spec fn or_else(a: Option<String>, b: Option<String>) -> Option<String> {
    match a {
        Some(x) => Some(x),
        None => b,
    }
}

/// The address of an image: the first of `src`, `data-src`, `data-lazy-src`,
/// `data-original` and the absolute `src` that is present, made absolute.
pub open spec fn image_link(img: ImageInfo) -> Option<Seq<char>> {
    match or_else(
        img.src,
        or_else(img.data_src, or_else(img.data_lazy_src, or_else(img.data_original, img.abs_src))),
    ) {
        Some(v) => Some(absolute(v@)),
        None => None,
    }
}

fn first_present<'a>(a: &'a Option<String>, b: &'a Option<String>) -> (r: &'a Option<String>)
    ensures
        *r == or_else(*a, *b),
{
    match a {
        Some(_) => a,
        None => b,
    }
}

/// The address of an image.
pub fn image_url(img: &ImageInfo) -> (r: Option<String>)
    ensures
        opt_view(r) == image_link(*img),
{
    let v = first_present(
        &img.src,
        first_present(
            &img.data_src,
            first_present(&img.data_lazy_src, first_present(&img.data_original, &img.abs_src)),
        ),
    );
    match v {
        Some(s) => Some(absolute_url(s.as_str())),
        None => None,
    }
}

/// The width of a `srcset` descriptor: the number before a final `w`, else the largest `u32`.
pub open spec fn descriptor_width(d: Seq<char>) -> u32 {
    if ends_with(d, "w"@) {
        match parse_u32(d.drop_last()) {
            Some(w) => w,
            None => u32::MAX,
        }
    } else {
        u32::MAX
    }
}

/// The narrowest candidate of a `srcset` (the first of equally narrow ones):
/// its width and address; blank candidates are skipped.
pub open spec fn srcset_pick(pieces: Seq<Seq<char>>) -> Option<(u32, Seq<char>)>
    decreases pieces.len(),
{
    if pieces.len() == 0 {
        None
    } else {
        let prev = srcset_pick(pieces.drop_last());
        let e = normalize(pieces.last());
        let ws = words(e);
        if e.len() == 0 || ws.len() == 0 {
            prev
        } else {
            let url = ws[0];
            let d = if ws.len() > 1 {
                ws[1]
            } else {
                Seq::<char>::empty()
            };
            let w = descriptor_width(d);
            match prev {
                None => Some((w, url)),
                Some((bw, bu)) => if w < bw {
                    Some((w, url))
                } else {
                    prev
                },
            }
        }
    }
}

/// The address of the narrowest candidate of an image's `srcset` (or `data-srcset`).
pub open spec fn srcset_link(img: ImageInfo) -> Option<Seq<char>> {
    match or_else(img.srcset, img.data_srcset) {
        None => None,
        Some(s) => match srcset_pick(split_on(s@, ',')) {
            Some((_, u)) => Some(absolute(u)),
            None => None,
        },
    }
}

fn descriptor_width_exec(d: &[char]) -> (w: u32)
    ensures
        w == descriptor_width(d@),
{
    if ends_with_exec(d, lit("w").as_slice()) {
        proof {
            reveal_strlit("w");
        }
        let body = slice_range(d, 0, d.len() - 1);
        assert(body@ == d@.drop_last());
        match parse_u32_exec(body.as_slice()) {
            Some(w) => w,
            None => u32::MAX,
        }
    } else {
        u32::MAX
    }
}

/// The address of the narrowest candidate of an image's `srcset`.
pub fn image_srcset_url(img: &ImageInfo) -> (r: Option<String>)
    ensures
        opt_view(r) == srcset_link(*img),
{
    let set = match first_present(&img.srcset, &img.data_srcset) {
        Some(s) => s,
        None => {
            return None;
        },
    };
    let pieces = split_on_chars(chars_of(set.as_str()).as_slice(), ',');
    let ghost ps = views(pieces@);
    let mut best: Option<(u32, Vec<char>)> = None;
    let mut i: usize = 0;
    while i < pieces.len()
        invariant
            i <= pieces@.len(),
            ps == views(pieces@),
            ps.len() == pieces@.len(),
            match best {
                Some((w, u)) => srcset_pick(ps.take(i as int)) == Some((w, u@)),
                None => srcset_pick(ps.take(i as int)) is None,
            },
        decreases pieces@.len() - i,
    {
        assert(ps.take(i + 1).drop_last() == ps.take(i as int));
        assert(ps.take(i + 1).last() == pieces@[i as int]@);
        let e = normalize_chars(pieces[i].as_slice());
        let ws = split_words(e.as_slice());
        if e.len() > 0 && ws.len() > 0 {
            assert(views(ws@)[0] == ws@[0]@);
            let url = ws[0].clone();
            let w = if ws.len() > 1 {
                assert(views(ws@)[1] == ws@[1]@);
                descriptor_width_exec(ws[1].as_slice())
            } else {
                descriptor_width_exec(Vec::<char>::new().as_slice())
            };
            let replace = match &best {
                None => true,
                Some((bw, _)) => w < *bw,
            };
            if replace {
                best = Some((w, url));
            }
        }
        i += 1;
    }
    assert(ps.take(ps.len() as int) == ps);
    match best {
        Some((_, u)) => Some(string_of(crate::montetai::utils::absolute_chars(u.as_slice()).as_slice())),
        None => None,
    }
}

/// The cover address of an image: its narrowest `srcset` candidate, else its address.
pub open spec fn cover_link(img: ImageInfo) -> Option<Seq<char>> {
    match srcset_link(img) {
        Some(u) => Some(u),
        None => image_link(img),
    }
}

/// The cover address of an image.
pub fn cover_image_url(img: &ImageInfo) -> (r: Option<String>)
    ensures
        opt_view(r) == cover_link(*img),
{
    match image_srcset_url(img) {
        Some(u) => Some(u),
        None => image_url(img),
    }
}

/// The address of the first image, among `imgs`, whose address can be a cover.
pub open spec fn first_cover(imgs: Seq<ImageInfo>) -> Option<Seq<char>>
    decreases imgs.len(),
{
    if imgs.len() == 0 {
        None
    } else {
        match image_link(imgs[0]) {
            Some(u) => if likely_cover(u) {
                Some(u)
            } else {
                first_cover(imgs.drop_first())
            },
            None => first_cover(imgs.drop_first()),
        }
    }
}

/// The address of the first image whose address can be a cover.
pub fn extract_cover_from_images(imgs: &Vec<ImageInfo>) -> (r: Option<String>)
    ensures
        opt_view(r) == first_cover(imgs@),
{
    let mut i: usize = 0;
    assert(imgs@.skip(0) == imgs@);
    while i < imgs.len()
        invariant
            i <= imgs@.len(),
            first_cover(imgs@.skip(i as int)) == first_cover(imgs@),
        decreases imgs@.len() - i,
    {
        assert(imgs@.skip(i as int)[0] == imgs@[i as int]);
        assert(imgs@.skip(i as int).drop_first() == imgs@.skip(i + 1));
        match image_url(&imgs[i]) {
            Some(u) => {
                if is_likely_cover_url(u.as_str()) {
                    return Some(u);
                }
            },
            None => {},
        }
        i += 1;
    }
    None
}

/// The address a link points at (its absolute `href`, else its `href`), made absolute.
pub open spec fn link_url(l: LinkInfo) -> Option<Seq<char>> {
    match or_else(l.abs_href, l.href) {
        Some(v) => Some(absolute(v@)),
        None => None,
    }
}

/// The address a link points at.
pub fn attr_url(l: &LinkInfo) -> (r: Option<String>)
    ensures
        opt_view(r) == link_url(*l),
{
    match first_present(&l.abs_href, &l.href) {
        Some(v) => Some(absolute_url(v.as_str())),
        None => None,
    }
}

/// A label without a leading `Abrir ` (the site's "open" prefix).
pub open spec fn without_abrir(c: Seq<char>) -> Seq<char> {
    if starts_with(c, "Abrir "@) {
        c.skip(6)
    } else {
        c
    }
}

fn without_abrir_exec(c: Vec<char>) -> (r: Vec<char>)
    ensures
        r@ == without_abrir(c@),
{
    if starts_with_exec(c.as_slice(), lit("Abrir ").as_slice()) {
        proof {
            reveal_strlit("Abrir ");
        }
        slice_range(c.as_slice(), 6, c.len())
    } else {
        c
    }
}

/// The normalized text of an optional value (empty when missing).
pub open spec fn norm_of(o: Option<String>) -> Seq<char> {
    normalize(or_empty(opt_view(o)))
}

fn norm_exec(o: &Option<String>) -> (r: Vec<char>)
    ensures
        r@ == norm_of(*o),
{
    match o {
        Some(s) => normalize_chars(chars_of(s.as_str()).as_slice()),
        None => {
            let e: Vec<char> = Vec::new();
            assert(e@ == Seq::<char>::empty());
            normalize_chars(e.as_slice())
        },
    }
}

/// The first image of `imgs` whose normalized `alt` text can be a title, as that text.
pub open spec fn alt_title(imgs: Seq<ImageInfo>) -> Option<Seq<char>>
    decreases imgs.len(),
{
    if imgs.len() == 0 {
        None
    } else {
        match imgs[0].alt {
            Some(a) => if series_title_like(normalize(a@)) {
                Some(normalize(a@))
            } else {
                alt_title(imgs.drop_first())
            },
            None => alt_title(imgs.drop_first()),
        }
    }
}

/// The first image whose normalized `alt` text can be a title.
pub fn alt_title_exec(imgs: &Vec<ImageInfo>) -> (r: Option<String>)
    ensures
        opt_view(r) == alt_title(imgs@),
{
    let mut i: usize = 0;
    assert(imgs@.skip(0) == imgs@);
    while i < imgs.len()
        invariant
            i <= imgs@.len(),
            alt_title(imgs@.skip(i as int)) == alt_title(imgs@),
        decreases imgs@.len() - i,
    {
        assert(imgs@.skip(i as int)[0] == imgs@[i as int]);
        assert(imgs@.skip(i as int).drop_first() == imgs@.skip(i + 1));
        match &imgs[i].alt {
            Some(a) => {
                let c = normalize_text(a.as_str());
                if looks_like_series_title(c.as_str()) {
                    return Some(c);
                }
            },
            None => {},
        }
        i += 1;
    }
    None
}

/// The title a link gives a series: its text, else its `aria-label` or
/// `title` (without `Abrir `), else the `alt` of an image inside it, each
/// when it can be a title; else the key of its address.
pub open spec fn title_from_link(l: LinkInfo, url: Seq<char>) -> Option<Seq<char>> {
    let text = norm_of(l.text);
    let aria = without_abrir(norm_of(l.aria_label));
    let title = without_abrir(norm_of(l.title));
    if series_title_like(text) {
        Some(text)
    } else if l.aria_label is Some && series_title_like(aria) {
        Some(aria)
    } else if l.title is Some && series_title_like(title) {
        Some(title)
    } else {
        match alt_title(l.images@) {
            Some(t) => Some(t),
            None => match manga_key_of(url) {
                Some(k) => Some(normalize(k)),
                None => None,
            },
        }
    }
}

/// The title a link gives a series.
pub fn extract_title_from_link(l: &LinkInfo, url: &str) -> (r: Option<String>)
    ensures
        opt_view(r) == title_from_link(*l, url@),
{
    let text = string_of(norm_exec(&l.text).as_slice());
    if looks_like_series_title(text.as_str()) {
        return Some(text);
    }
    if l.aria_label.is_some() {
        let c = string_of(without_abrir_exec(norm_exec(&l.aria_label)).as_slice());
        if looks_like_series_title(c.as_str()) {
            return Some(c);
        }
    }
    if l.title.is_some() {
        let c = string_of(without_abrir_exec(norm_exec(&l.title)).as_slice());
        if looks_like_series_title(c.as_str()) {
            return Some(c);
        }
    }
    match alt_title_exec(&l.images) {
        Some(t) => Some(t),
        None => match manga_key_from_url(url) {
            Some(k) => Some(normalize_text(k.as_str())),
            None => None,
        },
    }
}

} // verus!
