//! Drawings that refer to images: the images are put into the drawing itself.
use vstd::prelude::*;
use vstd::string::*;
use vstd::utf8::{encode_utf8, valid_utf8};
use crate::server::reply::bytes_of;
use crate::text::{chars_of, has_prefix, starts_with, string_of};

verus! {

/// `std::str::from_utf8` takes bytes as text exactly when they are valid UTF-8.
#[verifier::external_body]
fn text_of_bytes(bytes: &Vec<u8>) -> (r: Option<String>)
    ensures
        match r {
            Some(s) => encode_utf8(s@) == bytes@,
            None => !valid_utf8(bytes@),
        },
{
    match std::str::from_utf8(bytes) {
        Ok(s) => Some(s.to_owned()),
        Err(_) => None,
    }
}

/// A reference of a drawing: where it stands, in bytes, the name of the attribute and its value.
#[derive(Debug)]
pub struct Link {
    pub start: usize,
    pub end: usize,
    pub attribute: String,
    pub href: String,
}

/// A reference of a drawing.
pub struct LinkView {
    pub start: int,
    pub end: int,
    pub attribute: Seq<char>,
    pub href: Seq<char>,
}

/// What the references say.
pub open spec fn link_views(links: Seq<Link>) -> Seq<LinkView> {
    links.map_values(
        |l: Link|
            LinkView {
                start: l.start as int,
                end: l.end as int,
                attribute: l.attribute@,
                href: l.href@,
            },
    )
}

/// The matches with two groups that `regex::Regex::captures_iter` finds with a pattern in a text.
pub uninterp spec fn pattern_links(pattern: Seq<char>, text: Seq<char>) -> Seq<LinkView>;

/// Whether the references stand one after the other within so many bytes.
pub open spec fn links_in_order(links: Seq<LinkView>, len: int) -> bool {
    &&& forall|i: int|
        0 <= i < links.len() ==> 0 <= (#[trigger] links[i]).start <= links[i].end <= len
    &&& forall|i: int, j: int|
        0 <= i < j < links.len() ==> (#[trigger] links[i]).end <= (#[trigger] links[j]).start
}

/// `regex::Regex::captures_iter` gives the successive matches of a pattern in a text, which do not
/// overlap; they depend on the pattern and the text alone. A pattern that is no regular expression
/// matches nowhere; a group that took no part in a match is empty.
#[verifier::external_body]
fn find_links(pattern: &str, text: &str) -> (r: Vec<Link>)
    ensures
        link_views(r@) == pattern_links(pattern@, text@),
        links_in_order(link_views(r@), encode_utf8(text@).len() as int),
{
    match regex::Regex::new(pattern) {
        Ok(re) => re.captures_iter(text).map(|c| Link {
            start: c.get(0).map_or(0, |m| m.start()),
            end: c.get(0).map_or(0, |m| m.end()),
            attribute: c.get(1).map_or(String::new(), |m| m.as_str().to_owned()),
            href: c.get(2).map_or(String::new(), |m| m.as_str().to_owned()),
        }).collect(),
        Err(_) => Vec::new(),
    }
}

/// The text of a media type that `mime_guess` guesses from the extension of a path.
pub uninterp spec fn guessed_mime(path: Seq<char>) -> Seq<char>;

/// `mime_guess::from_path` guesses a media type from the extension of a path, with that of plain
/// bytes for want of a guess; it depends on the path alone.
#[verifier::external_body]
pub(crate) fn mime_of_path(path: &str) -> (r: String)
    ensures
        r@ == guessed_mime(path@),
{
    mime_guess::from_path(path).first_or_octet_stream().to_string()
}

/// The text that the standard engine of `base64` makes of bytes.
pub uninterp spec fn base64_text(bytes: Seq<u8>) -> Seq<char>;

/// The standard engine of `base64` encodes bytes as text, which depends on the bytes alone.
#[verifier::external_body]
pub(crate) fn base64_encode(bytes: &Vec<u8>) -> (r: String)
    ensures
        r@ == base64_text(bytes@),
{
    base64::Engine::encode(&base64::engine::general_purpose::STANDARD, bytes)
}

/// Where the image of a reference is found.
#[derive(Debug)]
pub enum LinkSource {
    /// It stays as it is.
    Keep,
    Http,
    Ipfs(String),
}

/// Whether the image of a reference is fetched.
pub open spec fn is_fetched(href: Seq<char>) -> bool {
    !has_prefix(href, "data:"@) && (has_prefix(href, "http://"@) || has_prefix(href, "https://"@)
        || has_prefix(href, "ipfs://"@))
}

/// Where the image of a reference is found: over HTTP, under an identifier of IPFS, or nowhere.
pub fn link_source(href: &str) -> (r: LinkSource)
    ensures
        match r {
            LinkSource::Keep => !is_fetched(href@),
            LinkSource::Http => !has_prefix(href@, "data:"@) && (has_prefix(href@, "http://"@)
                || has_prefix(href@, "https://"@)),
            LinkSource::Ipfs(cid) => is_fetched(href@) && !has_prefix(href@, "http://"@)
                && !has_prefix(href@, "https://"@) && has_prefix(href@, "ipfs://"@) && cid@
                == href@.skip(7),
        },
{
    if starts_with(href, "data:") {
        return LinkSource::Keep;
    }
    if starts_with(href, "http://") || starts_with(href, "https://") {
        return LinkSource::Http;
    }
    if starts_with(href, "ipfs://") {
        let cs = chars_of(href);
        proof {
            reveal_strlit("ipfs://");
        }
        let cid = string_of(&cs, 7, cs.len());
        proof {
            assert(cid@ =~= href@.skip(7));
        }
        return LinkSource::Ipfs(cid);
    }
    LinkSource::Keep
}

/// The attribute that holds the image itself.
pub open spec fn inlined(attribute: Seq<char>, mime: Seq<char>, image: Seq<char>) -> Seq<char> {
    attribute + "=\"data:"@ + mime + ";base64,"@ + image + "\""@
}

/// The bytes that take the place of a reference, given the image where it was fetched.
pub open spec fn link_bytes(svg: Seq<u8>, link: LinkView, image: Seq<u8>) -> Seq<u8> {
    if is_fetched(link.href) {
        encode_utf8(inlined(link.attribute, guessed_mime(link.href), base64_text(image)))
    } else {
        svg.subrange(link.start, link.end)
    }
}

/// The drawing up to the end of its first `n` references, with their images in place.
pub open spec fn patched_upto(
    svg: Seq<u8>,
    links: Seq<LinkView>,
    images: Seq<Seq<u8>>,
    n: nat,
) -> Seq<u8>
    decreases n,
{
    if n == 0 || n > links.len() {
        Seq::empty()
    } else {
        let from = if n == 1 {
            0
        } else {
            links[n - 2].end
        };
        patched_upto(svg, links, images, (n - 1) as nat) + svg.subrange(from, links[n - 1].start)
            + link_bytes(svg, links[n - 1], images[n - 1])
    }
}

/// The end of the last of the first `n` references.
pub open spec fn last_end(links: Seq<LinkView>, n: int) -> int {
    if n <= 0 {
        0
    } else {
        links[n - 1].end
    }
}

/// The drawing with the images of its references in place.
pub open spec fn patched(svg: Seq<u8>, links: Seq<LinkView>, images: Seq<Seq<u8>>) -> Seq<u8> {
    patched_upto(svg, links, images, links.len()) + svg.subrange(
        last_end(links, links.len() as int),
        svg.len() as int,
    )
}

/// The images as sequences of bytes.
pub open spec fn image_views(images: Seq<Vec<u8>>) -> Seq<Seq<u8>> {
    images.map_values(|v: Vec<u8>| v@)
}

/// Appends part of some bytes.
fn push_range(out: &mut Vec<u8>, from: &Vec<u8>, start: usize, end: usize)
    requires
        start <= end <= from@.len(),
    ensures
        final(out)@ == old(out)@ + from@.subrange(start as int, end as int),
{
    let ghost before = out@;
    let mut i: usize = start;
    while i < end
        invariant
            start <= i <= end <= from@.len(),
            out@ =~= before + from@.subrange(start as int, i as int),
        decreases end - i,
    {
        out.push(from[i]);
        i = i + 1;
    }
}

/// The pattern of a reference in a drawing.
pub open spec fn link_pattern() -> Seq<char> {
    "(href|xlink:href)\\s*=\\s*[\"']([^\"']+)[\"']"@
}

/// The references of a drawing; none where it is not text.
pub fn svg_links(svg: &Vec<u8>) -> (r: Option<Vec<Link>>)
    ensures
        match r {
            Some(links) => valid_utf8(svg@) && (exists|text: Seq<char>|
                encode_utf8(text) == svg@ && link_views(links@) == #[trigger] pattern_links(
                    link_pattern(),
                    text,
                )) && links_in_order(link_views(links@), svg@.len() as int),
            None => !valid_utf8(svg@),
        },
{
    match text_of_bytes(svg) {
        Some(text) => {
            proof {
                vstd::utf8::encode_utf8_valid_utf8(text@);
            }
            let links = find_links("(href|xlink:href)\\s*=\\s*[\"']([^\"']+)[\"']", &text);
            proof {
                assert(link_views(links@) == pattern_links(link_pattern(), text@));
            }
            Some(links)
        },
        None => None,
    }
}

/// The drawing with the images of its references in place. `images` holds, for each reference that
/// is fetched, its image.
pub fn patch_svg_images_regex(svg: &Vec<u8>, links: &Vec<Link>, images: &Vec<Vec<u8>>) -> (r: Vec<u8>)
    requires
        links_in_order(link_views(links@), svg@.len() as int),
        images@.len() == links@.len(),
    ensures
        r@ == patched(svg@, link_views(links@), image_views(images@)),
{
    let mut out: Vec<u8> = Vec::new();
    let mut end: usize = 0;
    let mut i: usize = 0;
    let ghost lv = link_views(links@);
    let ghost iv = image_views(images@);
    proof {
        assert(out@ =~= Seq::<u8>::empty());
    }
    while i < links.len()
        invariant
            i <= links@.len(),
            lv == link_views(links@),
            iv == image_views(images@),
            images@.len() == links@.len(),
            links_in_order(lv, svg@.len() as int),
            end == last_end(lv, i as int),
            end <= svg@.len(),
            out@ == patched_upto(svg@, lv, iv, i as nat),
        decreases links@.len() - i,
    {
        let link = &links[i];
        proof {
            assert(lv[i as int].start == link.start);
            if i > 0 {
                assert(lv[i - 1].end <= lv[i as int].start);
            }
        }
        push_range(&mut out, svg, end, link.start);
        let fetched = match link_source(&link.href) {
            LinkSource::Keep => false,
            _ => true,
        };
        if fetched {
            let mime = mime_of_path(&link.href);
            let image = base64_encode(&images[i]);
            let mut text = link.attribute.clone();
            text.append("=\"data:");
            text.append(mime.as_str());
            text.append(";base64,");
            text.append(image.as_str());
            text.append("\"");
            let mut bytes = bytes_of(&text);
            out.append(&mut bytes);
        } else {
            push_range(&mut out, svg, link.start, link.end);
        }
        end = link.end;
        i = i + 1;
        proof {
            assert(out@ =~= patched_upto(svg@, lv, iv, i as nat));
        }
    }
    push_range(&mut out, svg, end, svg.len());
    out
}

/// A drawing without references that are fetched stays as it is.
pub proof fn untouched_without_fetches(svg: Seq<u8>, links: Seq<LinkView>, images: Seq<Seq<u8>>)
    requires
        links_in_order(links, svg.len() as int),
        images.len() == links.len(),
        forall|i: int| 0 <= i < links.len() ==> !is_fetched((#[trigger] links[i]).href),
    ensures
        patched(svg, links, images) == svg,
{
    untouched_upto(svg, links, images, links.len());
    assert(patched(svg, links, images) =~= svg);
}

/// The drawing stays as it is up to the end of its first `n` references.
proof fn untouched_upto(svg: Seq<u8>, links: Seq<LinkView>, images: Seq<Seq<u8>>, n: nat)
    requires
        links_in_order(links, svg.len() as int),
        n <= links.len(),
        forall|i: int| 0 <= i < links.len() ==> !is_fetched((#[trigger] links[i]).href),
    ensures
        patched_upto(svg, links, images, n) == svg.subrange(0, last_end(links, n as int)),
        0 <= last_end(links, n as int) <= svg.len(),
    decreases n,
{
    if n > 0 {
        untouched_upto(svg, links, images, (n - 1) as nat);
        assert(!is_fetched(links[n - 1].href));
        if n > 1 {
            assert(links[n - 2].end <= links[n - 1].start);
        }
        assert(patched_upto(svg, links, images, n) =~= svg.subrange(0, last_end(links, n as int)));
    } else {
        assert(patched_upto(svg, links, images, n) =~= svg.subrange(0, 0));
    }
}

} // verus!
