//! How requests for tokens and contracts are answered, and how their images are got.
use vstd::prelude::*;
use vstd::string::*;
use vstd::utf8::encode_utf8;
use crate::digits::{digits_of, digits_write_value, parse_of_digits, zero_padded};
use crate::server::images::{
    bytes_action, encodings_of, file_views, is_svg_mime, dir_of, fetch_step, first_image,
    image_encoded, image_extension, image_resized, image_size, is_svg, raster_error, raster_failed,
    raster_files, raster_made, stored_of, tokens_uri, uri_action, uri_for, FetchAction, FetchEvent,
    FetchStage, ImageError, ImageFiles, ImageFieldView, StoredView, UriView, json_field,
};
use crate::server::reply::{bare, etag_of_digest, hex_of};
use crate::server::static_handler::{
    answers, base_image, error_answer, file_asked, image_answer, metadata_answer, names_view,
    outdated, route_of, serve_step, size_asked, size_mark, u32_parsed, ImageQuery, RouteView,
    ServeAction, ServeEvent, ServeStage, StaticRequest, StaticResource,
};
use crate::server::svg::{guessed_mime, base64_text, link_bytes, patched, patched_upto, LinkView};
use crate::text::{
    find_from_first, find_is_first, join, has_prefix, has_substring, split, split_append,
    split_single, trim, views, opt_view,
};
use crate::time::Timestamp;

verus! {

// ---------------------------------------------------------------------------
// Paths and queries
// ---------------------------------------------------------------------------

/// Whether a name is hexadecimal as far as its beginning goes, and one name.
pub open spec fn is_segment(s: Seq<char>) -> bool {
    s.len() >= 2 && s[0] == '0' && s[1] == 'x' && !s.contains('/')
}

/// A name that begins with `0x` has that prefix.
proof fn segments_begin(s: Seq<char>)
    requires
        s.len() >= 2,
    ensures
        has_prefix(s, "0x"@) <==> s[0] == '0' && s[1] == 'x',
{
    reveal_strlit("0x");
    let t = s.take(2);
    if s[0] == '0' && s[1] == 'x' {
        assert(t =~= "0x"@);
    }
    if t == "0x"@ {
        assert(t[0] == "0x"@[0] && t[1] == "0x"@[1]);
    }
}

/// A path of a contract, a token and `image` or `metadata` asks for that of the token, kept under the
/// contract and then the token; one of a contract alone for that of the contract.
pub proof fn paths_name_contract_and_token(contract: Seq<char>, token: Seq<char>)
    requires
        is_segment(contract),
        is_segment(token),
    ensures
        ({
            let of_token = contract + seq!['/'] + token + seq!['/'];
            let of_contract = contract + seq!['/'];
            let id = contract + seq![':'] + token;
            &&& route_of(of_token + "image"@) == Some(
                RouteView { resource: StaticResource::Image, dir: seq![contract, token], token_id: id },
            )
            &&& route_of(of_token + "metadata"@) == Some(
                RouteView {
                    resource: StaticResource::Metadata,
                    dir: seq![contract, token],
                    token_id: id,
                },
            )
            &&& route_of(of_contract + "image"@) == Some(
                RouteView {
                    resource: StaticResource::Image,
                    dir: seq![contract],
                    token_id: contract,
                },
            )
            &&& route_of(of_contract + "metadata"@) == Some(
                RouteView {
                    resource: StaticResource::Metadata,
                    dir: seq![contract],
                    token_id: contract,
                },
            )
        }),
{
    reveal_strlit("image");
    reveal_strlit("metadata");
    reveal_strlit(":");
    assert(":"@ =~= seq![':']);
    segments_begin(contract);
    segments_begin(token);
    let (i, m) = ("image"@, "metadata"@);
    assert(!i.contains('/')) by {
        assert forall|k: int| 0 <= k < i.len() implies i[k] != '/' by {}
    }
    assert(!m.contains('/')) by {
        assert forall|k: int| 0 <= k < m.len() implies m[k] != '/' by {}
    }
    assert(i.len() != m.len());
    split_single(contract, '/');
    split_append(contract, token, '/');
    split_append(contract, i, '/');
    split_append(contract, m, '/');
    split_append(contract + seq!['/'] + token, i, '/');
    split_append(contract + seq!['/'] + token, m, '/');
    let of_token = contract + seq!['/'] + token + seq!['/'];
    assert(split(of_token + i, '/') =~= seq![contract, token, i]);
    assert(split(of_token + m, '/') =~= seq![contract, token, m]);
    assert(split(contract + seq!['/'] + i, '/') =~= seq![contract, i]);
    assert(split(contract + seq!['/'] + m, '/') =~= seq![contract, m]);
}

/// What a path leads to is one of two or three names, the last of which is `image` or `metadata` and
/// the others of which begin with `0x`; every other path leads to nothing.
pub proof fn other_paths_lead_nowhere(path: Seq<char>)
    ensures
        route_of(path) is Some <==> ({
            let p = split(path, '/');
            (p.len() == 2 || p.len() == 3) && (p.last() == "image"@ || p.last() == "metadata"@)
                && forall|i: int| 0 <= i < p.len() - 1 ==> has_prefix(#[trigger] p[i], "0x"@)
        }),
        route_of(path) matches Some(r) ==> r.dir == split(path, '/').drop_last() && (r.resource
            == StaticResource::Image <==> split(path, '/').last() == "image"@),
{
    reveal_strlit("image");
    reveal_strlit("metadata");
    assert("image"@.len() != "metadata"@.len());
    let p = split(path, '/');
    if p.len() == 3 {
        assert(p.drop_last() =~= seq![p[0], p[1]]);
    }
    if p.len() == 2 {
        assert(p.drop_last() =~= seq![p[0]]);
    }
}

/// A pair of a query sets the height under `h` and `height` and the width under `w` and `width`, where
/// its value is a number, and the other side is left; any other pair changes nothing.
pub proof fn pairs_set_their_side(pairs: Seq<Seq<char>>, key: Seq<char>, value: Seq<char>)
    requires
        !key.contains('='),
    ensures
        ({
            let before = size_asked(pairs);
            let after = size_asked(pairs.push(key + seq!['='] + value));
            let n = u32_parsed(value);
            &&& (key == "h"@ || key == "height"@) && n is Some ==> after.height == n && after.width
                == before.width
            &&& (key == "w"@ || key == "width"@) && n is Some ==> after.width == n && after.height
                == before.height
            &&& n is None || (key != "h"@ && key != "height"@ && key != "w"@ && key != "width"@)
                ==> after == before
        }),
{
    reveal_strlit("h");
    reveal_strlit("height");
    reveal_strlit("w");
    reveal_strlit("width");
    assert("h"@[0] == 'h' && "w"@[0] == 'w' && "height"@[0] == 'h' && "width"@[0] == 'w');
    let pair = key + seq!['='] + value;
    let n = key.len() as int;
    assert forall|j: int| 0 <= j < n implies pair[j] != '=' by {
        assert(key[j] == pair[j]);
    }
    assert(pair[n] == '=');
    find_from_first(pair, '=', n);
    assert(pair.take(n) =~= key);
    assert(pair.skip(n + 1) =~= value);
    assert(pairs.push(pair).drop_last() =~= pairs);
}

// ---------------------------------------------------------------------------
// Files
// ---------------------------------------------------------------------------

/// A size of which no side is asked for is that of the image; of the sides asked for, the least
/// decides: up to 100 pixels it is small, up to 250 medium, and above that the image itself.
pub proof fn the_least_side_decides(q: ImageQuery)
    ensures
        ({
            let small = (q.width matches Some(w) && w <= 100) || (q.height matches Some(h) && h <= 100);
            let medium = (q.width matches Some(w) && w <= 250) || (q.height matches Some(h) && h <= 250);
            &&& small ==> size_mark(q) == "@small"@
            &&& !small && medium ==> size_mark(q) == "@medium"@
            &&& !medium ==> size_mark(q) == Seq::<char>::empty()
        }),
{
    reveal_strlit("");
    assert(""@ =~= Seq::<char>::empty());
}

/// The image in its own size is the first file whose name begins with `image` and holds no `@`.
pub proof fn the_image_is_the_first_without_a_mark(names: Seq<Seq<char>>, i: int)
    requires
        0 <= i < names.len(),
        has_prefix(names[i], "image"@),
        !has_substring(names[i], "@"@),
        forall|j: int|
            0 <= j < i ==> !has_prefix(#[trigger] names[j], "image"@) || has_substring(names[j], "@"@),
    ensures
        base_image(names) == Some(names[i]),
    decreases names.len(),
{
    let t = names.drop_last();
    if i < t.len() {
        assert(t[i] == names[i]);
        assert forall|j: int| 0 <= j < i implies !has_prefix(#[trigger] t[j], "image"@)
            || has_substring(t[j], "@"@) by {
            assert(t[j] == names[j]);
        }
        the_image_is_the_first_without_a_mark(t, i);
    } else {
        no_image(t, names);
    }
}

/// Without such a file there is no image.
proof fn no_image(t: Seq<Seq<char>>, names: Seq<Seq<char>>)
    requires
        t.len() <= names.len(),
        forall|j: int| 0 <= j < t.len() ==> #[trigger] t[j] == names[j],
        forall|j: int|
            0 <= j < t.len() ==> !has_prefix(#[trigger] names[j], "image"@) || has_substring(
                names[j],
                "@"@,
            ),
    ensures
        base_image(t) is None,
    decreases t.len(),
{
    if t.len() > 0 {
        let u = t.drop_last();
        assert forall|j: int| 0 <= j < u.len() implies #[trigger] u[j] == names[j] by {
            assert(t[j] == names[j]);
        }
        no_image(u, names);
        assert(t[t.len() - 1] == names[t.len() - 1]);
    }
}

/// The file of a size is named `image`, the mark of the size, and the extension of the image that is
/// there; without an image there is none.
pub proof fn files_are_named_by_size(names: Seq<Seq<char>>, q: ImageQuery, ext: Seq<char>, head: Seq<char>)
    requires
        !ext.contains('.'),
    ensures
        base_image(names) is None ==> file_asked(names, q) is None,
        base_image(names) == Some(head + seq!['.'] + ext) ==> file_asked(names, q) == Some(
            "image"@ + size_mark(q) + seq!['.'] + ext,
        ),
{
    reveal_strlit(".");
    assert("."@ =~= seq!['.']);
    split_append(head, ext, '.');
}

/// An image is current exactly where the directory holds one, the times of the file and of the token
/// are known, and the file is not older than the token.
pub proof fn images_are_current_until_changed(
    names: Option<Seq<Seq<char>>>,
    modified: Option<Timestamp>,
    updated: Option<Timestamp>,
)
    requires
        modified matches Some(t) ==> t.nanos < 1_000_000_000,
        updated matches Some(t) ==> t.nanos < 1_000_000_000,
    ensures
        !outdated(names, modified, updated) <==> (names matches Some(n) && base_image(n) is Some) && (
        modified matches Some(m) && (updated matches Some(u) && (u.secs < m.secs || (u.secs == m.secs
            && u.nanos <= m.nanos)))),
{
}

// ---------------------------------------------------------------------------
// Answers
// ---------------------------------------------------------------------------

/// Metadata that is there, not blank and JSON is answered with itself, tagged; a token that is not
/// there, or has none, is not found; metadata that is not JSON is an error. Nothing is sent where the
/// client has it.
pub proof fn metadata_is_answered_with_itself(
    m: Seq<char>,
    valid: bool,
    etag: Seq<char>,
    client: Option<Seq<char>>,
)
    ensures
        metadata_answer(None, valid, etag, client).status == 404,
        trim(m).len() == 0 ==> metadata_answer(Some(m), valid, etag, client).status == 404,
        trim(m).len() > 0 && !valid ==> metadata_answer(Some(m), valid, etag, client).status == 500,
        trim(m).len() > 0 && valid && client != Some(etag) ==> ({
            let a = metadata_answer(Some(m), valid, etag, client);
            a.status == 200 && a.body == encode_utf8(m) && a.headers.contains(("etag"@, etag))
                && a.headers.contains(("content-type"@, "application/json"@))
        }),
        trim(m).len() > 0 && valid && client == Some(etag) ==> ({
            let a = metadata_answer(Some(m), valid, etag, client);
            a.status == 304 && a.body.len() == 0 && a.headers.contains(("etag"@, etag))
        }),
{
    let a = metadata_answer(Some(m), valid, etag, client);
    if trim(m).len() > 0 && valid {
        if client == Some(etag) {
            assert(a.headers[0] == ("etag"@, etag));
        } else {
            assert(a.headers[0] == ("content-type"@, "application/json"@));
            assert(a.headers[1] == ("etag"@, etag));
        }
    }
}

/// An image is sent, with its media type, tag and time, to a client that neither has its tag nor has
/// had it since its time; to any other nothing is sent.
pub proof fn images_are_sent_once(
    contents: Seq<u8>,
    mime: Seq<char>,
    etag: Seq<char>,
    client_etag: Option<Seq<char>>,
    client_since: Option<u64>,
    modified: Option<(u64, Seq<char>)>,
)
    ensures
        ({
            let a = image_answer(contents, mime, etag, client_etag, client_since, modified);
            let known = client_etag == Some(etag) || (modified matches Some(m) && (
            client_since matches Some(s) && s >= m.0));
            &&& known ==> a.status == 304 && a.body.len() == 0
            &&& !known ==> a.status == 200 && a.body == contents && a.headers.contains(
                ("content-type"@, mime),
            ) && a.headers.contains(("etag"@, etag)) && (modified matches Some(m)
                ==> a.headers.contains(("last-modified"@, m.1)))
            &&& a.headers.contains(
                ("cache-control"@, "public, max-age=3600, stale-while-revalidate=86400"@),
            )
        }),
{
    let a = image_answer(contents, mime, etag, client_etag, client_since, modified);
    if client_etag == Some(etag) {
        assert(a.headers[1].0 == "cache-control"@);
    } else if modified is Some && client_since is Some && (modified->0).0 <= client_since->0 {
        assert(a.headers[2].0 == "cache-control"@);
    } else {
        assert(a.headers[0] == ("content-type"@, mime));
        assert(a.headers[1] == ("etag"@, etag));
        assert(a.headers[2].0 == "cache-control"@);
        if modified is Some {
            assert(a.headers[3] == ("last-modified"@, (modified->0).1));
        }
    }
}

/// A tag is sixteen hexadecimal digits between quotation marks, two for each of the first eight bytes
/// of the digest.
pub proof fn tags_are_of_eight_bytes(digest: Seq<u8>)
    requires
        digest.len() >= 8,
    ensures
        ({
            let t = etag_of_digest(digest);
            t.len() == 18 && t[0] == '"' && t[17] == '"' && forall|i: int|
                0 <= i < 8 ==> (#[trigger] t[1 + 2 * i]) == crate::digits::digit_char(
                    (digest[i] / 16) as nat,
                ) && t[2 + 2 * i] == crate::digits::digit_char((digest[i] % 16) as nat)
        }),
{
    let d = digest.take(8);
    two_digits_each(d);
    let h = hex_of(d);
    assert forall|i: int| 0 <= i < 8 implies (#[trigger] etag_of_digest(digest)[1 + 2 * i])
        == crate::digits::digit_char((digest[i] / 16) as nat) && etag_of_digest(digest)[2 + 2 * i]
        == crate::digits::digit_char((digest[i] % 16) as nat) by {
        assert(d[i] == digest[i]);
        assert(h[2 * i] == crate::digits::digit_char((d[i] / 16) as nat));
    }
}

/// Bytes are written in two digits each.
proof fn two_digits_each(b: Seq<u8>)
    ensures
        hex_of(b).len() == 2 * b.len(),
        forall|i: int|
            0 <= i < b.len() ==> (#[trigger] hex_of(b)[2 * i]) == crate::digits::digit_char(
                (b[i] / 16) as nat,
            ) && hex_of(b)[2 * i + 1] == crate::digits::digit_char((b[i] % 16) as nat),
    decreases b.len(),
{
    if b.len() > 0 {
        let t = b.drop_last();
        two_digits_each(t);
        assert forall|i: int| 0 <= i < b.len() implies (#[trigger] hex_of(b)[2 * i])
            == crate::digits::digit_char((b[i] / 16) as nat) && hex_of(b)[2 * i + 1]
            == crate::digits::digit_char((b[i] % 16) as nat) by {
            if i < t.len() {
                assert(t[i] == b[i]);
                assert(hex_of(t)[2 * i] == hex_of(b)[2 * i]);
            }
        }
    }
}

/// A request for metadata asks the database for the token of its path; a request for an image looks
/// at the directory of its path, gets the image anew exactly where it is outdated, with the time at
/// which the token was changed, and reads the file of the size that is asked for.
pub proof fn requests_lead_to_their_files(
    req: StaticRequest,
    route: RouteView,
    event: ServeEvent,
    to: ServeStage,
    action: ServeAction,
)
    requires
        route_of(req.path@) == Some(route),
    ensures
        serve_step(req, ServeStage::Begin, ServeEvent::Started, to, action) && route.resource
            == StaticResource::Metadata ==> (action matches ServeAction::ReadMetadata { token_id }
            && token_id@ == route.token_id),
        serve_step(req, ServeStage::Begin, ServeEvent::Started, to, action) && route.resource
            == StaticResource::Image ==> (action matches ServeAction::Inspect { token_id, dir }
            && token_id@ == route.token_id && views(dir@) == route.dir),
        serve_step(req, ServeStage::Inspect, event, to, action) ==> (
        event matches ServeEvent::Inspected { names, modified, updated } ==> if outdated(
            names_view(names),
            modified,
            updated,
        ) {
            action matches ServeAction::FetchImage { token_id, time } && token_id@ == route.token_id
                && time == updated
        } else {
            action matches ServeAction::ListDir { dir } && views(dir@) == route.dir
        }),
        serve_step(req, ServeStage::Fetch, ServeEvent::Fetched(true), to, action) ==> (
        action matches ServeAction::ListDir { dir } && views(dir@) == route.dir),
        serve_step(req, ServeStage::Fetch, ServeEvent::Fetched(false), to, action) ==> answers(
            action,
            bare(404),
        ),
        serve_step(req, ServeStage::List, event, to, action) ==> (
        event matches ServeEvent::Listed(names) ==> match file_asked(views(names@), req.query) {
            Some(n) => action matches ServeAction::ReadFile { dir, name } && views(dir@) == route.dir
                && name@ == n,
            None => answers(action, bare(404)),
        }),
{
}

// ---------------------------------------------------------------------------
// Images
// ---------------------------------------------------------------------------

/// The image of a token is where its metadata says, and nowhere else; a contract whose metadata says
/// nothing of an image has that of its tokens.
pub proof fn images_are_where_metadata_says(uri: Seq<char>, stored: StoredView)
    ensures
        uri_for(true, StoredView::Field(ImageFieldView::Text(uri))) == UriView::Uri(uri),
        uri_for(false, StoredView::Field(ImageFieldView::Text(uri))) == UriView::Uri(uri),
        uri_for(true, StoredView::Field(ImageFieldView::NotText)) is Fail,
        !(stored matches StoredView::Field(ImageFieldView::Text(_))) ==> uri_for(false, stored) is Fail,
        !(stored matches StoredView::Field(ImageFieldView::Text(_))) && !(
        stored matches StoredView::Field(ImageFieldView::NotText)) ==> uri_for(true, stored)
            is AskTokens,
        uri_for(false, StoredView::Failed) == UriView::Fail(ImageError::Database),
        uri_for(false, StoredView::Empty) == UriView::Fail(ImageError::EmptyMetadata),
        uri_for(false, StoredView::Field(ImageFieldView::Missing)) == UriView::Fail(
            ImageError::NoImage,
        ),
        uri_for(false, StoredView::Field(ImageFieldView::Invalid)) == UriView::Fail(
            ImageError::InvalidMetadata,
        ),
{
}

/// Metadata is read without the blanks around it, for the field `image`.
pub proof fn metadata_is_read_for_its_image(m: Seq<char>)
    ensures
        stored_of(None) is Failed,
        trim(m).len() == 0 ==> stored_of(Some(m)) is Empty,
        trim(m).len() > 0 ==> stored_of(Some(m)) == StoredView::Field(json_field(trim(m), "image"@)),
{
}

/// The image of a contract by its tokens is that of the first token whose metadata has such a field.
pub proof fn the_first_token_with_an_image_decides(fields: Seq<ImageFieldView>, i: int)
    ensures
        0 <= i < fields.len() && (fields[i] is Text || fields[i] is NotText) && (forall|j: int|
            0 <= j < i ==> !((#[trigger] fields[j]) is Text) && !(fields[j] is NotText))
            ==> tokens_uri(fields) == (match fields[i] {
            ImageFieldView::Text(s) => UriView::Uri(s),
            _ => UriView::Fail(ImageError::NotText),
        }),
        (forall|j: int|
            0 <= j < fields.len() ==> !((#[trigger] fields[j]) is Text) && !(fields[j] is NotText))
            ==> tokens_uri(fields) == UriView::Fail(ImageError::NoToken),
{
    first_is_first(fields);
    match first_image(fields) {
        Some(k) => {
            if 0 <= i < fields.len() && (fields[i] is Text || fields[i] is NotText) && (forall|j: int|
                0 <= j < i ==> !((#[trigger] fields[j]) is Text) && !(fields[j] is NotText)) {
                if k < i {
                    assert(!(fields[k] is Text));
                } else if i < k {
                    assert(!(fields[i] is Text) && !(fields[i] is NotText));
                }
            }
        },
        None => {},
    }
}

/// The first field that is there is the first.
proof fn first_is_first(fields: Seq<ImageFieldView>)
    ensures
        match first_image(fields) {
            Some(k) => 0 <= k < fields.len() && (fields[k] is Text || fields[k] is NotText) && forall|
                j: int,
            |
                0 <= j < k ==> !((#[trigger] fields[j]) is Text) && !(fields[j] is NotText),
            None => forall|j: int|
                0 <= j < fields.len() ==> !((#[trigger] fields[j]) is Text) && !(
                fields[j] is NotText),
        },
    decreases fields.len(),
{
    if fields.len() > 0 {
        let t = fields.drop_last();
        first_is_first(t);
        assert forall|j: int| 0 <= j < t.len() implies #[trigger] fields[j] == t[j] by {}
    }
}

/// Bytes are a drawing exactly where they begin with `<svg` or `<?xml`.
pub proof fn drawings_begin_with_a_tag(b: Seq<u8>)
    ensures
        is_svg(b) <==> (b.len() >= 4 && b[0] == 60 && b[1] == 115 && b[2] == 118 && b[3] == 103) || (
        b.len() >= 5 && b[0] == 60 && b[1] == 63 && b[2] == 120 && b[3] == 109 && b[4] == 108),
{
    let (s, x) = (seq![0x3cu8, 0x73, 0x76, 0x67], seq![0x3cu8, 0x3f, 0x78, 0x6d, 0x6c]);
    if b.len() >= 4 {
        let t = b.take(4);
        if t == s {
            assert(t[0] == s[0] && t[1] == s[1] && t[2] == s[2] && t[3] == s[3]);
        }
        if b[0] == 60 && b[1] == 115 && b[2] == 118 && b[3] == 103 {
            assert(t =~= s);
        }
    }
    if b.len() >= 5 {
        let t = b.take(5);
        if t == x {
            assert(t[0] == x[0] && t[1] == x[1] && t[2] == x[2] && t[3] == x[3] && t[4] == x[4]);
        }
        if b[0] == 60 && b[1] == 63 && b[2] == 120 && b[3] == 109 && b[4] == 108 {
            assert(t =~= x);
        }
    }
}

/// The images of a token are kept under its contract and then the token, those of a contract under
/// the contract; the directory is the one that a path of both leads to.
pub proof fn images_are_kept_where_paths_lead(contract: Seq<char>, token: Seq<char>)
    requires
        is_segment(contract),
        is_segment(token),
        !contract.contains(':'),
        !token.contains(':'),
    ensures
        dir_of(contract + seq![':'] + token) == Some(seq![contract, token]),
        dir_of(contract) == Some(seq![contract]),
        route_of(contract + seq!['/'] + token + seq!['/'] + "image"@) matches Some(r) && dir_of(r.token_id)
            == Some(r.dir),
        route_of(contract + seq!['/'] + "image"@) matches Some(r) && dir_of(r.token_id) == Some(r.dir),
{
    paths_name_contract_and_token(contract, token);
    let id = contract + seq![':'] + token;
    assert(id[contract.len() as int] == ':');
    find_is_first(id, ':');
    find_is_first(contract, ':');
    split_single(contract, ':');
    split_append(contract, token, ':');
    assert(split(id, ':') =~= seq![contract, token]);
}

/// A raster image is kept as it is, filling 250 pixels, and filling 100, in this order, each under the
/// name that a request for its size asks for; the first that cannot be made ends the row.
pub proof fn sizes_are_kept_under_their_names(
    ext: Seq<char>,
    full: Option<Seq<u8>>,
    medium: Option<Seq<u8>>,
    small: Option<Seq<u8>>,
)
    ensures
        ({
            let f = raster_files(ext, full, medium, small);
            let begun = raster_failed(ext, full, medium, small);
            &&& f.len() > 0 <==> full is Some
            &&& f.len() > 1 <==> full is Some && medium is Some
            &&& f.len() > 2 <==> full is Some && medium is Some && small is Some
            &&& f.len() <= 3
            &&& f.len() > 0 ==> f[0] == ("image"@ + seq!['.'] + ext, full->0)
            &&& f.len() > 1 ==> f[1] == ("image"@ + "@medium"@ + seq!['.'] + ext, medium->0)
            &&& f.len() > 2 ==> f[2] == ("image"@ + "@small"@ + seq!['.'] + ext, small->0)
            &&& begun is None <==> f.len() == 3
            &&& f.len() == 0 ==> begun == Some("image"@ + seq!['.'] + ext)
            &&& f.len() == 1 ==> begun == Some("image"@ + "@medium"@ + seq!['.'] + ext)
            &&& f.len() == 2 ==> begun == Some("image"@ + "@small"@ + seq!['.'] + ext)
        }),
{
    reveal_strlit("image");
    reveal_strlit("@medium");
    reveal_strlit("@small");
    reveal_strlit("image.");
    reveal_strlit("image@medium.");
    reveal_strlit("image@small.");
    assert("image."@ =~= "image"@ + seq!['.']);
    assert("image@medium."@ =~= "image"@ + "@medium"@ + seq!['.']);
    assert("image@small."@ =~= "image"@ + "@small"@ + seq!['.']);
    assert("image."@ + ext =~= "image"@ + seq!['.'] + ext);
    assert("image@medium."@ + ext =~= "image"@ + "@medium"@ + seq!['.'] + ext);
    assert("image@small."@ + ext =~= "image"@ + "@small"@ + seq!['.'] + ext);
}

/// A raster image is refused exactly where its format is not known, it cannot be decoded, or it has
/// no pixels.
pub proof fn images_are_refused_for_what_is_wrong(bytes: Seq<u8>)
    ensures
        raster_error(bytes) == Some(ImageError::Format) <==> image_extension(bytes) is None,
        raster_error(bytes) == Some(ImageError::Load) <==> image_extension(bytes) is Some && image_size(
            bytes,
        ) is None,
        raster_error(bytes) is None <==> image_extension(bytes) is Some && (
        image_size(bytes) matches Some((w, h)) && w > 0 && h > 0),
{
}

/// An address of HTTP is fetched as it is, one of IPFS by what stands after `ipfs://`; one of any
/// other scheme but `data` is refused.
pub proof fn addresses_are_fetched_by_scheme(
    token_id: Seq<char>,
    time: Option<Timestamp>,
    uri: Seq<char>,
    cid: Seq<char>,
    stage: FetchStage,
    action: FetchAction,
)
    ensures
        has_prefix(uri, "http"@) && uri_action(token_id, time, UriView::Uri(uri), stage, action) ==> (
        action matches FetchAction::FetchHttp(u) && u@ == uri),
        uri == "ipfs://"@ + cid && uri_action(token_id, time, UriView::Uri(uri), stage, action) ==> (
        action matches FetchAction::FetchIpfs(c) && c@ == cid),
        !has_prefix(uri, "http"@) && !has_prefix(uri, "ipfs"@) && !has_prefix(uri, "data"@)
            && uri_action(token_id, time, UriView::Uri(uri), stage, action) ==> action
            == FetchAction::Fail(ImageError::UnsupportedScheme),
{
    reveal_strlit("http");
    reveal_strlit("ipfs");
    reveal_strlit("ipfs://");
    if uri == "ipfs://"@ + cid {
        assert(uri.take(4) =~= "ipfs"@);
        assert(uri.skip(7) =~= cid);
        assert(uri.take(4)[0] != "http"@[0]);
    }
}

/// A reference in a drawing is fetched exactly where it is one of HTTP or IPFS; the image then takes
/// its place in the attribute, and any other reference stays as it is.
pub proof fn references_give_way_to_images(svg: Seq<u8>, link: LinkView, image: Seq<u8>)
    ensures
        has_prefix(link.href, "data:"@) ==> link_bytes(svg, link, image) == svg.subrange(
            link.start,
            link.end,
        ),
        !has_prefix(link.href, "data:"@) && (has_prefix(link.href, "http://"@) || has_prefix(
            link.href,
            "https://"@,
        ) || has_prefix(link.href, "ipfs://"@)) ==> link_bytes(svg, link, image) == encode_utf8(
            link.attribute + "=\"data:"@ + guessed_mime(link.href) + ";base64,"@ + base64_text(image)
                + "\""@,
        ),
        !has_prefix(link.href, "http://"@) && !has_prefix(link.href, "https://"@) && !has_prefix(
            link.href,
            "ipfs://"@,
        ) ==> link_bytes(svg, link, image) == svg.subrange(link.start, link.end),
{
}

/// A drawing with one reference is what stands before it, what takes its place, and what stands after
/// it.
pub proof fn drawings_keep_what_surrounds_references(svg: Seq<u8>, link: LinkView, image: Seq<u8>)
    requires
        0 <= link.start <= link.end <= svg.len(),
    ensures
        patched(svg, seq![link], seq![image]) == svg.take(link.start) + link_bytes(svg, link, image)
            + svg.skip(link.end),
        patched(svg, Seq::empty(), Seq::empty()) == svg,
{
    let links = seq![link];
    let images = seq![image];
    assert(patched_upto(svg, links, images, 0) =~= Seq::<u8>::empty());
    assert(patched_upto(svg, links, images, 1) =~= svg.take(link.start) + link_bytes(
        svg,
        link,
        image,
    ));
    assert(patched(svg, links, images) =~= svg.take(link.start) + link_bytes(svg, link, image)
        + svg.skip(link.end));
    assert(patched(svg, Seq::empty(), Seq::empty()) =~= svg);
}

// ---------------------------------------------------------------------------
// Steps and files
// ---------------------------------------------------------------------------
/// Each answer ends the request; what is inspected, fetched, listed and read follows in that order.
pub proof fn requests_go_from_step_to_step(
    req: StaticRequest,
    route: RouteView,
    event: ServeEvent,
    to: ServeStage,
    action: ServeAction,
)
    requires
        route_of(req.path@) == Some(route),
    ensures
        serve_step(req, ServeStage::Begin, ServeEvent::Started, to, action) ==> to == (
        if route.resource == StaticResource::Metadata {
            ServeStage::Metadata
        } else {
            ServeStage::Inspect
        }),
        serve_step(req, ServeStage::Inspect, event, to, action) && event is Inspected ==> (action
            is FetchImage && to == ServeStage::Fetch) || (action is ListDir && to
            == ServeStage::List),
        serve_step(req, ServeStage::Fetch, ServeEvent::Fetched(true), to, action) ==> to
            == ServeStage::List,
        serve_step(req, ServeStage::Fetch, ServeEvent::Fetched(false), to, action) ==> to
            == ServeStage::Done,
        serve_step(req, ServeStage::List, event, to, action) && event is Listed ==> (action
            is ReadFile && to == ServeStage::Read) || (action is Answer && to == ServeStage::Done),
        serve_step(req, ServeStage::Read, event, to, action) && event is FileRead ==> to
            == ServeStage::Done && action is Answer,
        serve_step(req, ServeStage::Metadata, ServeEvent::Metadata(None), to, action) ==> to
            == ServeStage::Done && (action matches ServeAction::Answer(r) && r.view()
            == error_answer(404, "Token not found"@)),
        serve_step(req, ServeStage::Metadata, ServeEvent::MetadataFailed, to, action) ==> to
            == ServeStage::Done && (action matches ServeAction::Answer(r) && r.view().status == 404),
        serve_step(req, ServeStage::Metadata, event, to, action) ==> (
        event matches ServeEvent::Metadata(Some(m)) ==> to == ServeStage::Done && (
        action matches ServeAction::Answer(r) && (trim(m@).len() == 0 ==> r.view() == error_answer(
            404,
            "No metadata stored for token"@,
        )))),
        serve_step(req, ServeStage::Read, event, to, action) ==> (
        event matches ServeEvent::FileRead { name, file: None } ==> (
        action matches ServeAction::Answer(r) && r.view().status == 404)),
{
}

/// An error is told in JSON, under its own status and with its own message.
pub proof fn errors_are_told_in_json(status: int, message: Seq<char>, m: Seq<char>, etag: Seq<char>)
    ensures
        error_answer(status, message).status == status,
        error_answer(status, message).headers == seq![("content-type"@, "application/json"@)],
        error_answer(status, message).body == encode_utf8(
            "{\"error\":"@ + (seq!['"'] + message + seq!['"']) + "}"@,
        ),
        metadata_answer(None, true, etag, None) == error_answer(404, "Token not found"@),
        trim(m).len() == 0 ==> metadata_answer(Some(m), true, etag, None) == error_answer(
            404,
            "No metadata stored for token"@,
        ),
        trim(m).len() > 0 ==> metadata_answer(Some(m), false, etag, None) == error_answer(
            500,
            "Stored metadata is not valid JSON"@,
        ),
{
}

/// Metadata may be kept only where it is asked about again, under the headers of its tag.
pub proof fn metadata_is_asked_about_again(m: Seq<char>, etag: Seq<char>, client: Option<Seq<char>>)
    requires
        trim(m).len() > 0,
    ensures
        metadata_answer(Some(m), true, etag, client).headers.contains(
            ("cache-control"@, "public, no-cache"@),
        ),
{
    let h = metadata_answer(Some(m), true, etag, client).headers;
    if client == Some(etag) {
        assert(h[1] == ("cache-control"@, "public, no-cache"@));
    } else {
        assert(h[2] == ("cache-control"@, "public, no-cache"@));
    }
}

/// An image that the client has is answered with its tag, and with the time of its last change
/// where the client knew it by that.
pub proof fn known_images_are_answered_with_their_tag(
    contents: Seq<u8>,
    mime: Seq<char>,
    etag: Seq<char>,
    client_etag: Option<Seq<char>>,
    since: u64,
    changed: u64,
    date: Seq<char>,
)
    requires
        changed <= since,
    ensures
        ({
            let a = image_answer(
                contents,
                mime,
                etag,
                client_etag,
                Some(since),
                Some((changed, date)),
            );
            &&& a.status == 304
            &&& a.headers.contains(("etag"@, etag))
            &&& client_etag != Some(etag) ==> a.headers.contains(("last-modified"@, date))
        }),
{
    let a = image_answer(contents, mime, etag, client_etag, Some(since), Some((changed, date)));
    assert(a.headers[0] == ("etag"@, etag));
    if client_etag != Some(etag) {
        assert(a.headers[1] == ("last-modified"@, date));
    }
}

/// A side is any number of 32 bits in decimal.
pub proof fn sides_are_read_in_decimal(n: nat)
    ensures
        n <= u32::MAX ==> u32_parsed(digits_of(n, 10)) == Some(n as u32),
        n > u32::MAX ==> u32_parsed(digits_of(n, 10)) is None,
{
    digits_write_value(n, 10);
    parse_of_digits(n, 10, 0);
    assert(zero_padded(digits_of(n, 10), 0) =~= digits_of(n, 10));
}

/// A data address holds a drawing where its type is that of drawings, without parameters.
pub proof fn drawings_are_known_by_type(main: Seq<char>, sub: Seq<char>, parameters: nat)
    ensures
        is_svg_mime("image"@, "svg+xml"@, 0),
        main != "image"@ ==> !is_svg_mime(main, sub, parameters),
        sub != "svg+xml"@ ==> !is_svg_mime(main, sub, parameters),
        parameters > 0 ==> !is_svg_mime(main, sub, parameters),
{
}

/// The three files of an image are its own encoding, one within 250 and one within 100 pixels.
pub proof fn images_are_made_in_three_sizes(
    bytes: Seq<u8>,
    full: Option<Seq<u8>>,
    medium: Option<Seq<u8>>,
    small: Option<Seq<u8>>,
)
    requires
        encodings_of(bytes, full, medium, small),
    ensures
        image_encoded(bytes, full),
        image_resized(bytes, 250, 250, medium),
        image_resized(bytes, 100, 100, small),
{
}

/// A drawing that is no text, an image that cannot be read and a token that cannot be named are
/// told as such; the files of an image are written under the directory of its token and the time
/// asked for.
pub proof fn bytes_lead_to_files(
    token_id: Seq<char>,
    time: Option<Timestamp>,
    bytes: Seq<u8>,
    stage: FetchStage,
    action: FetchAction,
)
    ensures
        bytes_action(token_id, time, true, bytes, stage, action) && dir_of(token_id) is None ==> stage
            is Done && action == FetchAction::Fail(ImageError::TokenId),
        bytes_action(token_id, time, true, bytes, stage, action) && dir_of(token_id) is Some
            && vstd::utf8::valid_utf8(bytes) ==> action is FetchLinks && (
        stage matches FetchStage::Links { svg, links } && svg@ == bytes),
        bytes_action(token_id, time, true, bytes, stage, action) && dir_of(token_id) is Some
            && !vstd::utf8::valid_utf8(bytes) ==> stage is Done && action == FetchAction::Fail(
            ImageError::Svg,
        ),
        bytes_action(token_id, time, false, bytes, stage, action) ==> (
        raster_error(bytes) matches Some(e) ==> action == FetchAction::Fail(e)),
        bytes_action(token_id, time, false, bytes, stage, action) && raster_error(bytes) is None
            && dir_of(token_id) is None ==> action == FetchAction::Fail(ImageError::TokenId),
        bytes_action(token_id, time, false, bytes, stage, action) && raster_error(bytes) is None ==> (
        dir_of(token_id) matches Some(path) ==> (action matches FetchAction::Write {
            dir,
            files,
            time: set,
            image,
        } && views(dir@) == path && set == time && image@ == join(path, "/"@) + "/"@ + "image"@)),
        bytes_action(token_id, time, false, bytes, stage, action) ==> stage is Done,
{
}

/// What is told of the image leads on: metadata and tokens to where it is, bytes to its files, and
/// the images of a drawing to the drawing with them in it; what could not be got ends the attempt.
pub proof fn images_are_got_step_by_step(
    token_id: Seq<char>,
    time: Option<Timestamp>,
    stage: FetchStage,
    event: FetchEvent,
    to: FetchStage,
    action: FetchAction,
)
    requires
        fetch_step(token_id, time, stage, event, to, action),
    ensures
        stage is Tokens && event == FetchEvent::Tokens(None) ==> to is Done && action
            == FetchAction::Fail(ImageError::Database),
        stage is Bytes && event == FetchEvent::Bytes(None) ==> to is Done && action
            == FetchAction::Fail(ImageError::Fetch),
        stage is Links && event == FetchEvent::Images(None) ==> to is Done && action
            == FetchAction::Fail(ImageError::Fetch),
        stage is Bytes ==> (event matches FetchEvent::Bytes(Some(b)) ==> bytes_action(
            token_id,
            time,
            is_svg(b@),
            b@,
            to,
            action,
        )),
        stage matches FetchStage::Links { svg, links } ==> (event matches FetchEvent::Images(
            Some(images),
        ) ==> to is Done && match dir_of(token_id) {
            None => action == FetchAction::Fail(ImageError::TokenId),
            Some(path) => action matches FetchAction::Write { dir, files, time: set, image } && views(
                dir@,
            ) == path && set == time && image@ == join(path, "/"@) + "/"@ + "image.svg"@
                && files.failed is None && files.files@.len() == 1 && files.files@[0].name@
                == "image.svg"@,
        }),
        stage is Done ==> to is Done && action is Ignore,
{
    if let FetchStage::Links { svg, links } = stage {
        if let FetchEvent::Images(Some(images)) = event {
            if let FetchAction::Write { files, .. } = action {
                let v = file_views(files.files@);
                if dir_of(token_id) is Some {
                    assert(v.len() == 1);
                    assert(v[0].0 == "image.svg"@);
                    assert(v[0].0 == files.files@[0].name@);
                }
            }
        }
    }
}

/// An image whose three files were made is kept in them, under their names and in that order.
pub proof fn made_images_are_kept_in_three_files(bytes: Seq<u8>, ext: Seq<char>, f: ImageFiles)
    requires
        raster_made(bytes, ext, f),
        f.failed is None,
    ensures
        f.files@.len() == 3,
        f.files@[0].name@ == "image."@ + ext,
        f.files@[1].name@ == "image@medium."@ + ext,
        f.files@[2].name@ == "image@small."@ + ext,
        image_encoded(bytes, Some(f.files@[0].contents@)),
        image_resized(bytes, 250, 250, Some(f.files@[1].contents@)),
        image_resized(bytes, 100, 100, Some(f.files@[2].contents@)),
{
    let (full, medium, small) = choose|full: Option<Seq<u8>>, medium: Option<Seq<u8>>, small: Option<
        Seq<u8>,
    >| #[trigger]
        encodings_of(bytes, full, medium, small) && file_views(f.files@) == raster_files(
            ext,
            full,
            medium,
            small,
        ) && opt_view(f.failed) == raster_failed(ext, full, medium, small);
    let v = file_views(f.files@);
    assert(v.len() == 3);
    assert(v[0] == (f.files@[0].name@, f.files@[0].contents@));
    assert(v[1] == (f.files@[1].name@, f.files@[1].contents@));
    assert(v[2] == (f.files@[2].name@, f.files@[2].contents@));
}

} // verus!
