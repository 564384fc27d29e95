//! Images and metadata of tokens over HTTP.
use vstd::prelude::*;
use vstd::string::*;
use vstd::utf8::encode_utf8;
use crate::digits::{parse_u64, parsed};
use crate::server::images::{field_of_json, json_field, ImageField};
use crate::server::reply::{
    bare, bytes_of, content_etag, etag_of, header_views, json_error_response, not_found,
    plain_in_json, Header, Reply, ReplyView,
};
use crate::server::svg::{guessed_mime, mime_of_path};
use crate::text::{
    concat, contains, has_prefix, has_substring, join, join_with, opt_view, split, split_on, split_once,
    split_once_on, starts_with, str_eq, trim, trimmed, views,
};
use crate::time::Timestamp;

verus! {

// ---------------------------------------------------------------------------
// Requests
// ---------------------------------------------------------------------------

/// The size that a request asks for.
#[derive(Clone, Copy, Debug, PartialEq, Eq, Structural)]
pub struct ImageQuery {
    pub height: Option<u32>,
    pub width: Option<u32>,
}

/// The number of 32 bits that a text writes.
pub open spec fn u32_parsed(s: Seq<char>) -> Option<u32> {
    match parsed(s, 10) {
        Some(n) => if n <= u32::MAX {
            Some(n as u32)
        } else {
            None
        },
        None => None,
    }
}

/// The size that pairs of a query ask for: of each side the last that is a number.
pub open spec fn size_asked(pairs: Seq<Seq<char>>) -> ImageQuery
    decreases pairs.len(),
{
    if pairs.len() == 0 {
        ImageQuery { height: None, width: None }
    } else {
        let before = size_asked(pairs.drop_last());
        match split_once(pairs.last(), '=') {
            Some((key, value)) => if u32_parsed(value) is None {
                before
            } else if key == "h"@ || key == "height"@ {
                ImageQuery { height: u32_parsed(value), ..before }
            } else if key == "w"@ || key == "width"@ {
                ImageQuery { width: u32_parsed(value), ..before }
            } else {
                before
            },
            None => before,
        }
    }
}

/// The size that the query of a request asks for.
pub fn parse_image_query(query: &str) -> (r: ImageQuery)
    ensures
        r == size_asked(split(query@, '&')),
{
    let pairs = split_on(query, '&');
    let mut r = ImageQuery { height: None, width: None };
    let mut i: usize = 0;
    let ghost all = views(pairs@);
    proof {
        assert(all.take(0) =~= Seq::<Seq<char>>::empty());
    }
    while i < pairs.len()
        invariant
            i <= pairs@.len(),
            all == views(pairs@),
            r == size_asked(all.take(i as int)),
        decreases pairs@.len() - i,
    {
        proof {
            assert(all.take(i + 1).drop_last() =~= all.take(i as int));
            assert(all.take(i + 1).last() == pairs@[i as int]@);
        }
        match split_once_on(&pairs[i], '=') {
            Some((key, value)) => {
                match parse_u64(&value, 10) {
                    Some(n) => {
                        if n <= 0xffff_ffff {
                            if str_eq(&key, "h") || str_eq(&key, "height") {
                                r = ImageQuery { height: Some(n as u32), width: r.width };
                            } else if str_eq(&key, "w") || str_eq(&key, "width") {
                                r = ImageQuery { height: r.height, width: Some(n as u32) };
                            }
                        }
                    },
                    None => {},
                }
            },
            None => {},
        }
        i = i + 1;
    }
    proof {
        assert(all.take(i as int) =~= all);
    }
    r
}

/// What is asked of a token or contract.
#[derive(Clone, Copy, Debug, PartialEq, Eq, Structural)]
pub enum StaticResource {
    Image,
    Metadata,
}

/// The resource that a name stands for.
pub open spec fn resource_named(s: Seq<char>) -> Option<StaticResource> {
    if s == "image"@ {
        Some(StaticResource::Image)
    } else if s == "metadata"@ {
        Some(StaticResource::Metadata)
    } else {
        None
    }
}

impl StaticResource {
    /// The resource that a name stands for.
    pub fn parse(segment: &str) -> (r: Option<StaticResource>)
        ensures
            r == resource_named(segment@),
    {
        if str_eq(segment, "image") {
            Some(StaticResource::Image)
        } else if str_eq(segment, "metadata") {
            Some(StaticResource::Metadata)
        } else {
            None
        }
    }
}

/// What a path asks for.
#[derive(Debug)]
pub struct Route {
    pub resource: StaticResource,
    /// The names that lead to the directory of the images.
    pub dir: Vec<String>,
    /// The identifier in the database.
    pub token_id: String,
}

/// What a path asks for.
pub struct RouteView {
    pub resource: StaticResource,
    pub dir: Seq<Seq<char>>,
    pub token_id: Seq<char>,
}

impl Route {
    /// What the path asks for.
    pub open spec fn view(&self) -> RouteView {
        RouteView { resource: self.resource, dir: views(self.dir@), token_id: self.token_id@ }
    }
}

/// What a path asks for: `contract/token/resource` or `contract/resource`, where contract and
/// token are in hexadecimal after `0x`.
pub open spec fn route_of(path: Seq<char>) -> Option<RouteView> {
    let p = split(path, '/');
    if p.len() == 3 && resource_named(p[2]) is Some && has_prefix(p[0], "0x"@) && has_prefix(
        p[1],
        "0x"@,
    ) {
        Some(
            RouteView {
                resource: resource_named(p[2])->0,
                dir: seq![p[0], p[1]],
                token_id: p[0] + ":"@ + p[1],
            },
        )
    } else if p.len() == 2 && resource_named(p[1]) is Some && has_prefix(p[0], "0x"@) {
        Some(
            RouteView { resource: resource_named(p[1])->0, dir: seq![p[0]], token_id: p[0] },
        )
    } else {
        None
    }
}

/// What a path asks for, if it is one.
pub fn parse_route(path: &str) -> (r: Option<Route>)
    ensures
        match r {
            Some(x) => route_of(path@) == Some(x.view()),
            None => route_of(path@) is None,
        },
{
    let p = split_on(path, '/');
    proof {
        assert forall|i: int| 0 <= i < p@.len() implies views(p@)[i] == p@[i]@ by {}
    }
    if p.len() == 3 {
        let resource = match StaticResource::parse(&p[2]) {
            Some(x) => x,
            None => {
                return None;
            },
        };
        if !starts_with(&p[0], "0x") || !starts_with(&p[1], "0x") {
            return None;
        }
        let dir: Vec<String> = vec![p[0].clone(), p[1].clone()];
        proof {
            assert(views(dir@) =~= seq![p@[0]@, p@[1]@]);
        }
        Some(Route { resource, dir, token_id: concat(&concat(&p[0], ":"), &p[1]) })
    } else if p.len() == 2 {
        let resource = match StaticResource::parse(&p[1]) {
            Some(x) => x,
            None => {
                return None;
            },
        };
        if !starts_with(&p[0], "0x") {
            return None;
        }
        let dir: Vec<String> = vec![p[0].clone()];
        proof {
            assert(views(dir@) =~= seq![p@[0]@]);
        }
        Some(Route { resource, dir, token_id: p[0].clone() })
    } else {
        None
    }
}

/// Whether the handler takes requests of the path.
pub fn should_handle(path: &str) -> (r: bool)
    ensures
        r == has_prefix(path@, "/static"@),
{
    starts_with(path, "/static")
}

/// The path below the handler; empty for any other path.
pub fn relative_path(path: &str) -> (r: String)
    ensures
        r@ == (if has_prefix(path@, "/static/"@) {
            path@.skip(8)
        } else {
            Seq::empty()
        }),
{
    if starts_with(path, "/static/") {
        let cs = crate::text::chars_of(path);
        proof {
            reveal_strlit("/static/");
        }
        let r = crate::text::string_of(&cs, 8, cs.len());
        proof {
            assert(r@ =~= path@.skip(8));
        }
        r
    } else {
        let r = String::new();
        proof {
            assert(r@ =~= Seq::<char>::empty());
        }
        r
    }
}

// ---------------------------------------------------------------------------
// Database
// ---------------------------------------------------------------------------

/// The statement for the metadata of a token, which is bound to its placeholder.
pub fn metadata_statement() -> (r: &'static str)
    ensures
        r@ == "SELECT metadata FROM tokens WHERE id = ?"@,
{
    "SELECT metadata FROM tokens WHERE id = ?"
}

/// The statement for the time at which a token was changed.
pub fn updated_at_statement() -> (r: &'static str)
    ensures
        r@ == "SELECT updated_at FROM tokens WHERE id = ?"@,
{
    "SELECT updated_at FROM tokens WHERE id = ?"
}

/// The statement for the metadata of the first tokens of a contract, and the pattern of their
/// identifiers that is bound to it.
pub fn first_tokens_statement(contract_address: &str) -> (r: (&'static str, String))
    ensures
        r.0@
            == "SELECT metadata, id FROM tokens WHERE id LIKE ? AND metadata != '' ORDER BY id LIMIT 100"@,
        r.1@ == contract_address@ + ":%"@,
{
    (
        "SELECT metadata, id FROM tokens WHERE id LIKE ? AND metadata != '' ORDER BY id LIMIT 100",
        concat(contract_address, ":%"),
    )
}

// ---------------------------------------------------------------------------
// Metadata
// ---------------------------------------------------------------------------

/// The answer to a request for metadata, given whether the text is JSON and the tag of its
/// contents: absent, blank and broken metadata are errors, and what the client has already is not
/// sent again.
pub open spec fn metadata_answer(
    row: Option<Seq<char>>,
    valid: bool,
    etag: Seq<char>,
    client_etag: Option<Seq<char>>,
) -> ReplyView {
    match row {
        None => error_answer(404, "Token not found"@),
        Some(m) => if trim(m).len() == 0 {
            error_answer(404, "No metadata stored for token"@)
        } else if !valid {
            error_answer(500, "Stored metadata is not valid JSON"@)
        } else if client_etag == Some(etag) {
            ReplyView {
                status: 304,
                headers: seq![("etag"@, etag), ("cache-control"@, "public, no-cache"@)],
                body: Seq::empty(),
            }
        } else {
            ReplyView {
                status: 200,
                headers: seq![
                    ("content-type"@, "application/json"@),
                    ("etag"@, etag),
                    ("cache-control"@, "public, no-cache"@),
                ],
                body: encode_utf8(m),
            }
        },
    }
}

/// An error in JSON. The messages need no escape.
pub open spec fn error_answer(status: int, message: Seq<char>) -> ReplyView {
    ReplyView {
        status,
        headers: seq![("content-type"@, "application/json"@)],
        body: encode_utf8("{\"error\":"@ + (seq!['"'] + message + seq!['"']) + "}"@),
    }
}

/// An error in JSON.
fn error_reply(status: u16, message: &str) -> (r: Reply)
    requires
        plain_in_json(message@),
    ensures
        r.view() == error_answer(status as int, message@),
{
    json_error_response(status, message)
}

/// The answer to a request for metadata, given whether the text is JSON and the tag of its
/// contents.
pub fn metadata_reply_for(
    row: &Option<String>,
    valid: bool,
    etag: &str,
    client_etag: &Option<String>,
) -> (r: Reply)
    ensures
        r.view() == metadata_answer(opt_view(*row), valid, etag@, opt_view(*client_etag)),
{
    proof {
        reveal_strlit("Token not found");
        reveal_strlit("No metadata stored for token");
        reveal_strlit("Stored metadata is not valid JSON");
    }
    let metadata = match row {
        None => {
            return error_reply(404, "Token not found");
        },
        Some(m) => m,
    };
    if trimmed(metadata).as_str().is_empty() {
        return error_reply(404, "No metadata stored for token");
    }
    if !valid {
        return error_reply(500, "Stored metadata is not valid JSON");
    }
    let known = match client_etag {
        Some(e) => str_eq(e, etag),
        None => false,
    };
    if known {
        let headers: Vec<Header> = vec![
            Header { name: "etag", value: etag.to_owned() },
            Header { name: "cache-control", value: "public, no-cache".to_owned() },
        ];
        proof {
            assert(header_views(headers@) =~= seq![
                ("etag"@, etag@),
                ("cache-control"@, "public, no-cache"@),
            ]);
        }
        let body: Vec<u8> = Vec::new();
        proof {
            assert(body@ =~= Seq::<u8>::empty());
        }
        return Reply { status: 304, headers, body };
    }
    let headers: Vec<Header> = vec![
        Header { name: "content-type", value: "application/json".to_owned() },
        Header { name: "etag", value: etag.to_owned() },
        Header { name: "cache-control", value: "public, no-cache".to_owned() },
    ];
    proof {
        assert(header_views(headers@) =~= seq![
            ("content-type"@, "application/json"@),
            ("etag"@, etag@),
            ("cache-control"@, "public, no-cache"@),
        ]);
    }
    Reply { status: 200, headers, body: bytes_of(metadata) }
}

/// Whether a text is JSON.
pub open spec fn is_json(s: Seq<char>) -> bool {
    !(json_field(s, "image"@) is Invalid)
}

/// The answer to a request for metadata: `row` is what the database holds, and `client_etag` the
/// tag of what the client has already.
pub fn serve_metadata(row: &Option<String>, client_etag: &Option<String>) -> (r: Reply)
    ensures
        r.view() == (match opt_view(*row) {
            Some(m) => metadata_answer(
                Some(m),
                is_json(m),
                etag_of(encode_utf8(m)),
                opt_view(*client_etag),
            ),
            None => error_answer(404, "Token not found"@),
        }),
{
    match row {
        Some(m) => {
            let valid = match field_of_json(m, "image") {
                ImageField::Invalid => false,
                _ => true,
            };
            let etag = content_etag(m.as_str().as_bytes());
            metadata_reply_for(row, valid, &etag, client_etag)
        },
        None => metadata_reply_for(row, false, "", client_etag),
    }
}

/// A client that sends back the tag it was given gets no body, and the same tag again.
pub proof fn known_tag_is_not_modified(m: Seq<char>, etag: Seq<char>)
    requires
        trim(m).len() > 0,
    ensures
        metadata_answer(Some(m), true, etag, None).headers.contains(("etag"@, etag)),
        metadata_answer(Some(m), true, etag, Some(etag)).status == 304,
        metadata_answer(Some(m), true, etag, Some(etag)).body.len() == 0,
        metadata_answer(Some(m), true, etag, Some(etag)).headers.contains(("etag"@, etag)),
{
    let a = metadata_answer(Some(m), true, etag, None);
    let b = metadata_answer(Some(m), true, etag, Some(etag));
    assert(a.headers[1] == ("etag"@, etag));
    assert(b.headers[0] == ("etag"@, etag));
}

// ---------------------------------------------------------------------------
// Images
// ---------------------------------------------------------------------------

/// Whether a name is that of the image in its own size.
pub open spec fn is_base_image(name: Seq<char>) -> bool {
    has_prefix(name, "image"@) && !has_substring(name, "@"@)
}

/// The first name that is that of the image in its own size.
pub open spec fn base_image(names: Seq<Seq<char>>) -> Option<Seq<char>>
    decreases names.len(),
{
    if names.len() == 0 {
        None
    } else {
        match base_image(names.drop_last()) {
            Some(n) => Some(n),
            None => if is_base_image(names.last()) {
                Some(names.last())
            } else {
                None
            },
        }
    }
}

/// The mark in the name of the file of a size.
pub open spec fn size_mark(q: ImageQuery) -> Seq<char> {
    if (q.width is Some && q.width->0 <= 100) || (q.height is Some && q.height->0 <= 100) {
        "@small"@
    } else if (q.width is Some && q.width->0 <= 250) || (q.height is Some && q.height->0 <= 250) {
        "@medium"@
    } else {
        ""@
    }
}

/// The file of the size that is asked for: small up to 100 pixels, medium up to 250, else the
/// image in its own size, all with the extension of the image that is there.
pub open spec fn file_asked(names: Seq<Seq<char>>, q: ImageQuery) -> Option<Seq<char>> {
    match base_image(names) {
        Some(n) => Some("image"@ + size_mark(q) + "."@ + split(n, '.').last()),
        None => None,
    }
}

/// The place of the first name that is that of the image in its own size.
pub fn find_base_image(names: &Vec<String>) -> (r: Option<usize>)
    ensures
        match r {
            Some(i) => i < names@.len() && base_image(views(names@)) == Some(names@[i as int]@),
            None => base_image(views(names@)) is None,
        },
{
    let mut i: usize = 0;
    let mut found: Option<usize> = None;
    let ghost all = views(names@);
    proof {
        assert(all.take(0) =~= Seq::<Seq<char>>::empty());
    }
    while i < names.len()
        invariant
            i <= names@.len(),
            all == views(names@),
            match found {
                Some(k) => k < i && base_image(all.take(i as int)) == Some(names@[k as int]@),
                None => base_image(all.take(i as int)) is None,
            },
        decreases names@.len() - i,
    {
        proof {
            assert(all.take(i + 1).drop_last() =~= all.take(i as int));
            assert(all.take(i + 1).last() == names@[i as int]@);
        }
        if found.is_none() && starts_with(&names[i], "image") && !contains(&names[i], "@") {
            found = Some(i);
        }
        i = i + 1;
    }
    proof {
        assert(all.take(i as int) =~= all);
    }
    found
}

/// The file of the size that is asked for, among the names in the directory.
pub fn file_name_from_dir_and_query(names: &Vec<String>, q: &ImageQuery) -> (r: Option<String>)
    ensures
        match r {
            Some(n) => file_asked(views(names@), *q) == Some(n@),
            None => file_asked(views(names@), *q) is None,
        },
{
    match find_base_image(names) {
        None => None,
        Some(i) => {
            let parts = split_on(&names[i], '.');
            let last: usize = parts.len() - 1;
            proof {
                assert(views(parts@)[last as int] == parts@[last as int]@);
            }
            let small = match (q.width, q.height) {
                (Some(w), Some(h)) => w <= 100 || h <= 100,
                (Some(w), None) => w <= 100,
                (None, Some(h)) => h <= 100,
                (None, None) => false,
            };
            let medium = match (q.width, q.height) {
                (Some(w), Some(h)) => w <= 250 || h <= 250,
                (Some(w), None) => w <= 250,
                (None, Some(h)) => h <= 250,
                (None, None) => false,
            };
            let mark = if small {
                "@small"
            } else if medium {
                "@medium"
            } else {
                ""
            };
            let mut out = "image".to_owned();
            out.append(mark);
            out.append(".");
            out.append(parts[last].as_str());
            Some(out)
        },
    }
}

/// The point in time that `chrono::NaiveDateTime::parse_from_str` reads out of a text of a format,
/// taken as universal time.
pub uninterp spec fn naive_time(s: Seq<char>, format: Seq<char>) -> Option<Timestamp>;

/// `chrono::NaiveDateTime::parse_from_str` reads a date and time of a format out of a text, or
/// refuses it; which of both depends on the two texts alone.
#[verifier::external_body]
fn parse_naive_time(s: &str, format: &str) -> (r: Option<Timestamp>)
    ensures
        r == naive_time(s@, format@),
{
    match chrono::NaiveDateTime::parse_from_str(s, format) {
        Ok(t) => Some(Timestamp {
            secs: t.and_utc().timestamp(),
            nanos: t.and_utc().timestamp_subsec_nanos(),
        }),
        Err(_) => None,
    }
}

/// The time that the database gives, in its format.
pub fn database_time(s: &str) -> (r: Option<Timestamp>)
    ensures
        r == naive_time(s@, "%Y-%m-%d %H:%M:%S"@),
{
    parse_naive_time(s, "%Y-%m-%d %H:%M:%S")
}

/// Nanoseconds since the epoch.
pub open spec fn instant(t: Timestamp) -> int {
    t.secs * 1_000_000_000 + t.nanos
}

/// Whether the image is to be got anew: there is none, the times are not known, or the token was
/// changed after the file. `names` are those in the directory, `modified` the time of the file and
/// `updated` that of the token.
pub open spec fn outdated(
    names: Option<Seq<Seq<char>>>,
    modified: Option<Timestamp>,
    updated: Option<Timestamp>,
) -> bool {
    match (names, modified, updated) {
        (Some(n), Some(m), Some(u)) => base_image(n) is None || instant(u) > instant(m),
        _ => true,
    }
}

/// The names of a directory, if it could be read.
pub open spec fn names_view(names: Option<Vec<String>>) -> Option<Seq<Seq<char>>> {
    match names {
        Some(n) => Some(views(n@)),
        None => None,
    }
}

/// Whether the image is to be got anew.
pub fn check_if_image_outdated(
    names: &Option<Vec<String>>,
    modified: Option<Timestamp>,
    updated: Option<Timestamp>,
) -> (r: bool)
    ensures
        r == outdated(names_view(*names), modified, updated),
{
    match (names, modified, updated) {
        (Some(n), Some(m), Some(u)) => {
            if find_base_image(n).is_none() {
                return true;
            }
            let a: i128 = u.secs as i128 * 1_000_000_000 + u.nanos as i128;
            let b: i128 = m.secs as i128 * 1_000_000_000 + m.nanos as i128;
            a > b
        },
        _ => true,
    }
}

/// An image whose file was given the time of its token is not got anew before the token is changed
/// again.
pub proof fn fresh_images_are_current(
    names: Seq<Seq<char>>,
    name: Seq<char>,
    written: Timestamp,
    updated: Timestamp,
)
    requires
        names.contains(name),
        is_base_image(name),
        instant(updated) <= instant(written),
    ensures
        !outdated(Some(names), Some(written), Some(updated)),
{
    base_image_found(names, name);
}

/// Among names with that of an image in its own size there is a first such name.
proof fn base_image_found(names: Seq<Seq<char>>, name: Seq<char>)
    requires
        names.contains(name),
        is_base_image(name),
    ensures
        base_image(names) is Some,
    decreases names.len(),
{
    let i = choose|i: int| 0 <= i < names.len() && names[i] == name;
    if i < names.len() - 1 {
        assert(names.drop_last()[i] == name);
        base_image_found(names.drop_last(), name);
    }
}

/// The text that `httpdate::fmt_http_date` makes of seconds since the epoch.
pub uninterp spec fn http_date(secs: nat) -> Seq<char>;

/// The seconds since the epoch that `httpdate::parse_http_date` reads out of a text.
pub uninterp spec fn http_date_parsed(s: Seq<char>) -> Option<nat>;

/// `httpdate::fmt_http_date` writes a time, whole seconds after the epoch and before the year
/// 10000, as a date of HTTP, which depends on the time alone.
#[verifier::external_body]
fn fmt_http_date(secs: u64) -> (r: String)
    requires
        secs < 253402300800,
    ensures
        r@ == http_date(secs as nat),
{
    httpdate::fmt_http_date(std::time::UNIX_EPOCH + std::time::Duration::from_secs(secs))
}

/// `httpdate::parse_http_date` reads a date of HTTP, not before the epoch, out of a text, or
/// refuses it; which of both depends on the text alone.
#[verifier::external_body]
fn parse_http_date(s: &str) -> (r: Option<u64>)
    ensures
        match r {
            Some(v) => http_date_parsed(s@) == Some(v as nat),
            None => http_date_parsed(s@) is None,
        },
{
    let time = httpdate::parse_http_date(s).ok()?;
    Some(time.duration_since(std::time::UNIX_EPOCH).unwrap_or_default().as_secs())
}

/// The seconds that a header `if-modified-since` gives, if it does.
pub fn modified_since(header: &Option<String>) -> (r: Option<u64>)
    ensures
        match header {
            Some(h) => match r {
                Some(v) => http_date_parsed(h@) == Some(v as nat),
                None => http_date_parsed(h@) is None,
            },
            None => r is None,
        },
{
    match header {
        Some(h) => parse_http_date(h),
        None => None,
    }
}

/// The rule for caches of images.
pub open spec fn image_cache() -> Seq<char> {
    "public, max-age=3600, stale-while-revalidate=86400"@
}

/// The answer with an image, given its media type, its tag, and its time as a number and as text:
/// nothing new for a client that has the tag, or has it since that time.
pub open spec fn image_answer(
    contents: Seq<u8>,
    mime: Seq<char>,
    etag: Seq<char>,
    client_etag: Option<Seq<char>>,
    client_since: Option<u64>,
    modified: Option<(u64, Seq<char>)>,
) -> ReplyView {
    if client_etag == Some(etag) {
        ReplyView {
            status: 304,
            headers: seq![("etag"@, etag), ("cache-control"@, image_cache())],
            body: Seq::empty(),
        }
    } else if modified is Some && client_since is Some && (modified->0).0 <= client_since->0 {
        ReplyView {
            status: 304,
            headers: seq![
                ("etag"@, etag),
                ("last-modified"@, (modified->0).1),
                ("cache-control"@, image_cache()),
            ],
            body: Seq::empty(),
        }
    } else {
        let base = seq![
            ("content-type"@, mime),
            ("etag"@, etag),
            ("cache-control"@, image_cache()),
        ];
        ReplyView {
            status: 200,
            headers: match modified {
                Some(m) => base.push(("last-modified"@, m.1)),
                None => base,
            },
            body: contents,
        }
    }
}

/// The time as a number and as text.
pub open spec fn modified_view(m: Option<(u64, String)>) -> Option<(u64, Seq<char>)> {
    match m {
        Some(p) => Some((p.0, p.1@)),
        None => None,
    }
}

/// The answer with an image, given its media type, its tag, and its time as a number and as text.
pub fn image_reply_for(
    contents: Vec<u8>,
    mime: String,
    etag: String,
    client_etag: &Option<String>,
    client_since: Option<u64>,
    modified: Option<(u64, String)>,
) -> (r: Reply)
    ensures
        r.view() == image_answer(
            contents@,
            mime@,
            etag@,
            opt_view(*client_etag),
            client_since,
            modified_view(modified),
        ),
{
    let cache = Header {
        name: "cache-control",
        value: "public, max-age=3600, stale-while-revalidate=86400".to_owned(),
    };
    let none: Vec<u8> = Vec::new();
    proof {
        assert(none@ =~= Seq::<u8>::empty());
    }
    let known = match client_etag {
        Some(e) => str_eq(e, &etag),
        None => false,
    };
    if known {
        let headers: Vec<Header> = vec![Header { name: "etag", value: etag }, cache];
        proof {
            assert(header_views(headers@) =~= seq![
                ("etag"@, etag@),
                ("cache-control"@, image_cache()),
            ]);
        }
        return Reply { status: 304, headers, body: none };
    }
    match modified {
        Some((time, text)) => {
            let current = match client_since {
                Some(c) => time <= c,
                None => false,
            };
            if current {
                let headers: Vec<Header> = vec![
                    Header { name: "etag", value: etag },
                    Header { name: "last-modified", value: text },
                    cache,
                ];
                proof {
                    assert(header_views(headers@) =~= seq![
                        ("etag"@, etag@),
                        ("last-modified"@, text@),
                        ("cache-control"@, image_cache()),
                    ]);
                }
                Reply { status: 304, headers, body: none }
            } else {
                let headers: Vec<Header> = vec![
                    Header { name: "content-type", value: mime },
                    Header { name: "etag", value: etag },
                    cache,
                    Header { name: "last-modified", value: text },
                ];
                proof {
                    assert(header_views(headers@) =~= seq![
                        ("content-type"@, mime@),
                        ("etag"@, etag@),
                        ("cache-control"@, image_cache()),
                    ].push(("last-modified"@, text@)));
                }
                Reply { status: 200, headers, body: contents }
            }
        },
        None => {
            let headers: Vec<Header> = vec![
                Header { name: "content-type", value: mime },
                Header { name: "etag", value: etag },
                cache,
            ];
            proof {
                assert(header_views(headers@) =~= seq![
                    ("content-type"@, mime@),
                    ("etag"@, etag@),
                    ("cache-control"@, image_cache()),
                ]);
            }
            Reply { status: 200, headers, body: contents }
        },
    }
}

/// A client that sends back the tag of an image, or a time not before that of the image, gets no
/// body.
pub proof fn known_image_is_not_sent_again(
    contents: Seq<u8>,
    mime: Seq<char>,
    etag: Seq<char>,
    client_etag: Option<Seq<char>>,
    client_since: Option<u64>,
    modified: Option<(u64, Seq<char>)>,
)
    requires
        client_etag == Some(etag) || (modified is Some && client_since is Some && (modified->0).0
            <= client_since->0),
    ensures
        ({
            let a = image_answer(contents, mime, etag, client_etag, client_since, modified);
            a.status == 304 && a.body.len() == 0 && a.headers.contains(("etag"@, etag))
        }),
{
    let a = image_answer(contents, mime, etag, client_etag, client_since, modified);
    assert(a.headers[0] == ("etag"@, etag));
}

/// A file that was read.
#[derive(Debug)]
pub struct FileContents {
    pub contents: Vec<u8>,
    /// Seconds since the epoch at which the file was changed, if known.
    pub modified: Option<u64>,
}

/// The answer with the image of a file.
pub open spec fn file_answer(
    name: Seq<char>,
    f: FileContents,
    client_etag: Option<Seq<char>>,
    client_since: Option<u64>,
) -> ReplyView {
    image_answer(
        f.contents@,
        guessed_mime(name),
        etag_of(f.contents@),
        client_etag,
        client_since,
        match f.modified {
            Some(t) => Some((t, http_date(t as nat))),
            None => None,
        },
    )
}

/// The answer with the image of a file.
pub fn image_reply(
    name: &str,
    f: FileContents,
    client_etag: &Option<String>,
    client_since: Option<u64>,
) -> (r: Reply)
    requires
        f.modified matches Some(t) ==> t < 253402300800,
    ensures
        r.view() == file_answer(name@, f, opt_view(*client_etag), client_since),
{
    let modified = match f.modified {
        Some(t) => Some((t, fmt_http_date(t))),
        None => None,
    };
    let etag = content_etag(f.contents.as_slice());
    image_reply_for(f.contents, mime_of_path(name), etag, client_etag, client_since, modified)
}

// ---------------------------------------------------------------------------
// Serving
// ---------------------------------------------------------------------------

/// A request for a token or contract.
#[derive(Debug)]
pub struct StaticRequest {
    /// The path below the handler.
    pub path: String,
    pub query: ImageQuery,
    pub if_none_match: Option<String>,
    /// Seconds since the epoch.
    pub if_modified_since: Option<u64>,
}

/// The handler of requests for tokens and contracts: where the images are kept.
#[derive(Debug)]
pub struct StaticHandler {
    pub artifacts_dir: String,
}

/// A path below a directory.
pub open spec fn path_below(dir: Seq<char>, names: Seq<Seq<char>>) -> Seq<char> {
    dir + "/"@ + join(names, "/"@)
}

impl StaticHandler {
    /// The handler for the images of a directory.
    pub fn new(artifacts_dir: String) -> (r: StaticHandler)
        ensures
            r.artifacts_dir == artifacts_dir,
    {
        StaticHandler { artifacts_dir }
    }

    /// The path of names below the directory of the images.
    pub fn path_of(&self, names: &Vec<String>) -> (r: String)
        ensures
            r@ == path_below(self.artifacts_dir@, views(names@)),
    {
        concat(&concat(&self.artifacts_dir, "/"), &join_with(names, "/"))
    }
}

/// How far the answer has come.
#[derive(Clone, Copy, Debug, PartialEq, Eq, Structural)]
pub enum ServeStage {
    Begin,
    Metadata,
    Inspect,
    Fetch,
    List,
    Read,
    Done,
}

/// What the surroundings report.
#[derive(Debug)]
pub enum ServeEvent {
    Started,
    /// The metadata in the database, if there is any.
    Metadata(Option<String>),
    /// The database could not be asked.
    MetadataFailed,
    /// The names in the directory, if it could be read, and the times of image and token.
    Inspected {
        names: Option<Vec<String>>,
        modified: Option<Timestamp>,
        updated: Option<Timestamp>,
    },
    /// Whether the image was got.
    Fetched(bool),
    /// The names in the directory.
    Listed(Vec<String>),
    /// The file, by its path, if it could be read.
    FileRead { name: String, file: Option<FileContents> },
}

/// What the surroundings are to do.
#[derive(Debug)]
pub enum ServeAction {
    /// The event does not belong to the stage.
    Ignore,
    ReadMetadata { token_id: String },
    Inspect { token_id: String, dir: Vec<String> },
    /// The image is to be got, and its files are to have the time at which the token was changed,
    /// where that is known.
    FetchImage { token_id: String, time: Option<Timestamp> },
    ListDir { dir: Vec<String> },
    ReadFile { dir: Vec<String>, name: String },
    Answer(Reply),
}

/// Whether the action gives that answer.
pub open spec fn answers(action: ServeAction, reply: ReplyView) -> bool {
    action matches ServeAction::Answer(r) && r.view() == reply
}

/// Whether going from `stage` on `event` to `to`, doing `action`, is the next step to the answer.
pub open spec fn serve_step(
    req: StaticRequest,
    stage: ServeStage,
    event: ServeEvent,
    to: ServeStage,
    action: ServeAction,
) -> bool {
    match route_of(req.path@) {
        None => to == ServeStage::Done && answers(action, bare(404)),
        Some(route) => match (stage, event) {
            (ServeStage::Begin, ServeEvent::Started) => if route.resource
                == StaticResource::Metadata {
                to == ServeStage::Metadata && (action matches ServeAction::ReadMetadata { token_id }
                    && token_id@ == route.token_id)
            } else {
                to == ServeStage::Inspect && (action matches ServeAction::Inspect { token_id, dir }
                    && token_id@ == route.token_id && views(dir@) == route.dir)
            },
            (ServeStage::Metadata, ServeEvent::Metadata(m)) => to == ServeStage::Done && answers(
                action,
                match opt_view(m) {
                    Some(t) => metadata_answer(
                        Some(t),
                        is_json(t),
                        etag_of(encode_utf8(t)),
                        opt_view(req.if_none_match),
                    ),
                    None => error_answer(404, "Token not found"@),
                },
            ),
            (ServeStage::Metadata, ServeEvent::MetadataFailed) => to == ServeStage::Done && answers(
                action,
                bare(404),
            ),
            (ServeStage::Inspect, ServeEvent::Inspected { names, modified, updated }) =>
                if outdated(names_view(names), modified, updated) {
                    to == ServeStage::Fetch && (action matches ServeAction::FetchImage {
                        token_id,
                        time,
                    } && token_id@ == route.token_id && time == updated)
                } else {
                    to == ServeStage::List && (action matches ServeAction::ListDir { dir } && views(
                        dir@,
                    ) == route.dir)
                },
            (ServeStage::Fetch, ServeEvent::Fetched(ok)) => if ok {
                to == ServeStage::List && (action matches ServeAction::ListDir { dir } && views(dir@)
                    == route.dir)
            } else {
                to == ServeStage::Done && answers(action, bare(404))
            },
            (ServeStage::List, ServeEvent::Listed(names)) => match file_asked(
                views(names@),
                req.query,
            ) {
                Some(n) => to == ServeStage::Read && (action matches ServeAction::ReadFile {
                    dir,
                    name,
                } && views(dir@) == route.dir && name@ == n),
                None => to == ServeStage::Done && answers(action, bare(404)),
            },
            (ServeStage::Read, ServeEvent::FileRead { name, file }) => to == ServeStage::Done
                && answers(
                action,
                match file {
                    Some(f) => file_answer(
                        name@,
                        f,
                        opt_view(req.if_none_match),
                        req.if_modified_since,
                    ),
                    None => bare(404),
                },
            ),
            _ => to == stage && action is Ignore,
        },
    }
}

/// How a request for a token or contract is answered: the route, then the metadata, or the image,
/// which is got anew where it is outdated. Given what came back at a stage, the next stage and what
/// is to be done.
pub fn serve_static_file(req: &StaticRequest, stage: ServeStage, event: ServeEvent) -> (r: (
    ServeStage,
    ServeAction,
))
    requires
        event matches ServeEvent::FileRead { file: Some(f), .. } ==> (f.modified matches Some(t)
            ==> t < 253402300800),
    ensures
        serve_step(*req, stage, event, r.0, r.1),
{
    let route = match parse_route(&req.path) {
        Some(x) => x,
        None => {
            return (ServeStage::Done, ServeAction::Answer(not_found()));
        },
    };
    match (stage, event) {
        (ServeStage::Begin, ServeEvent::Started) => if route.resource == StaticResource::Metadata {
            (ServeStage::Metadata, ServeAction::ReadMetadata { token_id: route.token_id })
        } else {
            (
                ServeStage::Inspect,
                ServeAction::Inspect { token_id: route.token_id, dir: route.dir },
            )
        },
        (ServeStage::Metadata, ServeEvent::Metadata(m)) => (
            ServeStage::Done,
            ServeAction::Answer(serve_metadata(&m, &req.if_none_match)),
        ),
        (ServeStage::Metadata, ServeEvent::MetadataFailed) => (
            ServeStage::Done,
            ServeAction::Answer(not_found()),
        ),
        (ServeStage::Inspect, ServeEvent::Inspected { names, modified, updated }) =>
            if check_if_image_outdated(&names, modified, updated) {
                (
                    ServeStage::Fetch,
                    ServeAction::FetchImage { token_id: route.token_id, time: updated },
                )
            } else {
                (ServeStage::List, ServeAction::ListDir { dir: route.dir })
            },
        (ServeStage::Fetch, ServeEvent::Fetched(ok)) => if ok {
            (ServeStage::List, ServeAction::ListDir { dir: route.dir })
        } else {
            (ServeStage::Done, ServeAction::Answer(not_found()))
        },
        (ServeStage::List, ServeEvent::Listed(names)) => match file_name_from_dir_and_query(
            &names,
            &req.query,
        ) {
            Some(name) => (ServeStage::Read, ServeAction::ReadFile { dir: route.dir, name }),
            None => (ServeStage::Done, ServeAction::Answer(not_found())),
        },
        (ServeStage::Read, ServeEvent::FileRead { name, file }) => match file {
            Some(f) => (
                ServeStage::Done,
                ServeAction::Answer(
                    image_reply(&name, f, &req.if_none_match, req.if_modified_since),
                ),
            ),
            None => (ServeStage::Done, ServeAction::Answer(not_found())),
        },
        (stage, _) => (stage, ServeAction::Ignore),
    }
}

/// Unknown resources and identifiers that are not hexadecimal are not found, whatever happens.
pub proof fn malformed_paths_are_not_found(
    req: StaticRequest,
    stage: ServeStage,
    event: ServeEvent,
    to: ServeStage,
    action: ServeAction,
)
    requires
        serve_step(req, stage, event, to, action),
        route_of(req.path@) is None,
    ensures
        answers(action, bare(404)),
{
}

} // verus!
