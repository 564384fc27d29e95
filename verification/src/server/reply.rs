//! Answers to requests.
use vstd::prelude::*;
use vstd::string::*;
use vstd::utf8::encode_utf8;
use crate::digits::{char_of_digit, digit_char};
use crate::text::concat;

verus! {

/// A header of an answer.
#[derive(Debug)]
pub struct Header {
    pub name: &'static str,
    pub value: String,
}

/// An answer: status, headers and body.
#[derive(Debug)]
pub struct Reply {
    pub status: u16,
    pub headers: Vec<Header>,
    pub body: Vec<u8>,
}

/// What an answer holds.
pub struct ReplyView {
    pub status: int,
    pub headers: Seq<(Seq<char>, Seq<char>)>,
    pub body: Seq<u8>,
}

/// The headers as pairs of texts.
pub open spec fn header_views(h: Seq<Header>) -> Seq<(Seq<char>, Seq<char>)> {
    h.map_values(|x: Header| (x.name@, x.value@))
}

impl Reply {
    /// What the answer holds.
    pub open spec fn view(&self) -> ReplyView {
        ReplyView {
            status: self.status as int,
            headers: header_views(self.headers@),
            body: self.body@,
        }
    }

    /// The value of the first header of that name.
    pub fn header(&self, name: &str) -> (r: Option<&String>)
        ensures
            match r {
                Some(v) => exists|i: int|
                    0 <= i < self.headers@.len() && (#[trigger] self.headers@[i]).name@ == name@
                        && self.headers@[i].value == *v && forall|j: int|
                        0 <= j < i ==> (#[trigger] self.headers@[j]).name@ != name@,
                None => forall|j: int|
                    0 <= j < self.headers@.len() ==> (#[trigger] self.headers@[j]).name@ != name@,
            },
    {
        let mut i: usize = 0;
        while i < self.headers.len()
            invariant
                i <= self.headers@.len(),
                forall|j: int| 0 <= j < i ==> (#[trigger] self.headers@[j]).name@ != name@,
            decreases self.headers@.len() - i,
        {
            if crate::text::str_eq(self.headers[i].name, name) {
                return Some(&self.headers[i].value);
            }
            i = i + 1;
        }
        None
    }
}

/// An answer that is only a status.
pub open spec fn bare(status: int) -> ReplyView {
    ReplyView { status, headers: Seq::empty(), body: Seq::empty() }
}

/// The answer that something is not found.
pub fn not_found() -> (r: Reply)
    ensures
        r.view() == bare(404),
{
    let r = Reply { status: 404, headers: Vec::new(), body: Vec::new() };
    proof {
        assert(header_views(r.headers@) =~= Seq::<(Seq<char>, Seq<char>)>::empty());
        assert(r.body@ =~= Seq::<u8>::empty());
    }
    r
}

/// The bytes of a text.
pub fn bytes_of(s: &str) -> (r: Vec<u8>)
    ensures
        r@ == encode_utf8(s@),
{
    s.as_bytes_vec()
}

// ---------------------------------------------------------------------------
// JSON
// ---------------------------------------------------------------------------

/// The text that `serde_json` writes for a text.
pub uninterp spec fn json_text(s: Seq<char>) -> Seq<char>;

/// Whether a text needs no escape in JSON: no control character, quotation mark or backslash.
pub open spec fn plain_in_json(s: Seq<char>) -> bool {
    forall|i: int|
        0 <= i < s.len() ==> (#[trigger] s[i]) as u32 >= 0x20 && s[i] != '"' && s[i] != '\\'
}

/// `serde_json::Value::to_string` writes a text as a JSON string, which depends on the text alone:
/// between quotation marks, and as it is where it needs no escape.
#[verifier::external_body]
pub(crate) fn json_string(s: &str) -> (r: String)
    ensures
        r@ == json_text(s@),
        plain_in_json(s@) ==> r@ == seq!['"'] + s@ + seq!['"'],
{
    serde_json::Value::String(s.to_owned()).to_string()
}

/// The body of an error.
pub open spec fn error_body(message: Seq<char>) -> Seq<char> {
    "{\"error\":"@ + json_text(message) + "}"@
}

/// An answer in JSON with an error.
pub fn json_error_response(status: u16, message: &str) -> (r: Reply)
    ensures
        r.status == status,
        header_views(r.headers@) == seq![("content-type"@, "application/json"@)],
        r.body@ == encode_utf8(error_body(message@)),
        plain_in_json(message@) ==> r.body@ == encode_utf8(
            "{\"error\":"@ + (seq!['"'] + message@ + seq!['"']) + "}"@,
        ),
{
    let text = concat(&concat("{\"error\":", &json_string(message)), "}");
    let headers: Vec<Header> = vec![
        Header { name: "content-type", value: "application/json".to_owned() },
    ];
    proof {
        assert(header_views(headers@) =~= seq![("content-type"@, "application/json"@)]);
    }
    Reply { status, headers, body: bytes_of(&text) }
}

// ---------------------------------------------------------------------------
// Entity tags
// ---------------------------------------------------------------------------

/// The digest that `sha2::Sha256` makes of bytes.
pub uninterp spec fn sha256(bytes: Seq<u8>) -> Seq<u8>;

/// `sha2::Sha256` makes a digest of 32 bytes, which depends on the bytes alone.
#[verifier::external_body]
fn sha256_digest(bytes: &[u8]) -> (r: Vec<u8>)
    ensures
        r@ == sha256(bytes@),
        r@.len() == 32,
{
    <sha2::Sha256 as sha2::Digest>::digest(bytes).to_vec()
}

/// The bytes in lower-case hexadecimal, two digits each.
pub open spec fn hex_of(bytes: Seq<u8>) -> Seq<char>
    decreases bytes.len(),
{
    if bytes.len() == 0 {
        Seq::empty()
    } else {
        hex_of(bytes.drop_last()).push(digit_char((bytes.last() / 16) as nat)).push(
            digit_char((bytes.last() % 16) as nat),
        )
    }
}

/// The entity tag of a digest: its first eight bytes in hexadecimal between quotation marks.
pub open spec fn etag_of_digest(digest: Seq<u8>) -> Seq<char> {
    seq!['"'] + hex_of(digest.take(8)) + seq!['"']
}

/// The entity tag of contents.
pub open spec fn etag_of(contents: Seq<u8>) -> Seq<char> {
    etag_of_digest(sha256(contents))
}

/// The entity tag of a digest.
pub fn digest_etag(digest: &Vec<u8>) -> (r: String)
    requires
        digest@.len() >= 8,
    ensures
        r@ == etag_of_digest(digest@),
{
    let mut out = String::new();
    out.push('"');
    let mut i: usize = 0;
    proof {
        assert(digest@.take(8).take(0) =~= Seq::<u8>::empty());
        assert(out@ =~= seq!['"'] + hex_of(digest@.take(8).take(0)));
    }
    while i < 8
        invariant
            i <= 8,
            digest@.len() >= 8,
            out@ == seq!['"'] + hex_of(digest@.take(8).take(i as int)),
        decreases 8 - i,
    {
        let b: u8 = digest[i];
        let ghost t = digest@.take(8);
        proof {
            assert(t.take(i + 1).drop_last() =~= t.take(i as int));
            assert(t.take(i + 1).last() == b);
        }
        let ghost before = out@;
        out.push(char_of_digit((b / 16) as u32));
        out.push(char_of_digit((b % 16) as u32));
        proof {
            assert(out@ =~= seq!['"'] + hex_of(t.take(i + 1)));
        }
        i = i + 1;
    }
    proof {
        assert(digest@.take(8).take(8) =~= digest@.take(8));
    }
    out.push('"');
    proof {
        assert(out@ =~= etag_of_digest(digest@));
    }
    out
}

/// The entity tag of contents.
pub fn content_etag(contents: &[u8]) -> (r: String)
    ensures
        r@ == etag_of(contents@),
{
    digest_etag(&sha256_digest(contents))
}

} // verus!
