//! The image of a token: where it is found, and which files are kept of it.
use vstd::prelude::*;
use vstd::string::*;
use crate::server::svg::{
    image_views, link_pattern, link_views, links_in_order, patch_svg_images_regex, patched, pattern_links,
    svg_links, Link, LinkView,
};
use crate::text::{
    chars_of, concat, find, find_char, has_prefix, join, join_with, opt_view, split, split_on,
    starts_with, str_eq, string_of, trim, trimmed, views,
};
use crate::time::Timestamp;

verus! {

/// The field `image` of a text of JSON.
#[derive(Debug)]
pub enum ImageField {
    /// The text is not JSON.
    Invalid,
    /// There is no such field.
    Missing,
    /// The field is not a text.
    NotText,
    Text(String),
}

/// The field `image` of a text of JSON.
pub enum ImageFieldView {
    Invalid,
    Missing,
    NotText,
    Text(Seq<char>),
}

impl ImageField {
    /// What the field holds.
    pub open spec fn view(&self) -> ImageFieldView {
        match self {
            ImageField::Invalid => ImageFieldView::Invalid,
            ImageField::Missing => ImageFieldView::Missing,
            ImageField::NotText => ImageFieldView::NotText,
            ImageField::Text(s) => ImageFieldView::Text(s@),
        }
    }
}

/// The field of that name that `serde_json` finds in a text.
pub uninterp spec fn json_field(text: Seq<char>, name: Seq<char>) -> ImageFieldView;

/// `serde_json::from_str` reads a text as JSON, and `serde_json::Value::get` gives a field of it;
/// both depend on the text and the name alone.
#[verifier::external_body]
pub(crate) fn field_of_json(text: &str, name: &str) -> (r: ImageField)
    ensures
        r.view() == json_field(text@, name@),
{
    match serde_json::from_str::<serde_json::Value>(text) {
        Err(_) => ImageField::Invalid,
        Ok(v) => match v.get(name) {
            None => ImageField::Missing,
            Some(serde_json::Value::String(s)) => ImageField::Text(s.to_owned()),
            Some(_) => ImageField::NotText,
        },
    }
}

/// Why there is no image.
#[derive(Clone, Copy, Debug, PartialEq, Eq, Structural)]
pub enum ImageError {
    /// The metadata could not be read from the database.
    Database,
    /// The bytes of the image could not be got.
    Fetch,
    EmptyMetadata,
    InvalidMetadata,
    /// The metadata has no field for an image.
    NoImage,
    /// The field for the image is not a text.
    NotText,
    /// No token of the contract has an image.
    NoToken,
    UnsupportedScheme,
    DataUrl,
    Format,
    /// The bytes are of a known format but not an image of it.
    Load,
    /// The image has no pixels.
    NoPixels,
    TokenId,
    Svg,
}

/// What is known of the metadata of a token or contract.
#[derive(Debug)]
pub enum Stored {
    /// The database gave none.
    Failed,
    /// The metadata is blank.
    Empty,
    Field(ImageField),
}

/// Where the address of the image comes from.
#[derive(Debug)]
pub enum UriStep {
    Uri(String),
    /// The first token of the contract that has an image is asked for.
    AskTokens,
    Fail(ImageError),
}

/// Whether the identifier is that of a contract.
pub open spec fn is_contract_id(token_id: Seq<char>) -> bool {
    find(token_id, ':') is None
}

/// What is known of the metadata of a token or contract.
pub enum StoredView {
    Failed,
    Empty,
    Field(ImageFieldView),
}

impl Stored {
    /// What is known.
    pub open spec fn view(&self) -> StoredView {
        match self {
            Stored::Failed => StoredView::Failed,
            Stored::Empty => StoredView::Empty,
            Stored::Field(f) => StoredView::Field(f.view()),
        }
    }
}

/// Where the address of the image comes from.
pub enum UriView {
    Uri(Seq<char>),
    AskTokens,
    Fail(ImageError),
}

impl UriStep {
    /// Where the address comes from.
    pub open spec fn view(&self) -> UriView {
        match self {
            UriStep::Uri(u) => UriView::Uri(u@),
            UriStep::AskTokens => UriView::AskTokens,
            UriStep::Fail(e) => UriView::Fail(*e),
        }
    }
}

/// The address of the image: from the metadata of the token or contract, or, for a contract
/// without an image of its own, from its tokens.
pub open spec fn uri_for(is_contract: bool, stored: StoredView) -> UriView {
    match stored {
        StoredView::Field(ImageFieldView::Text(s)) => UriView::Uri(s),
        StoredView::Field(ImageFieldView::NotText) => UriView::Fail(ImageError::NotText),
        _ => if is_contract {
            UriView::AskTokens
        } else {
            UriView::Fail(
                match stored {
                    StoredView::Field(ImageFieldView::Missing) => ImageError::NoImage,
                    StoredView::Field(_) => ImageError::InvalidMetadata,
                    StoredView::Empty => ImageError::EmptyMetadata,
                    StoredView::Failed => ImageError::Database,
                },
            )
        },
    }
}

/// The address of the image, by what is known of the metadata.
pub fn uri_step(is_contract: bool, stored: Stored) -> (r: UriStep)
    ensures
        r.view() == uri_for(is_contract, stored.view()),
{
    match stored {
        Stored::Field(ImageField::Text(s)) => UriStep::Uri(s),
        Stored::Field(ImageField::NotText) => UriStep::Fail(ImageError::NotText),
        Stored::Field(ImageField::Missing) => if is_contract {
            UriStep::AskTokens
        } else {
            UriStep::Fail(ImageError::NoImage)
        },
        Stored::Field(ImageField::Invalid) => if is_contract {
            UriStep::AskTokens
        } else {
            UriStep::Fail(ImageError::InvalidMetadata)
        },
        Stored::Empty => if is_contract {
            UriStep::AskTokens
        } else {
            UriStep::Fail(ImageError::EmptyMetadata)
        },
        Stored::Failed => if is_contract {
            UriStep::AskTokens
        } else {
            UriStep::Fail(ImageError::Database)
        },
    }
}

/// What is known of metadata that the database gave, if it did.
pub open spec fn stored_of(metadata: Option<Seq<char>>) -> StoredView {
    match metadata {
        None => StoredView::Failed,
        Some(m) => if trim(m).len() == 0 {
            StoredView::Empty
        } else {
            StoredView::Field(json_field(trim(m), "image"@))
        },
    }
}

/// What is known of metadata that the database gave, if it did.
pub fn read_stored(metadata: &Option<String>) -> (r: Stored)
    ensures
        r.view() == stored_of(opt_view(*metadata)),
{
    match metadata {
        None => Stored::Failed,
        Some(m) => {
            let t = trimmed(m);
            if t.as_str().is_empty() {
                Stored::Empty
            } else {
                Stored::Field(field_of_json(&t, "image"))
            }
        },
    }
}

/// The first of the fields that is there, as text or not.
pub open spec fn first_image(fields: Seq<ImageFieldView>) -> Option<int>
    decreases fields.len(),
{
    if fields.len() == 0 {
        None
    } else {
        match first_image(fields.drop_last()) {
            Some(i) => Some(i),
            None => if fields.last() is NotText || fields.last() is Text {
                Some(fields.len() - 1)
            } else {
                None
            },
        }
    }
}

/// What the fields hold.
pub open spec fn field_views(fields: Seq<ImageField>) -> Seq<ImageFieldView> {
    fields.map_values(|f: ImageField| f.view())
}

/// The address of the image out of the tokens of a contract: that of the first token that has one.
pub open spec fn tokens_uri(fields: Seq<ImageFieldView>) -> UriView {
    match first_image(fields) {
        Some(i) => match fields[i] {
            ImageFieldView::Text(s) => UriView::Uri(s),
            _ => UriView::Fail(ImageError::NotText),
        },
        None => UriView::Fail(ImageError::NoToken),
    }
}

/// The address of the image out of the tokens of a contract.
pub fn uri_of_tokens(fields: &Vec<ImageField>) -> (r: UriStep)
    ensures
        r.view() == tokens_uri(field_views(fields@)),
{
    let mut i: usize = 0;
    let ghost v = field_views(fields@);
    proof {
        assert(v.take(0) =~= Seq::<ImageFieldView>::empty());
    }
    while i < fields.len()
        invariant
            i <= fields@.len(),
            v == field_views(fields@),
            first_image(v.take(i as int)) is None,
        decreases fields@.len() - i,
    {
        proof {
            assert(v.take(i + 1).drop_last() =~= v.take(i as int));
            assert(v.take(i + 1).last() == fields@[i as int].view());
        }
        match &fields[i] {
            ImageField::Text(s) => {
                proof {
                    first_image_stays(v, i + 1, i as int);
                }
                return UriStep::Uri(s.clone());
            },
            ImageField::NotText => {
                proof {
                    first_image_stays(v, i + 1, i as int);
                }
                return UriStep::Fail(ImageError::NotText);
            },
            _ => {},
        }
        i = i + 1;
    }
    proof {
        assert(v.take(i as int) =~= v);
    }
    UriStep::Fail(ImageError::NoToken)
}

/// The first image among the first fields is the first among all.
proof fn first_image_stays(fields: Seq<ImageFieldView>, n: int, i: int)
    requires
        0 <= n <= fields.len(),
        first_image(fields.take(n)) == Some(i),
    ensures
        first_image(fields) == Some(i),
    decreases fields.len(),
{
    if n == fields.len() {
        assert(fields.take(n) =~= fields);
    } else {
        assert(fields.drop_last().take(n) =~= fields.take(n));
        first_image_stays(fields.drop_last(), n, i);
    }
}

/// The fields for an image of the metadata of tokens, one for one.
pub fn read_tokens(metadata: &Vec<String>) -> (r: Vec<ImageField>)
    ensures
        r@.len() == metadata@.len(),
        forall|i: int|
            0 <= i < r@.len() ==> (#[trigger] r@[i]).view() == json_field(
                metadata@[i]@,
                "image"@,
            ),
{
    let mut out: Vec<ImageField> = Vec::new();
    let mut i: usize = 0;
    while i < metadata.len()
        invariant
            i <= metadata@.len(),
            out@.len() == i,
            forall|k: int|
                0 <= k < i ==> (#[trigger] out@[k]).view() == json_field(metadata@[k]@, "image"@),
        decreases metadata@.len() - i,
    {
        out.push(field_of_json(&metadata[i], "image"));
        i = i + 1;
    }
    out
}

/// How an image is got.
#[derive(Debug)]
pub enum ImageSource {
    Http,
    Ipfs(String),
    Data,
    Unsupported,
}

/// Whether the address can be taken apart: one that begins like an address of IPFS is one.
pub open spec fn uri_readable(uri: Seq<char>) -> bool {
    has_prefix(uri, "http"@) || !has_prefix(uri, "ipfs"@) || has_prefix(uri, "ipfs://"@)
}

/// Whether the address can be taken apart.
pub fn is_uri_readable(uri: &str) -> (r: bool)
    ensures
        r == uri_readable(uri@),
{
    starts_with(uri, "http") || !starts_with(uri, "ipfs") || starts_with(uri, "ipfs://")
}

/// How the image at an address is got.
pub fn image_source(uri: &str) -> (r: ImageSource)
    requires
        uri_readable(uri@),
    ensures
        match r {
            ImageSource::Http => has_prefix(uri@, "http"@),
            ImageSource::Ipfs(cid) => !has_prefix(uri@, "http"@) && has_prefix(uri@, "ipfs"@)
                && cid@ == uri@.skip(7),
            ImageSource::Data => !has_prefix(uri@, "http"@) && !has_prefix(uri@, "ipfs"@)
                && has_prefix(uri@, "data"@),
            ImageSource::Unsupported => !has_prefix(uri@, "http"@) && !has_prefix(uri@, "ipfs"@)
                && !has_prefix(uri@, "data"@),
        },
{
    if starts_with(uri, "http") {
        return ImageSource::Http;
    }
    if starts_with(uri, "ipfs") {
        let cs = chars_of(uri);
        proof {
            reveal_strlit("ipfs://");
        }
        let cid = string_of(&cs, 7, cs.len());
        proof {
            assert(cid@ =~= uri@.skip(7));
        }
        return ImageSource::Ipfs(cid);
    }
    if starts_with(uri, "data") {
        return ImageSource::Data;
    }
    ImageSource::Unsupported
}

/// The contents of a data address.
#[derive(Debug)]
pub struct DataContents {
    pub main_type: String,
    pub subtype: String,
    pub parameters: usize,
    pub body: Vec<u8>,
}

/// The contents of a data address: media type, number of its parameters, and body.
pub uninterp spec fn data_url(uri: Seq<char>) -> Option<(Seq<char>, Seq<char>, nat, Seq<u8>)>;

/// `data_url::DataUrl::process` takes a data address apart, and `decode_to_vec` decodes its body;
/// both depend on the address alone.
#[verifier::external_body]
fn decode_data_url(uri: &str) -> (r: Option<DataContents>)
    ensures
        match r {
            Some(d) => data_url(uri@) == Some(
                (d.main_type@, d.subtype@, d.parameters as nat, d.body@),
            ),
            None => data_url(uri@) is None,
        },
{
    let url = data_url::DataUrl::process(uri).ok()?;
    let mime = url.mime_type();
    let (body, _) = url.decode_to_vec().ok()?;
    Some(DataContents {
        main_type: mime.type_.clone(),
        subtype: mime.subtype.clone(),
        parameters: mime.parameters.len(),
        body,
    })
}

/// An image, as it was got.
#[derive(Debug)]
pub enum ErcImageType {
    Svg(Vec<u8>),
    /// A raster image, by its bytes.
    DynamicImage(Vec<u8>),
}

/// Whether bytes begin with others.
pub open spec fn begins_with(bytes: Seq<u8>, prefix: Seq<u8>) -> bool {
    prefix.len() <= bytes.len() && bytes.take(prefix.len() as int) == prefix
}

/// Whether bytes are those of a drawing: they begin with `<svg` or `<?xml`.
pub open spec fn is_svg(bytes: Seq<u8>) -> bool {
    begins_with(bytes, seq![0x3cu8, 0x73, 0x76, 0x67]) || begins_with(
        bytes,
        seq![0x3cu8, 0x3f, 0x78, 0x6d, 0x6c],
    )
}

/// Whether bytes begin with others.
fn bytes_begin(bytes: &Vec<u8>, prefix: &Vec<u8>) -> (r: bool)
    ensures
        r == begins_with(bytes@, prefix@),
{
    if prefix.len() > bytes.len() {
        return false;
    }
    let mut i: usize = 0;
    while i < prefix.len()
        invariant
            i <= prefix@.len() <= bytes@.len(),
            forall|k: int| 0 <= k < i ==> bytes@[k] == prefix@[k],
        decreases prefix@.len() - i,
    {
        if bytes[i] != prefix[i] {
            proof {
                assert(bytes@.take(prefix@.len() as int)[i as int] == bytes@[i as int]);
            }
            return false;
        }
        i = i + 1;
    }
    proof {
        assert(bytes@.take(prefix@.len() as int) =~= prefix@);
    }
    true
}

/// Fetched bytes as a drawing or as a raster image.
pub fn classify_bytes(bytes: Vec<u8>) -> (r: ErcImageType)
    ensures
        if is_svg(bytes@) {
            r == ErcImageType::Svg(bytes)
        } else {
            r == ErcImageType::DynamicImage(bytes)
        },
{
    let svg: Vec<u8> = vec![0x3c, 0x73, 0x76, 0x67];
    let xml: Vec<u8> = vec![0x3c, 0x3f, 0x78, 0x6d, 0x6c];
    proof {
        assert(svg@ =~= seq![0x3cu8, 0x73, 0x76, 0x67]);
        assert(xml@ =~= seq![0x3cu8, 0x3f, 0x78, 0x6d, 0x6c]);
    }
    if bytes_begin(&bytes, &svg) || bytes_begin(&bytes, &xml) {
        ErcImageType::Svg(bytes)
    } else {
        ErcImageType::DynamicImage(bytes)
    }
}

/// Whether a media type is that of a drawing, without parameters.
pub open spec fn is_svg_mime(main_type: Seq<char>, subtype: Seq<char>, parameters: nat) -> bool {
    main_type == "image"@ && subtype == "svg+xml"@ && parameters == 0
}

/// The contents of a data address as a drawing, by its media type, or as a raster image.
pub fn classify_data(d: DataContents) -> (r: ErcImageType)
    ensures
        if is_svg_mime(d.main_type@, d.subtype@, d.parameters as nat) {
            r == ErcImageType::Svg(d.body)
        } else {
            r == ErcImageType::DynamicImage(d.body)
        },
{
    if str_eq(&d.main_type, "image") && str_eq(&d.subtype, "svg+xml") && d.parameters == 0 {
        ErcImageType::Svg(d.body)
    } else {
        ErcImageType::DynamicImage(d.body)
    }
}

/// The image in a data address.
pub fn read_data_uri(uri: &str) -> (r: Result<ErcImageType, ImageError>)
    ensures
        match data_url(uri@) {
            Some(d) => r matches Ok(f) && (if is_svg_mime(d.0, d.1, d.2) {
                f matches ErcImageType::Svg(b) && b@ == d.3
            } else {
                f matches ErcImageType::DynamicImage(b) && b@ == d.3
            }),
            None => r == Err::<ErcImageType, ImageError>(ImageError::DataUrl),
        },
{
    match decode_data_url(uri) {
        Some(d) => Ok(classify_data(d)),
        None => Err(ImageError::DataUrl),
    }
}

/// The extension of the format that `image::guess_format` finds in bytes.
pub uninterp spec fn image_extension(bytes: Seq<u8>) -> Option<Seq<char>>;

/// `image::guess_format` finds the format of an image by its first bytes, and
/// `ImageFormat::extensions_str` the extension of its files; both depend on the bytes alone.
#[verifier::external_body]
fn extension_of_image(bytes: &Vec<u8>) -> (r: Option<String>)
    ensures
        match r {
            Some(e) => image_extension(bytes@) == Some(e@),
            None => image_extension(bytes@) is None,
        },
{
    let format = image::guess_format(bytes).ok()?;
    format.extensions_str().first().map(|e| (*e).to_owned())
}

/// The width and height of the image that `image` decodes from bytes in the format that they show,
/// if it does.
pub uninterp spec fn image_size(bytes: Seq<u8>) -> Option<(u32, u32)>;

/// `image::load_from_memory_with_format` decodes an image in the format that its bytes show, or
/// refuses it; which of both, and its `width` and `height`, depend on the bytes alone.
#[verifier::external_body]
fn size_of_image(bytes: &Vec<u8>) -> (r: Option<(u32, u32)>)
    ensures
        r == image_size(bytes@),
{
    let format = image::guess_format(bytes).ok()?;
    let image = image::load_from_memory_with_format(bytes, format).ok()?;
    Some((image.width(), image.height()))
}

/// Whether bytes decode to an image that has pixels.
pub open spec fn has_pixels(bytes: Seq<u8>) -> bool {
    image_size(bytes) matches Some((width, height)) && width > 0 && height > 0
}

/// Whether `image` may make `out` of bytes when it decodes them and encodes the image in the same
/// format.
pub uninterp spec fn image_encoded(bytes: Seq<u8>, out: Option<Seq<u8>>) -> bool;

/// `image::load_from_memory_with_format` decodes an image in the format that its bytes show, and
/// `DynamicImage::write_to` encodes it in that format. Whether this succeeds and what it gives may
/// rest on the arithmetic of the machine; that it is one of the outcomes for these bytes is all
/// that is claimed.
#[verifier::external_body]
fn encode_image_to_vec(bytes: &Vec<u8>) -> (r: Option<Vec<u8>>)
    ensures
        image_encoded(bytes@, opt_bytes(r)),
{
    let format = image::guess_format(bytes).ok()?;
    let image = image::load_from_memory_with_format(bytes, format).ok()?;
    let mut out = Vec::new();
    image.write_to(&mut std::io::Cursor::new(&mut out), format).ok()?;
    Some(out)
}

/// Whether `image` may make `out` of bytes when it decodes them, scales and crops the image to a
/// size and encodes it in the same format.
pub uninterp spec fn image_resized(
    bytes: Seq<u8>,
    width: u32,
    height: u32,
    out: Option<Seq<u8>>,
) -> bool;

/// `DynamicImage::resize_to_fill` scales and crops a decoded image that has pixels to a size that is
/// not zero, and `write_to` encodes it in the format of the bytes. The weights of the filter are
/// floating-point numbers, so what comes out may rest on the machine; that it is one of the outcomes
/// for these bytes and this size is all that is claimed. An image without pixels is left out: its
/// size after scaling is below the size that is cut out of it.
#[verifier::external_body]
fn resize_image_to_fit(bytes: &Vec<u8>, width: u32, height: u32) -> (r: Option<Vec<u8>>)
    requires
        width > 0,
        height > 0,
        has_pixels(bytes@),
    ensures
        image_resized(bytes@, width, height, opt_bytes(r)),
{
    let format = image::guess_format(bytes).ok()?;
    let image = image::load_from_memory_with_format(bytes, format).ok()?;
    let filter = image::imageops::FilterType::Lanczos3;
    let resized = image.resize_to_fill(width, height, filter);
    let mut out = Vec::new();
    resized.write_to(&mut std::io::Cursor::new(&mut out), format).ok()?;
    Some(out)
}

/// A file to keep.
#[derive(Debug)]
pub struct ImageFile {
    pub name: String,
    pub contents: Vec<u8>,
}

/// The names and contents of files.
pub open spec fn file_views(f: Seq<ImageFile>) -> Seq<(Seq<char>, Seq<u8>)> {
    f.map_values(|x: ImageFile| (x.name@, x.contents@))
}

/// The files of a raster image: as it is, and in the two sizes. They end before the first that
/// could not be encoded.
pub open spec fn raster_files(
    ext: Seq<char>,
    full: Option<Seq<u8>>,
    medium: Option<Seq<u8>>,
    small: Option<Seq<u8>>,
) -> Seq<(Seq<char>, Seq<u8>)> {
    if full is None {
        Seq::empty()
    } else if medium is None {
        seq![("image."@ + ext, full->0)]
    } else if small is None {
        seq![("image."@ + ext, full->0), ("image@medium."@ + ext, medium->0)]
    } else {
        seq![
            ("image."@ + ext, full->0),
            ("image@medium."@ + ext, medium->0),
            ("image@small."@ + ext, small->0),
        ]
    }
}

/// The files of an image, and the name of the one that was begun but whose contents could not be
/// made, if there is one.
#[derive(Debug)]
pub struct ImageFiles {
    pub files: Vec<ImageFile>,
    pub failed: Option<String>,
}

/// The file that is begun but whose contents cannot be made: that of the first encoding that is
/// missing.
pub open spec fn raster_failed(
    ext: Seq<char>,
    full: Option<Seq<u8>>,
    medium: Option<Seq<u8>>,
    small: Option<Seq<u8>>,
) -> Option<Seq<char>> {
    if full is None {
        Some("image."@ + ext)
    } else if medium is None {
        Some("image@medium."@ + ext)
    } else if small is None {
        Some("image@small."@ + ext)
    } else {
        None
    }
}

/// The bytes as a sequence.
pub open spec fn opt_bytes(v: Option<Vec<u8>>) -> Option<Seq<u8>> {
    match v {
        Some(b) => Some(b@),
        None => None,
    }
}

/// The files of a raster image, by its extension and its encodings.
pub fn files_of_raster(
    ext: &str,
    full: Option<Vec<u8>>,
    medium: Option<Vec<u8>>,
    small: Option<Vec<u8>>,
) -> (r: ImageFiles)
    ensures
        file_views(r.files@) == raster_files(
            ext@,
            opt_bytes(full),
            opt_bytes(medium),
            opt_bytes(small),
        ),
        opt_view(r.failed) == raster_failed(
            ext@,
            opt_bytes(full),
            opt_bytes(medium),
            opt_bytes(small),
        ),
{
    let mut files: Vec<ImageFile> = Vec::new();
    let mut failed: Option<String> = None;
    match full {
        Some(contents) => {
            files.push(ImageFile { name: concat("image.", ext), contents });
            match medium {
                Some(contents) => {
                    files.push(ImageFile { name: concat("image@medium.", ext), contents });
                    match small {
                        Some(contents) => {
                            files.push(ImageFile { name: concat("image@small.", ext), contents });
                        },
                        None => {
                            failed = Some(concat("image@small.", ext));
                        },
                    }
                },
                None => {
                    failed = Some(concat("image@medium.", ext));
                },
            }
        },
        None => {
            failed = Some(concat("image.", ext));
        },
    }
    proof {
        assert(file_views(files@) =~= raster_files(
            ext@,
            opt_bytes(full),
            opt_bytes(medium),
            opt_bytes(small),
        ));
    }
    ImageFiles { files, failed }
}

/// Whether the encodings are outcomes for the bytes: as they are, and filling 250 and 100 pixels on
/// each side.
pub open spec fn encodings_of(
    bytes: Seq<u8>,
    full: Option<Seq<u8>>,
    medium: Option<Seq<u8>>,
    small: Option<Seq<u8>>,
) -> bool {
    image_encoded(bytes, full) && image_resized(bytes, 250, 250, medium) && image_resized(
        bytes,
        100,
        100,
        small,
    )
}

/// Whether the files are those of a raster image with the extension, from the encodings of its
/// bytes.
pub open spec fn raster_made(bytes: Seq<u8>, ext: Seq<char>, f: ImageFiles) -> bool {
    exists|full: Option<Seq<u8>>, medium: Option<Seq<u8>>, small: Option<Seq<u8>>| #[trigger]
        encodings_of(bytes, full, medium, small) && file_views(f.files@) == raster_files(
            ext,
            full,
            medium,
            small,
        ) && opt_view(f.failed) == raster_failed(ext, full, medium, small)
}

/// Why the bytes of a raster image are refused, if they are.
pub open spec fn raster_error(bytes: Seq<u8>) -> Option<ImageError> {
    if image_extension(bytes) is None {
        Some(ImageError::Format)
    } else if image_size(bytes) is None {
        Some(ImageError::Load)
    } else if !has_pixels(bytes) {
        Some(ImageError::NoPixels)
    } else {
        None
    }
}

/// The files of a raster image: as it is, and filling 250 and 100 pixels on each side. Bytes of an
/// unknown format, that are no image of it, or whose image has no pixels, are refused.
pub fn process_raster(bytes: &Vec<u8>) -> (r: Result<ImageFiles, ImageError>)
    ensures
        match r {
            Ok(f) => raster_error(bytes@) is None && raster_made(
                bytes@,
                image_extension(bytes@)->0,
                f,
            ),
            Err(e) => raster_error(bytes@) == Some(e),
        },
{
    match extension_of_image(bytes) {
        Some(ext) => {
            match size_of_image(bytes) {
                Some((width, height)) => {
                    if width == 0 || height == 0 {
                        return Err(ImageError::NoPixels);
                    }
                },
                None => {
                    return Err(ImageError::Load);
                },
            }
            let full = encode_image_to_vec(bytes);
            let medium = resize_image_to_fit(bytes, 250, 250);
            let small = resize_image_to_fit(bytes, 100, 100);
            proof {
                assert(encodings_of(bytes@, opt_bytes(full), opt_bytes(medium), opt_bytes(small)));
            }
            Ok(files_of_raster(&ext, full, medium, small))
        },
        None => Err(ImageError::Format),
    }
}

/// The contract and the token of an identifier; an empty token for a contract.
pub open spec fn id_parts(token_id: Seq<char>) -> Option<(Seq<char>, Seq<char>)> {
    if is_contract_id(token_id) {
        Some((token_id, Seq::empty()))
    } else if split(token_id, ':').len() == 2 {
        Some((split(token_id, ':')[0], split(token_id, ':')[1]))
    } else {
        None
    }
}

/// The directory of the images of a contract or token, relative to that of all artifacts.
pub open spec fn image_dir(contract: Seq<char>, token: Seq<char>) -> Seq<Seq<char>> {
    if token.len() == 0 {
        seq![contract]
    } else {
        seq![contract, token]
    }
}

/// The directory of the images of an identifier.
pub open spec fn dir_of(token_id: Seq<char>) -> Option<Seq<Seq<char>>> {
    match id_parts(token_id) {
        Some((contract, token)) => Some(image_dir(contract, token)),
        None => None,
    }
}

/// The directory of the images of a contract or token, as the names that lead to it; an identifier
/// of more than two parts has none.
pub fn token_dir(token_id: &str) -> (r: Result<Vec<String>, ImageError>)
    ensures
        match r {
            Ok(v) => dir_of(token_id@) == Some(views(v@)),
            Err(e) => dir_of(token_id@) is None && e == ImageError::TokenId,
        },
{
    let cs = chars_of(token_id);
    if find_char(&cs, ':').is_none() {
        let v: Vec<String> = vec![token_id.to_owned()];
        proof {
            assert(views(v@) =~= seq![token_id@]);
        }
        return Ok(v);
    }
    let parts = split_on(token_id, ':');
    proof {
        assert forall|i: int| 0 <= i < parts@.len() implies views(parts@)[i] == parts@[i]@ by {}
    }
    if parts.len() != 2 {
        return Err(ImageError::TokenId);
    }
    if parts[1].as_str().is_empty() {
        let v: Vec<String> = vec![parts[0].clone()];
        proof {
            assert(views(v@) =~= seq![parts@[0]@]);
        }
        Ok(v)
    } else {
        let v: Vec<String> = vec![parts[0].clone(), parts[1].clone()];
        proof {
            assert(views(v@) =~= seq![parts@[0]@, parts@[1]@]);
        }
        Ok(v)
    }
}

// ---------------------------------------------------------------------------
// Fetching and processing
// ---------------------------------------------------------------------------

/// How far the image of a token was got.
#[derive(Debug)]
pub enum FetchStage {
    Begin,
    /// The metadata of the tokens of a contract is awaited.
    Tokens,
    /// The bytes of the image are awaited.
    Bytes,
    /// The images that a drawing refers to are awaited.
    Links { svg: Vec<u8>, links: Vec<Link> },
    Done,
}

/// What the surroundings report.
#[derive(Debug)]
pub enum FetchEvent {
    /// What is known of the metadata of the token or contract.
    Metadata(Stored),
    /// The fields for an image of the tokens of the contract, if the database gave their metadata.
    Tokens(Option<Vec<ImageField>>),
    /// The bytes of the image, if they were got.
    Bytes(Option<Vec<u8>>),
    /// The images that the drawing refers to, one for each reference, if all were got.
    Images(Option<Vec<Vec<u8>>>),
}

/// What the surroundings are to do.
#[derive(Debug)]
pub enum FetchAction {
    /// The event does not belong to the stage.
    Ignore,
    AskTokens,
    FetchHttp(String),
    FetchIpfs(String),
    /// The images of the references that are fetched are to be got.
    FetchLinks,
    /// The files are to be written to the directory, in order, and their times set where one is
    /// given; then the image is there under its name, unless a file was only begun.
    Write { dir: Vec<String>, files: ImageFiles, time: Option<Timestamp>, image: String },
    Fail(ImageError),
}

/// What is done once the address of the image is known.
fn after_uri(token_id: &str, time: Option<Timestamp>, step: UriStep) -> (r: (
    FetchStage,
    FetchAction,
))
    requires
        step matches UriStep::Uri(u) ==> uri_readable(u@),
    ensures
        uri_action(token_id@, time, step.view(), r.0, r.1),
{
    match step {
        UriStep::AskTokens => (FetchStage::Tokens, FetchAction::AskTokens),
        UriStep::Fail(e) => (FetchStage::Done, FetchAction::Fail(e)),
        UriStep::Uri(uri) => match image_source(&uri) {
            ImageSource::Http => (FetchStage::Bytes, FetchAction::FetchHttp(uri)),
            ImageSource::Ipfs(cid) => (FetchStage::Bytes, FetchAction::FetchIpfs(cid)),
            ImageSource::Data => match read_data_uri(&uri) {
                Ok(f) => after_bytes(token_id, time, f),
                Err(e) => (FetchStage::Done, FetchAction::Fail(e)),
            },
            ImageSource::Unsupported => (
                FetchStage::Done,
                FetchAction::Fail(ImageError::UnsupportedScheme),
            ),
        },
    }
}

/// Whether the stage and action are those that follow once the address of the image is known.
pub open spec fn uri_action(
    token_id: Seq<char>,
    time: Option<Timestamp>,
    step: UriView,
    stage: FetchStage,
    action: FetchAction,
) -> bool {
    match step {
        UriView::AskTokens => stage is Tokens && action is AskTokens,
        UriView::Fail(e) => stage is Done && action == FetchAction::Fail(e),
        UriView::Uri(uri) => if has_prefix(uri, "http"@) {
            stage is Bytes && (action matches FetchAction::FetchHttp(u) && u@ == uri)
        } else if has_prefix(uri, "ipfs"@) {
            stage is Bytes && (action matches FetchAction::FetchIpfs(cid) && cid@ == uri.skip(7))
        } else if has_prefix(uri, "data"@) {
            match data_url(uri) {
                Some(d) => bytes_action(
                    token_id,
                    time,
                    is_svg_mime(d.0, d.1, d.2),
                    d.3,
                    stage,
                    action,
                ),
                None => stage is Done && action == FetchAction::Fail(ImageError::DataUrl),
            }
        } else {
            stage is Done && action == FetchAction::Fail(ImageError::UnsupportedScheme)
        },
    }
}

/// The name under which the image is found, relative to that of all artifacts.
pub open spec fn image_name(dir: Seq<Seq<char>>, last: Seq<char>) -> Seq<char> {
    join(dir, "/"@) + "/"@ + last
}

/// Whether the stage and action are those that follow once the bytes of the image are known.
pub open spec fn bytes_action(
    token_id: Seq<char>,
    time: Option<Timestamp>,
    svg: bool,
    bytes: Seq<u8>,
    stage: FetchStage,
    action: FetchAction,
) -> bool {
    if svg {
        if dir_of(token_id) is None {
            stage is Done && action == FetchAction::Fail(ImageError::TokenId)
        } else if vstd::utf8::valid_utf8(bytes) {
            action is FetchLinks && (stage matches FetchStage::Links { svg, links } && svg@ == bytes
                && exists|text: Seq<char>|
                vstd::utf8::encode_utf8(text) == bytes && link_views(links@)
                    == #[trigger] pattern_links(
                    link_pattern(),
                    text,
                )) && (stage matches FetchStage::Links { svg, links }
                && links_in_order(
                link_views(links@),
                svg@.len() as int,
            ))
        } else {
            stage is Done && action == FetchAction::Fail(ImageError::Svg)
        }
    } else {
        stage is Done && match (raster_error(bytes), dir_of(token_id)) {
            (Some(e), _) => action == FetchAction::Fail(e),
            (None, None) => action == FetchAction::Fail(ImageError::TokenId),
            (None, Some(path)) => action matches FetchAction::Write { dir, files, time: set, image }
                && views(dir@) == path && raster_made(bytes, image_extension(bytes)->0, files) && set
                == time && image@ == image_name(path, "image"@),
        }
    }
}

/// The name under which the image is found.
fn named(dir: &Vec<String>, last: &str) -> (r: String)
    ensures
        r@ == image_name(views(dir@), last@),
{
    concat(&concat(&join_with(dir, "/"), "/"), last)
}

/// What is done once the bytes of the image are known.
fn after_bytes(token_id: &str, time: Option<Timestamp>, f: ErcImageType) -> (r: (
    FetchStage,
    FetchAction,
))
    ensures
        match f {
            ErcImageType::Svg(b) => bytes_action(token_id@, time, true, b@, r.0, r.1),
            ErcImageType::DynamicImage(b) => bytes_action(token_id@, time, false, b@, r.0, r.1),
        },
{
    match f {
        ErcImageType::Svg(svg) => match token_dir(token_id) {
            Err(e) => (FetchStage::Done, FetchAction::Fail(e)),
            Ok(_) => match svg_links(&svg) {
                Some(links) => (FetchStage::Links { svg, links }, FetchAction::FetchLinks),
                None => (FetchStage::Done, FetchAction::Fail(ImageError::Svg)),
            },
        },
        ErcImageType::DynamicImage(bytes) => match process_raster(&bytes) {
            Ok(files) => match token_dir(token_id) {
                Ok(dir) => {
                    let image = named(&dir, "image");
                    (FetchStage::Done, FetchAction::Write { dir, files, time, image })
                },
                Err(e) => (FetchStage::Done, FetchAction::Fail(e)),
            },
            Err(e) => (FetchStage::Done, FetchAction::Fail(e)),
        },
    }
}

/// What is done with a drawing once the images of its references are known.
pub open spec fn links_action(
    token_id: Seq<char>,
    time: Option<Timestamp>,
    svg: Seq<u8>,
    links: Seq<LinkView>,
    images: Seq<Seq<u8>>,
    action: FetchAction,
) -> bool {
    match dir_of(token_id) {
        None => action == FetchAction::Fail(ImageError::TokenId),
        Some(path) => action matches FetchAction::Write { dir, files, time: set, image } && views(
            dir@,
        ) == path && files.failed is None && file_views(files.files@) == seq![
            ("image.svg"@, patched(svg, links, images)),
        ] && set == time && image@ == image_name(path, "image.svg"@),
    }
}

/// The address of the image that an event gives at a stage, where it gives one.
pub open spec fn event_uri(token_id: Seq<char>, stage: FetchStage, event: FetchEvent) -> Option<
    UriView,
> {
    match (stage, event) {
        (FetchStage::Begin, FetchEvent::Metadata(m)) => Some(
            uri_for(is_contract_id(token_id), m.view()),
        ),
        (FetchStage::Tokens, FetchEvent::Tokens(Some(f))) => Some(tokens_uri(field_views(f@))),
        _ => None,
    }
}

/// Whether going from `stage` on `event` to `to`, doing `action`, is the next step to the image.
pub open spec fn fetch_step(
    token_id: Seq<char>,
    time: Option<Timestamp>,
    stage: FetchStage,
    event: FetchEvent,
    to: FetchStage,
    action: FetchAction,
) -> bool {
    match (stage, event) {
        (FetchStage::Begin, FetchEvent::Metadata(m)) => uri_action(
            token_id,
            time,
            uri_for(is_contract_id(token_id), m.view()),
            to,
            action,
        ),
        (FetchStage::Tokens, FetchEvent::Tokens(Some(f))) => uri_action(
            token_id,
            time,
            tokens_uri(field_views(f@)),
            to,
            action,
        ),
        (FetchStage::Tokens, FetchEvent::Tokens(None)) => to is Done && action
            == FetchAction::Fail(ImageError::Database),
        (FetchStage::Bytes, FetchEvent::Bytes(Some(b))) => bytes_action(
            token_id,
            time,
            is_svg(b@),
            b@,
            to,
            action,
        ),
        (FetchStage::Bytes, FetchEvent::Bytes(None)) => to is Done && action
            == FetchAction::Fail(ImageError::Fetch),
        (FetchStage::Links { svg, links }, FetchEvent::Images(Some(images))) => to is Done
            && links_action(token_id, time, svg@, link_views(links@), image_views(images@), action),
        (FetchStage::Links { .. }, FetchEvent::Images(None)) => to is Done && action
            == FetchAction::Fail(ImageError::Fetch),
        _ => to == stage && action is Ignore,
    }
}

/// How the image of a token is got: from the metadata to its address, from there to its bytes, and
/// from these to the files that are kept, with the time at which the token was changed, where it is
/// known. Given what came back at a stage, the next stage and what is to be done.
pub fn fetch_and_process_image(
    token_id: &str,
    time: Option<Timestamp>,
    stage: FetchStage,
    event: FetchEvent,
) -> (r: (FetchStage, FetchAction))
    requires
        event_uri(token_id@, stage, event) matches Some(UriView::Uri(u)) ==> uri_readable(u),
        (stage matches FetchStage::Links { svg, links }) && (event matches FetchEvent::Images(
            Some(images),
        )) ==> (stage matches FetchStage::Links { svg, links } && event matches FetchEvent::Images(
            Some(images),
        ) && images@.len() == links@.len() && links_in_order(
            link_views(links@),
            svg@.len() as int,
        )),
    ensures
        fetch_step(token_id@, time, stage, event, r.0, r.1),
{
    match (stage, event) {
        (FetchStage::Begin, FetchEvent::Metadata(m)) => {
            let cs = chars_of(token_id);
            let is_contract = find_char(&cs, ':').is_none();
            after_uri(token_id, time, uri_step(is_contract, m))
        },
        (FetchStage::Tokens, FetchEvent::Tokens(Some(f))) => after_uri(
            token_id,
            time,
            uri_of_tokens(&f),
        ),
        (FetchStage::Tokens, FetchEvent::Tokens(None)) => (
            FetchStage::Done,
            FetchAction::Fail(ImageError::Database),
        ),
        (FetchStage::Bytes, FetchEvent::Bytes(Some(b))) => after_bytes(
            token_id,
            time,
            classify_bytes(b),
        ),
        (FetchStage::Bytes, FetchEvent::Bytes(None)) => (
            FetchStage::Done,
            FetchAction::Fail(ImageError::Fetch),
        ),
        (FetchStage::Links { svg, links }, FetchEvent::Images(Some(images))) => {
            let contents = patch_svg_images_regex(&svg, &links, &images);
            match token_dir(token_id) {
                Ok(dir) => {
                    let files: Vec<ImageFile> = vec![
                        ImageFile { name: "image.svg".to_owned(), contents },
                    ];
                    proof {
                        assert(file_views(files@) =~= seq![("image.svg"@, contents@)]);
                    }
                    let image = named(&dir, "image.svg");
                    (
                        FetchStage::Done,
                        FetchAction::Write {
                            dir,
                            files: ImageFiles { files, failed: None },
                            time,
                            image,
                        },
                    )
                },
                Err(e) => (FetchStage::Done, FetchAction::Fail(e)),
            }
        },
        (FetchStage::Links { .. }, FetchEvent::Images(None)) => (
            FetchStage::Done,
            FetchAction::Fail(ImageError::Fetch),
        ),
        (stage, _) => (stage, FetchAction::Ignore),
    }
}

} // verus!
