use torii::server::images::{
    classify_bytes, fetch_and_process_image, files_of_raster, image_source, is_uri_readable, process_raster,
    read_data_uri, read_stored, read_tokens, token_dir, uri_of_tokens, uri_step, ErcImageType,
    FetchAction, FetchEvent, FetchStage, ImageError, ImageField, ImageSource, Stored, UriStep,
};
use torii::server::proxy::{
    alpn_protocols, choose_handler, create_cors_layer, create_grpc_proxy_client, default_reply,
    handlers, hostname_header, is_websocket_upgrade, load_tls_key, HandlerKind, ListenAction,
    ListenEvent, Origins, Proxy, ProxySettings,
};
use torii::server::reply::{content_etag, json_error_response, Reply};
use torii::server::static_handler::{
    check_if_image_outdated, database_time, file_name_from_dir_and_query, find_base_image,
    first_tokens_statement, image_reply, metadata_statement, modified_since, parse_image_query, parse_route,
    relative_path, serve_static_file, should_handle, updated_at_statement, FileContents,
    ImageQuery, ServeAction, ServeEvent, ServeStage, StaticHandler, StaticRequest, StaticResource,
};
use torii::server::svg::{link_source, patch_svg_images_regex, svg_links, LinkSource};
use torii::time::Timestamp;

const TIME: Option<Timestamp> = Some(Timestamp { secs: 5, nanos: 0 });
const CONTRACT: &str = "0xabc";
const TOKEN: &str = "0x1";
const CONTRACT_METADATA: &str = r#"{"name":"Collection","image":"ipfs://contract"}"#;
const TOKEN_METADATA: &str = r#"{"name":"Token #1","image":"ipfs://token","attributes":[{"trait_type":"Rank","value":"S"}]}"#;

fn rows() -> Vec<(String, &'static str)> {
    vec![
        (CONTRACT.to_string(), CONTRACT_METADATA),
        (format!("{CONTRACT}:{TOKEN}"), TOKEN_METADATA),
        (format!("{CONTRACT}:0x2"), ""),
        (format!("{CONTRACT}:0x3"), "not json"),
    ]
}

fn get(path: &str, etag: Option<&str>) -> Reply {
    assert!(should_handle(path));
    let req = StaticRequest {
        path: relative_path(path),
        query: parse_image_query(""),
        if_none_match: etag.map(|e| e.to_string()),
        if_modified_since: None,
    };
    match serve_static_file(&req, ServeStage::Begin, ServeEvent::Started) {
        (_, ServeAction::Answer(r)) => r,
        (stage, ServeAction::ReadMetadata { token_id }) => {
            let row = rows().into_iter().find(|r| r.0 == token_id).map(|r| r.1.to_string());
            match serve_static_file(&req, stage, ServeEvent::Metadata(row)) {
                (ServeStage::Done, ServeAction::Answer(r)) => r,
                other => panic!("{:?}", other),
            }
        }
        other => panic!("{:?}", other),
    }
}

fn body_string(r: &Reply) -> String {
    String::from_utf8(r.body.clone()).unwrap()
}

#[test]
fn serves_token_metadata_from_database() {
    let response = get(&format!("/static/{CONTRACT}/{TOKEN}/metadata"), None);

    assert_eq!(response.status, 200);
    assert_eq!(response.header("content-type").unwrap(), "application/json");
    assert!(response.header("etag").is_some());
    assert_eq!(body_string(&response), TOKEN_METADATA);
}

#[test]
fn serves_contract_metadata_from_database() {
    let response = get(&format!("/static/{CONTRACT}/metadata"), None);

    assert_eq!(response.status, 200);
    assert_eq!(body_string(&response), CONTRACT_METADATA);
}

#[test]
fn returns_not_modified_when_etag_matches() {
    let path = format!("/static/{CONTRACT}/{TOKEN}/metadata");
    let first = get(&path, None);
    let etag = first.header("etag").unwrap().to_string();

    let second = get(&path, Some(&etag));
    assert_eq!(second.status, 304);
    assert_eq!(second.header("etag").unwrap(), etag.as_str());
    assert!(body_string(&second).is_empty());
}

#[test]
fn returns_not_found_for_unknown_token() {
    let response = get(&format!("/static/{CONTRACT}/0x999/metadata"), None);

    assert_eq!(response.status, 404);
    assert_eq!(body_string(&response), r#"{"error":"Token not found"}"#);
}

#[test]
fn returns_not_found_for_empty_metadata() {
    let response = get(&format!("/static/{CONTRACT}/0x2/metadata"), None);

    assert_eq!(response.status, 404);
    assert_eq!(body_string(&response), r#"{"error":"No metadata stored for token"}"#);
}

#[test]
fn returns_server_error_for_invalid_json_metadata() {
    let response = get(&format!("/static/{CONTRACT}/0x3/metadata"), None);

    assert_eq!(response.status, 500);
}

#[test]
fn rejects_unknown_resource_and_malformed_ids() {
    let unknown = get(&format!("/static/{CONTRACT}/{TOKEN}/owner"), None);
    assert_eq!(unknown.status, 404);

    let bad_contract = get("/static/abc/metadata", None);
    assert_eq!(bad_contract.status, 404);

    let bad_token = get(&format!("/static/{CONTRACT}/1/metadata"), None);
    assert_eq!(bad_token.status, 404);
}

#[test]
fn paths_are_taken_apart() {
    assert!(!should_handle("/graphql"));
    assert_eq!(relative_path("/static/a/b"), "a/b");
    assert_eq!(relative_path("/staticx"), "");
    let r = parse_route("0xa/0xb/image").unwrap();
    assert_eq!(r.resource, StaticResource::Image);
    assert_eq!(r.dir, vec!["0xa", "0xb"]);
    assert_eq!(r.token_id, "0xa:0xb");
    let r = parse_route("0xa/metadata").unwrap();
    assert_eq!(r.resource, StaticResource::Metadata);
    assert_eq!(r.token_id, "0xa");
    assert!(parse_route("0xa/0xb/0xc/image").is_none());
    assert!(parse_route("").is_none());
    assert_eq!(metadata_statement(), "SELECT metadata FROM tokens WHERE id = ?");
    assert_eq!(updated_at_statement(), "SELECT updated_at FROM tokens WHERE id = ?");
    assert_eq!(first_tokens_statement("0xa").1, "0xa:%");
    let h = StaticHandler::new("/art".to_string());
    assert_eq!(h.path_of(&vec!["0xa".to_string(), "image.png".to_string()]), "/art/0xa/image.png");
}

#[test]
fn queries_ask_for_a_size() {
    let q = parse_image_query("h=10&width=20&h=x&height=30");
    assert_eq!((q.height, q.width), (Some(30), Some(20)));
    let q = parse_image_query("h=4294967296&w=+7&x=1&noise");
    assert_eq!((q.height, q.width), (None, Some(7)));
}

fn names(list: &[&str]) -> Vec<String> {
    list.iter().map(|s| s.to_string()).collect()
}

#[test]
fn sizes_choose_the_file() {
    let n = names(&["image@small.png", "image.png"]);
    let f = |h: Option<u32>, w: Option<u32>| {
        file_name_from_dir_and_query(&n, &ImageQuery { height: h, width: w })
    };
    assert_eq!(f(None, None), Some("image.png".to_string()));
    assert_eq!(f(Some(100), None), Some("image@small.png".to_string()));
    assert_eq!(f(None, Some(101)), Some("image@medium.png".to_string()));
    assert_eq!(f(Some(300), Some(250)), Some("image@medium.png".to_string()));
    assert_eq!(f(Some(251), Some(251)), Some("image.png".to_string()));
    let none = names(&["image@small.png", "cover.png"]);
    assert_eq!(
        file_name_from_dir_and_query(&none, &ImageQuery { height: None, width: None }),
        None
    );
}

#[test]
fn images_are_outdated_by_later_tokens() {
    let early = Some(Timestamp { secs: 10, nanos: 0 });
    let late = Some(Timestamp { secs: 10, nanos: 1 });
    let dir = Some(names(&["image.png"]));
    assert!(!check_if_image_outdated(&dir, late, early));
    assert!(!check_if_image_outdated(&dir, early, early));
    assert!(check_if_image_outdated(&dir, early, late));
    assert!(check_if_image_outdated(&dir, None, early));
    assert!(check_if_image_outdated(&None, late, early));
    assert!(check_if_image_outdated(&Some(names(&["x"])), late, early));
    assert_eq!(
        database_time("1970-01-02 00:00:05"),
        Some(Timestamp { secs: 86405, nanos: 0 })
    );
    assert_eq!(database_time("yesterday"), None);
}

#[test]
fn images_are_sent_once() {
    let file = || FileContents { contents: vec![1, 2, 3], modified: Some(784111777) };
    let r = image_reply("/a/image.png", file(), &None, None);
    assert_eq!(r.status, 200);
    assert_eq!(r.body, vec![1, 2, 3]);
    assert_eq!(r.header("content-type").unwrap(), "image/png");
    assert_eq!(r.header("last-modified").unwrap(), "Sun, 06 Nov 1994 08:49:37 GMT");
    assert_eq!(
        r.header("cache-control").unwrap(),
        "public, max-age=3600, stale-while-revalidate=86400"
    );
    let etag = r.header("etag").cloned();
    assert_eq!(etag, Some(content_etag(&[1, 2, 3])));
    let again = image_reply("/a/image.png", file(), &etag, None);
    assert_eq!(again.status, 304);
    assert!(again.body.is_empty());
    let since = modified_since(&r.header("last-modified").cloned());
    assert_eq!(since, Some(784111777));
    let again = image_reply("/a/image.png", file(), &None, since);
    assert_eq!(again.status, 304);
    let changed = image_reply("/a/image.png", file(), &None, Some(784111776));
    assert_eq!(changed.status, 200);
    let r = image_reply("/a/b", FileContents { contents: vec![], modified: None }, &None, Some(1));
    assert_eq!(r.header("content-type").unwrap(), "application/octet-stream");
    assert!(r.header("last-modified").is_none());
    assert_eq!(modified_since(&Some("soon".to_string())), None);
    assert_eq!(modified_since(&None), None);
}

#[test]
fn tags_are_the_start_of_the_digest() {
    assert_eq!(content_etag(b"abc"), "\"ba7816bf8f01cfea\"");
    let r = json_error_response(400, "a \"b\"\n");
    assert_eq!(r.status, 400);
    assert_eq!(body_string(&r), r#"{"error":"a \"b\"\n"}"#);
}

#[test]
fn an_image_is_served_stage_by_stage() {
    let req = StaticRequest {
        path: "0xa/0xb/image".to_string(),
        query: parse_image_query("w=50"),
        if_none_match: None,
        if_modified_since: None,
    };
    let (s, a) = serve_static_file(&req, ServeStage::Begin, ServeEvent::Started);
    assert!(matches!(a, ServeAction::Inspect { token_id, .. } if token_id == "0xa:0xb"));
    let missing = ServeEvent::Inspected { names: None, modified: None, updated: None };
    let (s, a) = serve_static_file(&req, s, missing);
    assert!(matches!(a, ServeAction::FetchImage { token_id, time: None } if token_id == "0xa:0xb"));
    let (_, a) = serve_static_file(&req, s, ServeEvent::Fetched(false));
    assert!(matches!(a, ServeAction::Answer(r) if r.status == 404));
    let (s, a) = serve_static_file(&req, s, ServeEvent::Fetched(true));
    assert!(matches!(a, ServeAction::ListDir { dir } if dir == vec!["0xa", "0xb"]));
    let (_, a) = serve_static_file(&req, s, ServeEvent::Listed(vec![]));
    assert!(matches!(a, ServeAction::Answer(r) if r.status == 404));
    let (s, a) = serve_static_file(&req, s, ServeEvent::Listed(names(&["image.gif"])));
    assert!(matches!(a, ServeAction::ReadFile { name, .. } if name == "image@small.gif"));
    let file = Some(FileContents { contents: vec![7], modified: None });
    let event = ServeEvent::FileRead { name: "x/image@small.gif".to_string(), file };
    match serve_static_file(&req, s, event) {
        (ServeStage::Done, ServeAction::Answer(r)) => {
            assert_eq!(r.status, 200);
            assert_eq!(r.header("content-type").unwrap(), "image/gif");
        }
        other => panic!("{:?}", other),
    }
    let (_, a) = serve_static_file(&req, ServeStage::Metadata, ServeEvent::MetadataFailed);
    assert!(matches!(a, ServeAction::Answer(r) if r.status == 404 && r.body.is_empty()));
    let (same, a) = serve_static_file(&req, ServeStage::Read, ServeEvent::Started);
    assert_eq!(same, ServeStage::Read);
    assert!(matches!(a, ServeAction::Ignore));
}

#[test]
fn drawings_hold_their_images() {
    let svg = b"<svg><image href = \"http://x/a.png\"/><a xlink:href='#z'/><image href='ipfs://Q.gif'/></svg>".to_vec();
    let links = svg_links(&svg).unwrap();
    assert_eq!(links.len(), 3);
    assert_eq!(links[0].attribute, "href");
    assert_eq!(links[0].href, "http://x/a.png");
    assert_eq!(links[1].attribute, "xlink:href");
    assert_eq!(links[1].href, "#z");
    let out = patch_svg_images_regex(&svg, &links, &vec![b"abc".to_vec(), vec![], b"d".to_vec()]);
    assert_eq!(
        String::from_utf8(out).unwrap(),
        "<svg><image href=\"data:image/png;base64,YWJj\"/><a xlink:href='#z'/><image href=\"data:image/gif;base64,ZA==\"/></svg>"
    );
    assert!(svg_links(&vec![0xff, 0xfe]).is_none());
    let plain = b"<svg><a href=\"data:x\"/></svg>".to_vec();
    let links = svg_links(&plain).unwrap();
    assert_eq!(patch_svg_images_regex(&plain, &links, &vec![vec![]]), plain);
}

#[test]
fn references_are_fetched_by_scheme() {
    assert!(matches!(link_source("data:http://"), LinkSource::Keep));
    assert!(matches!(link_source("https://x"), LinkSource::Http));
    assert!(matches!(link_source("ipfs://Qm/1"), LinkSource::Ipfs(c) if c == "Qm/1"));
    assert!(matches!(link_source("a.png"), LinkSource::Keep));
    assert!(matches!(image_source("http://x"), ImageSource::Http));
    assert!(matches!(image_source("ipfs://Qm"), ImageSource::Ipfs(c) if c == "Qm"));
    assert!(matches!(image_source("data:,x"), ImageSource::Data));
    assert!(matches!(image_source("ftp://x"), ImageSource::Unsupported));
    assert!(!is_uri_readable("ipfs:Qm"));
    assert!(is_uri_readable("ipfs://Qm"));
}

#[test]
fn the_address_of_an_image_is_in_the_metadata() {
    let text = |s: &str| Some(s.to_string());
    let uri = |contract: bool, m: Option<String>| uri_step(contract, read_stored(&m));
    assert!(matches!(uri(false, text(" {\"image\":\"a\"} ")), UriStep::Uri(u) if u == "a"));
    assert!(matches!(uri(false, text("{\"image\":7}")), UriStep::Fail(ImageError::NotText)));
    assert!(matches!(uri(false, text("{}")), UriStep::Fail(ImageError::NoImage)));
    assert!(matches!(uri(false, text("x")), UriStep::Fail(ImageError::InvalidMetadata)));
    assert!(matches!(uri(false, text("  ")), UriStep::Fail(ImageError::EmptyMetadata)));
    assert!(matches!(uri(false, None), UriStep::Fail(ImageError::Database)));
    assert!(matches!(uri(true, None), UriStep::AskTokens));
    assert!(matches!(uri(true, text("{}")), UriStep::AskTokens));
    assert!(matches!(uri(true, text("{\"image\":7}")), UriStep::Fail(ImageError::NotText)));
    let fields = read_tokens(&names(&["x", "{}", "{\"image\":\"b\"}", "{\"image\":1}"]));
    assert!(matches!(uri_of_tokens(&fields), UriStep::Uri(u) if u == "b"));
    assert!(matches!(uri_of_tokens(&vec![]), UriStep::Fail(ImageError::NoToken)));
    let bad = vec![ImageField::NotText, ImageField::Text("b".to_string())];
    assert!(matches!(uri_of_tokens(&bad), UriStep::Fail(ImageError::NotText)));
}

#[test]
fn data_addresses_hold_images() {
    let r = read_data_uri("data:image/svg+xml;base64,PHN2Zy8+").unwrap();
    assert!(matches!(r, ErcImageType::Svg(b) if b == b"<svg/>".to_vec()));
    let r = read_data_uri("data:image/svg+xml;charset=utf-8,a").unwrap();
    assert!(matches!(r, ErcImageType::DynamicImage(b) if b == b"a".to_vec()));
    assert_eq!(read_data_uri("data:image/png").unwrap_err(), ImageError::DataUrl);
    assert!(matches!(classify_bytes(b"<?xml ?>".to_vec()), ErcImageType::Svg(_)));
    assert!(matches!(classify_bytes(b"<svg".to_vec()), ErcImageType::Svg(_)));
    assert!(matches!(classify_bytes(b"<sv".to_vec()), ErcImageType::DynamicImage(_)));
    assert_eq!(token_dir("0xa").unwrap(), vec!["0xa"]);
    assert_eq!(token_dir("0xa:0xb").unwrap(), vec!["0xa", "0xb"]);
    assert_eq!(token_dir("0xa:").unwrap(), vec!["0xa"]);
    assert_eq!(token_dir("0xa:b:c").unwrap_err(), ImageError::TokenId);
}

fn png(width: u32, height: u32) -> Vec<u8> {
    let mut out = Vec::new();
    image::DynamicImage::new_rgb8(width, height)
        .write_to(&mut std::io::Cursor::new(&mut out), image::ImageFormat::Png)
        .unwrap();
    out
}

fn size(bytes: &[u8]) -> (u32, u32) {
    let i = image::load_from_memory(bytes).unwrap();
    (i.width(), i.height())
}

#[test]
fn raster_images_are_kept_in_three_sizes() {
    let files = process_raster(&png(300, 20)).unwrap();
    assert!(files.failed.is_none());
    let got: Vec<(String, (u32, u32))> =
        files.files.iter().map(|f| (f.name.clone(), size(&f.contents))).collect();
    assert_eq!(
        got,
        vec![
            ("image.png".to_string(), (300, 20)),
            ("image@medium.png".to_string(), (250, 250)),
            ("image@small.png".to_string(), (100, 100)),
        ]
    );
    assert_eq!(process_raster(&vec![1, 2, 3]).unwrap_err(), ImageError::Format);
    let cut = png(30, 30)[..40].to_vec();
    assert_eq!(process_raster(&cut).unwrap_err(), ImageError::Load);
    // A picture of no columns and no rows.
    let mut empty = b"farbfeld".to_vec();
    empty.extend([0; 8]);
    assert_eq!(process_raster(&empty).unwrap_err(), ImageError::NoPixels);
    assert_eq!(find_base_image(&vec!["image@small.png".into(), "x".into(), "image.png".into()]), Some(2));
    assert_eq!(find_base_image(&vec!["image@small.png".into()]), None);
    let files = files_of_raster("png", Some(vec![1]), None, Some(vec![2]));
    assert_eq!(files.failed.as_deref(), Some("image@medium.png"));
    assert_eq!(files.files.len(), 1);
}

#[test]
fn the_image_of_a_token_is_got_stage_by_stage() {
    let stored = |s: &str| read_stored(&Some(s.to_string()));
    let (s, a) = fetch_and_process_image("0xa", TIME, FetchStage::Begin,
        FetchEvent::Metadata(Stored::Empty),
    );
    assert!(matches!(a, FetchAction::AskTokens));
    let fields = read_tokens(&names(&["{\"image\":\"https://x/y\"}"]));
    let (s, a) = fetch_and_process_image("0xa", TIME, s, FetchEvent::Tokens(Some(fields)));
    assert!(matches!(a, FetchAction::FetchHttp(u) if u == "https://x/y"));
    let (_, a) = fetch_and_process_image("0xa", TIME, s, FetchEvent::Bytes(Some(png(9, 9))));
    match a {
        FetchAction::Write { dir, files, time, image } => {
            assert_eq!(dir, vec!["0xa"]);
            assert!(files.failed.is_none());
            assert_eq!(time, TIME);
            assert_eq!(image, "0xa/image");
        }
        other => panic!("{:?}", other),
    }
    let event = FetchEvent::Metadata(stored("{\"image\":\"ipfs://Qm\"}"));
    let (s, a) = fetch_and_process_image("0xa:0x1", TIME, FetchStage::Begin, event);
    assert!(matches!(a, FetchAction::FetchIpfs(c) if c == "Qm"));
    let svg = b"<svg><image href=\"http://x/a.png\"/></svg>".to_vec();
    let (s, a) = fetch_and_process_image("0xa:0x1", TIME, s, FetchEvent::Bytes(Some(svg)));
    assert!(matches!(a, FetchAction::FetchLinks));
    let images = FetchEvent::Images(Some(vec![b"abc".to_vec()]));
    let (s, a) = fetch_and_process_image("0xa:0x1", TIME, s, images);
    assert!(matches!(s, FetchStage::Done));
    match a {
        FetchAction::Write { dir, files, image, .. } => {
            assert_eq!(dir, vec!["0xa", "0x1"]);
            assert_eq!(image, "0xa/0x1/image.svg");
            assert_eq!(files.files[0].name, "image.svg");
            assert_eq!(
                files.files[0].contents,
                b"<svg><image href=\"data:image/png;base64,YWJj\"/></svg>".to_vec()
            );
        }
        other => panic!("{:?}", other),
    }
    let event = FetchEvent::Metadata(stored("{\"image\":\"ftp://x\"}"));
    let (_, a) = fetch_and_process_image("0xa:0x1", TIME, FetchStage::Begin, event);
    assert!(matches!(a, FetchAction::Fail(ImageError::UnsupportedScheme)));
    let (_, a) = fetch_and_process_image("0xa", TIME, FetchStage::Bytes, FetchEvent::Bytes(None));
    assert!(matches!(a, FetchAction::Fail(ImageError::Fetch)));
    let broken = FetchEvent::Bytes(Some(b"<svg\xff".to_vec()));
    let (_, a) = fetch_and_process_image("0xa", TIME, FetchStage::Bytes, broken);
    assert!(matches!(a, FetchAction::Fail(ImageError::Svg)));
    let drawing = FetchEvent::Bytes(Some(b"<svg/>".to_vec()));
    let (_, a) = fetch_and_process_image("0xa:1:2", TIME, FetchStage::Bytes, drawing);
    assert!(matches!(a, FetchAction::Fail(ImageError::TokenId)));
}

fn settings(tcp: u64, interval: u64, timeout: u64) -> ProxySettings {
    ProxySettings {
        tcp_keepalive_interval: tcp,
        http2_keepalive_interval: interval,
        http2_keepalive_timeout: timeout,
    }
}

#[test]
fn keepalives_follow_the_settings() {
    let k = create_grpc_proxy_client(&settings(60, 30, 10));
    assert_eq!((k.tcp, k.http2_interval, k.http2_timeout), (Some(60), Some(30), Some(10)));
    let k = create_grpc_proxy_client(&settings(0, 0, 10));
    assert_eq!((k.tcp, k.http2_interval, k.http2_timeout), (None, None, None));
}

#[test]
fn websockets_are_asked_for_by_two_headers() {
    let t = |s: &str| Some(s.to_string());
    assert!(is_websocket_upgrade(&t("WebSocket"), &t("keep-alive, Upgrade")));
    assert!(!is_websocket_upgrade(&t("h2c"), &t("upgrade")));
    assert!(!is_websocket_upgrade(&t("websocket"), &None));
    assert!(!is_websocket_upgrade(&None, &t("upgrade")));
}

#[test]
fn origins_are_mirrored_or_listed() {
    assert!(create_cors_layer(&None).is_none());
    let p = create_cors_layer(&Some(names(&["*"]))).unwrap();
    assert!(matches!(p.origins, Origins::Mirror));
    assert_eq!(p.max_age_secs, 86400);
    assert_eq!(p.allow_methods, vec!["GET", "POST"]);
    assert!(p.allow_headers.contains(&"x-grpc-web"));
    assert!(p.expose_headers.contains(&"grpc-status"));
    let p = create_cors_layer(&Some(names(&["*", "http://a"]))).unwrap();
    assert!(matches!(p.origins, Origins::List(l) if l.len() == 2));
}

#[test]
fn the_listener_goes_on_until_shut_down() {
    let p = Proxy::new(None, "v".to_string(), None, settings(5, 0, 0));
    assert!(!p.listen_plan().tls);
    assert!(matches!(p.start(ListenEvent::Accepted), ListenAction::Serve { .. }));
    let p = p.with_tls_config();
    assert!(p.listen_plan().tls);
    assert_eq!(
        p.start(ListenEvent::Accepted),
        ListenAction::Handshake { probe_secs: Some(5) }
    );
    assert_eq!(p.start(ListenEvent::Handshake { ok: false }), ListenAction::Drop);
    assert!(matches!(p.start(ListenEvent::Handshake { ok: true }), ListenAction::Serve { .. }));
    assert_eq!(p.start(ListenEvent::AcceptFailed), ListenAction::Warn);
    assert_eq!(p.start(ListenEvent::Shutdown), ListenAction::Stop);
}

#[test]
fn the_first_handler_that_takes_a_request_answers_it() {
    assert_eq!(choose_handler(&vec![false, true, true]), Some(1));
    assert_eq!(choose_handler(&vec![false]), None);
    let takes: Vec<bool> =
        handlers().into_iter().map(|h| h == HandlerKind::Static && should_handle("/static/x")).collect();
    assert_eq!(choose_handler(&takes), Some(5));
    let r = default_reply("1.8.0 \"x\"");
    assert_eq!(
        body_string(&r),
        r#"{"service":"torii","success":true,"version":"1.8.0 \"x\""}"#
    );
    assert_eq!(r.header("content-type").unwrap(), "application/json");
    let h = hostname_header(&Some("pod-1".to_string())).unwrap();
    assert_eq!(h.value, "pod-1");
    assert!(hostname_header(&Some("a\nb".to_string())).is_none());
    assert!(hostname_header(&None).is_none());
}

#[test]
fn newer_keys_are_preferred() {
    let k = |b: u8| vec![vec![b], vec![b + 1]];
    assert_eq!(load_tls_key(&k(1), &k(5)), Some(vec![1]));
    assert_eq!(load_tls_key(&vec![], &k(5)), Some(vec![5]));
    assert_eq!(load_tls_key(&vec![], &vec![]), None);
    assert_eq!(alpn_protocols(), vec!["h2", "http/1.1", "http/1.0"]);
}
