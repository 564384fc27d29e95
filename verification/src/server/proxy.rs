//! The public listener: keep-alive, origins, and which handler answers.
use vstd::prelude::*;
use vstd::string::*;
use vstd::utf8::encode_utf8;
use crate::options::keepalive;
use crate::server::reply::{bytes_of, header_views, json_string, json_text, Header, Reply};
use crate::text::{concat, contains, copy_strings, has_substring, lowercase, str_eq, to_lowercase, views};

verus! {

/// Settings of the connections: seconds, where zero switches off.
#[derive(Clone, Copy, Debug, PartialEq, Eq, Structural)]
pub struct ProxySettings {
    /// Seconds between probes of an idle connection.
    pub tcp_keepalive_interval: u64,
    /// Seconds between pings on a connection of HTTP/2.
    pub http2_keepalive_interval: u64,
    /// Seconds to wait for the answer to a ping.
    pub http2_keepalive_timeout: u64,
}

impl ProxySettings {
    /// The seconds between probes, unless switched off.
    pub fn tcp_keepalive(&self) -> (r: Option<u64>)
        ensures
            r == keepalive(self.tcp_keepalive_interval),
    {
        if self.tcp_keepalive_interval > 0 {
            Some(self.tcp_keepalive_interval)
        } else {
            None
        }
    }

    /// The seconds between pings, unless switched off.
    pub fn http2_keepalive_interval(&self) -> (r: Option<u64>)
        ensures
            r == keepalive(self.http2_keepalive_interval),
    {
        if self.http2_keepalive_interval > 0 {
            Some(self.http2_keepalive_interval)
        } else {
            None
        }
    }

    /// The seconds to wait for the answer to a ping, unless switched off.
    pub fn http2_keepalive_timeout(&self) -> (r: Option<u64>)
        ensures
            r == keepalive(self.http2_keepalive_timeout),
    {
        if self.http2_keepalive_timeout > 0 {
            Some(self.http2_keepalive_timeout)
        } else {
            None
        }
    }
}

/// How connections are kept alive.
#[derive(Clone, Copy, Debug, PartialEq, Eq, Structural)]
pub struct KeepAlive {
    pub tcp: Option<u64>,
    pub http2_interval: Option<u64>,
    /// Only together with an interval.
    pub http2_timeout: Option<u64>,
}

/// How connections are kept alive under the settings.
pub open spec fn keepalive_of(s: ProxySettings) -> KeepAlive {
    KeepAlive {
        tcp: keepalive(s.tcp_keepalive_interval),
        http2_interval: keepalive(s.http2_keepalive_interval),
        http2_timeout: if s.http2_keepalive_interval > 0 {
            keepalive(s.http2_keepalive_timeout)
        } else {
            None
        },
    }
}

/// How connections are kept alive: the same for those that are accepted and for those that the
/// client for gRPC makes.
pub fn create_grpc_proxy_client(settings: &ProxySettings) -> (r: KeepAlive)
    ensures
        r == keepalive_of(*settings),
{
    let http2_interval = settings.http2_keepalive_interval();
    KeepAlive {
        tcp: settings.tcp_keepalive(),
        http2_interval,
        http2_timeout: if http2_interval.is_some() {
            settings.http2_keepalive_timeout()
        } else {
            None
        },
    }
}

/// Whether the lower-case headers ask for a WebSocket: the upgrade is to one, and the connection
/// is to be upgraded.
pub open spec fn asks_websocket(upgrade: Option<Seq<char>>, connection: Option<Seq<char>>) -> bool {
    upgrade == Some("websocket"@) && connection is Some && has_substring(
        connection->0,
        "upgrade"@,
    )
}

/// Whether the lower-case headers ask for a WebSocket.
pub fn websocket_headers(upgrade: &Option<String>, connection: &Option<String>) -> (r: bool)
    ensures
        r == asks_websocket(crate::text::opt_view(*upgrade), crate::text::opt_view(*connection)),
{
    match (upgrade, connection) {
        (Some(u), Some(c)) => str_eq(u, "websocket") && contains(c, "upgrade"),
        _ => false,
    }
}

/// The lower case of an optional text.
pub open spec fn lowercase_opt(s: Option<String>) -> Option<Seq<char>> {
    match s {
        Some(t) => Some(lowercase(t@)),
        None => None,
    }
}

/// Whether a request with these headers, in any case of their letters, asks for a WebSocket.
pub fn is_websocket_upgrade(upgrade: &Option<String>, connection: &Option<String>) -> (r: bool)
    ensures
        r == asks_websocket(lowercase_opt(*upgrade), lowercase_opt(*connection)),
{
    let u = match upgrade {
        Some(t) => Some(to_lowercase(t)),
        None => None,
    };
    let c = match connection {
        Some(t) => Some(to_lowercase(t)),
        None => None,
    };
    websocket_headers(&u, &c)
}

/// Which origins may read the answers.
#[derive(Debug)]
pub enum Origins {
    /// The origin of each request.
    Mirror,
    List(Vec<String>),
}

/// What the answers to requests of other origins allow.
#[derive(Debug)]
pub struct CorsPlan {
    pub max_age_secs: u64,
    pub allow_methods: Vec<&'static str>,
    pub allow_headers: Vec<&'static str>,
    pub expose_headers: Vec<&'static str>,
    pub origins: Origins,
}

/// The headers that requests of other origins may hold.
pub open spec fn allowed_headers() -> Seq<Seq<char>> {
    seq![
        "accept"@,
        "origin"@,
        "content-type"@,
        "access-control-allow-origin"@,
        "upgrade"@,
        "x-grpc-web"@,
        "x-grpc-timeout"@,
        "x-user-agent"@,
        "connection"@,
        "sec-websocket-key"@,
        "sec-websocket-version"@,
        "grpc-accept-encoding"@,
        "grpc-encoding"@,
    ]
}

/// The headers of answers that other origins may read.
pub open spec fn exposed_headers() -> Seq<Seq<char>> {
    seq!["grpc-status"@, "grpc-message"@, "grpc-status-details-bin"@, "grpc-encoding"@]
}

/// Whether the plan allows the listed origins to read the answers. A single star mirrors the origin
/// of each request.
pub open spec fn cors_allows(list: Seq<String>, p: CorsPlan) -> bool {
    &&& p.max_age_secs == 86400
    &&& p.allow_methods@.map_values(|s: &'static str| s@) == seq!["GET"@, "POST"@]
    &&& p.allow_headers@.map_values(|s: &'static str| s@) == allowed_headers()
    &&& p.expose_headers@.map_values(|s: &'static str| s@) == exposed_headers()
    &&& if list.len() == 1 && list[0]@ == "*"@ {
        p.origins is Mirror
    } else {
        p.origins matches Origins::List(v) && views(v@) == views(list)
    }
}

/// What the answers allow other origins; nothing where none is allowed. A single star mirrors the
/// origin of each request.
pub fn create_cors_layer(allowed_origins: &Option<Vec<String>>) -> (r: Option<CorsPlan>)
    ensures
        r is Some == allowed_origins is Some,
        r matches Some(p) ==> cors_allows(allowed_origins->0@, p),
{
    match allowed_origins {
        None => None,
        Some(list) => {
            let allow_methods: Vec<&'static str> = vec!["GET", "POST"];
            let allow_headers: Vec<&'static str> = vec![
                "accept",
                "origin",
                "content-type",
                "access-control-allow-origin",
                "upgrade",
                "x-grpc-web",
                "x-grpc-timeout",
                "x-user-agent",
                "connection",
                "sec-websocket-key",
                "sec-websocket-version",
                "grpc-accept-encoding",
                "grpc-encoding",
            ];
            let expose_headers: Vec<&'static str> = vec![
                "grpc-status",
                "grpc-message",
                "grpc-status-details-bin",
                "grpc-encoding",
            ];
            proof {
                assert(allow_methods@.map_values(|s: &'static str| s@) =~= seq!["GET"@, "POST"@]);
                assert(allow_headers@.map_values(|s: &'static str| s@) =~= allowed_headers());
                assert(expose_headers@.map_values(|s: &'static str| s@) =~= exposed_headers());
            }
            let origins = if list.len() == 1 && str_eq(&list[0], "*") {
                Origins::Mirror
            } else {
                Origins::List(copy_strings(list))
            };
            Some(
                CorsPlan {
                    max_age_secs: 86400,
                    allow_methods,
                    allow_headers,
                    expose_headers,
                    origins,
                },
            )
        },
    }
}

/// How the listener is opened.
#[derive(Debug)]
pub struct ListenPlan {
    pub tls: bool,
    pub keep_alive: KeepAlive,
    pub cors: Option<CorsPlan>,
}

/// What happens on the listener.
#[derive(Clone, Copy, Debug, PartialEq, Eq, Structural)]
pub enum ListenEvent {
    /// A connection was accepted.
    Accepted,
    /// A connection could not be accepted.
    AcceptFailed,
    /// The handshake of a connection ended.
    Handshake { ok: bool },
    Shutdown,
}

/// What is done about it.
#[derive(Clone, Copy, Debug, PartialEq, Eq, Structural)]
pub enum ListenAction {
    /// Probes are set up where they are on, and a handshake is begun.
    Handshake { probe_secs: Option<u64> },
    Serve { keep_alive: KeepAlive },
    /// The connection is given up, the listener goes on.
    Drop,
    /// The failure is noted, the listener goes on.
    Warn,
    Stop,
}

/// The listener: the settings of its connections, who may read the answers, and whether it speaks
/// TLS.
#[derive(Debug)]
pub struct Proxy {
    pub allowed_origins: Option<Vec<String>>,
    pub version_spec: String,
    pub hostname: Option<String>,
    pub tls: bool,
    pub proxy_settings: ProxySettings,
}

/// What is done about an event of the listener. Connections of TLS are served after their
/// handshake, others at once; a failure never ends the listener, only the shutdown does.
pub open spec fn listen_next(tls: bool, s: ProxySettings, event: ListenEvent) -> ListenAction {
    match event {
        ListenEvent::Accepted => if tls {
            ListenAction::Handshake { probe_secs: keepalive(s.tcp_keepalive_interval) }
        } else {
            ListenAction::Serve { keep_alive: keepalive_of(s) }
        },
        ListenEvent::AcceptFailed => ListenAction::Warn,
        ListenEvent::Handshake { ok } => if ok {
            ListenAction::Serve { keep_alive: keepalive_of(s) }
        } else {
            ListenAction::Drop
        },
        ListenEvent::Shutdown => ListenAction::Stop,
    }
}

impl Proxy {
    /// The listener without TLS.
    pub fn new(
        allowed_origins: Option<Vec<String>>,
        version_spec: String,
        hostname: Option<String>,
        proxy_settings: ProxySettings,
    ) -> (r: Proxy)
        ensures
            r.allowed_origins == allowed_origins,
            r.version_spec == version_spec,
            r.hostname == hostname,
            r.proxy_settings == proxy_settings,
            !r.tls,
    {
        Proxy { allowed_origins, version_spec, hostname, tls: false, proxy_settings }
    }

    /// The listener with TLS.
    pub fn with_tls_config(self) -> (r: Proxy)
        ensures
            r == (Proxy { tls: true, ..self }),
    {
        let mut p = self;
        p.tls = true;
        p
    }

    /// How the listener is opened.
    pub fn listen_plan(&self) -> (r: ListenPlan)
        ensures
            r.tls == self.tls,
            r.keep_alive == keepalive_of(self.proxy_settings),
            r.cors is Some == self.allowed_origins is Some,
            r.cors matches Some(p) ==> cors_allows(self.allowed_origins->0@, p),
    {
        ListenPlan {
            tls: self.tls,
            keep_alive: create_grpc_proxy_client(&self.proxy_settings),
            cors: create_cors_layer(&self.allowed_origins),
        }
    }

    /// What is done about an event of the listener.
    pub fn start(&self, event: ListenEvent) -> (r: ListenAction)
        ensures
            r == listen_next(self.tls, self.proxy_settings, event),
    {
        match event {
            ListenEvent::Accepted => if self.tls {
                ListenAction::Handshake { probe_secs: self.proxy_settings.tcp_keepalive() }
            } else {
                ListenAction::Serve { keep_alive: create_grpc_proxy_client(&self.proxy_settings) }
            },
            ListenEvent::AcceptFailed => ListenAction::Warn,
            ListenEvent::Handshake { ok } => if ok {
                ListenAction::Serve { keep_alive: create_grpc_proxy_client(&self.proxy_settings) }
            } else {
                ListenAction::Drop
            },
            ListenEvent::Shutdown => ListenAction::Stop,
        }
    }
}

/// The listener stops on the shutdown and on nothing else.
pub proof fn only_shutdown_stops(tls: bool, s: ProxySettings, event: ListenEvent)
    ensures
        listen_next(tls, s, event) == ListenAction::Stop <==> event == ListenEvent::Shutdown,
{
}

/// The private keys of a key file, and which of the two readings of it gave them.
pub open spec fn key_chosen(pkcs8: Seq<Seq<u8>>, rsa: Seq<Seq<u8>>) -> Option<Seq<u8>> {
    if pkcs8.len() > 0 {
        Some(pkcs8[0])
    } else if rsa.len() > 0 {
        Some(rsa[0])
    } else {
        None
    }
}

/// The keys as sequences of bytes.
pub open spec fn key_views(keys: Seq<Vec<u8>>) -> Seq<Seq<u8>> {
    keys.map_values(|k: Vec<u8>| k@)
}

/// A copy of bytes.
fn copy_bytes(v: &Vec<u8>) -> (r: Vec<u8>)
    ensures
        r@ == v@,
{
    let mut out: Vec<u8> = Vec::new();
    let mut i: usize = 0;
    while i < v.len()
        invariant
            i <= v@.len(),
            out@ =~= v@.take(i as int),
        decreases v@.len() - i,
    {
        out.push(v[i]);
        i = i + 1;
    }
    proof {
        assert(v@.take(i as int) =~= v@);
    }
    out
}

/// The private key of the server: the first in the format PKCS #8, else the first of RSA; none
/// where the file holds neither.
pub fn load_tls_key(pkcs8: &Vec<Vec<u8>>, rsa: &Vec<Vec<u8>>) -> (r: Option<Vec<u8>>)
    ensures
        match r {
            Some(k) => key_chosen(key_views(pkcs8@), key_views(rsa@)) == Some(k@),
            None => key_chosen(key_views(pkcs8@), key_views(rsa@)) is None,
        },
{
    if pkcs8.len() > 0 {
        Some(copy_bytes(&pkcs8[0]))
    } else if rsa.len() > 0 {
        Some(copy_bytes(&rsa[0]))
    } else {
        None
    }
}

/// The protocols that are offered under TLS, the preferred one first.
pub fn alpn_protocols() -> (r: Vec<&'static str>)
    ensures
        r@.map_values(|s: &'static str| s@) == seq!["h2"@, "http/1.1"@, "http/1.0"@],
{
    let r: Vec<&'static str> = vec!["h2", "http/1.1", "http/1.0"];
    proof {
        assert(r@.map_values(|s: &'static str| s@) =~= seq!["h2"@, "http/1.1"@, "http/1.0"@]);
    }
    r
}

/// Whether a text can stand in a header: no control character but the tab.
pub open spec fn header_text(s: Seq<char>) -> bool {
    forall|i: int| 0 <= i < s.len() ==> (0x20 <= ((#[trigger] s[i]) as u32) && (s[i] as u32) != 0x7f) || s[i] == '\t'
}

/// Whether a text can stand in a header.
fn is_header_text(s: &str) -> (r: bool)
    ensures
        r == header_text(s@),
{
    let cs = crate::text::chars_of(s);
    let mut i: usize = 0;
    while i < cs.len()
        invariant
            i <= cs@.len(),
            cs@ == s@,
            forall|k: int|
                0 <= k < i ==> (0x20 <= ((#[trigger] cs@[k]) as u32) && (cs@[k] as u32) != 0x7f) || cs@[k] == '\t',
        decreases cs@.len() - i,
    {
        let c = cs[i];
        let n: u32 = c as u32;
        if !((0x20 <= n && n != 0x7f) || c == '\t') {
            proof {
                assert(s@[i as int] == c);
            }
            return false;
        }
        i = i + 1;
    }
    true
}

/// What answers requests.
#[derive(Clone, Copy, Debug, PartialEq, Eq, Structural)]
pub enum HandlerKind {
    GraphQl,
    Grpc,
    Mcp,
    Metadata,
    Sql,
    Static,
}

/// The handlers, in the order in which they are asked.
pub fn handlers() -> (r: Vec<HandlerKind>)
    ensures
        r@ == seq![
            HandlerKind::GraphQl,
            HandlerKind::Grpc,
            HandlerKind::Mcp,
            HandlerKind::Metadata,
            HandlerKind::Sql,
            HandlerKind::Static,
        ],
{
    let r: Vec<HandlerKind> = vec![
        HandlerKind::GraphQl,
        HandlerKind::Grpc,
        HandlerKind::Mcp,
        HandlerKind::Metadata,
        HandlerKind::Sql,
        HandlerKind::Static,
    ];
    proof {
        assert(r@ =~= seq![
            HandlerKind::GraphQl,
            HandlerKind::Grpc,
            HandlerKind::Mcp,
            HandlerKind::Metadata,
            HandlerKind::Sql,
            HandlerKind::Static,
        ]);
    }
    r
}

/// The first handler that takes the request.
pub open spec fn first_taker(takes: Seq<bool>) -> Option<int>
    decreases takes.len(),
{
    if takes.len() == 0 {
        None
    } else {
        match first_taker(takes.drop_last()) {
            Some(i) => Some(i),
            None => if takes.last() {
                Some(takes.len() - 1)
            } else {
                None
            },
        }
    }
}

/// The first handler that takes the request; none where no handler does. `takes` tells for each
/// handler whether it would.
pub fn choose_handler(takes: &Vec<bool>) -> (r: Option<usize>)
    ensures
        match r {
            Some(i) => first_taker(takes@) == Some(i as int) && i < takes@.len() && takes@[i as int]
                && forall|j: int| 0 <= j < i ==> !takes@[j],
            None => first_taker(takes@) is None && forall|j: int|
                0 <= j < takes@.len() ==> !takes@[j],
        },
{
    let mut i: usize = 0;
    proof {
        assert(takes@.take(0) =~= Seq::<bool>::empty());
    }
    while i < takes.len()
        invariant
            i <= takes@.len(),
            first_taker(takes@.take(i as int)) is None,
            forall|j: int| 0 <= j < i ==> !takes@[j],
        decreases takes@.len() - i,
    {
        proof {
            assert(takes@.take(i + 1).drop_last() =~= takes@.take(i as int));
        }
        if takes[i] {
            proof {
                taker_stays(takes@, i + 1, i as int);
            }
            return Some(i);
        }
        i = i + 1;
    }
    proof {
        assert(takes@.take(i as int) =~= takes@);
    }
    None
}

/// The first taker among the first handlers is the first among all.
proof fn taker_stays(takes: Seq<bool>, n: int, i: int)
    requires
        0 <= n <= takes.len(),
        first_taker(takes.take(n)) == Some(i),
    ensures
        first_taker(takes) == Some(i),
    decreases takes.len(),
{
    if n == takes.len() {
        assert(takes.take(n) =~= takes);
    } else {
        assert(takes.drop_last().take(n) =~= takes.take(n));
        taker_stays(takes.drop_last(), n, i);
    }
}

/// The body of the answer that no handler gives.
pub open spec fn default_body(version_spec: Seq<char>) -> Seq<char> {
    "{\"service\":\"torii\",\"success\":true,\"version\":"@ + json_text(version_spec) + "}"@
}

/// The answer that no handler gives: what is served, in which version.
pub fn default_reply(version_spec: &str) -> (r: Reply)
    ensures
        r.status == 200,
        header_views(r.headers@) == seq![("content-type"@, "application/json"@)],
        r.body@ == encode_utf8(default_body(version_spec@)),
{
    let text = concat(
        &concat(
            "{\"service\":\"torii\",\"success\":true,\"version\":",
            &json_string(version_spec),
        ),
        "}",
    );
    let headers: Vec<Header> = vec![
        Header { name: "content-type", value: "application/json".to_owned() },
    ];
    proof {
        assert(header_views(headers@) =~= seq![("content-type"@, "application/json"@)]);
    }
    Reply { status: 200, headers, body: bytes_of(&text) }
}

/// The header that names the host, where the name can stand in a header.
pub fn hostname_header(hostname: &Option<String>) -> (r: Option<Header>)
    ensures
        match r {
            Some(h) => hostname is Some && header_text(hostname->0@) && h.name@ == "x-torii-host"@
                && h.value@ == hostname->0@,
            None => hostname is None || !header_text(hostname->0@),
        },
{
    match hostname {
        Some(name) => if is_header_text(name) {
            Some(Header { name: "x-torii-host", value: name.clone() })
        } else {
            None
        },
        None => None,
    }
}

} // verus!
