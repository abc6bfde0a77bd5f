//! What the node decides about its RPC endpoints before any server is
//! started: where each endpoint listens, which origins may call the HTTP
//! endpoint, which handlers each API brings, and when a call is turned away
//! for coming too often.

use std::time::Duration;
use vstd::prelude::*;
use vstd::string::StrSliceExecFns;

verus! {

/// An IPv4 address and a port.
#[derive(Clone, Copy, Debug, PartialEq, Eq)]
pub struct SocketAddress {
    pub ip: (u8, u8, u8, u8),
    pub port: u16,
}

/// The address an endpoint listens on: the given address, or all
/// interfaces where none is given, at the given port, or at port 0 where
/// none is given.
pub open spec fn listen_address(ip: Option<(u8, u8, u8, u8)>, port: Option<u16>) -> SocketAddress {
    SocketAddress {
        ip: match ip {
            Some(ip) => ip,
            None => (0u8, 0u8, 0u8, 0u8),
        },
        port: match port {
            Some(port) => port,
            None => 0u16,
        },
    }
}

fn address_for(ip: Option<(u8, u8, u8, u8)>, port: Option<u16>) -> (address: SocketAddress)
    ensures
        address == listen_address(ip, port),
{
    let ipv4 = match ip {
        Some(ip) => ip,
        None => (0, 0, 0, 0),
    };
    SocketAddress { ip: ipv4, port: port.unwrap_or(0) }
}

/// Where the TCP endpoint listens. It is enabled exactly when a port is
/// given.
#[derive(Debug, PartialEq)]
pub struct TcpConfiguration {
    pub enabled: bool,
    pub address: SocketAddress,
}

impl TcpConfiguration {
    pub fn new(ip: Option<(u8, u8, u8, u8)>, port: Option<u16>) -> (conf: Self)
        ensures
            conf.enabled == port is Some,
            conf.address == listen_address(ip, port),
    {
        TcpConfiguration { enabled: port.is_some(), address: address_for(ip, port) }
    }
}

/// Where the WebSocket endpoint listens, and the largest payload it takes.
#[derive(Debug, PartialEq)]
pub struct WsConfiguration {
    pub enabled: bool,
    pub address: SocketAddress,
    pub max_payload_bytes: usize,
}

impl WsConfiguration {
    pub fn new(ip: Option<(u8, u8, u8, u8)>, port: Option<u16>, max_payload_bytes: usize) -> (conf:
        Self)
        ensures
            conf.enabled == port is Some,
            conf.address == listen_address(ip, port),
            conf.max_payload_bytes == max_payload_bytes,
    {
        WsConfiguration { enabled: port.is_some(), address: address_for(ip, port), max_payload_bytes }
    }
}

/// An origin that may call the HTTP endpoint.
#[derive(Debug, PartialEq)]
pub enum AccessControlAllowOrigin {
    /// The origin with this text.
    Value(String),
    /// The null origin.
    Null,
    /// Any origin but the null origin.
    Any,
}

/// What an allowed origin is.
pub enum OriginView {
    Value(Seq<char>),
    Null,
    Any,
}

impl View for AccessControlAllowOrigin {
    type V = OriginView;

    open spec fn view(&self) -> OriginView {
        match self {
            AccessControlAllowOrigin::Value(text) => OriginView::Value(text@),
            AccessControlAllowOrigin::Null => OriginView::Null,
            AccessControlAllowOrigin::Any => OriginView::Any,
        }
    }
}

/// Which origins may call the HTTP endpoint.
#[derive(Debug, PartialEq)]
pub enum DomainsValidation {
    /// Only the listed ones.
    AllowOnly(Vec<AccessControlAllowOrigin>),
    /// Origins are not checked.
    Disabled,
}

/// What a validation of origins is.
pub enum DomainsView {
    AllowOnly(Seq<OriginView>),
    Disabled,
}

impl View for DomainsValidation {
    type V = DomainsView;

    open spec fn view(&self) -> DomainsView {
        match self {
            DomainsValidation::AllowOnly(origins) => DomainsView::AllowOnly(
                origins@.map_values(|o: AccessControlAllowOrigin| o@),
            ),
            DomainsValidation::Disabled => DomainsView::Disabled,
        }
    }
}

/// The text under which the HTTP server knows the origin that `given`
/// names: its protocol and host, as the server normalizes them.
pub uninterp spec fn origin_text(given: Seq<char>) -> Seq<char>;

/// The allowed origin that a piece of text names: any origin for `all`, `*`
/// and `any`, the null origin for `null`, and else the origin of that text.
pub open spec fn origin_of(given: Seq<char>) -> OriginView {
    if given == "all"@ || given == "*"@ || given == "any"@ {
        OriginView::Any
    } else if given == "null"@ {
        OriginView::Null
    } else {
        OriginView::Value(origin_text(given))
    }
}

/// The longest text that is read as an origin.
pub const MAX_ORIGIN_LEN: usize = 512;

/// The most opening braces in a text that is read as an origin.
pub const MAX_ORIGIN_BRACES: usize = 32;

/// The number of opening braces in `text`.
pub open spec fn brace_count(text: Seq<char>) -> nat {
    text.filter(|c: char| c == '{').len()
}

/// Whether `text` is short and flat enough to be read as an origin. The
/// HTTP server compiles an origin into a pattern, and gives up on texts
/// that are very long or whose braces nest very deep.
pub open spec fn origin_within_limits(text: Seq<char>) -> bool {
    text.len() <= MAX_ORIGIN_LEN && brace_count(text) <= MAX_ORIGIN_BRACES
}

/// Whether every piece of a comma-separated list can be read as an origin.
pub open spec fn origins_within_limits(list: Seq<char>) -> bool {
    forall|i: int|
        0 <= i < split_commas(list).len() ==> origin_within_limits(#[trigger] split_commas(list)[i])
}

/// Reads an allowed origin, by the conversion from text to
/// `jsonrpc_http_server::AccessControlAllowOrigin`: `all`, `*` and `any`
/// give any origin, `null` gives the null origin, and every other text is
/// parsed as an origin, whose text is kept. The conversion compiles the
/// text into a pattern and aborts where that fails, which a text within
/// the limits does not reach.
#[verifier::external_body]
fn parse_origin(given: &str) -> (origin: AccessControlAllowOrigin)
    requires
        origin_within_limits(given@),
    ensures
        origin@ == origin_of(given@),
        origin@ matches OriginView::Value(text) ==> text == origin_text(given@),
{
    match jsonrpc_http_server::AccessControlAllowOrigin::from(given) {
        jsonrpc_http_server::AccessControlAllowOrigin::Value(origin) => {
            AccessControlAllowOrigin::Value(origin.to_string())
        },
        jsonrpc_http_server::AccessControlAllowOrigin::Null => AccessControlAllowOrigin::Null,
        jsonrpc_http_server::AccessControlAllowOrigin::Any => AccessControlAllowOrigin::Any,
    }
}

/// The pieces of `text` between its commas, in order. A text without a
/// comma is one piece, and so is the empty text; a comma at an end leaves
/// an empty piece there.
pub open spec fn split_commas(text: Seq<char>) -> Seq<Seq<char>>
    decreases text.len(),
{
    if text.len() == 0 {
        seq![Seq::<char>::empty()]
    } else {
        let before = split_commas(text.drop_last());
        if text.last() == ',' {
            before.push(Seq::<char>::empty())
        } else {
            before.update(before.len() - 1, before.last().push(text.last()))
        }
    }
}

/// There is one piece more than there are commas.
pub proof fn lemma_split_commas_len(text: Seq<char>)
    ensures
        split_commas(text).len() == 1 + text.filter(|c: char| c == ',').len(),
    decreases text.len(),
{
    reveal(Seq::filter);
    if text.len() > 0 {
        lemma_split_commas_len(text.drop_last());
    }
}

/// The pieces of a text's beginning are pieces of the text, but for the
/// last, which the rest of the text may lengthen.
pub proof fn lemma_split_commas_prefix(text: Seq<char>, n: int)
    requires
        0 <= n <= text.len(),
    ensures
        1 <= split_commas(text.take(n)).len() <= split_commas(text).len(),
        forall|k: int|
            0 <= k < split_commas(text.take(n)).len() - 1 ==> split_commas(text)[k]
                == #[trigger] split_commas(text.take(n))[k],
        n == text.len() ==> split_commas(text) == split_commas(text.take(n)),
    decreases text.len() - n,
{
    lemma_split_commas_len(text.take(n));
    if n < text.len() {
        lemma_split_commas_prefix(text, n + 1);
        assert(text.take(n + 1).drop_last() =~= text.take(n));
        let here = split_commas(text.take(n));
        let next = split_commas(text.take(n + 1));
        assert forall|k: int| 0 <= k < here.len() - 1 implies split_commas(text)[k]
            == #[trigger] here[k] by {
            assert(next[k] == here[k]);
            assert(split_commas(text)[k] == next[k]);
        }
    } else {
        assert(text.take(n) =~= text);
    }
}

proof fn lemma_brace_count_push(text: Seq<char>, c: char)
    ensures
        brace_count(text.push(c)) == brace_count(text) + if c == '{' {
            1nat
        } else {
            0nat
        },
        brace_count(text) <= text.len(),
        brace_count(Seq::<char>::empty()) == 0,
{
    reveal(Seq::filter);
    assert(text.push(c).drop_last() =~= text);
    text.lemma_filter_len(|c: char| c == '{');
}

/// Whether every piece of a comma-separated list can be read as an origin.
pub fn origins_fit(list: &str) -> (fit: bool)
    ensures
        fit == origins_within_limits(list@),
{
    let len = list.unicode_len();
    let mut fit = true;
    let mut piece_len: usize = 0;
    let mut piece_braces: usize = 0;
    let mut i: usize = 0;
    proof {
        assert(list@.take(0) =~= Seq::<char>::empty());
        lemma_brace_count_push(Seq::<char>::empty(), 'a');
    }
    while i < len
        invariant
            i <= len,
            len == list@.len(),
            split_commas(list@.take(i as int)).len() >= 1,
            piece_len == split_commas(list@.take(i as int)).last().len(),
            piece_braces == brace_count(split_commas(list@.take(i as int)).last()),
            piece_braces <= piece_len <= i,
            fit == (forall|k: int|
                0 <= k < split_commas(list@.take(i as int)).len() - 1 ==> origin_within_limits(
                    #[trigger] split_commas(list@.take(i as int))[k],
                )),
        decreases len - i,
    {
        let ghost here = split_commas(list@.take(i as int));
        let ghost next = split_commas(list@.take(i + 1));
        let c = list.get_char(i);
        proof {
            assert(list@.take(i + 1).drop_last() =~= list@.take(i as int));
            assert(list@.take(i + 1).last() == c);
            lemma_brace_count_push(here.last(), c);
        }
        if c == ',' {
            let within = piece_len <= MAX_ORIGIN_LEN && piece_braces <= MAX_ORIGIN_BRACES;
            proof {
                assert(next == here.push(Seq::<char>::empty()));
                assert(within == origin_within_limits(here.last()));
                assert(next[here.len() - 1] == here.last());
                if fit && within {
                    assert forall|k: int| 0 <= k < next.len() - 1 implies origin_within_limits(
                        #[trigger] next[k],
                    ) by {
                        if k < here.len() - 1 {
                            assert(next[k] == here[k]);
                        }
                    }
                } else if !fit {
                    let k = choose|k: int|
                        0 <= k < here.len() - 1 && !origin_within_limits(#[trigger] here[k]);
                    assert(next[k] == here[k]);
                }
            }
            if !within {
                fit = false;
            }
            piece_len = 0;
            piece_braces = 0;
        } else {
            proof {
                assert(next == here.update(here.len() - 1, here.last().push(c)));
                if fit {
                    assert forall|k: int| 0 <= k < next.len() - 1 implies origin_within_limits(
                        #[trigger] next[k],
                    ) by {
                        assert(next[k] == here[k]);
                    }
                } else {
                    let k = choose|k: int|
                        0 <= k < here.len() - 1 && !origin_within_limits(#[trigger] here[k]);
                    assert(next[k] == here[k]);
                }
            }
            piece_len += 1;
            if c == '{' {
                piece_braces += 1;
            }
        }
        i += 1;
    }
    let last_within = piece_len <= MAX_ORIGIN_LEN && piece_braces <= MAX_ORIGIN_BRACES;
    proof {
        assert(list@.take(len as int) =~= list@);
        let all = split_commas(list@);
        assert(last_within == origin_within_limits(all.last()));
        if fit && last_within {
            assert forall|k: int| 0 <= k < all.len() implies origin_within_limits(
                #[trigger] all[k],
            ) by {
                if k == all.len() - 1 {
                    assert(all[k] == all.last());
                }
            }
        } else if !last_within {
            assert(all[all.len() - 1] == all.last());
        }
    }
    fit && last_within
}

/// Whether two texts are the same.
pub fn str_equal(a: &str, b: &str) -> (same: bool)
    ensures
        same == (a@ == b@),
{
    let len = a.unicode_len();
    if len != b.unicode_len() {
        return false;
    }
    let mut i: usize = 0;
    while i < len
        invariant
            i <= len,
            len == a@.len(),
            len == b@.len(),
            forall|k: int| 0 <= k < i ==> a@[k] == b@[k],
        decreases len - i,
    {
        if a.get_char(i) != b.get_char(i) {
            return false;
        }
        i += 1;
    }
    proof {
        assert(a@ =~= b@);
    }
    true
}

/// The origins that a comma-separated list names, in the list's order.
pub fn parse_origins(list: &str) -> (origins: Vec<AccessControlAllowOrigin>)
    requires
        origins_within_limits(list@),
    ensures
        origins@.map_values(|o: AccessControlAllowOrigin| o@) == split_commas(list@).map_values(
            |piece: Seq<char>| origin_of(piece),
        ),
{
    let ghost view = |o: AccessControlAllowOrigin| o@;
    let ghost read = |piece: Seq<char>| origin_of(piece);
    let len = list.unicode_len();
    let mut origins: Vec<AccessControlAllowOrigin> = Vec::new();
    let mut start: usize = 0;
    let mut i: usize = 0;
    while i < len
        invariant
            start <= i <= len,
            len == list@.len(),
            origins_within_limits(list@),
            view == (|o: AccessControlAllowOrigin| o@),
            read == (|piece: Seq<char>| origin_of(piece)),
            split_commas(list@.take(i as int)).len() == origins@.len() + 1,
            split_commas(list@.take(i as int)).last() == list@.subrange(start as int, i as int),
            origins@.map_values(view) == split_commas(list@.take(i as int)).drop_last().map_values(
                read,
            ),
        decreases len - i,
    {
        let ghost before = split_commas(list@.take(i as int));
        proof {
            assert(list@.take(i + 1).drop_last() =~= list@.take(i as int));
            assert(list@.take(i + 1).last() == list@[i as int]);
        }
        if list.get_char(i) == ',' {
            let piece = list.substring_char(start, i);
            let ghost so_far = origins@;
            proof {
                let after = split_commas(list@.take(i + 1));
                assert(after == before.push(Seq::<char>::empty()));
                lemma_split_commas_prefix(list@, i + 1);
                assert(after[before.len() - 1] == before.last());
                assert(split_commas(list@)[before.len() - 1] == after[before.len() - 1]);
            }
            origins.push(parse_origin(piece));
            proof {
                let after = split_commas(list@.take(i + 1));
                assert(after == before.push(Seq::<char>::empty()));
                assert(after.drop_last() =~= before);
                assert(before =~= before.drop_last().push(before.last()));
                assert(origins@.map_values(view) =~= so_far.map_values(view).push(
                    origin_of(piece@),
                ));
                assert(before.map_values(read) =~= before.drop_last().map_values(read).push(
                    origin_of(before.last()),
                ));
                assert(list@.subrange(i + 1, i + 1) =~= Seq::<char>::empty());
            }
            start = i + 1;
        } else {
            proof {
                let after = split_commas(list@.take(i + 1));
                assert(after == before.update(
                    before.len() - 1,
                    before.last().push(list@[i as int]),
                ));
                assert(after.drop_last() =~= before.drop_last());
                assert(list@.subrange(start as int, i + 1) =~= list@.subrange(
                    start as int,
                    i as int,
                ).push(list@[i as int]));
            }
        }
        i += 1;
    }
    let piece = list.substring_char(start, len);
    let ghost so_far = origins@;
    proof {
        assert(list@.take(len as int) =~= list@);
        let all = split_commas(list@);
        assert(all[all.len() - 1] == all.last());
    }
    origins.push(parse_origin(piece));
    proof {
        assert(list@.take(len as int) =~= list@);
        let all = split_commas(list@);
        assert(all =~= all.drop_last().push(all.last()));
        assert(origins@.map_values(view) =~= so_far.map_values(view).push(origin_of(piece@)));
        assert(all.map_values(read) =~= all.drop_last().map_values(read).push(
            origin_of(all.last()),
        ));
    }
    origins
}

/// The validation of origins that a setting asks for: none where nothing
/// is set or `none` is set, any origin for `all`, and else the origins of
/// the comma-separated list.
pub open spec fn cors_domains_of(cors: Option<Seq<char>>) -> DomainsView {
    match cors {
        None => DomainsView::Disabled,
        Some(list) => if list == "none"@ {
            DomainsView::Disabled
        } else if list == "all"@ {
            DomainsView::AllowOnly(seq![OriginView::Any])
        } else {
            DomainsView::AllowOnly(
                split_commas(list).map_values(|piece: Seq<char>| origin_of(piece)),
            )
        },
    }
}

/// The setting `cors`, as what it holds.
pub open spec fn cors_setting(cors: Option<String>) -> Option<Seq<char>> {
    match cors {
        Some(list) => Some(list@),
        None => None,
    }
}

/// Where the HTTP endpoint listens, and how it serves.
#[derive(Debug, PartialEq)]
pub struct HttpConfiguration {
    pub enabled: bool,
    pub address: SocketAddress,
    pub cors_domains: DomainsValidation,
    pub keep_alive: bool,
    /// The number of threads of the server, where it is set by hand.
    pub threads: Option<usize>,
}

impl HttpConfiguration {
    pub fn new(
        ip: Option<(u8, u8, u8, u8)>,
        port: Option<u16>,
        cors: Option<String>,
        keep_alive: bool,
        threads: Option<usize>,
    ) -> (conf: Self)
        requires
            cors matches Some(list) ==> origins_within_limits(list@),
        ensures
            conf.enabled == port is Some,
            conf.address == listen_address(ip, port),
            conf.cors_domains@ == cors_domains_of(cors_setting(cors)),
            conf.keep_alive == keep_alive,
            conf.threads == threads,
    {
        let cors_domains = match cors {
            None => DomainsValidation::Disabled,
            Some(cors_list) => {
                if str_equal(cors_list.as_str(), "none") {
                    DomainsValidation::Disabled
                } else if str_equal(cors_list.as_str(), "all") {
                    let mut any: Vec<AccessControlAllowOrigin> = Vec::new();
                    any.push(AccessControlAllowOrigin::Any);
                    proof {
                        assert(any@.map_values(|o: AccessControlAllowOrigin| o@)
                            =~= seq![OriginView::Any]);
                    }
                    DomainsValidation::AllowOnly(any)
                } else {
                    DomainsValidation::AllowOnly(parse_origins(cors_list.as_str()))
                }
            },
        };
        HttpConfiguration {
            enabled: port.is_some(),
            address: address_for(ip, port),
            cors_domains,
            keep_alive,
            threads,
        }
    }
}

/// The setting of the HTTP endpoint, where every origin of its CORS list
/// can be read; nothing where one cannot.
pub fn http_configuration(
    ip: Option<(u8, u8, u8, u8)>,
    port: Option<u16>,
    cors: Option<String>,
    keep_alive: bool,
    threads: Option<usize>,
) -> (conf: Option<HttpConfiguration>)
    ensures
        conf is Some <==> (cors matches Some(list) ==> origins_within_limits(list@)),
        conf matches Some(c) ==> c.enabled == port is Some && c.address == listen_address(ip, port)
            && c.cors_domains@ == cors_domains_of(cors_setting(cors)) && c.keep_alive
            == keep_alive && c.threads == threads,
{
    let fit = match &cors {
        Some(list) => origins_fit(list.as_str()),
        None => true,
    };
    if fit {
        Some(HttpConfiguration::new(ip, port, cors, keep_alive, threads))
    } else {
        None
    }
}

/// A group of RPC methods that can be switched on as one.
#[derive(Clone, Copy, Debug, PartialEq, Eq, Structural, Hash)]
pub enum Api {
    Cfx,
    Eth,
    Debug,
    Pubsub,
    Test,
    Trace,
    TxPool,
    Pos,
}

/// A choice of APIs.
#[derive(Clone, Debug)]
pub enum ApiSet {
    /// Every API.
    All,
    /// The APIs that are safe to offer to anyone.
    Safe,
    /// The listed APIs.
    List(Vec<Api>),
}

/// How the handlers of the RPC methods are set up.
#[derive(Clone, Debug)]
pub struct RpcImplConfiguration {
    /// The most logs that one filter query returns, where that is limited.
    pub get_logs_filter_max_limit: Option<usize>,
    /// Whether blocks are generated at once for a transaction that comes in
    /// over RPC, so that it is packed and executed without waiting.
    pub dev_pack_tx_immediately: bool,
    /// The largest response payload that is sent.
    pub max_payload_bytes: usize,
    pub public_rpc_apis: ApiSet,
}

/// The handlers that serve RPC methods.
#[derive(Clone, Copy, Debug, PartialEq, Eq, Structural)]
pub enum RpcHandler {
    Cfx,
    Eth,
    EthTrace,
    LocalRpc,
    PubSub,
    TestRpc,
    Trace,
    TransactionPool,
    Pos,
}

/// What stands before a handler and sees each call first.
#[derive(Clone, Copy, Debug, PartialEq, Eq, Structural)]
pub enum Interceptor {
    /// Nothing: calls reach the handler as they come.
    Direct,
    /// The throttle, which turns away calls that come too often.
    Throttle,
    /// The guard of the proof-of-stake methods.
    Pos,
}

/// A handler as it is added to the server.
#[derive(Clone, Copy, Debug, PartialEq, Eq, Structural)]
pub struct RpcModule {
    pub handler: RpcHandler,
    pub interceptor: Interceptor,
}

/// The handlers that `api` brings on a full node.
pub open spec fn modules_of(api: Api) -> Seq<RpcModule> {
    match api {
        Api::Cfx => seq![RpcModule { handler: RpcHandler::Cfx, interceptor: Interceptor::Throttle }],
        Api::Eth => seq![
            RpcModule { handler: RpcHandler::Eth, interceptor: Interceptor::Throttle },
            RpcModule { handler: RpcHandler::EthTrace, interceptor: Interceptor::Direct },
        ],
        Api::Debug => seq![
            RpcModule { handler: RpcHandler::LocalRpc, interceptor: Interceptor::Direct },
        ],
        Api::Pubsub => seq![
            RpcModule { handler: RpcHandler::PubSub, interceptor: Interceptor::Direct },
        ],
        Api::Test => seq![
            RpcModule { handler: RpcHandler::TestRpc, interceptor: Interceptor::Direct },
        ],
        Api::Trace => seq![
            RpcModule { handler: RpcHandler::Trace, interceptor: Interceptor::Throttle },
        ],
        Api::TxPool => seq![
            RpcModule { handler: RpcHandler::TransactionPool, interceptor: Interceptor::Direct },
        ],
        Api::Pos => seq![RpcModule { handler: RpcHandler::Pos, interceptor: Interceptor::Pos }],
    }
}

/// The handlers that `api` brings on a light node, which serves neither
/// the EVM methods nor traces, the transaction pool or proof of stake.
pub open spec fn light_modules_of(api: Api) -> Seq<RpcModule> {
    match api {
        Api::Cfx | Api::Debug | Api::Pubsub | Api::Test => modules_of(api),
        Api::Eth | Api::Trace | Api::TxPool | Api::Pos => Seq::empty(),
    }
}

/// The handlers of a list of APIs on a full node, API by API in the
/// list's order.
pub open spec fn modules_of_all(apis: Seq<Api>) -> Seq<RpcModule> {
    apis.map_values(|api: Api| modules_of(api)).flatten()
}

/// The handlers of a list of APIs on a light node, API by API in the
/// list's order.
pub open spec fn light_modules_of_all(apis: Seq<Api>) -> Seq<RpcModule> {
    apis.map_values(|api: Api| light_modules_of(api)).flatten()
}

fn module(handler: RpcHandler, interceptor: Interceptor) -> (m: RpcModule)
    ensures
        m == (RpcModule { handler, interceptor }),
{
    RpcModule { handler, interceptor }
}

/// Adds to `handler` what each of `apis` brings on a full node. The APIs
/// are a set, written as a list in which none occurs twice.
pub fn setup_rpc_apis(apis: &Vec<Api>) -> (handler: Vec<RpcModule>)
    requires
        apis@.no_duplicates(),
    ensures
        handler@ == modules_of_all(apis@),
{
    let ghost per_api = |api: Api| modules_of(api);
    let mut handler: Vec<RpcModule> = Vec::new();
    let mut i: usize = 0;
    while i < apis.len()
        invariant
            i <= apis@.len(),
            per_api == (|api: Api| modules_of(api)),
            handler@ == apis@.take(i as int).map_values(per_api).flatten(),
        decreases apis@.len() - i,
    {
        let ghost before = handler@;
        match apis[i] {
            Api::Cfx => {
                handler.push(module(RpcHandler::Cfx, Interceptor::Throttle));
            },
            Api::Eth => {
                handler.push(module(RpcHandler::Eth, Interceptor::Throttle));
                handler.push(module(RpcHandler::EthTrace, Interceptor::Direct));
            },
            Api::Debug => {
                handler.push(module(RpcHandler::LocalRpc, Interceptor::Direct));
            },
            Api::Pubsub => {
                handler.push(module(RpcHandler::PubSub, Interceptor::Direct));
            },
            Api::Test => {
                handler.push(module(RpcHandler::TestRpc, Interceptor::Direct));
            },
            Api::Trace => {
                handler.push(module(RpcHandler::Trace, Interceptor::Throttle));
            },
            Api::TxPool => {
                handler.push(module(RpcHandler::TransactionPool, Interceptor::Direct));
            },
            Api::Pos => {
                handler.push(module(RpcHandler::Pos, Interceptor::Pos));
            },
        }
        proof {
            let lists = apis@.take(i as int).map_values(per_api);
            assert(handler@ =~= before + modules_of(apis@[i as int]));
            assert(apis@.take(i + 1).map_values(per_api) =~= lists.push(
                modules_of(apis@[i as int]),
            ));
            lists.lemma_flatten_push(modules_of(apis@[i as int]));
        }
        i += 1;
    }
    proof {
        assert(apis@.take(apis@.len() as int) =~= apis@);
    }
    handler
}

/// Adds to `handler` what each of `apis` brings on a light node. The APIs
/// are a set, written as a list in which none occurs twice.
pub fn setup_rpc_apis_light(apis: &Vec<Api>) -> (handler: Vec<RpcModule>)
    requires
        apis@.no_duplicates(),
    ensures
        handler@ == light_modules_of_all(apis@),
{
    let ghost per_api = |api: Api| light_modules_of(api);
    let mut handler: Vec<RpcModule> = Vec::new();
    let mut i: usize = 0;
    while i < apis.len()
        invariant
            i <= apis@.len(),
            per_api == (|api: Api| light_modules_of(api)),
            handler@ == apis@.take(i as int).map_values(per_api).flatten(),
        decreases apis@.len() - i,
    {
        let ghost before = handler@;
        match apis[i] {
            Api::Cfx => {
                handler.push(module(RpcHandler::Cfx, Interceptor::Throttle));
            },
            Api::Eth => {},
            Api::Debug => {
                handler.push(module(RpcHandler::LocalRpc, Interceptor::Direct));
            },
            Api::Pubsub => {
                handler.push(module(RpcHandler::PubSub, Interceptor::Direct));
            },
            Api::Test => {
                handler.push(module(RpcHandler::TestRpc, Interceptor::Direct));
            },
            Api::Trace => {},
            Api::TxPool => {},
            Api::Pos => {},
        }
        proof {
            let lists = apis@.take(i as int).map_values(per_api);
            assert(handler@ =~= before + light_modules_of(apis@[i as int]));
            assert(apis@.take(i + 1).map_values(per_api) =~= lists.push(
                light_modules_of(apis@[i as int]),
            ));
            lists.lemma_flatten_push(light_modules_of(apis@[i as int]));
        }
        i += 1;
    }
    proof {
        assert(apis@.take(apis@.len() as int) =~= apis@);
    }
    handler
}

/// The APIs of `apis` but `api`, in their order. Where none occurs twice in
/// `apis`, none occurs twice in what is left.
pub fn without_api(apis: &Vec<Api>, api: Api) -> (rest: Vec<Api>)
    ensures
        rest@ == apis@.filter(|a: Api| a != api),
        apis@.no_duplicates() ==> rest@.no_duplicates(),
{
    let ghost keep = |a: Api| a != api;
    let mut rest: Vec<Api> = Vec::new();
    let ghost mut from: Seq<int> = Seq::empty();
    let mut i: usize = 0;
    while i < apis.len()
        invariant
            i <= apis@.len(),
            keep == (|a: Api| a != api),
            rest@ == apis@.take(i as int).filter(keep),
            from.len() == rest@.len(),
            forall|k: int|
                0 <= k < rest@.len() ==> 0 <= #[trigger] from[k] < i && apis@[from[k]] == rest@[k],
            apis@.no_duplicates() ==> rest@.no_duplicates(),
        decreases apis@.len() - i,
    {
        proof {
            assert(apis@.take(i + 1).drop_last() =~= apis@.take(i as int));
            reveal(Seq::filter);
        }
        if apis[i] != api {
            proof {
                if apis@.no_duplicates() {
                    let added = apis@[i as int];
                    assert forall|k: int| 0 <= k < rest@.len() implies rest@[k] != added by {
                        assert(apis@[from[k]] == rest@[k]);
                    }
                }
            }
            rest.push(apis[i]);
            proof {
                from = from.push(i as int);
            }
        }
        i += 1;
    }
    proof {
        assert(apis@.take(apis@.len() as int) =~= apis@);
    }
    rest
}

/// The handlers of the public endpoint of a full node.
pub fn setup_public_rpc_apis(public_rpc_apis: &Vec<Api>) -> (handler: Vec<RpcModule>)
    requires
        public_rpc_apis@.no_duplicates(),
    ensures
        handler@ == modules_of_all(public_rpc_apis@),
{
    setup_rpc_apis(public_rpc_apis)
}

/// The handlers of the public EVM endpoint of a full node.
pub fn setup_public_eth_rpc_apis(public_evm_rpc_apis: &Vec<Api>) -> (handler: Vec<RpcModule>)
    requires
        public_evm_rpc_apis@.no_duplicates(),
    ensures
        handler@ == modules_of_all(public_evm_rpc_apis@),
{
    setup_rpc_apis(public_evm_rpc_apis)
}

/// The handlers of the local endpoint of a full node, which serves all
/// APIs.
pub fn setup_debug_rpc_apis(all_apis: &Vec<Api>) -> (handler: Vec<RpcModule>)
    requires
        all_apis@.no_duplicates(),
    ensures
        handler@ == modules_of_all(all_apis@),
{
    setup_rpc_apis(all_apis)
}

/// The handlers of the public endpoint of a light node.
pub fn setup_public_rpc_apis_light(public_rpc_apis: &Vec<Api>) -> (handler: Vec<RpcModule>)
    requires
        public_rpc_apis@.no_duplicates(),
    ensures
        handler@ == light_modules_of_all(public_rpc_apis@),
{
    setup_rpc_apis_light(public_rpc_apis)
}

/// The handlers of the local endpoint of a light node, which serves all
/// APIs but traces.
pub fn setup_debug_rpc_apis_light(all_apis: &Vec<Api>) -> (handler: Vec<RpcModule>)
    requires
        all_apis@.no_duplicates(),
    ensures
        handler@ == light_modules_of_all(all_apis@.filter(|a: Api| a != Api::Trace)),
{
    let light_debug_apis = without_api(all_apis, Api::Trace);
    setup_rpc_apis_light(&light_debug_apis)
}

/// What the throttle found for a call.
#[derive(Clone, Copy, Debug)]
pub enum ThrottleResult {
    /// The call is within its allowance.
    Success,
    /// The call exceeds its allowance, which recovers after the given time.
    Throttled(Duration),
    /// The caller was throttled before and has not recovered.
    AlreadyThrottled,
}

/// Why a call was turned away.
#[derive(Clone, Copy, Debug)]
pub enum TooManyRequests {
    /// The call is throttled for the given time.
    Throttled(Duration),
    /// The caller is throttled already.
    AlreadyThrottled,
}

/// What the throttle's finding means for a call: a method without a
/// bucket is never throttled, and a method with one goes through exactly
/// when the throttle found it within its allowance.
pub open spec fn verdict_of(found: Option<ThrottleResult>) -> Result<(), TooManyRequests> {
    match found {
        None => Ok(()),
        Some(ThrottleResult::Success) => Ok(()),
        Some(ThrottleResult::Throttled(wait_time)) => Err(TooManyRequests::Throttled(wait_time)),
        Some(ThrottleResult::AlreadyThrottled) => Err(TooManyRequests::AlreadyThrottled),
    }
}

/// Decides before a call whether it goes through, from what the throttle
/// found for the method's bucket, if the method has one.
pub fn before(found: Option<ThrottleResult>) -> (verdict: Result<(), TooManyRequests>)
    ensures
        verdict == verdict_of(found),
{
    let result = match found {
        Some(result) => result,
        None => {
            return Ok(());
        },
    };
    match result {
        ThrottleResult::Success => Ok(()),
        ThrottleResult::Throttled(wait_time) => Err(TooManyRequests::Throttled(wait_time)),
        ThrottleResult::AlreadyThrottled => Err(TooManyRequests::AlreadyThrottled),
    }
}

} // verus!
