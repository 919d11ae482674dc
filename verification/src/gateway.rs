//! The loopback gateway: which route a request takes, what is sent upstream
//! for it, and the response that goes back.

use crate::envelope::{
    body_of, envelope_of, error_members, kind_of, lemma_error_body_is_json, status_of,
    EnvelopeView, OutcomeView, ResponseEnvelope, TransportOutcome,
};
use crate::json::{
    is_flat_object, json_document, lemma_string_literal_denotes, literal_text, reencode,
    string_literal,
};
use crate::resolver::{get_url, resolved, url_parses, ProxyTarget};
use crate::text::{decimal, decimal_value, lemma_decimal_value, strip_prefix};
use vstd::prelude::*;
use vstd::string::StringExecFns;

verus! {

/// One response header.
#[derive(Debug, PartialEq, Eq)]
pub struct Header {
    pub name: String,
    pub value: String,
}

impl View for Header {
    type V = (Seq<char>, Seq<char>);

    open spec fn view(&self) -> (Seq<char>, Seq<char>) {
        (self.name@, self.value@)
    }
}

/// The headers of a list, each as a name and a value.
pub open spec fn header_views(headers: Seq<Header>) -> Seq<(Seq<char>, Seq<char>)> {
    headers.map_values(|h: Header| h@)
}

/// The first isolation header.
pub open spec fn opener_policy() -> (Seq<char>, Seq<char>) {
    ("Cross-Origin-Opener-Policy"@, "same-origin"@)
}

/// The second isolation header.
pub open spec fn embedder_policy() -> (Seq<char>, Seq<char>) {
    ("Cross-Origin-Embedder-Policy"@, "require-corp"@)
}

/// The header that marks a body as JSON.
pub open spec fn json_content_type() -> (Seq<char>, Seq<char>) {
    ("Content-Type"@, "application/json"@)
}

/// The two isolation headers, in the order in which they are attached.
pub open spec fn isolation() -> Seq<(Seq<char>, Seq<char>)> {
    seq![opener_policy(), embedder_policy()]
}

/// Whether a header list carries both isolation headers, and gives neither
/// name any other value.
pub open spec fn isolated(headers: Seq<(Seq<char>, Seq<char>)>) -> bool {
    &&& headers.contains(opener_policy())
    &&& headers.contains(embedder_policy())
    &&& forall|i: int|
        0 <= i < headers.len() && (#[trigger] headers[i]).0 == opener_policy().0 ==> headers[i]
            == opener_policy()
    &&& forall|i: int|
        0 <= i < headers.len() && (#[trigger] headers[i]).0 == embedder_policy().0 ==> headers[i]
            == embedder_policy()
}

/// The headers of every response that carries an envelope.
pub open spec fn envelope_headers() -> Seq<(Seq<char>, Seq<char>)> {
    seq![json_content_type()] + isolation()
}

/// The headers of an envelope's response carry both isolation headers.
pub proof fn lemma_envelope_headers_isolated()
    ensures
        isolated(envelope_headers()),
        isolated(isolation()),
{
    reveal_strlit("Cross-Origin-Opener-Policy");
    reveal_strlit("Cross-Origin-Embedder-Policy");
    reveal_strlit("Content-Type");
    assert("Cross-Origin-Opener-Policy"@.len() == 26);
    assert("Cross-Origin-Embedder-Policy"@.len() == 28);
    assert("Content-Type"@.len() == 12);
    assert(envelope_headers()[1] == opener_policy());
    assert(envelope_headers()[2] == embedder_policy());
    assert(isolation()[0] == opener_policy());
    assert(isolation()[1] == embedder_policy());
}

/// The two isolation headers, for whoever sends a response that this
/// library did not build.
pub fn isolation_headers() -> (headers: Vec<Header>)
    ensures
        header_views(headers@) == isolation(),
{
    let mut headers: Vec<Header> = Vec::new();
    headers.push(
        Header {
            name: String::from_str("Cross-Origin-Opener-Policy"),
            value: String::from_str("same-origin"),
        },
    );
    headers.push(
        Header {
            name: String::from_str("Cross-Origin-Embedder-Policy"),
            value: String::from_str("require-corp"),
        },
    );
    assert(header_views(headers@) =~= isolation());
    headers
}

/// A response as a mathematical value.
pub struct ResponseView {
    pub status: u16,
    pub headers: Seq<(Seq<char>, Seq<char>)>,
    pub body: Seq<char>,
}

/// The response that carries an envelope.
pub open spec fn response_of(envelope: EnvelopeView) -> ResponseView {
    ResponseView {
        status: status_of(envelope),
        headers: envelope_headers(),
        body: body_of(envelope),
    }
}

/// A response built by the gateway. It cannot exist without the isolation
/// headers.
#[derive(Debug, PartialEq, Eq)]
pub struct GatewayResponse {
    status: u16,
    headers: Vec<Header>,
    body: String,
}

impl View for GatewayResponse {
    type V = ResponseView;

    closed spec fn view(&self) -> ResponseView {
        ResponseView {
            status: self.status,
            headers: header_views(self.headers@),
            body: self.body@,
        }
    }
}

impl GatewayResponse {
    #[verifier::type_invariant]
    spec fn sealed(self) -> bool {
        isolated(header_views(self.headers@))
    }

    /// The response that carries `envelope`: its status, its body as JSON,
    /// and the isolation headers.
    pub fn from_envelope(envelope: &ResponseEnvelope) -> (response: Self)
        ensures
            response@ == response_of(envelope@),
    {
        let mut headers: Vec<Header> = Vec::new();
        headers.push(
            Header {
                name: String::from_str("Content-Type"),
                value: String::from_str("application/json"),
            },
        );
        headers.push(
            Header {
                name: String::from_str("Cross-Origin-Opener-Policy"),
                value: String::from_str("same-origin"),
            },
        );
        headers.push(
            Header {
                name: String::from_str("Cross-Origin-Embedder-Policy"),
                value: String::from_str("require-corp"),
            },
        );
        proof {
            assert(header_views(headers@) =~= envelope_headers());
            lemma_envelope_headers_isolated();
        }
        GatewayResponse { status: envelope.status(), headers, body: envelope.body() }
    }

    /// The HTTP status.
    pub fn status(&self) -> (status: u16)
        ensures
            status == self@.status,
    {
        self.status
    }

    /// The headers; the isolation headers are among them.
    pub fn headers(&self) -> (headers: &Vec<Header>)
        ensures
            header_views(headers@) == self@.headers,
            isolated(self@.headers),
    {
        proof {
            use_type_invariant(self);
        }
        &self.headers
    }

    /// The body.
    pub fn body(&self) -> (body: &str)
        ensures
            body@ == self@.body,
    {
        self.body.as_str()
    }
}

/// The method of an inbound request, as far as the routes tell methods apart.
#[derive(Debug, Clone, Copy, PartialEq, Eq, Structural)]
pub enum Method {
    Get,
    Post,
    Other,
}

/// Where an inbound request goes.
#[derive(Debug, PartialEq, Eq)]
pub enum Route {
    /// To the static assets, under this path.
    StaticAsset { path: String },
    /// Upstream by GET, to what `target` names.
    ProxyGet { target: String },
    /// Upstream by POST, to what `target` names.
    ProxyPost { target: String },
    /// Nowhere.
    NotFound,
}

/// A `Route` as a mathematical value.
pub enum RouteView {
    StaticAsset { path: Seq<char> },
    ProxyGet { target: Seq<char> },
    ProxyPost { target: Seq<char> },
    NotFound,
}

impl View for Route {
    type V = RouteView;

    open spec fn view(&self) -> RouteView {
        match self {
            Route::StaticAsset { path } => RouteView::StaticAsset { path: path@ },
            Route::ProxyGet { target } => RouteView::ProxyGet { target: target@ },
            Route::ProxyPost { target } => RouteView::ProxyPost { target: target@ },
            Route::NotFound => RouteView::NotFound,
        }
    }
}

/// The path that the proxy is mounted at.
pub open spec fn mount() -> Seq<char> {
    "/proxy"@
}

/// What a request path holds behind the proxy mount: nothing for the mount
/// itself, the rest for a path below it, and no answer for a path that is
/// not under the mount.
pub open spec fn proxied(path: Seq<char>) -> Option<Seq<char>> {
    if path == mount() {
        Some(Seq::empty())
    } else if (mount() + seq!['/']).is_prefix_of(path) {
        Some(path.skip(mount().len() as int + 1))
    } else {
        None
    }
}

/// The route table: GET and POST under the proxy mount go upstream, any
/// other GET goes to the static assets, and nothing else has a route.
pub open spec fn route_of(method: Method, path: Seq<char>) -> RouteView {
    match proxied(path) {
        Some(target) => match method {
            Method::Get => RouteView::ProxyGet { target },
            Method::Post => RouteView::ProxyPost { target },
            Method::Other => RouteView::NotFound,
        },
        None => match method {
            Method::Get => RouteView::StaticAsset { path },
            _ => RouteView::NotFound,
        },
    }
}

/// A sequence starts with `prefix` and then `c` exactly when it starts with
/// `prefix` and what follows starts with `c`.
proof fn lemma_prefix_and_next(prefix: Seq<char>, c: char, s: Seq<char>)
    ensures
        (prefix + seq![c]).is_prefix_of(s) <==> prefix.is_prefix_of(s) && seq![c].is_prefix_of(
            s.skip(prefix.len() as int),
        ),
{
    let longer = prefix + seq![c];
    let n = prefix.len() as int;
    if longer.is_prefix_of(s) {
        assert(longer =~= s.subrange(0, n + 1));
        assert forall|i: int| 0 <= i < n implies prefix[i] == s.subrange(0, n)[i] by {
            assert(longer[i] == s.subrange(0, n + 1)[i]);
        }
        assert(prefix =~= s.subrange(0, n));
        assert(longer[n] == s.subrange(0, n + 1)[n]);
        assert(seq![c] =~= s.skip(n).subrange(0, 1));
    }
    if prefix.is_prefix_of(s) && seq![c].is_prefix_of(s.skip(n)) {
        assert(prefix =~= s.subrange(0, n));
        assert(seq![c] =~= s.skip(n).subrange(0, 1));
        assert forall|i: int| 0 <= i < n + 1 implies longer[i] == s.subrange(0, n + 1)[i] by {
            if i < n {
                assert(prefix[i] == s.subrange(0, n)[i]);
            } else {
                assert(seq![c][0] == s.skip(n).subrange(0, 1)[0]);
            }
        }
        assert(longer =~= s.subrange(0, n + 1));
    }
}

/// What `path` holds behind the proxy mount, if it is under it.
fn behind_mount(path: &str) -> (target: Option<&str>)
    ensures
        match target {
            Some(t) => proxied(path@) == Some(t@),
            None => proxied(path@) is None,
        },
{
    proof {
        reveal_strlit("/proxy");
        reveal_strlit("/");
        lemma_prefix_and_next(mount(), '/', path@);
        assert("/"@ =~= seq!['/']);
    }
    match strip_prefix(path, "/proxy") {
        Some(rest) => {
            if rest.is_empty() {
                assert(path@ =~= mount());
                Some(rest)
            } else {
                match strip_prefix(rest, "/") {
                    Some(target) => {
                        assert(target@ =~= path@.skip(mount().len() as int + 1));
                        Some(target)
                    },
                    None => None,
                }
            }
        },
        None => None,
    }
}

/// Looks a request up in the route table.
pub fn route(method: Method, path: &str) -> (found: Route)
    ensures
        found@ == route_of(method, path@),
{
    match behind_mount(path) {
        Some(target) => match method {
            Method::Get => Route::ProxyGet { target: String::from_str(target) },
            Method::Post => Route::ProxyPost { target: String::from_str(target) },
            Method::Other => Route::NotFound,
        },
        None => match method {
            Method::Get => Route::StaticAsset { path: String::from_str(path) },
            _ => Route::NotFound,
        },
    }
}

/// The method of an outbound call.
#[derive(Debug, Clone, Copy, PartialEq, Eq, Structural)]
pub enum OutboundMethod {
    Get,
    Post,
}

/// One outbound call, ready to be made.
#[derive(Debug, PartialEq, Eq)]
pub struct OutboundRequest {
    pub method: OutboundMethod,
    pub target: ProxyTarget,
    /// The JSON text to send as the body; a GET has none.
    pub body: Option<String>,
}

/// An `OutboundRequest` as a mathematical value.
pub struct OutboundView {
    pub method: OutboundMethod,
    pub url: Seq<char>,
    pub body: Option<Seq<char>>,
}

impl View for OutboundRequest {
    type V = OutboundView;

    open spec fn view(&self) -> OutboundView {
        OutboundView {
            method: self.method,
            url: self.target@,
            body: match self.body {
                Some(text) => Some(text@),
                None => None,
            },
        }
    }
}

impl OutboundRequest {
    /// The content type to send the body with: JSON where there is a body.
    pub fn content_type(&self) -> (content_type: Option<&'static str>)
        ensures
            match content_type {
                Some(t) => self@.body is Some && t@ == json_content_type().1,
                None => self@.body is None,
            },
    {
        match &self.body {
            Some(_) => Some("application/json"),
            None => None,
        }
    }
}

/// What a GET under the proxy mount leads to: the call to make, or the
/// envelope that refuses it.
pub open spec fn get_plan(target: Seq<char>) -> Result<OutboundView, EnvelopeView> {
    if url_parses(resolved(target)) {
        Ok(OutboundView { method: OutboundMethod::Get, url: resolved(target), body: None })
    } else {
        Err(EnvelopeView::InvalidUrl)
    }
}

/// What a POST under the proxy mount leads to. The request body is looked at
/// first: it is forwarded as the compact text of the JSON document it holds,
/// and refused where it holds none.
pub open spec fn post_plan(target: Seq<char>, body: Seq<u8>) -> Result<OutboundView, EnvelopeView> {
    match json_document(body) {
        None => Err(EnvelopeView::InvalidBody),
        Some(document) => if url_parses(resolved(target)) {
            Ok(
                OutboundView {
                    method: OutboundMethod::Post,
                    url: resolved(target),
                    body: Some(document),
                },
            )
        } else {
            Err(EnvelopeView::InvalidUrl)
        },
    }
}

/// `result` as a mathematical value.
pub open spec fn plan_view(result: Result<OutboundRequest, ResponseEnvelope>) -> Result<
    OutboundView,
    EnvelopeView,
> {
    match result {
        Ok(request) => Ok(request@),
        Err(envelope) => Err(envelope@),
    }
}

/// Prepares the outbound call for a GET of `target` under the proxy mount.
/// No call is prepared for a target that is not a URL.
pub fn proxy_get(target: &str) -> (plan: Result<OutboundRequest, ResponseEnvelope>)
    ensures
        plan_view(plan) == get_plan(target@),
{
    match get_url(target) {
        Ok(url) => Ok(OutboundRequest { method: OutboundMethod::Get, target: url, body: None }),
        Err(_) => Err(ResponseEnvelope::InvalidUrl),
    }
}

/// Prepares the outbound call for a POST of `body` to `target` under the
/// proxy mount. No call is prepared for a body that is not JSON, nor for a
/// target that is not a URL.
pub fn proxy_post(target: &str, body: &[u8]) -> (plan: Result<OutboundRequest, ResponseEnvelope>)
    ensures
        plan_view(plan) == post_plan(target@, body@),
{
    match reencode(body) {
        None => Err(ResponseEnvelope::InvalidBody),
        Some(document) => match get_url(target) {
            Ok(url) => Ok(
                OutboundRequest { method: OutboundMethod::Post, target: url, body: Some(document) },
            ),
            Err(_) => Err(ResponseEnvelope::InvalidUrl),
        },
    }
}

/// What the shell is to do for one inbound request.
#[derive(Debug, PartialEq, Eq)]
pub enum Plan {
    /// Serve the static asset under this path, or the standard not-found
    /// response where there is none, with these headers on either.
    ServeStatic { path: String, headers: Vec<Header> },
    /// Make this outbound call, and answer with `complete` of its outcome.
    Forward { request: OutboundRequest },
    /// Answer with this response.
    Reply { response: GatewayResponse },
    /// Answer with the standard not-found response, with these headers on it.
    NotFound { headers: Vec<Header> },
}

/// A `Plan` as a mathematical value.
pub enum PlanView {
    ServeStatic { path: Seq<char>, headers: Seq<(Seq<char>, Seq<char>)> },
    Forward { request: OutboundView },
    Reply { response: ResponseView },
    NotFound { headers: Seq<(Seq<char>, Seq<char>)> },
}

impl View for Plan {
    type V = PlanView;

    open spec fn view(&self) -> PlanView {
        match self {
            Plan::ServeStatic { path, headers } => PlanView::ServeStatic {
                path: path@,
                headers: header_views(headers@),
            },
            Plan::Forward { request } => PlanView::Forward { request: request@ },
            Plan::Reply { response } => PlanView::Reply { response: response@ },
            Plan::NotFound { headers } => PlanView::NotFound { headers: header_views(headers@) },
        }
    }
}

/// What a prepared call, or its refusal, asks of the shell.
pub open spec fn plan_for(prepared: Result<OutboundView, EnvelopeView>) -> PlanView {
    match prepared {
        Ok(request) => PlanView::Forward { request },
        Err(envelope) => PlanView::Reply { response: response_of(envelope) },
    }
}

/// What the gateway asks of the shell for a request with this method, path
/// and body.
pub open spec fn plan_of(method: Method, path: Seq<char>, body: Seq<u8>) -> PlanView {
    match route_of(method, path) {
        RouteView::StaticAsset { path } => PlanView::ServeStatic { path, headers: isolation() },
        RouteView::ProxyGet { target } => plan_for(get_plan(target)),
        RouteView::ProxyPost { target } => plan_for(post_plan(target, body)),
        RouteView::NotFound => PlanView::NotFound { headers: isolation() },
    }
}

/// The headers that a plan puts on the response: those it names, those of
/// the response it holds, or those of the response that will complete it.
pub open spec fn plan_headers(plan: PlanView) -> Seq<(Seq<char>, Seq<char>)> {
    match plan {
        PlanView::ServeStatic { headers, .. } => headers,
        PlanView::Forward { .. } => envelope_headers(),
        PlanView::Reply { response } => response.headers,
        PlanView::NotFound { headers } => headers,
    }
}

fn plan_prepared(prepared: Result<OutboundRequest, ResponseEnvelope>) -> (plan: Plan)
    ensures
        plan@ == plan_for(plan_view(prepared)),
{
    match prepared {
        Ok(request) => Plan::Forward { request },
        Err(envelope) => Plan::Reply { response: GatewayResponse::from_envelope(&envelope) },
    }
}

/// Decides what is done for one inbound request: it is routed, and a
/// proxied request is prepared for the outbound call or refused.
pub fn dispatch(method: Method, path: &str, body: &[u8]) -> (plan: Plan)
    ensures
        plan@ == plan_of(method, path@, body@),
{
    match route(method, path) {
        Route::StaticAsset { path } => Plan::ServeStatic { path, headers: isolation_headers() },
        Route::ProxyGet { target } => plan_prepared(proxy_get(target.as_str())),
        Route::ProxyPost { target } => plan_prepared(proxy_post(target.as_str(), body)),
        Route::NotFound => Plan::NotFound { headers: isolation_headers() },
    }
}

/// The response to a forwarded request, once its outbound call has ended.
pub fn complete(outcome: TransportOutcome) -> (response: GatewayResponse)
    ensures
        response@ == response_of(envelope_of(outcome@)),
{
    let envelope = ResponseEnvelope::from_outcome(outcome);
    GatewayResponse::from_envelope(&envelope)
}

/// The loopback port that the gateway listens on.
pub const PORT: u16 = 10101;

/// The settings of the gateway. They are fixed when it is made.
#[derive(Debug, PartialEq, Eq)]
pub struct GatewayConfig {
    port: u16,
    static_root: String,
}

impl GatewayConfig {
    /// The directory that static assets are served from.
    pub closed spec fn root(&self) -> Seq<char> {
        self.static_root@
    }

    #[verifier::type_invariant]
    spec fn fixed_port(self) -> bool {
        self.port == PORT
    }

    /// The settings of a gateway that serves static assets from
    /// `static_root`.
    pub fn new(static_root: String) -> (config: Self)
        ensures
            config.root() == static_root@,
    {
        GatewayConfig { port: PORT, static_root }
    }

    /// The port to listen on.
    pub fn port(&self) -> (port: u16)
        ensures
            port == PORT,
    {
        proof {
            use_type_invariant(self);
        }
        self.port
    }

    /// The address to listen on: the loopback address, and no other.
    pub fn address(&self) -> (address: &'static str)
        ensures
            address@ == "127.0.0.1"@,
    {
        "127.0.0.1"
    }

    /// The directory that static assets are served from.
    pub fn static_root(&self) -> (root: &str)
        ensures
            root@ == self.root(),
    {
        self.static_root.as_str()
    }

    /// The headers that go on every response.
    pub fn headers(&self) -> (headers: Vec<Header>)
        ensures
            header_views(headers@) == isolation(),
    {
        isolation_headers()
    }
}

/// Whatever the cause, an outbound call that failed in transport is
/// answered with exactly `{"error":"request_error","details":<cause>}`, the
/// cause as a JSON string literal that denotes it; the body is well-formed
/// JSON with these two members and the status is not 200.
pub proof fn lemma_transport_failure_response(details: Seq<char>)
    ensures
        ({
            let response = response_of(envelope_of(OutcomeView::Failed { details }));
            &&& response.body == "{\"error\":\"request_error\",\"details\":"@ + string_literal(
                details,
            ) + "}"@
            &&& is_flat_object(
                response.body,
                seq![
                    ("error"@, string_literal("request_error"@)),
                    ("details"@, string_literal(details)),
                ],
            )
            &&& literal_text(string_literal(details)) == Some(details)
            &&& response.status != 200
        }),
{
    lemma_error_body_is_json(envelope_of(OutcomeView::Failed { details }));
    lemma_string_literal_denotes(details);
}

/// Whatever the status, a response whose body is not a JSON document is
/// answered with exactly `{"error":"parse_error","status":<status>}`, the
/// status as the decimal numeral that denotes it; the body is well-formed
/// JSON with these two members and the status sent is not 200.
pub proof fn lemma_undecodable_response(status: u16, body: Seq<u8>)
    requires
        json_document(body) is None,
    ensures
        ({
            let response = response_of(envelope_of(OutcomeView::Responded { status, body }));
            &&& response.body == "{\"error\":\"parse_error\",\"status\":"@ + decimal(status as nat)
                + "}"@
            &&& is_flat_object(
                response.body,
                seq![("error"@, string_literal("parse_error"@)), ("status"@, decimal(status as nat))],
            )
            &&& decimal_value(decimal(status as nat)) == status
            &&& response.status != 200
        }),
{
    lemma_error_body_is_json(envelope_of(OutcomeView::Responded { status, body }));
    lemma_decimal_value(status as nat);
}

/// A response whose body is a JSON document is answered with that document
/// and nothing else, under status 200.
pub proof fn lemma_document_response(status: u16, body: Seq<u8>)
    requires
        json_document(body) is Some,
    ensures
        ({
            let response = response_of(envelope_of(OutcomeView::Responded { status, body }));
            &&& Some(response.body) == json_document(body)
            &&& response.status == 200
        }),
{
}

/// Every outcome is answered with exactly one of the two shapes: the
/// upstream document under status 200, or an error object under another
/// status.
pub proof fn lemma_one_shape_per_outcome(outcome: OutcomeView)
    ensures
        ({
            let envelope = envelope_of(outcome);
            let response = response_of(envelope);
            if envelope is Success {
                response.status == 200 && response.body == envelope->document
            } else {
                &&& response.status != 200
                &&& is_flat_object(response.body, error_members(envelope))
                &&& error_members(envelope)[0] == ("error"@, string_literal(kind_of(envelope)->0))
            }
        }),
{
    let envelope = envelope_of(outcome);
    if !(envelope is Success) {
        lemma_error_body_is_json(envelope);
    }
}

/// The gateway fails closed: an outbound call is prepared only for a request
/// under the proxy mount whose target the URL parser accepts, to the URL
/// that the request names and no other; by GET without a body, or by POST
/// with the document of the request body.
pub proof fn lemma_forward_only_resolved(method: Method, path: Seq<char>, body: Seq<u8>)
    ensures
        plan_of(method, path, body) matches PlanView::Forward { request } ==> {
            &&& proxied(path) is Some
            &&& request.url == resolved(proxied(path)->0)
            &&& url_parses(request.url)
            &&& method == Method::Get ==> request.method == OutboundMethod::Get && request.body
                is None
            &&& method == Method::Post ==> request.method == OutboundMethod::Post && request.body
                is Some && request.body == json_document(body)
            &&& method != Method::Other
        },
{
}

/// Whatever the request and whichever its route, the response carries both
/// isolation headers, with their fixed values: the plan names them for a
/// static asset and for a request without a route, and the response that
/// the gateway builds, at once or after the outbound call, holds them.
pub proof fn lemma_every_response_isolated(
    method: Method,
    path: Seq<char>,
    body: Seq<u8>,
    outcome: OutcomeView,
)
    ensures
        isolated(plan_headers(plan_of(method, path, body))),
        isolated(response_of(envelope_of(outcome)).headers),
        plan_of(method, path, body) is Forward ==> plan_headers(plan_of(method, path, body))
            == response_of(envelope_of(outcome)).headers,
{
    lemma_envelope_headers_isolated();
}

} // verus!
