//! Request tracing, and control of lights that speak the built-in commands.

use crate::config::addresses_for;
use crate::light::protocol::LightProtocolError;
use crate::light_runtime::{is_route, status_actions, LightError, LightJob, LightService};
use crate::text::{decimal, parse_u64, push_decimal, text_view, u64_of};
use crate::web::server::{
    endpoint_views, target_of, BAD_GATEWAY, BAD_REQUEST, INTERNAL_SERVER_ERROR, OK,
};
use axum::http::header::{HeaderMap, HeaderValue};
use axum::http::Version;
use opentelemetry::trace::{SpanContext, SpanId, TraceFlags, TraceId, TraceState};
use vstd::prelude::*;

pub use crate::web::api_response::ApiResponse;
pub use crate::web::server::{
    health, health_reply, resolve_target, ApiError, ControlLightRequest, Endpoint, Handler,
    HttpMethod, LightTarget,
};

verus! {

/// `HeaderMap` of the `http` crate, which holds any number of values for each header name. It is
/// opaque here: what is known of one is what `first_values` tells.
#[verifier::external_type_specification]
#[verifier::external_body]
#[verifier::reject_recursive_types(T)]
pub struct ExHeaderMap<T>(axum::http::header::HeaderMap<T>);

/// `HeaderValue` of the `http` crate, a run of bytes. It is opaque here: what is known of one is
/// what `octets` tells.
#[verifier::external_type_specification]
#[verifier::external_body]
pub struct ExHeaderValue(axum::http::header::HeaderValue);

/// The first value of each header, by the lower-case name of the header.
pub uninterp spec fn first_values(headers: HeaderMap<HeaderValue>) -> Map<Seq<char>, Seq<u8>>;

/// The bytes of a header value.
pub uninterp spec fn octets(value: HeaderValue) -> Seq<u8>;

/// A character in lower case, if it is an ASCII letter.
pub open spec fn ascii_lower(c: char) -> char {
    if 'A' <= c <= 'Z' {
        ((c as int) + 32) as char
    } else {
        c
    }
}

/// A header name in lower case.
pub open spec fn lower_name(name: Seq<char>) -> Seq<char> {
    name.map_values(|c: char| ascii_lower(c))
}

/// Whether a byte is a visible ASCII character, a space or a tab.
pub open spec fn visible(byte: u8) -> bool {
    32 <= byte < 127 || byte == 9
}

/// The text of a header value, if all its bytes are visible.
pub open spec fn visible_text(bytes: Seq<u8>) -> Option<Seq<char>> {
    if forall|i: int| 0 <= i < bytes.len() ==> visible(#[trigger] bytes[i]) {
        Some(bytes.map_values(|byte: u8| byte as char))
    } else {
        None
    }
}

/// The text of the first value of the header called `name`, if there is one.
pub open spec fn header_line(headers: HeaderMap<HeaderValue>, name: Seq<char>) -> Option<
    Seq<char>,
> {
    if first_values(headers).contains_key(lower_name(name)) {
        visible_text(first_values(headers)[lower_name(name)])
    } else {
        None
    }
}

/// `HeaderMap::get` looks a header up by its name, of any case, and gives the first of its values.
#[verifier::external_body]
fn header_first<'a>(headers: &'a HeaderMap<HeaderValue>, name: &str) -> (value: Option<
    &'a HeaderValue,
>)
    ensures
        match value {
            Some(value) => first_values(*headers).contains_key(lower_name(name@)) && octets(*value)
                == first_values(*headers)[lower_name(name@)],
            None => !first_values(*headers).contains_key(lower_name(name@)),
        },
{
    headers.get(name)
}

/// `HeaderValue::to_str` gives the value as text where all its bytes are visible ASCII, spaces or
/// tabs, and an error where they are not.
#[verifier::external_body]
fn header_text(value: &HeaderValue) -> (text: Option<&str>)
    ensures
        match text {
            Some(text) => visible_text(octets(*value)) == Some(text@),
            None => visible_text(octets(*value)) is None,
        },
{
    value.to_str().ok()
}

/// The text of the first value of the header called `name`, if there is one.
pub fn header_str<'a>(headers: &'a HeaderMap<HeaderValue>, name: &str) -> (text: Option<&'a str>)
    ensures
        match text {
            Some(text) => header_line(*headers, name@) == Some(text@),
            None => header_line(*headers, name@) is None,
        },
{
    match header_first(headers, name) {
        Some(value) => header_text(value),
        None => None,
    }
}

/// The text of a string that may be missing.
pub open spec fn string_view(text: Option<String>) -> Option<Seq<char>> {
    match text {
        Some(text) => Some(text@),
        None => None,
    }
}

/// The first text that is there.
pub open spec fn first_of(first: Option<Seq<char>>, second: Option<Seq<char>>) -> Option<
    Seq<char>,
> {
    if first is Some {
        first
    } else {
        second
    }
}

/// The text, or `default` where it is missing.
pub open spec fn text_or(text: Option<Seq<char>>, default: Seq<char>) -> Seq<char> {
    match text {
        Some(text) => text,
        None => default,
    }
}

fn or_else<'a>(first: Option<&'a str>, second: Option<&'a str>) -> (text: Option<&'a str>)
    ensures
        text_view(text) == first_of(text_view(first), text_view(second)),
{
    if first.is_some() {
        first
    } else {
        second
    }
}

fn owned_or(text: Option<&str>, default: &str) -> (owned: String)
    ensures
        owned@ == text_or(text_view(text), default@),
{
    match text {
        Some(text) => text.to_string(),
        None => default.to_string(),
    }
}

fn borrowed(text: &Option<String>) -> (borrowed: Option<&str>)
    ensures
        text_view(borrowed) == string_view(*text),
{
    match text {
        Some(text) => Some(text.as_str()),
        None => None,
    }
}

/// A version of HTTP.
#[derive(Debug, Clone, Copy, PartialEq, Eq, Structural)]
pub enum HttpVersion {
    Http09,
    Http10,
    Http11,
    Http2,
    Http3,
}

/// What a request says of itself before its body.
pub struct RequestHead {
    pub version: HttpVersion,
    pub method: String,
    pub uri_scheme: Option<String>,
    pub uri_authority: Option<String>,
    pub uri_path: String,
    pub uri_query: Option<String>,
    pub headers: HeaderMap<HeaderValue>,
}

/// What is logged of a request.
#[derive(Debug, PartialEq, Eq)]
pub struct HttpRequestLogInfo {
    pub protocol: String,
    pub method: String,
    pub scheme: String,
    pub host: String,
    pub path: String,
    pub query_string: String,
    pub content_type: String,
    pub content_length: u64,
}

/// What is logged of a response.
#[derive(Debug, PartialEq, Eq)]
pub struct HttpResponseLogInfo {
    pub content_type: String,
    pub content_length: u64,
    pub elapsed_ms: u128,
}

/// The name of a version of HTTP.
pub open spec fn version_name(version: HttpVersion) -> Seq<char> {
    match version {
        HttpVersion::Http09 => "HTTP/0.9"@,
        HttpVersion::Http10 => "HTTP/1.0"@,
        HttpVersion::Http11 => "HTTP/1.1"@,
        HttpVersion::Http2 => "HTTP/2.0"@,
        HttpVersion::Http3 => "HTTP/3.0"@,
    }
}

/// `Version` prints itself, with its `Debug`, as `HTTP/` and the two numbers of the version.
#[verifier::external_body]
fn print_version(version: HttpVersion) -> (text: String)
    ensures
        text@ == version_name(version),
{
    let version = match version {
        HttpVersion::Http09 => Version::HTTP_09,
        HttpVersion::Http10 => Version::HTTP_10,
        HttpVersion::Http11 => Version::HTTP_11,
        HttpVersion::Http2 => Version::HTTP_2,
        HttpVersion::Http3 => Version::HTTP_3,
    };
    format!("{version:?}")
}

/// The name of a version of HTTP.
pub fn protocol(version: HttpVersion) -> (name: String)
    ensures
        name@ == version_name(version),
{
    print_version(version)
}

/// The scheme of a request: that of its URI, else that reported by a proxy, else `http`.
pub fn scheme(uri_scheme: Option<&str>, headers: &HeaderMap<HeaderValue>) -> (scheme: String)
    ensures
        scheme@ == scheme_of(
            text_view(uri_scheme),
            header_line(*headers, "x-forwarded-proto"@),
            header_line(*headers, "x-scheme"@),
        ),
{
    choose_scheme(
        uri_scheme,
        header_str(headers, "x-forwarded-proto"),
        header_str(headers, "x-scheme"),
    )
}

/// The scheme of a request, by its URI and by the two headers that may report it.
pub open spec fn scheme_of(
    uri_scheme: Option<Seq<char>>,
    forwarded: Option<Seq<char>>,
    reported: Option<Seq<char>>,
) -> Seq<char> {
    text_or(first_of(first_of(uri_scheme, forwarded), reported), "http"@)
}

/// Picks the scheme of a request.
pub fn choose_scheme(
    uri_scheme: Option<&str>,
    forwarded: Option<&str>,
    reported: Option<&str>,
) -> (scheme: String)
    ensures
        scheme@ == scheme_of(text_view(uri_scheme), text_view(forwarded), text_view(reported)),
{
    owned_or(or_else(or_else(uri_scheme, forwarded), reported), "http")
}

/// The host of a request: that of its URI, else that of the header, else nothing.
pub fn host(uri_authority: Option<&str>, headers: &HeaderMap<HeaderValue>) -> (host: String)
    ensures
        host@ == host_of(text_view(uri_authority), header_line(*headers, "host"@)),
{
    choose_host(uri_authority, header_str(headers, "host"))
}

/// The host of a request, by its URI and by the header.
pub open spec fn host_of(uri_authority: Option<Seq<char>>, header: Option<Seq<char>>) -> Seq<char> {
    text_or(first_of(uri_authority, header), Seq::empty())
}

/// Picks the host of a request.
pub fn choose_host(uri_authority: Option<&str>, header: Option<&str>) -> (host: String)
    ensures
        host@ == host_of(text_view(uri_authority), text_view(header)),
{
    proof {
        reveal_strlit("");
    }
    owned_or(or_else(uri_authority, header), "")
}

/// The query of a URI with its question mark, or nothing.
pub open spec fn query_text(query: Option<Seq<char>>) -> Seq<char> {
    match query {
        Some(query) => "?"@ + query,
        None => Seq::empty(),
    }
}

/// Renders the query of a URI.
pub fn query_string(uri_query: Option<&str>) -> (text: String)
    ensures
        text@ == query_text(text_view(uri_query)),
{
    match uri_query {
        Some(query) => "?".to_string().concat(query),
        None => String::new(),
    }
}

/// The length that a header gives for a body: zero where it gives none.
pub open spec fn length_of(header: Option<Seq<char>>) -> u64 {
    match header {
        Some(text) => match u64_of(text) {
            Some(length) => length,
            None => 0,
        },
        None => 0,
    }
}

/// The length of the body that the headers give.
pub fn content_length(headers: &HeaderMap<HeaderValue>) -> (length: u64)
    ensures
        length == length_of(header_line(*headers, "content-length"@)),
{
    read_content_length(header_str(headers, "content-length"))
}

/// Reads the length that a header gives for a body.
pub fn read_content_length(header: Option<&str>) -> (length: u64)
    ensures
        length == length_of(text_view(header)),
{
    match header {
        Some(text) => match parse_u64(text) {
            Some(length) => length,
            None => 0,
        },
        None => 0,
    }
}

/// The text of the header called `name`, or nothing.
pub fn header_value(headers: &HeaderMap<HeaderValue>, name: &str) -> (value: String)
    ensures
        value@ == text_or(header_line(*headers, name@), Seq::empty()),
{
    proof {
        reveal_strlit("");
    }
    owned_or(header_str(headers, name), "")
}

/// What two log messages say of a request: how it came and what it asked for.
pub open spec fn request_line(request: HttpRequestLogInfo) -> Seq<char> {
    request.protocol@ + " "@ + request.method@ + " "@ + request.scheme@ + "://"@ + request.host@
        + request.path@ + request.query_string@
}

fn push_request_line(out: &mut String, request: &HttpRequestLogInfo)
    ensures
        final(out)@ == old(out)@ + request_line(*request),
{
    out.append(request.protocol.as_str());
    out.append(" ");
    out.append(request.method.as_str());
    out.append(" ");
    out.append(request.scheme.as_str());
    out.append("://");
    out.append(request.host.as_str());
    out.append(request.path.as_str());
    out.append(request.query_string.as_str());
    assert(out@ =~= old(out)@ + request_line(*request));
}

impl HttpRequestLogInfo {
    /// Gathers what is logged of a request.
    pub fn from_request(request: &RequestHead) -> (info: Self)
        ensures
            info.protocol@ == version_name(request.version),
            info.method@ == request.method@,
            info.scheme@ == scheme_of(
                string_view(request.uri_scheme),
                header_line(request.headers, "x-forwarded-proto"@),
                header_line(request.headers, "x-scheme"@),
            ),
            info.host@ == host_of(
                string_view(request.uri_authority),
                header_line(request.headers, "host"@),
            ),
            info.path@ == request.uri_path@,
            info.query_string@ == query_text(string_view(request.uri_query)),
            info.content_type@ == text_or(
                header_line(request.headers, "content-type"@),
                Seq::empty(),
            ),
            info.content_length == length_of(header_line(request.headers, "content-length"@)),
    {
        HttpRequestLogInfo {
            protocol: protocol(request.version),
            method: request.method.clone(),
            scheme: scheme(borrowed(&request.uri_scheme), &request.headers),
            host: host(borrowed(&request.uri_authority), &request.headers),
            path: request.uri_path.clone(),
            query_string: query_string(borrowed(&request.uri_query)),
            content_type: header_value(&request.headers, "content-type"),
            content_length: content_length(&request.headers),
        }
    }

    /// The message logged when a request starts.
    pub fn start_message(&self) -> (message: String)
        ensures
            message@ == "Request starting "@ + request_line(*self) + " - "@ + self.content_type@
                + " "@ + decimal(self.content_length as nat),
    {
        let mut message = "Request starting ".to_string();
        push_request_line(&mut message, self);
        message.append(" - ");
        message.append(self.content_type.as_str());
        message.append(" ");
        push_decimal(&mut message, self.content_length as u128);
        message
    }
}

impl HttpResponseLogInfo {
    /// What is logged of a response.
    pub fn new(content_type: String, content_length: u64, elapsed_ms: u128) -> (info: Self)
        ensures
            info == (HttpResponseLogInfo { content_type, content_length, elapsed_ms }),
    {
        HttpResponseLogInfo { content_type, content_length, elapsed_ms }
    }

    /// What is logged when a request is over.
    pub open spec fn finish_text(self, request: HttpRequestLogInfo, status_code: u16) -> Seq<char> {
        "Request finished "@ + request_line(request) + " - "@ + decimal(status_code as nat) + " "@
            + decimal(self.content_length as nat) + " "@ + self.content_type@ + " "@ + decimal(
            self.elapsed_ms as nat,
        ) + "ms"@
    }

    /// The message logged when a request is over.
    pub fn finish_message(&self, request: &HttpRequestLogInfo, status_code: u16) -> (message:
        String)
        ensures
            message@ == self.finish_text(*request, status_code),
    {
        let mut message = "Request finished ".to_string();
        push_request_line(&mut message, request);
        message.append(" - ");
        push_decimal(&mut message, status_code as u128);
        message.append(" ");
        push_decimal(&mut message, self.content_length as u128);
        message.append(" ");
        message.append(self.content_type.as_str());
        message.append(" ");
        push_decimal(&mut message, self.elapsed_ms);
        message.append("ms");
        message
    }
}

/// What a span is known by.
#[derive(Debug, Clone, Copy)]
pub struct SpanIds {
    pub trace_id: u128,
    pub span_id: u64,
}

/// The lower-case hexadecimal digit `d`, for `d` below sixteen.
pub open spec fn lower_hex_digit(d: nat) -> char {
    seq!['0', '1', '2', '3', '4', '5', '6', '7', '8', '9', 'a', 'b', 'c', 'd', 'e', 'f'][d as int]
}

/// The last `width` hexadecimal digits of `n`.
pub open spec fn lower_hex(n: nat, width: nat) -> Seq<char>
    decreases width,
{
    if width == 0 {
        Seq::empty()
    } else {
        lower_hex(n / 16, (width - 1) as nat).push(lower_hex_digit(n % 16))
    }
}

/// `SpanContext::is_valid` holds of a span context whose trace id and span id are both not zero.
#[verifier::external_body]
fn is_valid_span(trace_id: u128, span_id: u64) -> (valid: bool)
    ensures
        valid == (trace_id != 0 && span_id != 0),
{
    SpanContext::new(
        TraceId::from(trace_id),
        SpanId::from(span_id),
        TraceFlags::default(),
        false,
        TraceState::default(),
    ).is_valid()
}

/// `TraceId` prints itself as its sixteen bytes in lower-case hexadecimal, two digits each.
#[verifier::external_body]
fn print_trace_id(trace_id: u128) -> (text: String)
    ensures
        text@ == lower_hex(trace_id as nat, 32),
{
    TraceId::from(trace_id).to_string()
}

/// The trace id of a span as text, if the span is valid.
pub fn trace_id_from_context(context: &SpanIds) -> (trace_id: Option<String>)
    ensures
        match trace_id {
            Some(text) => context.trace_id != 0 && context.span_id != 0 && text@ == lower_hex(
                context.trace_id as nat,
                32,
            ),
            None => context.trace_id == 0 || context.span_id == 0,
        },
{
    if is_valid_span(context.trace_id, context.span_id) {
        Some(print_trace_id(context.trace_id))
    } else {
        None
    }
}

/// The trace id of a request: that of the caller's span, else that of the request's own span,
/// else `unknown`.
pub fn request_trace_id(parent: &SpanIds, own: &SpanIds) -> (trace_id: String)
    ensures
        trace_id@ == (if parent.trace_id != 0 && parent.span_id != 0 {
            lower_hex(parent.trace_id as nat, 32)
        } else if own.trace_id != 0 && own.span_id != 0 {
            lower_hex(own.trace_id as nat, 32)
        } else {
            "unknown"@
        }),
{
    match trace_id_from_context(parent) {
        Some(trace_id) => trace_id,
        None => match trace_id_from_context(own) {
            Some(trace_id) => trace_id,
            None => "unknown".to_string(),
        },
    }
}

/// A response whose body was read. `rest` is what else there is to it.
pub struct TracedResponse<P> {
    pub status: u16,
    pub headers: HeaderMap<HeaderValue>,
    pub body: Vec<u8>,
    pub rest: P,
}

/// What becomes of a response once its body was read, or could not be.
pub enum TraceEnd<P> {
    /// The response goes on; this is logged of it.
    Log { info: HttpResponseLogInfo, message: String, response: TracedResponse<P> },
    /// This goes on in place of the response.
    Replace { status: u16, body: ApiResponse<()> },
}

/// Ends the trace of a request. A response whose body could be read is logged and goes on as it
/// is; `body` is that body, and `rest` what is neither status, headers nor body.
pub fn finish_trace<P>(
    request: &HttpRequestLogInfo,
    status_code: u16,
    headers: HeaderMap<HeaderValue>,
    body: Option<Vec<u8>>,
    rest: P,
    elapsed_ms: u128,
) -> (end: TraceEnd<P>)
    ensures
        match body {
            Some(body) => {
                &&& end matches TraceEnd::Log { info, message, response }
                &&& response == (TracedResponse { status: status_code, headers, body, rest })
                &&& info.content_type@ == text_or(
                    header_line(headers, "content-type"@),
                    Seq::empty(),
                )
                &&& info.content_length == body@.len()
                &&& info.elapsed_ms == elapsed_ms
                &&& message@ == info.finish_text(*request, status_code)
            },
            None => {
                &&& end matches TraceEnd::Replace { status, body }
                &&& status == INTERNAL_SERVER_ERROR
                &&& !body.success
                &&& body.data is None
                &&& body.message@ == "failed to read http response body"@
            },
        },
{
    match body {
        Some(body) => {
            let info = HttpResponseLogInfo::new(
                header_value(&headers, "content-type"),
                body.len() as u64,
                elapsed_ms,
            );
            let message = info.finish_message(request, status_code);
            TraceEnd::Log {
                info,
                message,
                response: TracedResponse { status: status_code, headers, body, rest },
            }
        },
        None => TraceEnd::Replace {
            status: INTERNAL_SERVER_ERROR,
            body: ApiResponse {
                success: false,
                data: None,
                message: "failed to read http response body".to_string(),
            },
        },
    }
}

/// The endpoints of the service. Each request to one of them is traced.
pub fn build_router() -> (endpoints: Vec<Endpoint>)
    ensures
        endpoint_views(endpoints@) == seq![
            (HttpMethod::Get, "/health"@, Handler::Health),
            (HttpMethod::Post, "/api/lights/control"@, Handler::ControlLight),
        ],
{
    let mut endpoints: Vec<Endpoint> = Vec::new();
    endpoints.push(
        Endpoint { method: HttpMethod::Get, path: "/health", handler: Handler::Health },
    );
    endpoints.push(
        Endpoint {
            method: HttpMethod::Post,
            path: "/api/lights/control",
            handler: Handler::ControlLight,
        },
    );
    endpoints
}

/// The work that a request to control a light asks for.
pub fn control_light(service: &LightService, request: ControlLightRequest, remote_ip: String) -> (
result: Result<LightJob, LightError>)
    ensures
        match target_of(request.light_ip, request.request_ip, remote_ip) {
            LightTarget::LightIp(light_ip) => {
                &&& result matches Ok(job)
                &&& is_route(job.route, service@, light_ip@)
                &&& job.plan.remaining() == status_actions(request.status)
            },
            LightTarget::RequestIp(request_ip) => {
                let addresses = addresses_for(service@, request_ip@);
                match result {
                    Ok(job) => {
                        &&& addresses.len() > 0
                        &&& is_route(job.route, service@, addresses[0])
                        &&& job.plan.remaining() == status_actions(request.status)
                    },
                    Err(error) => {
                        &&& addresses.len() == 0
                        &&& error matches LightError::UnknownRequestIp(ip)
                        &&& ip@ == request_ip@
                    },
                }
            },
        },
{
    match resolve_target(request.light_ip, request.request_ip, remote_ip) {
        LightTarget::LightIp(light_ip) => Ok(service.light(request.status, light_ip.as_str())),
        LightTarget::RequestIp(request_ip) => service.light_by_request_ip(
            request.status,
            request_ip.as_str(),
        ),
    }
}

/// The HTTP status for an error.
pub open spec fn status_of(error: LightError) -> u16 {
    match error {
        LightError::UnknownRequestIp(_) => BAD_REQUEST,
        LightError::MultipleLightsForRequestIp(_) => BAD_REQUEST,
        LightError::ConnectionPool(_, _) => BAD_GATEWAY,
        LightError::Io(_, _) => BAD_GATEWAY,
        LightError::Timeout(_) => BAD_GATEWAY,
    }
}

impl From<LightError> for ApiError {
    fn from(error: LightError) -> (reply: Self)
        ensures
            reply.status == status_of(error),
            reply.message@ == error.message(),
    {
        let status = match &error {
            LightError::UnknownRequestIp(_) | LightError::MultipleLightsForRequestIp(_) => {
                BAD_REQUEST
            },
            LightError::ConnectionPool(_, _) | LightError::Io(_, _) | LightError::Timeout(_) => {
                BAD_GATEWAY
            },
        };
        ApiError { status, message: error.to_string() }
    }
}

impl vstd::std_specs::convert::FromSpecImpl<LightError> for ApiError {
    open spec fn obeys_from_spec() -> bool {
        false
    }

    open spec fn from_spec(error: LightError) -> Self {
        arbitrary()
    }
}

impl From<LightProtocolError> for ApiError {
    fn from(error: LightProtocolError) -> (reply: Self)
        ensures
            reply.status == INTERNAL_SERVER_ERROR,
            reply.message@ == error.message(),
    {
        ApiError { status: INTERNAL_SERVER_ERROR, message: error.to_string() }
    }
}

impl vstd::std_specs::convert::FromSpecImpl<LightProtocolError> for ApiError {
    open spec fn obeys_from_spec() -> bool {
        false
    }

    open spec fn from_spec(error: LightProtocolError) -> Self {
        arbitrary()
    }
}

/// The HTTP status of the reply to a request to control a light.
pub open spec fn reply_status(outcome: Result<(), LightError>) -> u16 {
    match outcome {
        Ok(_) => OK,
        Err(error) => status_of(error),
    }
}

/// The message of the reply to a request to control a light.
pub open spec fn reply_message(outcome: Result<(), LightError>) -> Seq<char> {
    match outcome {
        Ok(_) => "ok"@,
        Err(error) => error.message(),
    }
}

/// A request is answered with the status for success if, and only if, its work succeeded.
pub proof fn law_only_success_is_answered_as_success(outcome: Result<(), LightError>)
    ensures
        reply_status(outcome) == OK <==> outcome is Ok,
{
}

/// The HTTP status and the body of the reply to a request to control a light, once its work is
/// over.
pub fn control_reply(outcome: Result<(), LightError>) -> (reply: (u16, ApiResponse<()>))
    ensures
        reply.0 == reply_status(outcome),
        reply.1.success == outcome is Ok,
        reply.1.data is None,
        reply.1.message@ == reply_message(outcome),
{
    match outcome {
        Ok(()) => (OK, ApiResponse { success: true, data: None, message: "ok".to_string() }),
        Err(error) => ApiError::from(error).into_response(),
    }
}

} // verus!
