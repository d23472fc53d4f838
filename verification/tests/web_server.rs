use axum::body::Body;
use axum::http::{HeaderMap, HeaderValue, Request, Version};
use light_manager::config::{
    BasicLightCommandConfig, CompositeLightCommandConfig, Light, LightCommandConfig, LightConfig,
    LightTimingConfig,
};
use light_manager::light::protocol::LightProtocolError;
use light_manager::light_runtime::{LightError, LightService, LightStatus};
use light_manager::web_server::{
    build_router, choose_host, choose_scheme, content_length, control_light, control_reply,
    finish_trace, header_str, header_value, host, protocol, query_string, read_content_length,
    request_trace_id, resolve_target, scheme, trace_id_from_context, ApiError,
    ControlLightRequest, Handler, HttpMethod, HttpRequestLogInfo, HttpResponseLogInfo,
    HttpVersion, LightTarget, RequestHead, SpanIds, TraceEnd,
};
use opentelemetry::propagation::TextMapPropagator;
use opentelemetry::trace::TraceContextExt;
use opentelemetry::Context;
use opentelemetry_http::HeaderExtractor;
use opentelemetry_sdk::propagation::TraceContextPropagator;

fn request_head(request: &Request<Body>) -> RequestHead {
    let text = |text: &str| text.to_string();
    let version = match request.version() {
        Version::HTTP_09 => HttpVersion::Http09,
        Version::HTTP_10 => HttpVersion::Http10,
        Version::HTTP_11 => HttpVersion::Http11,
        Version::HTTP_2 => HttpVersion::Http2,
        _ => HttpVersion::Http3,
    };
    RequestHead {
        version,
        method: request.method().to_string(),
        uri_scheme: request.uri().scheme_str().map(text),
        uri_authority: request.uri().authority().map(|a| text(a.as_str())),
        uri_path: text(request.uri().path()),
        uri_query: request.uri().query().map(text),
        headers: request.headers().clone(),
    }
}

fn span_ids(context: &Context) -> SpanIds {
    let span = context.span();
    SpanIds {
        trace_id: u128::from_be_bytes(span.span_context().trace_id().to_bytes()),
        span_id: u64::from_be_bytes(span.span_context().span_id().to_bytes()),
    }
}

#[test]
fn web_server_explicit_light_ip_wins_over_request_ip() {
    let target = resolve_target(
        Some("192.168.70.151".to_string()),
        Some("192.168.70.166".to_string()),
        "127.0.0.1".to_string(),
    );

    assert!(matches!(
        target,
        LightTarget::LightIp(ip) if ip == "192.168.70.151"
    ));
}

#[test]
fn web_server_falls_back_to_remote_ip_when_no_target_is_provided() {
    let target = resolve_target(None, None, "127.0.0.1".to_string());

    assert!(matches!(
        target,
        LightTarget::RequestIp(ip) if ip == "127.0.0.1"
    ));
}

#[test]
fn reads_trace_id_from_traceparent_header() {
    let mut headers = HeaderMap::new();
    headers.insert(
        "traceparent",
        HeaderValue::from_static("00-4bf92f3577b34da6a3ce929d0e0e4736-00f067aa0ba902b7-01"),
    );
    let propagator = TraceContextPropagator::new();
    let context = propagator.extract(&HeaderExtractor(&headers));

    assert_eq!(
        trace_id_from_context(&span_ids(&context)),
        Some("4bf92f3577b34da6a3ce929d0e0e4736".to_string())
    );
}

#[test]
fn span_without_ids_has_no_trace_id() {
    assert_eq!(
        trace_id_from_context(&SpanIds {
            trace_id: 0,
            span_id: 5
        }),
        None
    );
    assert_eq!(
        trace_id_from_context(&SpanIds {
            trace_id: 5,
            span_id: 0
        }),
        None
    );
    assert_eq!(
        trace_id_from_context(&SpanIds {
            trace_id: 0xAB,
            span_id: 1
        }),
        Some("000000000000000000000000000000ab".to_string())
    );
}

#[test]
fn trace_id_of_the_caller_comes_first() {
    let none = SpanIds {
        trace_id: 0,
        span_id: 0,
    };
    let caller = SpanIds {
        trace_id: u128::MAX,
        span_id: 1,
    };
    let own = SpanIds {
        trace_id: 0x10,
        span_id: 2,
    };

    assert_eq!(
        request_trace_id(&caller, &own),
        "ffffffffffffffffffffffffffffffff"
    );
    assert_eq!(
        request_trace_id(&none, &own),
        "00000000000000000000000000000010"
    );
    assert_eq!(request_trace_id(&none, &none), "unknown");
}

#[test]
fn builds_http_request_log_info_like_aspnet_core() {
    let request = Request::builder()
        .method("POST")
        .uri("http://10.11.60.143:9001/User/Login")
        .header("content-type", "application/json")
        .header("content-length", "43")
        .body(Body::empty())
        .unwrap();

    assert_eq!(
        HttpRequestLogInfo::from_request(&request_head(&request)),
        HttpRequestLogInfo {
            protocol: "HTTP/1.1".to_string(),
            method: "POST".to_string(),
            scheme: "http".to_string(),
            host: "10.11.60.143:9001".to_string(),
            path: "/User/Login".to_string(),
            query_string: String::new(),
            content_type: "application/json".to_string(),
            content_length: 43,
        }
    );
}

#[test]
fn renders_http_request_log_fields_in_body() {
    let request = Request::builder()
        .method("POST")
        .uri("http://10.11.60.143:9001/User/Login?source=scanner")
        .header("content-type", "application/json")
        .header("content-length", "43")
        .body(Body::empty())
        .unwrap();

    assert_eq!(
        HttpRequestLogInfo::from_request(&request_head(&request)).start_message(),
        "Request starting HTTP/1.1 POST http://10.11.60.143:9001/User/Login?source=scanner - application/json 43"
    );
}

#[test]
fn renders_http_response_log_fields_in_body() {
    let request = Request::builder()
        .method("POST")
        .uri("http://10.11.60.143:9001/User/Login?source=scanner")
        .header("content-type", "application/json")
        .header("content-length", "43")
        .body(Body::empty())
        .unwrap();
    let request_info = HttpRequestLogInfo::from_request(&request_head(&request));
    let response_info = HttpResponseLogInfo::new("application/json".to_string(), 52, 5);

    assert_eq!(
        response_info.finish_message(&request_info, 200),
        "Request finished HTTP/1.1 POST http://10.11.60.143:9001/User/Login?source=scanner - 200 52 application/json 5ms"
    );
}

#[test]
fn request_without_authority_is_described_by_its_headers() {
    let request = Request::builder()
        .method("GET")
        .uri("/health")
        .header("X-Forwarded-Proto", "https")
        .header("X-Scheme", "ws")
        .header("Host", "lights.local")
        .header("content-length", "many")
        .body(Body::empty())
        .unwrap();

    assert_eq!(
        HttpRequestLogInfo::from_request(&request_head(&request)),
        HttpRequestLogInfo {
            protocol: "HTTP/1.1".to_string(),
            method: "GET".to_string(),
            scheme: "https".to_string(),
            host: "lights.local".to_string(),
            path: "/health".to_string(),
            query_string: String::new(),
            content_type: String::new(),
            content_length: 0,
        }
    );
}

#[test]
fn versions_are_named() {
    assert_eq!(protocol(HttpVersion::Http09), "HTTP/0.9");
    assert_eq!(protocol(HttpVersion::Http10), "HTTP/1.0");
    assert_eq!(protocol(HttpVersion::Http11), "HTTP/1.1");
    assert_eq!(protocol(HttpVersion::Http2), "HTTP/2.0");
    assert_eq!(protocol(HttpVersion::Http3), "HTTP/3.0");
}

#[test]
fn scheme_and_host_have_fallbacks() {
    let mut headers = HeaderMap::new();
    assert_eq!(scheme(None, &headers), "http");
    assert_eq!(host(None, &headers), "");
    headers.insert("x-scheme", HeaderValue::from_static("ws"));
    headers.insert("host", HeaderValue::from_static("lights.local"));
    assert_eq!(scheme(None, &headers), "ws");
    assert_eq!(host(None, &headers), "lights.local");
    assert_eq!(scheme(Some("ftp"), &headers), "ftp");
    assert_eq!(host(Some("10.0.0.1:80"), &headers), "10.0.0.1:80");

    assert_eq!(choose_scheme(None, Some("a"), Some("b")), "a");
    assert_eq!(choose_scheme(None, None, Some("b")), "b");
    assert_eq!(choose_scheme(Some("c"), Some("a"), Some("b")), "c");
    assert_eq!(choose_scheme(None, None, None), "http");
    assert_eq!(choose_host(None, None), "");
    assert_eq!(choose_host(None, Some("b")), "b");
    assert_eq!(choose_host(Some("a"), Some("b")), "a");
}

#[test]
fn queries_keep_their_question_mark() {
    assert_eq!(query_string(Some("a=1")), "?a=1");
    assert_eq!(query_string(Some("")), "?");
    assert_eq!(query_string(None), "");
}

#[test]
fn headers_are_read_by_name_of_any_case() {
    let mut headers = HeaderMap::new();
    headers.append("content-type", HeaderValue::from_static("text/plain"));
    headers.append("content-type", HeaderValue::from_static("text/html"));
    headers.append("x-tab", HeaderValue::from_static("a\tb"));
    headers.append("x-binary", HeaderValue::from_bytes(b"a\xffb").unwrap());

    assert_eq!(header_str(&headers, "Content-TYPE"), Some("text/plain"));
    assert_eq!(header_str(&headers, "x-tab"), Some("a\tb"));
    assert_eq!(header_str(&headers, "x-binary"), None);
    assert_eq!(header_str(&headers, "accept"), None);
    assert_eq!(header_str(&headers, "no header name"), None);
    assert_eq!(header_value(&headers, "content-type"), "text/plain");
    assert_eq!(header_value(&headers, "accept"), "");
}

#[test]
fn content_length_is_read_where_it_is_a_number() {
    let mut headers = HeaderMap::new();
    assert_eq!(content_length(&headers), 0);
    headers.insert("content-length", HeaderValue::from_static("43"));
    assert_eq!(content_length(&headers), 43);

    assert_eq!(read_content_length(Some("18446744073709551615")), u64::MAX);
    assert_eq!(read_content_length(Some("18446744073709551616")), 0);
    assert_eq!(read_content_length(Some("-1")), 0);
    assert_eq!(read_content_length(Some("+7")), 7);
    assert_eq!(read_content_length(None), 0);
}

#[test]
fn response_is_logged_where_its_body_was_read() {
    let request = Request::builder()
        .uri("/health")
        .body(Body::empty())
        .unwrap();
    let info = HttpRequestLogInfo::from_request(&request_head(&request));
    let mut headers = HeaderMap::new();
    headers.insert("content-type", HeaderValue::from_static("text/plain"));

    let page = Some(b"no such page".to_vec());
    match finish_trace(&info, 404, headers.clone(), page, Version::HTTP_2, 7) {
        TraceEnd::Log {
            info,
            message,
            response,
        } => {
            assert_eq!(response.status, 404);
            assert_eq!(response.headers, headers);
            assert_eq!(response.body, b"no such page");
            assert_eq!(response.rest, Version::HTTP_2);
            assert_eq!(
                info,
                HttpResponseLogInfo::new("text/plain".to_string(), 12, 7)
            );
            assert_eq!(
                message,
                "Request finished HTTP/1.1 GET http:///health - 404 12 text/plain 7ms"
            );
        }
        TraceEnd::Replace { .. } => panic!("the body was read"),
    }
    match finish_trace(&info, 200, headers, None, Version::HTTP_2, 7) {
        TraceEnd::Log { .. } => panic!("the body was not read"),
        TraceEnd::Replace { status, body } => {
            assert_eq!(status, 500);
            assert!(!body.success);
            assert_eq!(body.data, None);
            assert_eq!(body.message, "failed to read http response body");
        }
    }
}

#[test]
fn request_is_routed_to_the_light() {
    let service = service();

    let request = ControlLightRequest {
        status: LightStatus::Red,
        light_ip: None,
        request_ip: None,
    };
    let job = control_light(&service, request, "10.0.0.1".to_string())
        .ok()
        .unwrap();
    assert_eq!(job.route.runtime.address, "10.0.1.1:502");

    let request = ControlLightRequest {
        status: LightStatus::Red,
        light_ip: Some("10.0.1.2:502".to_string()),
        request_ip: None,
    };
    let job = control_light(&service, request, "10.0.0.1".to_string())
        .ok()
        .unwrap();
    assert_eq!(job.route.runtime.address, "10.0.1.2:502");

    let request = ControlLightRequest {
        status: LightStatus::Red,
        light_ip: None,
        request_ip: Some("10.0.0.2".to_string()),
    };
    let error = control_light(&service, request, "10.0.0.1".to_string())
        .err()
        .unwrap();
    assert_eq!(error.to_string(), "unknown request ip: 10.0.0.2");
}

#[test]
fn errors_have_their_http_status() {
    let text = || "x".to_string();
    assert_eq!(ApiError::from(LightError::UnknownRequestIp(text())).status, 400);
    assert_eq!(
        ApiError::from(LightError::MultipleLightsForRequestIp(text())).status,
        400
    );
    assert_eq!(
        ApiError::from(LightError::ConnectionPool(text(), text())).status,
        502
    );
    assert_eq!(ApiError::from(LightError::Io(text(), text())).status, 502);
    assert_eq!(ApiError::from(LightError::Timeout(text())).status, 502);
    let invalid = ApiError::from(LightProtocolError::InvalidCommand(text()));
    assert_eq!(invalid.status, 500);
    assert_eq!(invalid.message, "invalid light command config: x");
    let unknown = ApiError::from(LightProtocolError::UnknownCommand(text()));
    assert_eq!(unknown.status, 500);
    assert_eq!(unknown.message, "unknown light command name: x");
}

#[test]
fn outcome_is_answered() {
    let (status, reply) = control_reply(Ok(()));
    assert_eq!(status, 200);
    assert!(reply.success);
    assert_eq!(reply.data, None);
    assert_eq!(reply.message, "ok");

    let (status, reply) = control_reply(Err(LightError::Timeout("x".to_string())));
    assert_eq!(status, 502);
    assert!(!reply.success);
    assert_eq!(reply.data, None);
    assert_eq!(reply.message, "light tcp operation timeout: x");
}

#[test]
fn health_and_control_are_served() {
    let endpoints: Vec<(HttpMethod, &str, Handler)> = build_router()
        .iter()
        .map(|endpoint| (endpoint.method, endpoint.path, endpoint.handler))
        .collect();

    assert_eq!(
        endpoints,
        vec![
            (HttpMethod::Get, "/health", Handler::Health),
            (HttpMethod::Post, "/api/lights/control", Handler::ControlLight),
        ]
    );
}

fn service() -> LightService {
    LightService::new(&LightConfig {
        lights: vec![Light {
            address: "10.0.1.1:502".to_string(),
            request_ips: vec!["10.0.0.1".to_string()],
        }],
        commands: LightCommandConfig {
            basic: BasicLightCommandConfig {
                green_light_off: String::new(),
                green_light_on: String::new(),
                red_light_on: String::new(),
                red_light_off: String::new(),
            },
            composite: CompositeLightCommandConfig {
                red: Vec::new(),
                green: Vec::new(),
                red_flash: Vec::new(),
            },
            timing: LightTimingConfig { io_timeout_ms: 0 },
        },
    })
}
