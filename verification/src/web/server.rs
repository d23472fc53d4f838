//! Requests to control a light, and the replies to them.

use crate::config::addresses_for;
use crate::light::protocol::LightStatus;
use crate::light::runtime::{is_job, LightError, LightJob, LightService};
use crate::text::{blank, is_blank};
use crate::web::api_response::ApiResponse;
use vstd::prelude::*;

verus! {

/// The request was carried out.
pub const OK: u16 = 200;

/// The request cannot be carried out as it stands.
pub const BAD_REQUEST: u16 = 400;

/// The service itself is at fault.
pub const INTERNAL_SERVER_ERROR: u16 = 500;

/// The light could not be reached.
pub const BAD_GATEWAY: u16 = 502;

/// A request to show a status on a light.
#[derive(Debug)]
pub struct ControlLightRequest {
    pub status: LightStatus,
    pub light_ip: Option<String>,
    pub request_ip: Option<String>,
}

/// How the light to control is found.
#[derive(Debug)]
pub enum LightTarget {
    LightIp(String),
    RequestIp(String),
}

/// A text that is given and is not blank.
pub open spec fn given(text: Option<String>) -> bool {
    text is Some && !blank(text->0@)
}

/// How the light is found: by its own address where one is given, else by the request address
/// that is given, else by the address the request came from.
pub open spec fn target_of(
    light_ip: Option<String>,
    request_ip: Option<String>,
    remote_ip: String,
) -> LightTarget {
    if given(light_ip) {
        LightTarget::LightIp(light_ip->0)
    } else if given(request_ip) {
        LightTarget::RequestIp(request_ip->0)
    } else {
        LightTarget::RequestIp(remote_ip)
    }
}

/// The address of a light, where one is given, comes before all else.
pub proof fn law_light_address_comes_first(
    light_ip: String,
    request_ip: Option<String>,
    remote_ip: String,
)
    requires
        !blank(light_ip@),
    ensures
        target_of(Some(light_ip), request_ip, remote_ip) == LightTarget::LightIp(light_ip),
{
}

/// The address that a request came from counts only where no other is given.
pub proof fn law_remote_address_is_the_last_resort(
    light_ip: Option<String>,
    request_ip: Option<String>,
    remote_ip: String,
    other_ip: String,
)
    ensures
        !given(light_ip) && !given(request_ip) ==> target_of(light_ip, request_ip, remote_ip)
            == LightTarget::RequestIp(remote_ip),
        given(light_ip) || given(request_ip) ==> target_of(light_ip, request_ip, remote_ip)
            == target_of(light_ip, request_ip, other_ip),
{
}

/// Decides how the light is found.
pub fn resolve_target(
    light_ip: Option<String>,
    request_ip: Option<String>,
    remote_ip: String,
) -> (target: LightTarget)
    ensures
        target == target_of(light_ip, request_ip, remote_ip),
{
    if let Some(light_ip) = light_ip {
        if !is_blank(light_ip.as_str()) {
            return LightTarget::LightIp(light_ip);
        }
    }
    if let Some(request_ip) = request_ip {
        if !is_blank(request_ip.as_str()) {
            return LightTarget::RequestIp(request_ip);
        }
    }
    LightTarget::RequestIp(remote_ip)
}

/// The reply to the health check.
pub fn health() -> (reply: ApiResponse<&'static str>)
    ensures
        reply.success,
        reply.data is Some,
        reply.data->0@ == "ok"@,
        reply.message@ == "ok"@,
{
    ApiResponse { success: true, data: Some("ok"), message: "ok".to_string() }
}

/// The HTTP status and the body of the reply to the health check.
pub fn health_reply() -> (reply: (u16, ApiResponse<&'static str>))
    ensures
        reply.0 == OK,
        reply.1.success,
        reply.1.data is Some,
        reply.1.data->0@ == "ok"@,
        reply.1.message@ == "ok"@,
{
    (OK, health())
}

/// How a request asks.
#[derive(Debug, Clone, Copy, PartialEq, Eq, Structural)]
pub enum HttpMethod {
    Get,
    Post,
}

/// What answers a request.
#[derive(Debug, Clone, Copy, PartialEq, Eq, Structural)]
pub enum Handler {
    Health,
    ControlLight,
    OpenApiJson,
    Scalar,
}

/// A method and a path that are served, and what answers there.
#[derive(Debug, Clone, Copy)]
pub struct Endpoint {
    pub method: HttpMethod,
    pub path: &'static str,
    pub handler: Handler,
}

impl View for Endpoint {
    type V = (HttpMethod, Seq<char>, Handler);

    open spec fn view(&self) -> (HttpMethod, Seq<char>, Handler) {
        (self.method, self.path@, self.handler)
    }
}

/// The endpoints as plain values.
pub open spec fn endpoint_views(endpoints: Seq<Endpoint>) -> Seq<
    (HttpMethod, Seq<char>, Handler),
> {
    endpoints.map_values(|endpoint: Endpoint| endpoint@)
}

/// The endpoints of the service. Each request to one of them is traced.
pub fn build_router() -> (endpoints: Vec<Endpoint>)
    ensures
        endpoint_views(endpoints@) == seq![
            (HttpMethod::Get, "/health"@, Handler::Health),
            (HttpMethod::Post, "/api/lights/control"@, Handler::ControlLight),
            (HttpMethod::Get, "/openapi.json"@, Handler::OpenApiJson),
            (HttpMethod::Get, "/scalar"@, Handler::Scalar),
        ],
{
    let mut endpoints: Vec<Endpoint> = Vec::new();
    endpoints.push(
        Endpoint { method: HttpMethod::Get, path: "/health", handler: Handler::Health },
    );
    endpoints.push(
        Endpoint {
            method: HttpMethod::Post,
            path: "/api/lights/control",
            handler: Handler::ControlLight,
        },
    );
    endpoints.push(
        Endpoint { method: HttpMethod::Get, path: "/openapi.json", handler: Handler::OpenApiJson },
    );
    endpoints.push(
        Endpoint { method: HttpMethod::Get, path: "/scalar", handler: Handler::Scalar },
    );
    endpoints
}

/// The work that a request to control a light asks for.
pub fn control_light(service: &LightService, request: ControlLightRequest, remote_ip: String) -> (
result: Result<LightJob, LightError>)
    ensures
        match target_of(request.light_ip, request.request_ip, remote_ip) {
            LightTarget::LightIp(light_ip) => result is Ok && is_job(
                result->Ok_0,
                service@,
                request.status,
                light_ip@,
            ),
            LightTarget::RequestIp(request_ip) => {
                let addresses = addresses_for(service@.lights, request_ip@);
                match result {
                    Ok(job) => addresses.len() > 0 && is_job(
                        job,
                        service@,
                        request.status,
                        addresses[0],
                    ),
                    Err(error) => {
                        &&& addresses.len() == 0
                        &&& error matches LightError::UnknownRequestIp(ip)
                        &&& ip@ == request_ip@
                    },
                }
            },
        },
{
    match resolve_target(request.light_ip, request.request_ip, remote_ip) {
        LightTarget::LightIp(light_ip) => Ok(service.light(request.status, light_ip.as_str())),
        LightTarget::RequestIp(request_ip) => service.light_by_request_ip(
            request.status,
            request_ip.as_str(),
        ),
    }
}

/// The HTTP status of the reply to a request to control a light.
pub open spec fn reply_status(outcome: Result<(), LightError>) -> u16 {
    match outcome {
        Ok(_) => OK,
        Err(error) => status_of(error),
    }
}

/// The message of the reply to a request to control a light.
pub open spec fn reply_message(outcome: Result<(), LightError>) -> Seq<char> {
    match outcome {
        Ok(_) => "ok"@,
        Err(error) => error.message(),
    }
}

/// A request is answered with the status for success if, and only if, its work succeeded.
pub proof fn law_only_success_is_answered_as_success(outcome: Result<(), LightError>)
    ensures
        reply_status(outcome) == OK <==> outcome is Ok,
{
}

/// The HTTP status and the body of the reply to a request to control a light, once its work is
/// over.
pub fn control_reply(outcome: Result<(), LightError>) -> (reply: (u16, ApiResponse<()>))
    ensures
        reply.0 == reply_status(outcome),
        reply.1.success == outcome is Ok,
        reply.1.data is None,
        reply.1.message@ == reply_message(outcome),
{
    match outcome {
        Ok(()) => (OK, ApiResponse { success: true, data: None, message: "ok".to_string() }),
        Err(error) => ApiError::from(error).into_response(),
    }
}

/// A request that failed: the HTTP status and the message of the reply.
#[derive(Debug)]
pub struct ApiError {
    pub status: u16,
    pub message: String,
}

/// The HTTP status for an error.
pub open spec fn status_of(error: LightError) -> u16 {
    match error {
        LightError::UnknownRequestIp(_) => BAD_REQUEST,
        LightError::ConnectionPool(_, _) => BAD_GATEWAY,
        LightError::Io(_, _) => BAD_GATEWAY,
        LightError::Timeout(_) => BAD_GATEWAY,
    }
}

impl From<LightError> for ApiError {
    fn from(error: LightError) -> (reply: Self)
        ensures
            reply.status == status_of(error),
            reply.message@ == error.message(),
    {
        let status = match &error {
            LightError::UnknownRequestIp(_) => BAD_REQUEST,
            LightError::ConnectionPool(_, _) | LightError::Io(_, _) | LightError::Timeout(_) => {
                BAD_GATEWAY
            },
        };
        ApiError { status, message: error.to_string() }
    }
}

impl vstd::std_specs::convert::FromSpecImpl<LightError> for ApiError {
    open spec fn obeys_from_spec() -> bool {
        false
    }

    open spec fn from_spec(error: LightError) -> Self {
        arbitrary()
    }
}

impl ApiError {
    /// The HTTP status and the body of the reply.
    pub fn into_response(self) -> (reply: (u16, ApiResponse<()>))
        ensures
            reply.0 == self.status,
            !reply.1.success,
            reply.1.data is None,
            reply.1.message == self.message,
    {
        (self.status, ApiResponse { success: false, data: None, message: self.message })
    }
}

} // verus!
