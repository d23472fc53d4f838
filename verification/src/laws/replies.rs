//! What clients are answered.

use crate::light::exchange::ExchangeError;
use crate::light::protocol::LightProtocolError;
use crate::light::runtime::LightError;
use crate::light_runtime;
use crate::tcp_manager;
use crate::web::api_response::ApiResponse;
use crate::web::server::{control_reply, health, health_reply, ApiError};
use crate::web_server;
use vstd::prelude::*;

verus! {

/// What an error of a light says.
pub open spec fn says(error: LightError, text: Seq<char>) -> bool {
    match error {
        LightError::UnknownRequestIp(ip) => text == "unknown request ip: "@ + ip@,
        LightError::ConnectionPool(addr, cause) => text == "failed to acquire light connection "@
            + addr@ + ": "@ + cause@,
        LightError::Io(addr, cause) => text == "light tcp io error "@ + addr@ + ": "@ + cause@,
        LightError::Timeout(addr) => text == "light tcp operation timeout: "@ + addr@,
    }
}

/// What an error of a light with built-in commands says.
pub open spec fn built_in_says(error: light_runtime::LightError, text: Seq<char>) -> bool {
    match error {
        light_runtime::LightError::UnknownRequestIp(ip) => text == "unknown request ip: "@ + ip@,
        light_runtime::LightError::MultipleLightsForRequestIp(ip) => text
            == "request ip maps to multiple lights, light_ip is required: "@ + ip@,
        light_runtime::LightError::ConnectionPool(addr, cause) => text
            == "failed to acquire light connection "@ + addr@ + ": "@ + cause@,
        light_runtime::LightError::Io(addr, cause) => text == "light tcp io error "@ + addr@ + ": "@
            + cause@,
        light_runtime::LightError::Timeout(addr) => text == "light tcp operation timeout: "@
            + addr@,
    }
}

/// Each error says what went wrong, and with what.
pub proof fn law_errors_say_what_went_wrong(
    error: LightError,
    built_in: light_runtime::LightError,
    protocol: LightProtocolError,
    connection: tcp_manager::Error,
    texts: (String, String, String, String),
)
    requires
        call_ensures(LightError::to_string, (&error,), texts.0),
        call_ensures(light_runtime::LightError::to_string, (&built_in,), texts.1),
        call_ensures(LightProtocolError::to_string, (&protocol,), texts.2),
        call_ensures(tcp_manager::Error::to_string, (&connection,), texts.3),
    ensures
        says(error, texts.0@),
        built_in_says(built_in, texts.1@),
        match protocol {
            LightProtocolError::InvalidCommand(text) => texts.2@
                == "invalid light command config: "@ + text@,
            LightProtocolError::UnknownCommand(name) => texts.2@ == "unknown light command name: "@
                + name@,
        },
        match connection {
            tcp_manager::Error::InvalidAddress(addr) => texts.3@ == "invalid socket address: "@
                + addr@,
            tcp_manager::Error::ConnectFailed(addr, cause) => texts.3@
                == "failed to connect socket address "@ + addr@ + ": "@ + cause@,
        },
{
}

/// A failed exchange is an error of the light of the same kind, with the same address and cause.
pub proof fn law_exchange_errors_are_passed_on(
    error: ExchangeError,
    passed: LightError,
    built_in: light_runtime::LightError,
)
    requires
        call_ensures(<LightError as From<ExchangeError>>::from, (error,), passed),
        call_ensures(<light_runtime::LightError as From<ExchangeError>>::from, (error,), built_in),
    ensures
        match error {
            ExchangeError::ConnectionPool(addr, cause) => passed == LightError::ConnectionPool(
                addr,
                cause,
            ) && built_in == light_runtime::LightError::ConnectionPool(addr, cause),
            ExchangeError::Io(addr, cause) => passed == LightError::Io(addr, cause) && built_in
                == light_runtime::LightError::Io(addr, cause),
            ExchangeError::Timeout(addr) => passed == LightError::Timeout(addr) && built_in
                == light_runtime::LightError::Timeout(addr),
        },
{
}

/// A request for a light that is unknown is the caller's fault; a light that cannot be reached is
/// that of the gateway; bad commands are that of the service. The message is that of the error.
pub proof fn law_faults_have_their_status(
    error: LightError,
    built_in: light_runtime::LightError,
    protocol: LightProtocolError,
    replies: (ApiError, ApiError, ApiError),
    text: String,
)
    requires
        call_ensures(<ApiError as From<LightError>>::from, (error,), replies.0),
        call_ensures(<ApiError as From<light_runtime::LightError>>::from, (built_in,), replies.1),
        call_ensures(<ApiError as From<LightProtocolError>>::from, (protocol,), replies.2),
        call_ensures(LightProtocolError::to_string, (&protocol,), text),
    ensures
        error is UnknownRequestIp ==> replies.0.status == 400,
        !(error is UnknownRequestIp) ==> replies.0.status == 502,
        says(error, replies.0.message@),
        built_in is UnknownRequestIp || built_in is MultipleLightsForRequestIp ==> replies.1.status
            == 400,
        !(built_in is UnknownRequestIp || built_in is MultipleLightsForRequestIp)
            ==> replies.1.status == 502,
        built_in_says(built_in, replies.1.message@),
        replies.2.status == 500,
        replies.2.message@ == text@,
{
}

/// A request whose work succeeded is answered with status 200, success and `ok`; one whose work
/// failed with the status for the failure, no success, and what went wrong. Neither has data.
pub proof fn law_outcomes_are_answered(
    outcome: Result<(), LightError>,
    built_in: Result<(), light_runtime::LightError>,
    reply: (u16, ApiResponse<()>),
    other: (u16, ApiResponse<()>),
)
    requires
        call_ensures(control_reply, (outcome,), reply),
        call_ensures(web_server::control_reply, (built_in,), other),
    ensures
        reply.1.data is None,
        other.1.data is None,
        outcome is Ok ==> reply.0 == 200 && reply.1.success && reply.1.message@ == "ok"@,
        outcome matches Err(error) ==> {
            &&& reply.0 == (if error is UnknownRequestIp {
                400u16
            } else {
                502u16
            })
            &&& !reply.1.success
            &&& says(error, reply.1.message@)
        },
        built_in is Ok ==> other.0 == 200 && other.1.success && other.1.message@ == "ok"@,
        built_in matches Err(error) ==> {
            &&& other.0 == (if error is UnknownRequestIp || error is MultipleLightsForRequestIp {
                400u16
            } else {
                502u16
            })
            &&& !other.1.success
            &&& built_in_says(error, other.1.message@)
        },
{
}

/// A refusal is answered with its own status and message, no success and no data.
pub proof fn law_refusals_are_answered(error: ApiError, reply: (u16, ApiResponse<()>))
    requires
        call_ensures(ApiError::into_response, (error,), reply),
    ensures
        reply.0 == error.status,
        !reply.1.success,
        reply.1.data is None,
        reply.1.message@ == error.message@,
{
}

/// The health check is answered with status 200, success, and `ok` twice.
pub proof fn law_health_is_answered(
    body: ApiResponse<&'static str>,
    reply: (u16, ApiResponse<&'static str>),
)
    requires
        call_ensures(health, (), body),
        call_ensures(health_reply, (), reply),
    ensures
        body.success && body.data is Some && body.data->0@ == "ok"@ && body.message@ == "ok"@,
        reply.0 == 200,
        reply.1.success && reply.1.data is Some && reply.1.data->0@ == "ok"@ && reply.1.message@
            == "ok"@,
{
}

} // verus!
