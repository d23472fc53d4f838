use light_manager::config::{
    BasicLightCommandConfig, CompositeItemConfig, CompositeLightCommandConfig, Light,
    LightCommandConfig, LightConfig, LightTimingConfig,
};
use light_manager::light::plan::LightAction;
use light_manager::light::{LightError, LightService, LightStatus};
use light_manager::web::server::{
    build_router, control_light, control_reply, health, health_reply, resolve_target, ApiError,
    ControlLightRequest, Handler, HttpMethod, LightTarget,
};

#[test]
fn server_explicit_light_ip_wins_over_request_ip() {
    let target = resolve_target(
        Some("192.168.70.151".to_string()),
        Some("192.168.70.166".to_string()),
        "127.0.0.1".to_string(),
    );

    assert!(matches!(
        target,
        LightTarget::LightIp(ip) if ip == "192.168.70.151"
    ));
}

#[test]
fn server_falls_back_to_remote_ip_when_no_target_is_provided() {
    let target = resolve_target(None, None, "127.0.0.1".to_string());

    assert!(matches!(
        target,
        LightTarget::RequestIp(ip) if ip == "127.0.0.1"
    ));
}

#[test]
fn blank_addresses_are_passed_over() {
    let target = resolve_target(
        Some(" \u{3000}".to_string()),
        Some(" 10.0.0.1 ".to_string()),
        "127.0.0.1".to_string(),
    );
    assert!(matches!(target, LightTarget::RequestIp(ip) if ip == " 10.0.0.1 "));

    let target = resolve_target(
        Some(String::new()),
        Some("\t".to_string()),
        "127.0.0.1".to_string(),
    );
    assert!(matches!(target, LightTarget::RequestIp(ip) if ip == "127.0.0.1"));
}

#[test]
fn health_is_ok() {
    let reply = health();

    assert!(reply.success);
    assert_eq!(reply.data, Some("ok"));
    assert_eq!(reply.message, "ok");

    let (status, reply) = health_reply();

    assert_eq!(status, 200);
    assert!(reply.success);
    assert_eq!(reply.data, Some("ok"));
    assert_eq!(reply.message, "ok");
}

#[test]
fn endpoints_are_the_documented_ones() {
    let endpoints: Vec<(HttpMethod, &str, Handler)> = build_router()
        .iter()
        .map(|endpoint| (endpoint.method, endpoint.path, endpoint.handler))
        .collect();

    assert_eq!(
        endpoints,
        vec![
            (HttpMethod::Get, "/health", Handler::Health),
            (HttpMethod::Post, "/api/lights/control", Handler::ControlLight),
            (HttpMethod::Get, "/openapi.json", Handler::OpenApiJson),
            (HttpMethod::Get, "/scalar", Handler::Scalar),
        ]
    );
}

#[test]
fn request_is_turned_into_work() {
    let service = service();

    let request = ControlLightRequest {
        status: LightStatus::Red,
        light_ip: None,
        request_ip: Some("10.0.0.1".to_string()),
    };
    let mut job = control_light(&service, request, "127.0.0.1".to_string())
        .ok()
        .unwrap();
    assert_eq!(job.route.runtime.address, "10.0.1.1:502");
    assert!(job.route.configured);
    assert_eq!(job.io_timeout_ms, 50);
    assert_eq!(job.plan.next(), Some(LightAction::Send(vec![3])));
    assert_eq!(job.plan.next(), None);

    let request = ControlLightRequest {
        status: LightStatus::Green,
        light_ip: Some("10.0.1.9:502".to_string()),
        request_ip: Some("10.0.0.1".to_string()),
    };
    let mut job = control_light(&service, request, "127.0.0.1".to_string())
        .ok()
        .unwrap();
    assert_eq!(job.route.runtime.address, "10.0.1.9:502");
    assert!(!job.route.configured);
    assert_eq!(job.plan.next(), Some(LightAction::Send(vec![2])));
    assert_eq!(job.plan.next(), None);
}

#[test]
fn request_from_an_unlisted_address_is_refused() {
    let request = ControlLightRequest {
        status: LightStatus::Red,
        light_ip: None,
        request_ip: None,
    };

    let error = control_light(&service(), request, "127.0.0.1".to_string())
        .err()
        .unwrap();

    let (status, body) = control_reply(Err(error));
    assert_eq!(status, 400);
    assert!(!body.success);
    assert_eq!(body.data, None);
    assert_eq!(body.message, "unknown request ip: 127.0.0.1");
}

#[test]
fn finished_work_is_answered_with_ok() {
    let (status, reply) = control_reply(Ok(()));

    assert_eq!(status, 200);
    assert!(reply.success);
    assert_eq!(reply.data, None);
    assert_eq!(reply.message, "ok");
}

#[test]
fn failures_of_the_light_are_a_bad_gateway() {
    let addr = || "10.0.1.1:502".to_string();
    for (error, message) in [
        (
            LightError::ConnectionPool(addr(), "closed".to_string()),
            "failed to acquire light connection 10.0.1.1:502: closed",
        ),
        (
            LightError::Io(addr(), "reset".to_string()),
            "light tcp io error 10.0.1.1:502: reset",
        ),
        (
            LightError::Timeout(addr()),
            "light tcp operation timeout: 10.0.1.1:502",
        ),
    ] {
        let refusal = ApiError::from(error);
        assert_eq!(refusal.status, 502);
        assert_eq!(refusal.message, message);

        let (status, reply) = refusal.into_response();
        assert_eq!(status, 502);
        assert!(!reply.success);
        assert_eq!(reply.data, None);
        assert_eq!(reply.message, message);
    }
}

fn service() -> LightService {
    let command = |command: &str| CompositeItemConfig::Command {
        command: command.to_string(),
    };
    LightService::new(&LightConfig {
        lights: vec![Light {
            address: "10.0.1.1:502".to_string(),
            request_ips: vec!["10.0.0.1".to_string()],
        }],
        commands: LightCommandConfig {
            basic: BasicLightCommandConfig {
                green_light_off: "01".to_string(),
                green_light_on: "02".to_string(),
                red_light_on: "03".to_string(),
                red_light_off: "04".to_string(),
            },
            composite: CompositeLightCommandConfig {
                red: vec![command("red_light_on")],
                green: vec![command("green_light_on")],
                red_flash: Vec::new(),
            },
            timing: LightTimingConfig { io_timeout_ms: 50 },
        },
    })
}
