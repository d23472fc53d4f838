use light_manager::config::{
    BasicLightCommandConfig, CompositeLightCommandConfig, Light, LightCommandConfig, LightConfig,
    LightTimingConfig,
};
use light_manager::light::exchange::ExchangeError;
use light_manager::light::plan::{LightAction, LightPlan};
use light_manager::light::runtime::JobStep;
use light_manager::light_runtime::{
    format_command, log_startup, read_red_status, send, send_status, LightError, LightService,
    LightStatus, GREEN_LIGHT_OFF, GREEN_LIGHT_ON, IO_TIMEOUT_MS, READ_STATUS, RED_FLASH_TIMES,
    RED_LIGHT_OFF, RED_LIGHT_ON,
};
use light_manager::tcp_manager::ManagedConnection;

#[test]
fn light_runtime_formats_command_as_hex_bytes() {
    assert_eq!(format_command(&GREEN_LIGHT_OFF), "01 05 00 00 FF 00 8C 3A");
}

#[test]
fn light_runtime_request_ip_map_matches_light_scoped_config() {
    let config = config(vec![
        Light {
            address: "192.168.70.151:502".to_string(),
            request_ips: vec!["::1".to_string(), "192.168.70.166".to_string()],
        },
        Light {
            address: "192.168.70.153:502".to_string(),
            request_ips: vec!["192.168.70.166".to_string()],
        },
    ]);

    let service = LightService::new(&config);

    assert_eq!(
        service.request_ip_map().get("192.168.70.166"),
        Some(&vec![
            "192.168.70.151:502".to_string(),
            "192.168.70.153:502".to_string()
        ])
    );
    assert_eq!(
        service.request_ip_map().get("::1"),
        Some(&vec!["192.168.70.151:502".to_string()])
    );
}

#[test]
fn red_status_reads_the_fourth_byte() {
    let service = LightService::new(&config(Vec::new()));
    let runtime = service.red_status("10.0.1.1:502").runtime;

    let task = read_red_status(&runtime);
    assert_eq!(task.question, READ_STATUS);
    assert_eq!(task.io_timeout_ms, 1000);
    let task = task.acquired();
    assert_eq!(task.io_timeout_ms, 1000);
    let task = task.written();
    assert_eq!(task.io_timeout_ms, 1000);
    assert!(task.replied(&[0x01, 0x02, 0x03, 0x0F]));

    for reply in [
        vec![],
        vec![0x0F, 0x0F, 0x0F],
        vec![0x01, 0x02, 0x03, 0x0E, 0x0F],
    ] {
        let task = read_red_status(&runtime);
        assert!(!task.acquired().written().replied(&reply));
    }
}

#[test]
fn status_query_fails_at_each_point() {
    let service = LightService::new(&config(Vec::new()));
    let runtime = service.red_status("10.0.1.1:502").runtime;
    let mut connection = connection();

    let error = LightError::from(read_red_status(&runtime).failed("closed".to_string()));
    assert_eq!(
        error.to_string(),
        "failed to acquire light connection 10.0.1.1:502: closed"
    );

    let error = LightError::from(read_red_status(&runtime).acquired().timed_out());
    assert_eq!(
        error.to_string(),
        "light tcp operation timeout: 10.0.1.1:502"
    );
    let error = LightError::from(read_red_status(&runtime).acquired().written().timed_out());
    assert_eq!(
        error.to_string(),
        "light tcp operation timeout: 10.0.1.1:502"
    );
    assert!(connection.status);

    let task = read_red_status(&runtime).acquired().written();
    let error = LightError::from(task.failed(&mut connection, "reset".to_string()));
    assert_eq!(error.to_string(), "light tcp io error 10.0.1.1:502: reset");
    assert!(!connection.status);

    connection.status = true;
    let task = read_red_status(&runtime).acquired();
    assert!(matches!(
        task.failed(&mut connection, "reset".to_string()),
        ExchangeError::Io(_, _)
    ));
    assert!(!connection.status);
}

#[test]
fn light_runtime_sends_red_light_commands_in_order() {
    let sent = commands_of(send_status(LightStatus::Red));

    assert_eq!(sent[0], GREEN_LIGHT_OFF);
    assert_eq!(sent[1], RED_LIGHT_ON);
    assert_eq!(sent.len(), 2);
}

#[test]
fn light_runtime_sends_green_light_commands_in_order() {
    let sent = commands_of(send_status(LightStatus::Green));

    assert_eq!(sent[0], RED_LIGHT_OFF);
    assert_eq!(sent[1], GREEN_LIGHT_ON);
    assert_eq!(sent.len(), 2);
}

#[test]
fn light_runtime_sends_red_flash_sequence_then_green() {
    let sent = commands_of(send_status(LightStatus::RedFlash));

    assert_eq!(sent.len(), 3 + RED_FLASH_TIMES * 2);
    assert_eq!(sent[0], GREEN_LIGHT_OFF);
    for i in 0..RED_FLASH_TIMES {
        assert_eq!(sent[1 + 2 * i], RED_LIGHT_ON);
        assert_eq!(sent[2 + 2 * i], RED_LIGHT_OFF);
    }
    assert_eq!(sent[1 + 2 * RED_FLASH_TIMES], RED_LIGHT_OFF);
    assert_eq!(sent[2 + 2 * RED_FLASH_TIMES], GREEN_LIGHT_ON);
}

#[test]
fn red_flash_is_on_for_longer_than_off() {
    let mut plan = send_status(LightStatus::RedFlash);
    plan.next();

    for _ in 0..5 {
        assert_eq!(plan.next(), Some(LightAction::Send(RED_LIGHT_ON.to_vec())));
        assert_eq!(plan.next(), Some(LightAction::Sleep(500)));
        assert_eq!(plan.next(), Some(LightAction::Send(RED_LIGHT_OFF.to_vec())));
        assert_eq!(plan.next(), Some(LightAction::Sleep(200)));
    }
    assert_eq!(IO_TIMEOUT_MS, 1000);
}

#[test]
fn light_runtime_light_by_request_ip_uses_first_mapped_light() {
    let config = config(vec![
        Light {
            address: "127.0.0.1:502".to_string(),
            request_ips: vec!["127.0.0.1".to_string()],
        },
        Light {
            address: "127.0.0.1:1".to_string(),
            request_ips: vec!["127.0.0.1".to_string()],
        },
    ]);
    let service = LightService::new(&config);

    let job = service
        .light_by_request_ip(LightStatus::Green, "127.0.0.1")
        .ok()
        .unwrap();

    assert_eq!(job.route.runtime.address, "127.0.0.1:502");
    assert!(job.route.configured);
    let sent = commands_of(job.plan);
    assert_eq!(sent[0], RED_LIGHT_OFF);
    assert_eq!(sent[1], GREEN_LIGHT_ON);
}

#[test]
fn status_is_asked_of_one_light_only() {
    let config = config(vec![
        Light {
            address: "10.0.1.1:502".to_string(),
            request_ips: vec!["10.0.0.1".to_string(), "10.0.0.2".to_string()],
        },
        Light {
            address: "10.0.1.2:502".to_string(),
            request_ips: vec!["10.0.0.2".to_string()],
        },
    ]);
    let service = LightService::new(&config);

    let route = service.red_status_by_request_ip("10.0.0.1").unwrap();
    assert_eq!(route.runtime.address, "10.0.1.1:502");
    assert!(route.configured);

    let error = service.red_status_by_request_ip("10.0.0.2").unwrap_err();
    assert_eq!(
        error.to_string(),
        "request ip maps to multiple lights, light_ip is required: 10.0.0.2"
    );

    let error = service.red_status_by_request_ip("10.0.0.3").unwrap_err();
    assert_eq!(error.to_string(), "unknown request ip: 10.0.0.3");
}

#[test]
fn unlisted_request_address_controls_no_light() {
    let service = LightService::new(&config(Vec::new()));

    assert!(matches!(
        service.light_by_request_ip(LightStatus::Red, "10.0.0.3"),
        Err(LightError::UnknownRequestIp(ip)) if ip == "10.0.0.3"
    ));
    let mut job = service.light(LightStatus::Red, "10.0.1.1:502");
    assert!(!job.route.configured);
    assert_eq!(
        send(&job.route.runtime, vec![1]).address,
        "10.0.1.1:502".to_string()
    );
    match job.advance(Ok::<(), String>(())) {
        JobStep::Send(task) => {
            assert_eq!(task.address, "10.0.1.1:502");
            assert_eq!(task.command, GREEN_LIGHT_OFF);
            assert_eq!(task.io_timeout_ms, 1000);
        }
        _ => panic!("red starts with a command"),
    }
    assert!(matches!(
        job.advance(Err("broken".to_string())),
        JobStep::Finish(Err(error)) if error == "broken"
    ));
}

#[test]
fn startup_counts_lights_and_request_addresses() {
    let service = LightService::new(&config(vec![
        Light {
            address: "10.0.1.1:502".to_string(),
            request_ips: vec!["10.0.0.1".to_string(), "10.0.0.2".to_string()],
        },
        Light {
            address: "10.0.1.2:502".to_string(),
            request_ips: vec!["10.0.0.2".to_string()],
        },
        Light {
            address: "10.0.1.2:502".to_string(),
            request_ips: vec![],
        },
    ]));

    let log = log_startup(&service);

    assert_eq!(log.light_count, 2);
    assert_eq!(log.mapped_request_ip_count, 2);
    assert!(!log.warns_no_lights);
    assert_eq!(service.configured_light_count(), 2);
    assert!(log_startup(&LightService::new(&config(Vec::new()))).warns_no_lights);
}

fn connection() -> ManagedConnection {
    ManagedConnection {
        addr: "10.0.1.1:502".to_string(),
        status: true,
        disconnected_logged: false,
    }
}

fn commands_of(mut plan: LightPlan) -> Vec<Vec<u8>> {
    let mut commands = Vec::new();
    while let Some(action) = plan.next() {
        if let LightAction::Send(command) = action {
            commands.push(command);
        }
    }
    commands
}

fn config(lights: Vec<Light>) -> LightConfig {
    LightConfig {
        lights,
        commands: LightCommandConfig {
            basic: BasicLightCommandConfig {
                green_light_off: String::new(),
                green_light_on: String::new(),
                red_light_on: String::new(),
                red_light_off: String::new(),
            },
            composite: CompositeLightCommandConfig {
                red: Vec::new(),
                green: Vec::new(),
                red_flash: Vec::new(),
            },
            timing: LightTimingConfig { io_timeout_ms: 0 },
        },
    }
}
