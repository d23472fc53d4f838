use light_manager::config::{
    BasicLightCommandConfig, CompositeItemConfig, CompositeLightCommandConfig, CompositeStepConfig,
    Light, LightCommandConfig, LightConfig, LightTimingConfig,
};
use light_manager::light::command_text::{format_command, reads_whole_characters};
use light_manager::light::exchange::{ExchangeError, SendAcquire};
use light_manager::light::plan::{Directive, LightAction, LightPlan};
use light_manager::light::protocol::{
    basic_commands_readable, parse_basic_commands, parse_command, resolve_command,
    LightProtocol, LightProtocolError,
};
use light_manager::light::registry::{build_light_pool, build_light_runtime};
use light_manager::light::runtime::{send, send_status, JobStep};
use light_manager::light::{log_startup, LightError, LightService, LightStatus};
use light_manager::tcp_manager::ManagedConnection;

#[test]
fn protocol_formats_command_as_hex_bytes() {
    assert_eq!(
        format_command(&[0x01, 0x05, 0x00, 0x00, 0xFF, 0x00, 0x8C, 0x3A]),
        "01 05 00 00 FF 00 8C 3A"
    );
}

#[test]
fn formats_short_commands() {
    assert_eq!(format_command(&[]), "");
    assert_eq!(format_command(&[0x0A]), "0A");
    assert_eq!(format_command(&[0x90, 0xEF]), "90 EF");
}

#[test]
fn parses_configured_command_formats() {
    assert_eq!(
        parse_command("01 05 00 00 FF 00 8C 3A").unwrap(),
        vec![0x01, 0x05, 0x00, 0x00, 0xFF, 0x00, 0x8C, 0x3A]
    );
    assert_eq!(
        parse_command("01050000FF008C3A").unwrap(),
        vec![0x01, 0x05, 0x00, 0x00, 0xFF, 0x00, 0x8C, 0x3A]
    );
}

#[test]
fn parses_other_separators_prefixes_and_cases() {
    assert_eq!(
        parse_command("0x01,0X05-ff\t0xAbCd\n7").unwrap(),
        vec![0x01, 0x05, 0xFF, 0xAB, 0xCD, 0x07]
    );
    assert_eq!(parse_command("  01 ,- 02  ").unwrap(), vec![0x01, 0x02]);
    assert_eq!(parse_command("+5 +5+6").unwrap(), vec![0x05, 0x05, 0x06]);
    assert_eq!(parse_command("\u{c}01\r02").unwrap(), vec![0x01, 0x02]);
}

#[test]
fn rejects_texts_that_are_no_commands() {
    for text in [
        "", " ", ",-", "0x", "0X", "+", "012", "0x123", "0g", "g", "01 zz", "x1", "0x0x01",
        "01\u{b}02", "++", "+g", "a+", "é", "00x1",
    ] {
        assert!(reads_whole_characters(text), "{text:?}");
        match parse_command(text) {
            Err(LightProtocolError::InvalidCommand(command)) => assert_eq!(command, text),
            other => panic!("{text:?} gave {other:?}"),
        }
    }
}

#[test]
fn finds_texts_that_split_a_character() {
    assert!(!reads_whole_characters("1é2"));
    assert!(!reads_whole_characters("€1"));
    assert!(!reads_whole_characters("01 1é2"));
    assert!(!reads_whole_characters("0x😀"));
    assert!(reads_whole_characters("é1"));
    assert!(reads_whole_characters("0x😀3é"));
    assert!(reads_whole_characters("zz1é2"));
    assert!(reads_whole_characters("zz 1é2"));
    assert!(reads_whole_characters("é"));
    assert!(reads_whole_characters("01 05"));
}

#[test]
fn every_byte_reads_back_in_every_format() {
    let bytes: Vec<u8> = (0..=255).collect();
    let spaced = format_command(&bytes);

    assert_eq!(parse_command(&spaced).unwrap(), bytes);
    assert_eq!(parse_command(&spaced.replace(' ', "")).unwrap(), bytes);
    assert_eq!(parse_command(&spaced.replace(' ', ",")).unwrap(), bytes);
    assert_eq!(parse_command(&spaced.replace(' ', "-")).unwrap(), bytes);
    assert_eq!(parse_command(&spaced.to_lowercase()).unwrap(), bytes);
}

#[test]
fn joined_commands_read_in_a_row() {
    for separator in [" ", "\t", ",", "-"] {
        let text = ["0x0105 00", "-FF,+8"].join(separator);
        assert_eq!(
            parse_command(&text).unwrap(),
            vec![0x01, 0x05, 0x00, 0xFF, 0x08]
        );
    }
}

#[test]
fn basic_commands_are_found_by_name() {
    let config = test_command_config();
    assert!(basic_commands_readable(&config.basic));
    let table = parse_basic_commands(&config.basic).unwrap();

    assert_eq!(table.len(), 4);
    assert_eq!(
        resolve_command("red_light_on", &table).unwrap(),
        vec![0x01, 0x05, 0x00, 0x02, 0xFF, 0x00, 0x2D, 0xFA]
    );
    assert!(matches!(
        resolve_command("blue_light_on", &table),
        Err(LightProtocolError::UnknownCommand(name)) if name == "blue_light_on"
    ));
}

#[test]
fn first_bad_basic_command_is_reported() {
    let mut config = test_command_config();
    config.basic.green_light_on = "xy".to_string();
    config.basic.red_light_off = "".to_string();

    assert!(matches!(
        LightProtocol::from_config(&config),
        Err(LightProtocolError::InvalidCommand(command)) if command == "xy"
    ));
}

#[test]
fn readable_commands_are_read_up_to_the_first_bad_one() {
    let mut config = test_command_config();
    config.basic.green_light_on = "1é2".to_string();
    assert!(!basic_commands_readable(&config.basic));

    config.basic.green_light_off = "bad".to_string();
    assert!(basic_commands_readable(&config.basic));
    assert!(matches!(
        LightProtocol::from_config(&config),
        Err(LightProtocolError::InvalidCommand(command)) if command == "bad"
    ));
}

#[test]
fn unknown_command_names_are_reported() {
    let mut config = test_command_config();
    config.composite.green = vec![command("red_light_off"), command("blue")];

    assert!(matches!(
        LightProtocol::from_config(&config),
        Err(LightProtocolError::UnknownCommand(name)) if name == "blue"
    ));

    let mut config = test_command_config();
    config.composite.red_flash = vec![CompositeItemConfig::Repeat {
        repeat: 0,
        steps: vec![CompositeStepConfig {
            command: "violet".to_string(),
            delay_ms: None,
        }],
    }];

    assert!(matches!(
        LightProtocol::from_config(&config),
        Err(LightProtocolError::UnknownCommand(name)) if name == "violet"
    ));
}

#[test]
fn repeat_blocks_are_not_allowed_in_simple_sequences() {
    let mut config = test_command_config();
    config.composite.red = vec![CompositeItemConfig::Repeat {
        repeat: 1,
        steps: vec![],
    }];

    let error = LightProtocol::from_config(&config).err().unwrap();

    assert_eq!(
        error.to_string(),
        "invalid light command config: repeat blocks are not allowed in simple sequences"
    );
}

#[test]
fn protocol_errors_have_messages() {
    assert_eq!(
        LightProtocolError::InvalidCommand("xy".to_string()).to_string(),
        "invalid light command config: xy"
    );
    assert_eq!(
        LightProtocolError::UnknownCommand("blue".to_string()).to_string(),
        "unknown light command name: blue"
    );
}

#[test]
fn runtime_request_ip_map_matches_light_scoped_config() {
    let config = LightConfig {
        lights: vec![
            Light {
                address: "192.168.70.151:502".to_string(),
                request_ips: vec!["::1".to_string(), "192.168.70.166".to_string()],
            },
            Light {
                address: "192.168.70.153:502".to_string(),
                request_ips: vec!["192.168.70.166".to_string()],
            },
        ],
        commands: test_command_config(),
    };

    let service = LightService::new(&config);

    assert_eq!(
        service.request_ip_map().get("192.168.70.166"),
        Some(&vec![
            "192.168.70.151:502".to_string(),
            "192.168.70.153:502".to_string()
        ])
    );
    assert_eq!(
        service.request_ip_map().get("::1"),
        Some(&vec!["192.168.70.151:502".to_string()])
    );
}

#[test]
fn startup_log_data_includes_lights() {
    let config = LightConfig {
        lights: vec![
            Light {
                address: "192.168.70.153:502".to_string(),
                request_ips: vec!["192.168.70.166".to_string()],
            },
            Light {
                address: "192.168.70.151:502".to_string(),
                request_ips: vec!["::1".to_string(), "192.168.70.166".to_string()],
            },
        ],
        commands: test_command_config(),
    };

    let service = LightService::new(&config);

    assert_eq!(service.lights(), &config.lights);
    assert_eq!(log_startup(&service).lights, &config.lights);
    assert!(!log_startup(&service).warns_no_lights);
}

#[test]
fn startup_warns_where_there_are_no_lights() {
    let config = LightConfig {
        lights: Vec::new(),
        commands: test_command_config(),
    };

    let service = LightService::new(&config);

    assert!(log_startup(&service).warns_no_lights);
    assert_eq!(service.configured_light_count(), 0);
    assert_eq!(service.io_timeout_ms(), 1000);
}

#[test]
fn lights_with_one_address_count_once() {
    let light = |ip: &str| Light {
        address: "10.0.1.1:502".to_string(),
        request_ips: vec![ip.to_string()],
    };
    let config = LightConfig {
        lights: vec![light("10.0.0.1"), light("10.0.0.2")],
        commands: test_command_config(),
    };

    assert_eq!(LightService::new(&config).configured_light_count(), 1);
}

#[test]
fn runtime_sends_red_light_commands_in_order() {
    let protocol = default_protocol();

    let sent = commands_of(send_status(&protocol, LightStatus::Red));

    assert_eq!(sent[0], protocol.red[0]);
    assert_eq!(sent[1], protocol.red[1]);
    assert_eq!(sent.len(), 2);
}

#[test]
fn runtime_sends_green_light_commands_in_order() {
    let protocol = default_protocol();

    let sent = commands_of(send_status(&protocol, LightStatus::Green));

    assert_eq!(sent[0], protocol.green[0]);
    assert_eq!(sent[1], protocol.green[1]);
    assert_eq!(sent.len(), 2);
}

#[test]
fn runtime_sends_red_flash_sequence_then_green() {
    let protocol = default_protocol();

    let sent = commands_of(send_status(&protocol, LightStatus::RedFlash));

    assert_eq!(sent.len(), 12);
    for i in 0..5 {
        assert_eq!(sent[2 * i], protocol.red[1]);
        assert_eq!(sent[2 * i + 1], protocol.green[0]);
    }
    assert_eq!(sent[10], protocol.green[0]);
    assert_eq!(sent[11], protocol.green[1]);
}

#[test]
fn red_flash_pauses_after_each_command_of_the_block() {
    let mut plan = send_status(&default_protocol(), LightStatus::RedFlash);

    for _ in 0..5 {
        assert!(matches!(plan.next(), Some(LightAction::Send(_))));
        assert_eq!(plan.next(), Some(LightAction::Sleep(500)));
        assert!(matches!(plan.next(), Some(LightAction::Send(_))));
        assert_eq!(plan.next(), Some(LightAction::Sleep(200)));
    }
    assert!(matches!(plan.next(), Some(LightAction::Send(_))));
    assert!(matches!(plan.next(), Some(LightAction::Send(_))));
    assert_eq!(plan.next(), None);
    assert_eq!(plan.next(), None);
}

#[test]
fn empty_and_unrepeated_blocks_do_nothing() {
    let mut config = test_command_config();
    config.composite.red_flash = vec![
        CompositeItemConfig::Repeat {
            repeat: usize::MAX,
            steps: vec![],
        },
        CompositeItemConfig::Repeat {
            repeat: 0,
            steps: vec![CompositeStepConfig {
                command: "red_light_on".to_string(),
                delay_ms: Some(1),
            }],
        },
        CompositeItemConfig::Repeat {
            repeat: 2,
            steps: vec![CompositeStepConfig {
                command: "red_light_off".to_string(),
                delay_ms: None,
            }],
        },
    ];
    let protocol = LightProtocol::from_config(&config).unwrap();

    let sent = commands_of(send_status(&protocol, LightStatus::RedFlash));

    assert_eq!(sent, vec![protocol.green[0].clone(), protocol.green[0].clone()]);
}

#[test]
fn runtime_light_by_request_ip_uses_first_mapped_light() {
    let config = LightConfig {
        lights: vec![
            Light {
                address: "127.0.0.1:502".to_string(),
                request_ips: vec!["127.0.0.1".to_string()],
            },
            Light {
                address: "127.0.0.1:1".to_string(),
                request_ips: vec!["127.0.0.1".to_string()],
            },
        ],
        commands: test_command_config(),
    };
    let service = LightService::new(&config);

    let job = service
        .light_by_request_ip(LightStatus::Green, "127.0.0.1")
        .ok()
        .unwrap();

    assert_eq!(job.route.runtime.address, "127.0.0.1:502");
    assert_eq!(job.route.runtime.pool.manager.addr, "127.0.0.1:502");
    assert_eq!(job.route.runtime.pool.max_size, 1);
    assert!(job.route.configured);
    let protocol = default_protocol();
    let sent = commands_of(job.plan);
    assert_eq!(sent[0], protocol.green[0]);
    assert_eq!(sent[1], protocol.green[1]);
}

#[test]
fn unknown_request_address_is_refused() {
    let config = LightConfig {
        lights: Vec::new(),
        commands: test_command_config(),
    };
    let service = LightService::new(&config);

    let error = service
        .light_by_request_ip(LightStatus::Red, "10.0.0.9")
        .err()
        .unwrap();

    assert_eq!(error.to_string(), "unknown request ip: 10.0.0.9");
}

#[test]
fn light_that_is_not_configured_gets_a_runtime_of_its_own() {
    let config = LightConfig {
        lights: Vec::new(),
        commands: test_command_config(),
    };
    let service = LightService::new(&config);

    let job = service.light(LightStatus::Red, "10.0.1.7:502");

    assert!(!job.route.configured);
    assert_eq!(job.route.runtime.address, "10.0.1.7:502");
    assert_eq!(job.route.runtime.pool.manager.addr, "10.0.1.7:502");
    assert_eq!(commands_of(job.plan), default_protocol().red);
}

#[test]
fn plan_stops_at_the_first_failure() {
    let mut plan = send_status(&default_protocol(), LightStatus::Red);

    assert!(matches!(
        plan.advance(Ok::<(), String>(())),
        Directive::Act(LightAction::Send(_))
    ));
    match plan.advance(Err("broken".to_string())) {
        Directive::Finish(result) => assert_eq!(result, Err("broken".to_string())),
        Directive::Act(_) => panic!("went on after a failure"),
    }
}

#[test]
fn plan_ends_well_after_its_last_action() {
    let mut plan = send_status(&default_protocol(), LightStatus::Green);
    let mut sent = Vec::new();

    let result = loop {
        match plan.advance(Ok::<(), String>(())) {
            Directive::Act(LightAction::Send(command)) => sent.push(command),
            Directive::Act(LightAction::Sleep(_)) => panic!("no pause was configured"),
            Directive::Finish(result) => break result,
        }
    };

    assert_eq!(result, Ok(()));
    assert_eq!(sent, default_protocol().green);
}

#[test]
fn job_sends_its_commands_to_its_light() {
    let mut config = LightConfig {
        lights: Vec::new(),
        commands: test_command_config(),
    };
    config.commands.timing.io_timeout_ms = 250;
    let service = LightService::new(&config);
    let mut job = service.light(LightStatus::RedFlash, "10.0.1.7:502");

    match job.advance(Ok::<(), String>(())) {
        JobStep::Send(task) => {
            assert_eq!(task.address, "10.0.1.7:502");
            assert_eq!(task.command, default_protocol().red[1]);
            assert_eq!(task.io_timeout_ms, 250);
        }
        _ => panic!("a flash starts with a command"),
    }
    assert!(matches!(job.advance(Ok::<(), String>(())), JobStep::Sleep(500)));
    assert!(matches!(job.advance(Ok::<(), String>(())), JobStep::Send(_)));
    assert!(matches!(
        job.advance(Err("broken".to_string())),
        JobStep::Finish(Err(error)) if error == "broken"
    ));
}

#[test]
fn job_is_over_after_its_last_command() {
    let config = LightConfig {
        lights: Vec::new(),
        commands: test_command_config(),
    };
    let mut job = LightService::new(&config).light(LightStatus::Red, "10.0.1.7:502");

    for _ in 0..2 {
        assert!(matches!(job.advance(Ok::<(), String>(())), JobStep::Send(_)));
    }
    assert!(matches!(
        job.advance(Ok::<(), String>(())),
        JobStep::Finish(Ok(()))
    ));
}

#[test]
fn send_without_connection_fails() {
    let runtime = build_light_runtime(&Light {
        address: "10.0.1.1:502".to_string(),
        request_ips: Vec::new(),
    });

    let task = send(&runtime, vec![1, 2], 250);
    assert_eq!(task.command, vec![1, 2]);
    assert_eq!(task.io_timeout_ms, 250);
    let error = LightError::from(task.failed("pool is closed".to_string()));

    assert_eq!(
        error.to_string(),
        "failed to acquire light connection 10.0.1.1:502: pool is closed"
    );
}

#[test]
fn failed_write_breaks_the_connection() {
    let mut connection = connection();

    let task = SendAcquire::new("10.0.1.1:502", vec![1], 250).acquired();
    assert_eq!(task.command, vec![1]);
    assert_eq!(task.io_timeout_ms, 250);
    let error = LightError::from(task.failed(&mut connection, "reset".to_string()));

    assert_eq!(error.to_string(), "light tcp io error 10.0.1.1:502: reset");
    assert!(!connection.status);
    assert!(!connection.disconnected_logged);
}

#[test]
fn slow_write_breaks_the_connection() {
    let mut connection = connection();

    let task = SendAcquire::new("10.0.1.1:502", vec![1], 250).acquired();
    let error = LightError::from(task.timed_out(&mut connection));

    assert_eq!(
        error.to_string(),
        "light tcp operation timeout: 10.0.1.1:502"
    );
    assert!(!connection.status);
}

#[test]
fn flush_ends_the_transmission() {
    let mut connection = connection();
    let task = SendAcquire::new("10.0.1.1:502", vec![1], 250).acquired().written();
    assert!(task.flushed(&mut connection, Ok(())).is_ok());
    assert!(connection.status);

    let task = SendAcquire::new("10.0.1.1:502", vec![1], 250).acquired().written();
    let error = task
        .flushed(&mut connection, Err("reset".to_string()))
        .err()
        .unwrap();

    assert!(matches!(
        error,
        ExchangeError::Io(address, message) if address == "10.0.1.1:502" && message == "reset"
    ));
    assert!(!connection.status);
}

#[test]
fn pool_holds_one_connection() {
    let pool = build_light_pool("10.0.1.1:502");

    assert_eq!(pool.manager.addr, "10.0.1.1:502");
    assert_eq!(pool.max_size, 1);
}

fn connection() -> ManagedConnection {
    ManagedConnection {
        addr: "10.0.1.1:502".to_string(),
        status: true,
        disconnected_logged: false,
    }
}

fn commands_of(mut plan: LightPlan) -> Vec<Vec<u8>> {
    let mut commands = Vec::new();
    while let Some(action) = plan.next() {
        if let LightAction::Send(command) = action {
            commands.push(command);
        }
    }
    commands
}

fn default_protocol() -> LightProtocol {
    LightProtocol::from_config(&test_command_config()).ok().unwrap()
}

fn test_command_config() -> LightCommandConfig {
    LightCommandConfig {
        basic: BasicLightCommandConfig {
            green_light_off: "01 05 00 00 FF 00 8C 3A".to_string(),
            green_light_on: "01 05 00 00 00 00 CD CA".to_string(),
            red_light_on: "01 05 00 02 FF 00 2D FA".to_string(),
            red_light_off: "01 05 00 02 00 00 6C 0A".to_string(),
        },
        composite: CompositeLightCommandConfig {
            red: vec![command("green_light_off"), command("red_light_on")],
            green: vec![command("red_light_off"), command("green_light_on")],
            red_flash: vec![
                CompositeItemConfig::Repeat {
                    repeat: 5,
                    steps: vec![
                        CompositeStepConfig {
                            command: "red_light_on".to_string(),
                            delay_ms: Some(500),
                        },
                        CompositeStepConfig {
                            command: "red_light_off".to_string(),
                            delay_ms: Some(200),
                        },
                    ],
                },
                command("red_light_off"),
                command("green_light_on"),
            ],
        },
        timing: LightTimingConfig {
            io_timeout_ms: 1000,
        },
    }
}

fn command(command: &str) -> CompositeItemConfig {
    CompositeItemConfig::Command {
        command: command.to_string(),
    }
}
