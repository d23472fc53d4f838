use light_manager::app_config;
use light_manager::config::{
    default_listen_addr, default_log_cleanup_interval_hours, default_log_retained_days,
    BasicLightCommandConfig, CompositeItemConfig, CompositeLightCommandConfig, Light,
    LightCommandConfig, LightConfig, LightTimingConfig, LoggingConfig, ServerConfig,
};

#[test]
fn port_defaults_to_modbus_tcp_port() {
    let config = app_config::LightConfig {
        default_port: 0,
        lights: Vec::new(),
        request_light_maps: Vec::new(),
    };

    assert_eq!(config.port(), 502);
}

#[test]
fn configured_port_is_kept() {
    let config = app_config::LightConfig {
        default_port: 1502,
        lights: Vec::new(),
        request_light_maps: Vec::new(),
    };

    assert_eq!(config.port(), 1502);
}

#[test]
fn default_pairs_are_listed_in_order() {
    let maps = app_config::default_request_light_maps();

    let pairs: Vec<(&str, &str)> = maps
        .iter()
        .map(|item| (item.request_ip.as_str(), item.light_ip.as_str()))
        .collect();
    assert_eq!(
        pairs,
        vec![
            ("::1", "192.168.70.151"),
            ("192.168.70.166", "192.168.70.151"),
            ("192.168.70.167", "192.168.70.153"),
            ("192.168.70.168", "192.168.70.155"),
            ("192.168.70.169", "192.168.70.157"),
        ]
    );
}

#[test]
fn last_pair_of_a_request_address_counts() {
    let pair = |request_ip: &str, light_ip: &str| app_config::RequestLightMap {
        request_ip: request_ip.to_string(),
        light_ip: light_ip.to_string(),
    };
    let config = app_config::LightConfig {
        default_port: 0,
        lights: Vec::new(),
        request_light_maps: vec![
            pair("10.0.0.1", "10.0.1.1"),
            pair("10.0.0.2", "10.0.1.2"),
            pair("10.0.0.1", "10.0.1.3"),
        ],
    };

    let map = config.request_ip_map();

    assert_eq!(map.get("10.0.0.1"), Some(&"10.0.1.3".to_string()));
    assert_eq!(map.get("10.0.0.2"), Some(&"10.0.1.2".to_string()));
    assert_eq!(map.get("10.0.0.3"), None);
    assert_eq!(map.len(), 2);
}

#[test]
fn request_ip_map_is_built_from_each_light() {
    let config = LightConfig {
        lights: vec![
            Light {
                address: "192.168.70.151:502".to_string(),
                request_ips: vec!["::1".to_string(), "192.168.70.166".to_string()],
            },
            Light {
                address: "192.168.70.153:502".to_string(),
                request_ips: vec!["192.168.70.166".to_string()],
            },
        ],
        commands: test_command_config(),
    };

    let map = config.request_ip_map();

    assert_eq!(
        map.get("::1"),
        Some(&vec!["192.168.70.151:502".to_string()])
    );
    assert_eq!(
        map.get("192.168.70.166"),
        Some(&vec![
            "192.168.70.151:502".to_string(),
            "192.168.70.153:502".to_string()
        ])
    );
}

#[test]
fn request_address_listed_twice_maps_twice() {
    let config = LightConfig {
        lights: vec![Light {
            address: "10.0.1.1:502".to_string(),
            request_ips: vec!["10.0.0.1".to_string(), "10.0.0.1".to_string()],
        }],
        commands: test_command_config(),
    };

    let map = config.request_ip_map();

    assert_eq!(
        map.get("10.0.0.1"),
        Some(&vec!["10.0.1.1:502".to_string(), "10.0.1.1:502".to_string()])
    );
    assert_eq!(map.get("10.0.0.2"), None);
}

#[test]
fn defaults_are_the_documented_ones() {
    assert_eq!(ServerConfig::default().listen_addr, "0.0.0.0:3000");
    assert_eq!(default_listen_addr(), "0.0.0.0:3000");
    assert_eq!(LoggingConfig::default().retained_days, 30);
    assert_eq!(LoggingConfig::default().cleanup_interval_hours, 24);
    assert_eq!(default_log_retained_days(), 30);
    assert_eq!(default_log_cleanup_interval_hours(), 24);
}

#[test]
fn cloned_light_is_equal() {
    let light = Light {
        address: "10.0.1.1:502".to_string(),
        request_ips: vec!["10.0.0.1".to_string(), "::1".to_string()],
    };

    assert_eq!(light.clone(), light);
}

fn test_command_config() -> LightCommandConfig {
    LightCommandConfig {
        basic: BasicLightCommandConfig {
            green_light_off: "01 05 00 00 FF 00 8C 3A".to_string(),
            green_light_on: "01 05 00 00 00 00 CD CA".to_string(),
            red_light_on: "01 05 00 02 FF 00 2D FA".to_string(),
            red_light_off: "01 05 00 02 00 00 6C 0A".to_string(),
        },
        composite: CompositeLightCommandConfig {
            red: vec![command("green_light_off"), command("red_light_on")],
            green: vec![command("red_light_off"), command("green_light_on")],
            red_flash: vec![
                CompositeItemConfig::Repeat {
                    repeat: 5,
                    steps: vec![],
                },
                command("red_light_off"),
                command("green_light_on"),
            ],
        },
        timing: LightTimingConfig {
            io_timeout_ms: 1000,
        },
    }
}

fn command(command: &str) -> CompositeItemConfig {
    CompositeItemConfig::Command {
        command: command.to_string(),
    }
}
