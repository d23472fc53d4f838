# light-manager

Control service for industrial signal lights that take hexadecimal commands over TCP. A light is
controlled through an HTTP API, by its own address or by the address of whoever asks.

- `src/` is the library: the rules of the service, verified with Verus. It reads command texts,
  resolves a configuration into a protocol, turns a request into a plan of commands and pauses,
  finds the light for a request, decides when to connect again and which connections to keep,
  which log files to remove, and what to log of a request. It does no I/O.
- `app/` is the program around it: the configuration file, TCP connections, the HTTP server, log
  files and telemetry. It does the I/O that the library asks for and hands back what came of it.
- `tests/` holds the tests of the library.

## Configuration

`config.toml` in the working directory:

```toml
[server]
listen_addr = "0.0.0.0:3000"

[logging]
retained_days = 30
cleanup_interval_hours = 24

[light]
lights = [
    { address = "192.168.70.151:502", request_ips = ["192.168.70.166"] },
]

[light.commands.basic]
green_light_off = "01 05 00 00 FF 00 8C 3A"
green_light_on  = "01 05 00 00 00 00 CD CA"
red_light_on    = "01 05 00 02 FF 00 2D FA"
red_light_off   = "01 05 00 02 00 00 6C 0A"

[light.commands.composite]
red       = [{ command = "green_light_off" }, { command = "red_light_on" }]
green     = [{ command = "red_light_off" }, { command = "green_light_on" }]
red_flash = [
    { repeat = 5, steps = [
        { command = "red_light_on", delay_ms = 500 },
        { command = "red_light_off", delay_ms = 200 },
    ]},
    { command = "red_light_off" },
    { command = "green_light_on" },
]

[light.commands.timing]
io_timeout_ms = 1000
```

## Endpoints

| Method | Path                  | Meaning             |
|--------|-----------------------|---------------------|
| GET    | `/health`             | health check        |
| POST   | `/api/lights/control` | control a light     |
| GET    | `/openapi.json`       | description of them |
| GET    | `/scalar`             | interactive page    |
