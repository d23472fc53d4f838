//! The service for lights that speak the built-in commands.

use crate::config::{addresses_for, light_views, maps_to, LightConfig, LightView};
use crate::light::exchange::{ExchangeError, QueryAcquire, SendAcquire};
use crate::light::plan::{
    block_actions, lemma_sends_only_concat, lemma_times_sends_only, sends, sends_only,
    steps_actions, times, ActionView, Directive, LightAction, LightPlan,
};
use crate::light::protocol::{
    command_views, repeat_step_views, step_views, RuntimeRepeatStep, RuntimeStep,
};
use crate::light::registry::{addresses, is_runtime_for, known_request_ips, LightRegistry, Route};
use crate::light::runtime::{is_step, JobStep};
use vstd::hash_map::StringHashMap;
use vstd::prelude::*;

pub use crate::light::command_text::format_command;
pub use crate::light::protocol::LightStatus;
pub use crate::light::registry::LightRuntime;

verus! {

/// Switches the green light off.
pub const GREEN_LIGHT_OFF: [u8; 8] = [0x01, 0x05, 0x00, 0x00, 0xFF, 0x00, 0x8C, 0x3A];

/// Switches the green light on.
pub const GREEN_LIGHT_ON: [u8; 8] = [0x01, 0x05, 0x00, 0x00, 0x00, 0x00, 0xCD, 0xCA];

/// Switches the red light on.
pub const RED_LIGHT_ON: [u8; 8] = [0x01, 0x05, 0x00, 0x02, 0xFF, 0x00, 0x2D, 0xFA];

/// Switches the red light off.
pub const RED_LIGHT_OFF: [u8; 8] = [0x01, 0x05, 0x00, 0x02, 0x00, 0x00, 0x6C, 0x0A];

/// Asks for the state of the lights.
pub const READ_STATUS: [u8; 8] = [0x01, 0x01, 0x00, 0x00, 0x00, 0x08, 0x3D, 0xCC];

/// The time limit of one transmission.
pub const IO_TIMEOUT_MS: u64 = 1000;

/// How long the red light is on in one flash.
pub const RED_FLASH_ON_DELAY_MS: u64 = 500;

/// How long the red light is off in one flash.
pub const RED_FLASH_OFF_DELAY_MS: u64 = 200;

/// The number of flashes.
pub const RED_FLASH_TIMES: usize = 5;

/// Why a light could not be controlled.
#[derive(Debug)]
pub enum LightError {
    UnknownRequestIp(String),
    MultipleLightsForRequestIp(String),
    ConnectionPool(String, String),
    Io(String, String),
    Timeout(String),
}

impl LightError {
    /// The error as a message.
    pub open spec fn message(self) -> Seq<char> {
        match self {
            LightError::UnknownRequestIp(ip) => "unknown request ip: "@ + ip@,
            LightError::MultipleLightsForRequestIp(ip) =>
                "request ip maps to multiple lights, light_ip is required: "@ + ip@,
            LightError::ConnectionPool(addr, error) => "failed to acquire light connection "@
                + addr@ + ": "@ + error@,
            LightError::Io(addr, error) => "light tcp io error "@ + addr@ + ": "@ + error@,
            LightError::Timeout(addr) => "light tcp operation timeout: "@ + addr@,
        }
    }

    /// Renders the error as a message.
    pub fn to_string(&self) -> (text: String)
        ensures
            text@ == self.message(),
    {
        match self {
            LightError::UnknownRequestIp(ip) => "unknown request ip: ".to_string().concat(
                ip.as_str(),
            ),
            LightError::MultipleLightsForRequestIp(ip) => {
                "request ip maps to multiple lights, light_ip is required: ".to_string().concat(
                    ip.as_str(),
                )
            },
            LightError::ConnectionPool(addr, error) => {
                "failed to acquire light connection ".to_string().concat(addr.as_str()).concat(
                    ": ",
                ).concat(error.as_str())
            },
            LightError::Io(addr, error) => "light tcp io error ".to_string().concat(
                addr.as_str(),
            ).concat(": ").concat(error.as_str()),
            LightError::Timeout(addr) => "light tcp operation timeout: ".to_string().concat(
                addr.as_str(),
            ),
        }
    }
}

impl From<ExchangeError> for LightError {
    fn from(error: ExchangeError) -> (converted: Self) {
        match error {
            ExchangeError::ConnectionPool(addr, message) => LightError::ConnectionPool(
                addr,
                message,
            ),
            ExchangeError::Io(addr, message) => LightError::Io(addr, message),
            ExchangeError::Timeout(addr) => LightError::Timeout(addr),
        }
    }
}

impl vstd::std_specs::convert::FromSpecImpl<ExchangeError> for LightError {
    open spec fn obeys_from_spec() -> bool {
        true
    }

    open spec fn from_spec(error: ExchangeError) -> Self {
        match error {
            ExchangeError::ConnectionPool(addr, message) => LightError::ConnectionPool(
                addr,
                message,
            ),
            ExchangeError::Io(addr, message) => LightError::Io(addr, message),
            ExchangeError::Timeout(addr) => LightError::Timeout(addr),
        }
    }
}

/// What is done to show red: green off, red on.
pub open spec fn red_actions() -> Seq<ActionView> {
    seq![ActionView::Send(GREEN_LIGHT_OFF@), ActionView::Send(RED_LIGHT_ON@)]
}

/// What is done to show green: red off, green on.
pub open spec fn green_actions() -> Seq<ActionView> {
    seq![ActionView::Send(RED_LIGHT_OFF@), ActionView::Send(GREEN_LIGHT_ON@)]
}

/// One flash: red on for a while, red off for a while.
pub open spec fn flash_actions() -> Seq<ActionView> {
    seq![
        ActionView::Send(RED_LIGHT_ON@),
        ActionView::Sleep(RED_FLASH_ON_DELAY_MS),
        ActionView::Send(RED_LIGHT_OFF@),
        ActionView::Sleep(RED_FLASH_OFF_DELAY_MS),
    ]
}

/// What is done to show `status`. A red flash ends in green.
pub open spec fn status_actions(status: LightStatus) -> Seq<ActionView> {
    match status {
        LightStatus::Red => red_actions(),
        LightStatus::Green => green_actions(),
        LightStatus::RedFlash => seq![ActionView::Send(GREEN_LIGHT_OFF@)] + times(
            RED_FLASH_TIMES as nat,
            flash_actions(),
        ) + green_actions(),
    }
}

/// The commands that are built in.
pub open spec fn built_in_commands() -> Set<Seq<u8>> {
    set![GREEN_LIGHT_OFF@, GREEN_LIGHT_ON@, RED_LIGHT_ON@, RED_LIGHT_OFF@]
}

/// Whatever status is shown, only the built-in commands are ever sent.
pub proof fn law_only_built_in_commands_are_sent(status: LightStatus)
    ensures
        sends_only(status_actions(status), built_in_commands()),
{
    let commands = built_in_commands();
    let start = seq![ActionView::Send(GREEN_LIGHT_OFF@)];
    let flashes = times(RED_FLASH_TIMES as nat, flash_actions());
    lemma_times_sends_only(RED_FLASH_TIMES as nat, flash_actions(), commands);
    lemma_sends_only_concat(start, flashes, commands);
    lemma_sends_only_concat(start + flashes, green_actions(), commands);
}

fn command(bytes: [u8; 8]) -> (command: Vec<u8>)
    ensures
        command@ == bytes@,
{
    let mut command: Vec<u8> = Vec::new();
    let mut i: usize = 0;
    while i < 8
        invariant
            i <= 8,
            command@ == bytes@.take(i as int),
        decreases 8 - i,
    {
        command.push(bytes[i]);
        assert(bytes@.take(i + 1) =~= bytes@.take(i as int).push(bytes@[i as int]));
        i += 1;
    }
    assert(bytes@.take(8) =~= bytes@);
    command
}

/// What is done to show `status`.
pub fn send_status(status: LightStatus) -> (plan: LightPlan)
    ensures
        plan.remaining() == status_actions(status),
{
    match status {
        LightStatus::Red => red_light_on(),
        LightStatus::Green => green_light_on(),
        LightStatus::RedFlash => red_light_flash(),
    }
}

/// What is done to show red.
pub fn red_light_on() -> (plan: LightPlan)
    ensures
        plan.remaining() == red_actions(),
{
    let mut commands: Vec<Vec<u8>> = Vec::new();
    commands.push(command(GREEN_LIGHT_OFF));
    commands.push(command(RED_LIGHT_ON));
    assert(sends(command_views(commands@)) =~= red_actions());
    LightPlan::of_commands(&commands)
}

/// What is done to show green.
pub fn green_light_on() -> (plan: LightPlan)
    ensures
        plan.remaining() == green_actions(),
{
    let mut commands: Vec<Vec<u8>> = Vec::new();
    commands.push(command(RED_LIGHT_OFF));
    commands.push(command(GREEN_LIGHT_ON));
    assert(sends(command_views(commands@)) =~= green_actions());
    LightPlan::of_commands(&commands)
}

/// What is done to flash red.
pub fn red_light_flash() -> (plan: LightPlan)
    ensures
        plan.remaining() == status_actions(LightStatus::RedFlash),
{
    let mut flash: Vec<RuntimeRepeatStep> = Vec::new();
    flash.push(
        RuntimeRepeatStep {
            command: command(RED_LIGHT_ON),
            delay_ms: Some(RED_FLASH_ON_DELAY_MS),
        },
    );
    flash.push(
        RuntimeRepeatStep {
            command: command(RED_LIGHT_OFF),
            delay_ms: Some(RED_FLASH_OFF_DELAY_MS),
        },
    );
    let ghost block = repeat_step_views(flash@);
    proof {
        reveal_with_fuel(block_actions, 3);
        assert(block_actions(block) =~= flash_actions());
    }
    let mut steps: Vec<RuntimeStep> = Vec::new();
    steps.push(RuntimeStep::Command(command(GREEN_LIGHT_OFF)));
    steps.push(RuntimeStep::Repeat { repeat: RED_FLASH_TIMES, steps: flash });
    steps.push(RuntimeStep::Command(command(RED_LIGHT_OFF)));
    steps.push(RuntimeStep::Command(command(GREEN_LIGHT_ON)));
    proof {
        reveal_with_fuel(steps_actions, 5);
        assert(steps_actions(step_views(steps@)) =~= status_actions(LightStatus::RedFlash));
    }
    LightPlan::of_steps(&steps)
}

/// Work for one light: the runtime it goes through, and what is done.
pub struct LightJob {
    pub route: Route,
    pub plan: LightPlan,
}

/// The configured lights.
pub struct LightService {
    registry: LightRegistry,
}

impl View for LightService {
    type V = Seq<LightView>;

    closed spec fn view(&self) -> Seq<LightView> {
        self.registry@
    }
}

/// Whether `route` leads to the light at `address`, with the runtime of a configured light where
/// there is one.
pub open spec fn is_route(route: Route, lights: Seq<LightView>, address: Seq<char>) -> bool {
    &&& is_runtime_for(route.runtime, address)
    &&& route.configured == addresses(lights).contains(address)
}

impl LightService {
    /// The service for the configured lights.
    pub fn new(config: &LightConfig) -> (service: Self)
        ensures
            service@ == light_views(config.lights@),
    {
        LightService { registry: LightRegistry::new(config) }
    }

    /// The addresses that each request address maps to.
    pub fn request_ip_map(&self) -> (map: &StringHashMap<Vec<String>>)
        ensures
            maps_to(map@, |ip: Seq<char>| addresses_for(self@, ip)),
    {
        self.registry.request_ip_map()
    }

    /// The work that shows `status` on the first light that `request_ip` maps to.
    pub fn light_by_request_ip(&self, status: LightStatus, request_ip: &str) -> (result: Result<
        LightJob,
        LightError,
    >)
        ensures
            match result {
                Ok(job) => {
                    &&& addresses_for(self@, request_ip@).len() > 0
                    &&& is_route(job.route, self@, addresses_for(self@, request_ip@)[0])
                    &&& job.plan.remaining() == status_actions(status)
                },
                Err(error) => {
                    &&& addresses_for(self@, request_ip@).len() == 0
                    &&& error matches LightError::UnknownRequestIp(ip)
                    &&& ip@ == request_ip@
                },
            },
    {
        match self.registry.addresses_of(request_ip) {
            Some(light_addresses) => {
                assert(addresses_for(self@, request_ip@)[0] == light_addresses@[0]@);
                Ok(self.light(status, light_addresses[0].as_str()))
            },
            None => Err(LightError::UnknownRequestIp(request_ip.to_string())),
        }
    }

    /// The work that shows `status` on the light at `light_ip`, configured or not.
    pub fn light(&self, status: LightStatus, light_ip: &str) -> (job: LightJob)
        ensures
            is_route(job.route, self@, light_ip@),
            job.plan.remaining() == status_actions(status),
    {
        LightJob { route: self.registry.route(light_ip), plan: send_status(status) }
    }

    /// The way to the one light that `request_ip` maps to, to ask for its status.
    pub fn red_status_by_request_ip(&self, request_ip: &str) -> (result: Result<Route, LightError>)
        ensures
            match result {
                Ok(route) => {
                    &&& addresses_for(self@, request_ip@).len() == 1
                    &&& is_route(route, self@, addresses_for(self@, request_ip@)[0])
                },
                Err(LightError::UnknownRequestIp(ip)) => {
                    &&& addresses_for(self@, request_ip@).len() == 0
                    &&& ip@ == request_ip@
                },
                Err(LightError::MultipleLightsForRequestIp(ip)) => {
                    &&& addresses_for(self@, request_ip@).len() > 1
                    &&& ip@ == request_ip@
                },
                Err(_) => false,
            },
    {
        match self.registry.addresses_of(request_ip) {
            Some(light_addresses) => {
                if light_addresses.len() != 1 {
                    return Err(
                        LightError::MultipleLightsForRequestIp(request_ip.to_string()),
                    );
                }
                assert(addresses_for(self@, request_ip@)[0] == light_addresses@[0]@);
                Ok(self.red_status(light_addresses[0].as_str()))
            },
            None => Err(LightError::UnknownRequestIp(request_ip.to_string())),
        }
    }

    /// The way to the light at `light_ip`, to ask for its status.
    pub fn red_status(&self, light_ip: &str) -> (route: Route)
        ensures
            is_route(route, self@, light_ip@),
    {
        self.registry.route(light_ip)
    }

    /// The number of configured lights, those with the same address counted once.
    pub fn configured_light_count(&self) -> (count: usize)
        ensures
            count == addresses(self@).to_set().len(),
    {
        self.registry.configured_light_count()
    }
}

/// Starts to send `command` through `runtime`, within the time limit of one transmission.
pub fn send(runtime: &LightRuntime, command: Vec<u8>) -> (task: SendAcquire)
    ensures
        task.address@ == runtime.address@,
        task.command == command,
        task.io_timeout_ms == IO_TIMEOUT_MS,
{
    SendAcquire::new(runtime.address.as_str(), command, IO_TIMEOUT_MS)
}

impl LightJob {
    /// Goes on after an action: a failure ends the job, and so does its last action.
    pub fn advance<E>(&mut self, last: Result<(), E>) -> (step: JobStep<E>)
        ensures
            is_step(
                step,
                last,
                old(self).plan.remaining(),
                final(self).plan.remaining(),
                old(self).route.runtime.address@,
                IO_TIMEOUT_MS,
            ),
            final(self).route == old(self).route,
    {
        match self.plan.advance(last) {
            Directive::Act(LightAction::Send(command)) => JobStep::Send(
                send(&self.route.runtime, command),
            ),
            Directive::Act(LightAction::Sleep(ms)) => JobStep::Sleep(ms),
            Directive::Finish(result) => JobStep::Finish(result),
        }
    }
}

/// Starts to ask through `runtime` whether the red light is on.
pub fn read_red_status(runtime: &LightRuntime) -> (task: QueryAcquire)
    ensures
        task.address@ == runtime.address@,
        task.question@ == READ_STATUS@,
        task.io_timeout_ms == IO_TIMEOUT_MS,
{
    QueryAcquire::new(runtime.address.as_str(), command(READ_STATUS), IO_TIMEOUT_MS)
}

/// What is logged when the service starts.
pub struct StartupLog {
    pub light_count: usize,
    pub mapped_request_ip_count: usize,
    pub warns_no_lights: bool,
}

/// What to log when the service starts: how many lights and request addresses there are, and a
/// warning where there are no lights.
pub fn log_startup(service: &LightService) -> (log: StartupLog)
    ensures
        log.light_count == addresses(service@).to_set().len(),
        log.mapped_request_ip_count == known_request_ips(service@).len(),
        log.warns_no_lights == (log.light_count == 0),
{
    StartupLog {
        light_count: service.configured_light_count(),
        mapped_request_ip_count: service.registry.mapped_request_ip_count(),
        warns_no_lights: service.configured_light_count() == 0,
    }
}

} // verus!
