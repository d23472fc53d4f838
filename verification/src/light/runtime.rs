//! The service that turns requests into work for lights.

use crate::config::{addresses_for, light_views, maps_to, Light, LightConfig, LightView};
use crate::light::exchange::{ExchangeError, SendAcquire};
use crate::light::plan::{
    action_after, status_actions, ActionView, Directive, LightAction, LightPlan,
};
use crate::light::protocol::{
    basic_reads_whole, protocol_of, LightProtocol, LightStatus, ProtocolView,
};
use crate::light::registry::{addresses, is_runtime_for, LightRegistry, LightRuntime, Route};
use vstd::hash_map::StringHashMap;
use vstd::prelude::*;

verus! {

/// Why a light could not be controlled.
#[derive(Debug)]
pub enum LightError {
    UnknownRequestIp(String),
    ConnectionPool(String, String),
    Io(String, String),
    Timeout(String),
}

impl LightError {
    /// The error as a message.
    pub open spec fn message(self) -> Seq<char> {
        match self {
            LightError::UnknownRequestIp(ip) => "unknown request ip: "@ + ip@,
            LightError::ConnectionPool(addr, error) => "failed to acquire light connection "@
                + addr@ + ": "@ + error@,
            LightError::Io(addr, error) => "light tcp io error "@ + addr@ + ": "@ + error@,
            LightError::Timeout(addr) => "light tcp operation timeout: "@ + addr@,
        }
    }

    /// Renders the error as a message.
    pub fn to_string(&self) -> (text: String)
        ensures
            text@ == self.message(),
    {
        match self {
            LightError::UnknownRequestIp(ip) => "unknown request ip: ".to_string().concat(
                ip.as_str(),
            ),
            LightError::ConnectionPool(addr, error) => {
                "failed to acquire light connection ".to_string().concat(addr.as_str()).concat(
                    ": ",
                ).concat(error.as_str())
            },
            LightError::Io(addr, error) => "light tcp io error ".to_string().concat(
                addr.as_str(),
            ).concat(": ").concat(error.as_str()),
            LightError::Timeout(addr) => "light tcp operation timeout: ".to_string().concat(
                addr.as_str(),
            ),
        }
    }
}

impl From<ExchangeError> for LightError {
    fn from(error: ExchangeError) -> (converted: Self) {
        match error {
            ExchangeError::ConnectionPool(addr, message) => LightError::ConnectionPool(
                addr,
                message,
            ),
            ExchangeError::Io(addr, message) => LightError::Io(addr, message),
            ExchangeError::Timeout(addr) => LightError::Timeout(addr),
        }
    }
}

impl vstd::std_specs::convert::FromSpecImpl<ExchangeError> for LightError {
    open spec fn obeys_from_spec() -> bool {
        true
    }

    open spec fn from_spec(error: ExchangeError) -> Self {
        match error {
            ExchangeError::ConnectionPool(addr, message) => LightError::ConnectionPool(
                addr,
                message,
            ),
            ExchangeError::Io(addr, message) => LightError::Io(addr, message),
            ExchangeError::Timeout(addr) => LightError::Timeout(addr),
        }
    }
}

/// Work for one light: the runtime it goes through, what is done, and the time limit of each
/// transmission, in milliseconds.
pub struct LightJob {
    pub route: Route,
    pub plan: LightPlan,
    pub io_timeout_ms: u64,
}

/// A [`LightService`] as plain values.
#[verifier::ext_equal]
pub struct ServiceView {
    pub lights: Seq<LightView>,
    pub protocol: ProtocolView,
}

/// The configured lights and the protocol they speak.
pub struct LightService {
    registry: LightRegistry,
    protocol: LightProtocol,
}

impl View for LightService {
    type V = ServiceView;

    closed spec fn view(&self) -> ServiceView {
        ServiceView { lights: self.registry@, protocol: self.protocol@ }
    }
}

/// Whether `job` shows `status` on the light at `address`, within the time limit of the service.
pub open spec fn is_job(
    job: LightJob,
    service: ServiceView,
    status: LightStatus,
    address: Seq<char>,
) -> bool {
    &&& is_runtime_for(job.route.runtime, address)
    &&& job.route.configured == addresses(service.lights).contains(address)
    &&& job.plan.remaining() == status_actions(service.protocol, status)
    &&& job.io_timeout_ms == service.protocol.io_timeout_ms
}

impl LightService {
    /// The service for a configuration whose commands are valid.
    pub fn new(config: &LightConfig) -> (service: Self)
        requires
            basic_reads_whole(config.commands.basic),
            protocol_of(config.commands) is Ok,
        ensures
            service@ == (ServiceView {
                lights: light_views(config.lights@),
                protocol: protocol_of(config.commands)->Ok_0,
            }),
    {
        LightService {
            registry: LightRegistry::new(config),
            protocol: LightProtocol::from_config(&config.commands).expect(
                "invalid light command config",
            ),
        }
    }

    /// The configured lights.
    pub fn lights(&self) -> (lights: &Vec<Light>)
        ensures
            light_views(lights@) == self@.lights,
    {
        self.registry.lights()
    }

    /// The addresses that each request address maps to.
    pub fn request_ip_map(&self) -> (map: &StringHashMap<Vec<String>>)
        ensures
            maps_to(map@, |ip: Seq<char>| addresses_for(self@.lights, ip)),
    {
        self.registry.request_ip_map()
    }

    /// The time limit of one transmission, in milliseconds.
    pub fn io_timeout_ms(&self) -> (ms: u64)
        ensures
            ms == self@.protocol.io_timeout_ms,
    {
        self.protocol.io_timeout_ms
    }

    /// The work that shows `status` on the first light that `request_ip` maps to.
    pub fn light_by_request_ip(&self, status: LightStatus, request_ip: &str) -> (result: Result<
        LightJob,
        LightError,
    >)
        ensures
            match result {
                Ok(job) => {
                    &&& addresses_for(self@.lights, request_ip@).len() > 0
                    &&& is_job(job, self@, status, addresses_for(self@.lights, request_ip@)[0])
                },
                Err(error) => {
                    &&& addresses_for(self@.lights, request_ip@).len() == 0
                    &&& error matches LightError::UnknownRequestIp(ip)
                    &&& ip@ == request_ip@
                },
            },
    {
        match self.registry.addresses_of(request_ip) {
            Some(light_addresses) => {
                assert(addresses_for(self@.lights, request_ip@)[0] == light_addresses@[0]@);
                Ok(self.light(status, light_addresses[0].as_str()))
            },
            None => Err(LightError::UnknownRequestIp(request_ip.to_string())),
        }
    }

    /// The work that shows `status` on the light at `light_ip`, configured or not.
    pub fn light(&self, status: LightStatus, light_ip: &str) -> (job: LightJob)
        ensures
            is_job(job, self@, status, light_ip@),
    {
        LightJob {
            route: self.registry.route(light_ip),
            plan: send_status(&self.protocol, status),
            io_timeout_ms: self.io_timeout_ms(),
        }
    }

    /// The number of configured lights, those with the same address counted once.
    pub fn configured_light_count(&self) -> (count: usize)
        ensures
            count == addresses(self@.lights).to_set().len(),
    {
        self.registry.configured_light_count()
    }
}

/// What is done to show `status`.
pub fn send_status(protocol: &LightProtocol, status: LightStatus) -> (plan: LightPlan)
    ensures
        plan.remaining() == status_actions(protocol@, status),
{
    match status {
        LightStatus::Red => red_light_on(protocol),
        LightStatus::Green => green_light_on(protocol),
        LightStatus::RedFlash => red_light_flash(protocol),
    }
}

/// What is done to show red.
pub fn red_light_on(protocol: &LightProtocol) -> (plan: LightPlan)
    ensures
        plan.remaining() == status_actions(protocol@, LightStatus::Red),
{
    LightPlan::of_commands(&protocol.red)
}

/// What is done to show green.
pub fn green_light_on(protocol: &LightProtocol) -> (plan: LightPlan)
    ensures
        plan.remaining() == status_actions(protocol@, LightStatus::Green),
{
    LightPlan::of_commands(&protocol.green)
}

/// What is done to flash red.
pub fn red_light_flash(protocol: &LightProtocol) -> (plan: LightPlan)
    ensures
        plan.remaining() == status_actions(protocol@, LightStatus::RedFlash),
{
    LightPlan::of_steps(&protocol.red_flash)
}

/// Starts to send `command` through `runtime`, with `io_timeout_ms` for the write.
pub fn send(runtime: &LightRuntime, command: Vec<u8>, io_timeout_ms: u64) -> (task: SendAcquire)
    ensures
        task.address@ == runtime.address@,
        task.command == command,
        task.io_timeout_ms == io_timeout_ms,
{
    SendAcquire::new(runtime.address.as_str(), command, io_timeout_ms)
}

/// What a job comes to next: a command is sent, there is a pause of some milliseconds, or the job
/// is over.
pub enum JobStep<E> {
    Send(SendAcquire),
    Sleep(u64),
    Finish(Result<(), E>),
}

/// Whether `step` is what comes after the outcome `last` where the actions `before` are left, and
/// leaves `after`. A command goes to `address`, with `io_timeout_ms` for the write.
pub open spec fn is_step<E>(
    step: JobStep<E>,
    last: Result<(), E>,
    before: Seq<ActionView>,
    after: Seq<ActionView>,
    address: Seq<char>,
    io_timeout_ms: u64,
) -> bool {
    match step {
        JobStep::Send(task) => {
            &&& action_after(before, last is Ok) == Some(ActionView::Send(task.command@))
            &&& task.address@ == address
            &&& task.io_timeout_ms == io_timeout_ms
            &&& after == before.drop_first()
        },
        JobStep::Sleep(ms) => {
            &&& action_after(before, last is Ok) == Some(ActionView::Sleep(ms))
            &&& after == before.drop_first()
        },
        JobStep::Finish(result) => {
            &&& action_after(before, last is Ok) is None
            &&& result == last
            &&& after == before
        },
    }
}

impl LightJob {
    /// Goes on after an action: a failure ends the job, and so does its last action.
    pub fn advance<E>(&mut self, last: Result<(), E>) -> (step: JobStep<E>)
        ensures
            is_step(
                step,
                last,
                old(self).plan.remaining(),
                final(self).plan.remaining(),
                old(self).route.runtime.address@,
                old(self).io_timeout_ms,
            ),
            final(self).route == old(self).route,
            final(self).io_timeout_ms == old(self).io_timeout_ms,
    {
        match self.plan.advance(last) {
            Directive::Act(LightAction::Send(command)) => JobStep::Send(
                send(&self.route.runtime, command, self.io_timeout_ms),
            ),
            Directive::Act(LightAction::Sleep(ms)) => JobStep::Sleep(ms),
            Directive::Finish(result) => JobStep::Finish(result),
        }
    }
}

/// What is logged when the service starts.
pub struct StartupLog<'a> {
    pub lights: &'a Vec<Light>,
    pub warns_no_lights: bool,
}

/// What to log when the service starts: the lights, and a warning where there are none.
pub fn log_startup(service: &LightService) -> (log: StartupLog<'_>)
    ensures
        light_views(log.lights@) == service@.lights,
        log.warns_no_lights == (service@.lights.len() == 0),
{
    proof {
        let all = addresses(service@.lights);
        all.lemma_cardinality_of_set();
        if service@.lights.len() > 0 {
            assert(all.contains(all[0]));
            assert(all.to_set().contains(all[0]));
        } else {
            assert(all.to_set() =~= Set::<Seq<char>>::empty());
        }
    }
    StartupLog { lights: service.lights(), warns_no_lights: service.configured_light_count() == 0 }
}

} // verus!
