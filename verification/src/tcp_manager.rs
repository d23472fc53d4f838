//! Connections to lights: when to connect again, when to keep a connection, what to log.

use vstd::prelude::*;

verus! {

/// The time limit of one attempt to connect.
pub const CONNECT_TIMEOUT_MS: u64 = 1000;

/// The pause between two attempts to connect.
pub const RECONNECT_DELAY_MS: u64 = 500;

/// The number of attempts to connect.
pub const MAX_CONNECT_ATTEMPTS: usize = 3;

/// A pool of connections to one light.
#[derive(Debug)]
pub struct Pool {
    pub manager: TcpManager,
    pub max_size: usize,
}

/// Opens, keeps and drops the connections to one light.
#[derive(Debug)]
pub struct TcpManager {
    pub addr: String,
}

/// What is known of a connection: its address, whether it is healthy, and whether its end has
/// been logged.
#[derive(Debug)]
pub struct ManagedConnection {
    pub addr: String,
    pub status: bool,
    pub disconnected_logged: bool,
}

/// Whether a connection is used again: one that is healthy is.
pub open spec fn kept(connection: ManagedConnection) -> bool {
    connection.status
}

/// A connection on which something failed.
pub open spec fn broken(connection: ManagedConnection) -> ManagedConnection {
    ManagedConnection { status: false, ..connection }
}

/// A connection whose end has been logged.
pub open spec fn ended(connection: ManagedConnection) -> ManagedConnection {
    ManagedConnection { disconnected_logged: true, ..connection }
}

/// A connection on which something failed is never used again.
pub proof fn law_broken_connections_are_not_kept(connection: ManagedConnection)
    ensures
        !kept(broken(connection)),
        !kept(ended(broken(connection))),
{
}

/// Why there is no connection.
#[derive(Debug)]
pub enum Error {
    InvalidAddress(String),
    ConnectFailed(String, String),
}

impl Error {
    /// The error as a message.
    pub open spec fn message(self) -> Seq<char> {
        match self {
            Error::InvalidAddress(addr) => "invalid socket address: "@ + addr@,
            Error::ConnectFailed(addr, error) => "failed to connect socket address "@ + addr@
                + ": "@ + error@,
        }
    }

    /// Renders the error as a message.
    pub fn to_string(&self) -> (text: String)
        ensures
            text@ == self.message(),
    {
        match self {
            Error::InvalidAddress(addr) => "invalid socket address: ".to_string().concat(
                addr.as_str(),
            ),
            Error::ConnectFailed(addr, error) => "failed to connect socket address ".to_string(

            ).concat(addr.as_str()).concat(": ").concat(error.as_str()),
        }
    }
}

impl Clone for TcpManager {
    fn clone(&self) -> (copy: Self)
        ensures
            copy == *self,
    {
        TcpManager { addr: self.addr.clone() }
    }
}

/// How an attempt to connect failed.
#[derive(Debug)]
pub enum ConnectFailure {
    Refused(String),
    TimedOut,
}

impl ConnectFailure {
    /// The failure as a message.
    pub open spec fn message(self) -> Seq<char> {
        match self {
            ConnectFailure::Refused(message) => message@,
            ConnectFailure::TimedOut => "timeout"@,
        }
    }
}

/// An attempt to connect that is under way.
#[derive(Debug)]
pub struct ConnectAttempt {
    addr: String,
    number: usize,
}

/// What follows a failed attempt: another one after a pause, or none.
#[derive(Debug)]
pub enum ConnectStep {
    Retry { delay_ms: u64, next: ConnectAttempt },
    GiveUp(Error),
}

/// The number of the attempt that follows a failure of attempt `number`, if one does.
pub open spec fn attempt_after(number: nat) -> Option<nat> {
    if number < MAX_CONNECT_ATTEMPTS {
        Some(number + 1)
    } else {
        None
    }
}

impl ConnectAttempt {
    #[verifier::type_invariant]
    spec fn counted(self) -> bool {
        1 <= self.number <= MAX_CONNECT_ATTEMPTS
    }

    /// The address connected to.
    pub closed spec fn address(self) -> Seq<char> {
        self.addr@
    }

    /// The number of this attempt, counted from one.
    pub closed spec fn ordinal(self) -> nat {
        self.number as nat
    }

    /// The number of this attempt, counted from one.
    pub fn number(&self) -> (number: usize)
        ensures
            number == self.ordinal(),
            1 <= number <= MAX_CONNECT_ATTEMPTS,
    {
        proof {
            use_type_invariant(self);
        }
        self.number
    }

    /// The time limit of this attempt, in milliseconds.
    pub fn timeout_ms(&self) -> (ms: u64)
        ensures
            ms == CONNECT_TIMEOUT_MS,
    {
        CONNECT_TIMEOUT_MS
    }

    /// The attempt succeeded: the connection is healthy, and nothing of it has been logged.
    pub fn connected(self) -> (connection: ManagedConnection)
        ensures
            connection.addr@ == self.address(),
            kept(connection),
            !connection.disconnected_logged,
    {
        ManagedConnection { addr: self.addr, status: true, disconnected_logged: false }
    }

    /// The attempt failed: try again after a pause, as long as attempts are left.
    pub fn failed(self, failure: ConnectFailure) -> (step: ConnectStep)
        ensures
            match step {
                ConnectStep::Retry { delay_ms, next } => delay_ms == RECONNECT_DELAY_MS
                    && attempt_after(self.ordinal()) == Some(next.ordinal()) && next.address()
                    == self.address(),
                ConnectStep::GiveUp(error) => {
                    &&& attempt_after(self.ordinal()) is None
                    &&& error matches Error::ConnectFailed(addr, message)
                    &&& addr@ == self.address()
                    &&& message@ == failure.message()
                },
            },
    {
        proof {
            use_type_invariant(&self);
        }
        if self.number < MAX_CONNECT_ATTEMPTS {
            ConnectStep::Retry {
                delay_ms: RECONNECT_DELAY_MS,
                next: ConnectAttempt { addr: self.addr, number: self.number + 1 },
            }
        } else {
            let message = match failure {
                ConnectFailure::Refused(message) => message,
                ConnectFailure::TimedOut => "timeout".to_string(),
            };
            ConnectStep::GiveUp(Error::ConnectFailed(self.addr, message))
        }
    }
}

/// What becomes of a connection that was handed back.
#[derive(Debug)]
pub enum Recycle {
    Keep,
    Discard { log: Option<&'static str>, message: &'static str },
}

impl TcpManager {
    /// Takes the socket address that the text of the address was parsed to, if it was.
    pub fn parse_socket_addr<A>(&self, parsed: Option<A>) -> (result: Result<A, Error>)
        ensures
            match parsed {
                Some(socket_addr) => result == Ok::<A, Error>(socket_addr),
                None => result == Err::<A, Error>(Error::InvalidAddress(self.addr)),
            },
    {
        match parsed {
            Some(socket_addr) => Ok(socket_addr),
            None => Err(Error::InvalidAddress(self.addr.clone())),
        }
    }

    /// Starts to connect: the first attempt, where the address could be parsed.
    pub fn create<A>(&self, parsed: Option<A>) -> (result: Result<(A, ConnectAttempt), Error>)
        ensures
            match parsed {
                Some(socket_addr) => {
                    &&& result matches Ok((target, attempt))
                    &&& target == socket_addr
                    &&& attempt.ordinal() == 1
                    &&& attempt.address() == self.addr@
                },
                None => result == Err::<(A, ConnectAttempt), Error>(
                    Error::InvalidAddress(self.addr),
                ),
            },
    {
        match self.parse_socket_addr(parsed) {
            Ok(socket_addr) => Ok(
                (socket_addr, ConnectAttempt { addr: self.addr.clone(), number: 1 }),
            ),
            Err(error) => Err(error),
        }
    }

    /// Decides whether a connection is kept: a healthy one is, an unhealthy one is closed.
    pub fn recycle(&self, connection: &mut ManagedConnection) -> (recycle: Recycle)
        ensures
            kept(*old(connection)) ==> recycle == Recycle::Keep && *final(connection) == *old(
                connection,
            ),
            !kept(*old(connection)) ==> {
                &&& recycle matches Recycle::Discard { log, message }
                &&& log == reason_to_log(old(connection).disconnected_logged, "unhealthy")
                &&& message@ == "can't recycle"@
                &&& *final(connection) == ended(*old(connection))
            },
    {
        if connection.status {
            Recycle::Keep
        } else {
            let log = connection.log_disconnect("unhealthy");
            Recycle::Discard { log, message: "can't recycle" }
        }
    }

    /// A connection leaves the pool.
    pub fn detach(&self, connection: &mut ManagedConnection) -> (log: Option<&'static str>)
        ensures
            log == reason_to_log(old(connection).disconnected_logged, "detached"),
            *final(connection) == ended(*old(connection)),
    {
        connection.log_disconnect("detached")
    }
}

/// The reason to log for the end of a connection, if its end has not been logged yet.
pub open spec fn reason_to_log(logged: bool, reason: &'static str) -> Option<&'static str> {
    if logged {
        None
    } else {
        Some(reason)
    }
}

impl ManagedConnection {
    /// The reason to log for the end of the connection, if its end has not been logged yet.
    pub fn log_disconnect(&mut self, reason: &'static str) -> (log: Option<&'static str>)
        ensures
            log == reason_to_log(old(self).disconnected_logged, reason),
            *final(self) == ended(*old(self)),
    {
        if !self.disconnected_logged {
            self.disconnected_logged = true;
            Some(reason)
        } else {
            None
        }
    }

    /// The connection is dropped.
    pub fn dropped(&mut self) -> (log: Option<&'static str>)
        ensures
            log == reason_to_log(old(self).disconnected_logged, "dropped"),
            *final(self) == ended(*old(self)),
    {
        self.log_disconnect("dropped")
    }
}

/// The number of the attempt that is under way after `failures` failed ones, if one is.
pub open spec fn attempt_after_failures(failures: nat) -> Option<nat>
    decreases failures,
{
    if failures == 0 {
        Some(1)
    } else {
        match attempt_after_failures((failures - 1) as nat) {
            Some(number) => attempt_after(number),
            None => None,
        }
    }
}

/// Attempts are made until one succeeds or all of them have failed, and no more than that.
pub proof fn law_attempts_are_bounded(failures: nat)
    ensures
        attempt_after_failures(failures) == (if failures < MAX_CONNECT_ATTEMPTS {
            Some(failures + 1)
        } else {
            None
        }),
    decreases failures,
{
    if failures > 0 {
        law_attempts_are_bounded((failures - 1) as nat);
    }
}

/// What is logged of a connection whose end is reported for each of `reasons` in turn, where
/// `logged` tells whether its end was logged before.
pub open spec fn disconnect_log(logged: bool, reasons: Seq<&'static str>) -> Seq<&'static str>
    decreases reasons.len(),
{
    if reasons.len() == 0 {
        Seq::empty()
    } else {
        let later = disconnect_log(true, reasons.drop_first());
        match reason_to_log(logged, reasons[0]) {
            Some(reason) => seq![reason] + later,
            None => later,
        }
    }
}

/// The end of a connection is logged once, with the first reason reported.
pub proof fn law_disconnect_is_logged_once(reasons: Seq<&'static str>)
    ensures
        disconnect_log(true, reasons) == Seq::<&'static str>::empty(),
        reasons.len() > 0 ==> disconnect_log(false, reasons) == seq![reasons[0]],
    decreases reasons.len(),
{
    if reasons.len() > 0 {
        law_disconnect_is_logged_once(reasons.drop_first());
        assert(disconnect_log(false, reasons) =~= seq![reasons[0]]);
    }
}

} // verus!
