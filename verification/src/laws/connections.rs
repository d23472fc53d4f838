//! How connections are opened, used and given up.

use crate::config::Light;
use crate::light::exchange::{
    ExchangeError, QueryAcquire, QueryRead, QueryWrite, SendAcquire, SendFlush, SendWrite,
    MAX_REPLY_BYTES,
};
use crate::light::registry::{build_light_pool, build_light_runtime, LightRuntime};
use crate::light::runtime::send;
use crate::light_runtime;
use crate::tcp_manager::{
    ConnectAttempt, ConnectFailure, ConnectStep, Error, ManagedConnection, Pool, Recycle,
    TcpManager,
};
use vstd::prelude::*;

verus! {

/// The attempts after the first: each failed, for its own reason, and led to the next.
pub open spec fn is_retried(
    attempt: ConnectAttempt,
    failure: ConnectFailure,
    next: ConnectAttempt,
) -> bool {
    exists|delay_ms: u64| #[trigger]
        call_ensures(
            ConnectAttempt::failed,
            (attempt, failure),
            ConnectStep::Retry { delay_ms, next },
        )
}

/// Only an address that is one is connected to, and the first attempt comes first.
pub proof fn law_connecting_needs_an_address<A>(
    manager: TcpManager,
    parsed: Option<A>,
    result: Result<(A, ConnectAttempt), Error>,
    attempt: ConnectAttempt,
    number: usize,
)
    requires
        call_ensures(TcpManager::create::<A>, (&manager, parsed), result),
        call_ensures(ConnectAttempt::number, (&attempt,), number),
    ensures
        parsed is None ==> (result matches Err(error) && (error matches Error::InvalidAddress(addr)
            && addr@ == manager.addr@)),
        parsed is Some ==> result is Ok && result->Ok_0.0 == parsed->0,
        parsed is Some && result->Ok_0.1 == attempt ==> number == 1,
        1 <= number <= 3,
{
}

/// The socket address is the one that was parsed.
pub proof fn law_parsed_address_is_used<A>(
    manager: TcpManager,
    parsed: Option<A>,
    result: Result<A, Error>,
)
    requires
        call_ensures(TcpManager::parse_socket_addr::<A>, (&manager, parsed), result),
    ensures
        parsed matches Some(addr) ==> result == Ok::<A, Error>(addr),
        parsed is None ==> (result matches Err(error) && (error matches Error::InvalidAddress(addr)
            && addr@ == manager.addr@)),
{
}

/// After a failed attempt there is another one half a second later, until three have failed; then
/// the last failure is reported, with the address.
pub proof fn law_three_attempts(
    attempt: ConnectAttempt,
    failure: ConnectFailure,
    step: ConnectStep,
    number: usize,
    next: ConnectAttempt,
    next_number: usize,
)
    requires
        call_ensures(ConnectAttempt::failed, (attempt, failure), step),
        call_ensures(ConnectAttempt::number, (&attempt,), number),
        call_ensures(ConnectAttempt::number, (&next,), next_number),
    ensures
        number < 3 ==> step is Retry && step->delay_ms == 500,
        number < 3 && step->next == next ==> next_number == number + 1,
        number >= 3 ==> (step matches ConnectStep::GiveUp(error) && (error matches
            Error::ConnectFailed(addr, message) && match failure {
            ConnectFailure::Refused(text) => message@ == text@,
            ConnectFailure::TimedOut => message@ == "timeout"@,
        })),
{
}

/// The address stays the same through all attempts, and an attempt may take one second.
pub proof fn law_attempts_keep_the_address<A>(
    manager: TcpManager,
    parsed: Option<A>,
    result: Result<(A, ConnectAttempt), Error>,
    first: ConnectAttempt,
    second: ConnectAttempt,
    third: ConnectAttempt,
    failures: (ConnectFailure, ConnectFailure, ConnectFailure),
    step: ConnectStep,
    connections: (ManagedConnection, ManagedConnection, ManagedConnection),
    limit: u64,
)
    requires
        call_ensures(TcpManager::create::<A>, (&manager, parsed), result),
        result is Ok,
        result->Ok_0.1 == first,
        is_retried(first, failures.0, second),
        is_retried(second, failures.1, third),
        call_ensures(ConnectAttempt::failed, (third, failures.2), step),
        call_ensures(ConnectAttempt::connected, (first,), connections.0),
        call_ensures(ConnectAttempt::connected, (second,), connections.1),
        call_ensures(ConnectAttempt::connected, (third,), connections.2),
        call_ensures(ConnectAttempt::timeout_ms, (&third,), limit),
    ensures
        connections.0.addr@ == manager.addr@,
        connections.1.addr@ == manager.addr@,
        connections.2.addr@ == manager.addr@,
        connections.0.status && !connections.0.disconnected_logged,
        connections.1.status && !connections.1.disconnected_logged,
        connections.2.status && !connections.2.disconnected_logged,
        step matches ConnectStep::GiveUp(error) && (error matches Error::ConnectFailed(addr, _)
            && addr@ == manager.addr@),
        limit == 1000,
{
}

/// A healthy connection is kept as it is; any other is given up, and its end is logged unless it
/// was before.
pub proof fn law_healthy_connections_are_kept(
    manager: TcpManager,
    connection: &mut ManagedConnection,
    recycle: Recycle,
)
    requires
        call_ensures(TcpManager::recycle, (&manager, connection), recycle),
    ensures
        old(connection).status ==> recycle is Keep && *final(connection) == *old(connection),
        !old(connection).status ==> {
            &&& recycle is Discard
            &&& recycle->message@ == "can't recycle"@
            &&& old(connection).disconnected_logged ==> recycle->log is None
            &&& !old(connection).disconnected_logged ==> recycle->log is Some
                && recycle->log->0@ == "unhealthy"@
            &&& final(connection).disconnected_logged
            &&& !final(connection).status
            &&& final(connection).addr == old(connection).addr
        },
{
}

/// Whether the end of a connection is logged for `reason`, unless it was logged before, and is
/// known to be logged from then on.
pub open spec fn ends_for(
    before: ManagedConnection,
    after: ManagedConnection,
    log: Option<&'static str>,
    reason: Seq<char>,
) -> bool {
    &&& before.disconnected_logged ==> log is None
    &&& !before.disconnected_logged ==> log is Some && log->0@ == reason
    &&& after.disconnected_logged
    &&& after.status == before.status
    &&& after.addr == before.addr
}

/// The end of a connection is logged once, with the reason for which it came first.
pub proof fn law_ends_are_logged_once(
    manager: TcpManager,
    detached: &mut ManagedConnection,
    dropped: &mut ManagedConnection,
    ended: &mut ManagedConnection,
    reason: &'static str,
    logs: (Option<&'static str>, Option<&'static str>, Option<&'static str>),
)
    requires
        call_ensures(TcpManager::detach, (&manager, detached), logs.0),
        call_ensures(ManagedConnection::dropped, (dropped,), logs.1),
        call_ensures(ManagedConnection::log_disconnect, (ended, reason), logs.2),
    ensures
        ends_for(*old(detached), *final(detached), logs.0, "detached"@),
        ends_for(*old(dropped), *final(dropped), logs.1, "dropped"@),
        ends_for(*old(ended), *final(ended), logs.2, reason@),
{
}

/// A pool holds one connection, to the address of its light.
pub proof fn law_pool_is_that_of_the_light(
    address: &str,
    pool: Pool,
    light: Light,
    runtime: LightRuntime,
)
    requires
        call_ensures(build_light_pool, (address,), pool),
        call_ensures(build_light_runtime, (&light,), runtime),
    ensures
        pool.manager.addr@ == address@,
        pool.max_size == 1,
        runtime.address@ == light.address@,
        runtime.pool.manager.addr@ == light.address@,
        runtime.pool.max_size == 1,
{
}

/// A command is sent as it is, to the address it is for, within the limit that is set; with the
/// built-in commands that is one second.
pub proof fn law_command_is_sent_as_it_is(
    runtime: LightRuntime,
    command: Vec<u8>,
    io_timeout_ms: u64,
    task: SendAcquire,
    other: SendAcquire,
    write: SendWrite,
    flush: SendFlush,
)
    requires
        call_ensures(send, (&runtime, command, io_timeout_ms), task),
        call_ensures(light_runtime::send, (&runtime, command), other),
        call_ensures(SendAcquire::acquired, (task,), write),
        call_ensures(SendWrite::written, (write,), flush),
    ensures
        task.address@ == runtime.address@,
        other.address@ == runtime.address@,
        other.command@ == command@,
        other.io_timeout_ms == 1000,
        write.command@ == command@,
        write.address@ == runtime.address@,
        write.io_timeout_ms == io_timeout_ms,
        flush.address@ == runtime.address@,
{
}

/// Whether a connection is the same but for its health, which is gone.
pub open spec fn is_spoiled(before: ManagedConnection, after: ManagedConnection) -> bool {
    !after.status && after.addr == before.addr && after.disconnected_logged
        == before.disconnected_logged
}

/// Whatever goes wrong while a command is sent is reported with the address of the light, and
/// spoils the connection, if there was one; a command that is flushed leaves it as it is.
pub proof fn law_failures_of_sending(
    acquire: SendAcquire,
    write: SendWrite,
    flush: SendFlush,
    message: String,
    failed: &mut ManagedConnection,
    late: &mut ManagedConnection,
    flushing: &mut ManagedConnection,
    outcome: Result<(), String>,
    errors: (ExchangeError, ExchangeError, ExchangeError),
    result: Result<(), ExchangeError>,
)
    requires
        call_ensures(SendAcquire::failed, (acquire, message), errors.0),
        call_ensures(SendWrite::failed, (write, failed, message), errors.1),
        call_ensures(SendWrite::timed_out, (write, late), errors.2),
        call_ensures(SendFlush::flushed, (flush, flushing, outcome), result),
    ensures
        errors.0 matches ExchangeError::ConnectionPool(addr, text) && addr@ == acquire.address@
            && text@ == message@,
        errors.1 matches ExchangeError::Io(addr, text) && addr@ == write.address@ && text@
            == message@,
        is_spoiled(*old(failed), *final(failed)),
        errors.2 matches ExchangeError::Timeout(addr) && addr@ == write.address@,
        is_spoiled(*old(late), *final(late)),
        outcome is Ok ==> result is Ok && *final(flushing) == *old(flushing),
        outcome matches Err(cause) ==> (result matches Err(error) && (error matches
            ExchangeError::Io(addr, text) && addr@ == flush.address@ && text@ == cause@)
            && is_spoiled(*old(flushing), *final(flushing))),
{
}

/// The status is asked for with the one built-in question, at the address of the light, with one
/// second to write and one to read, and up to 1024 bytes of the reply are read.
pub proof fn law_question_is_put_as_it_is(
    runtime: LightRuntime,
    acquire: QueryAcquire,
    write: QueryWrite,
    read: QueryRead,
)
    requires
        call_ensures(light_runtime::read_red_status, (&runtime,), acquire),
        call_ensures(QueryAcquire::acquired, (acquire,), write),
        call_ensures(QueryWrite::written, (write,), read),
    ensures
        write.question@ == seq![1u8, 1, 0, 0, 0, 8, 61, 204],
        write.address@ == runtime.address@,
        write.io_timeout_ms == 1000,
        read.address@ == runtime.address@,
        read.io_timeout_ms == 1000,
        acquire.address@ == runtime.address@,
        MAX_REPLY_BYTES == 1024,
{
    assert(light_runtime::READ_STATUS@ =~= seq![1u8, 1, 0, 0, 0, 8, 61, 204]);
}

/// What goes wrong while a status is asked for is reported with the address of the light; a write
/// or a read that fails spoils the connection.
pub proof fn law_failures_of_asking(
    acquire: QueryAcquire,
    write: QueryWrite,
    read: QueryRead,
    message: String,
    writing: &mut ManagedConnection,
    reading: &mut ManagedConnection,
    errors: (ExchangeError, ExchangeError, ExchangeError, ExchangeError, ExchangeError),
)
    requires
        call_ensures(QueryAcquire::failed, (acquire, message), errors.0),
        call_ensures(QueryWrite::failed, (write, writing, message), errors.1),
        call_ensures(QueryRead::failed, (read, reading, message), errors.2),
        call_ensures(QueryWrite::timed_out, (write,), errors.3),
        call_ensures(QueryRead::timed_out, (read,), errors.4),
    ensures
        errors.0 matches ExchangeError::ConnectionPool(addr, text) && addr@ == acquire.address@
            && text@ == message@,
        errors.1 matches ExchangeError::Io(addr, text) && addr@ == write.address@ && text@
            == message@,
        is_spoiled(*old(writing), *final(writing)),
        errors.2 matches ExchangeError::Io(addr, text) && addr@ == read.address@ && text@
            == message@,
        is_spoiled(*old(reading), *final(reading)),
        errors.3 matches ExchangeError::Timeout(addr) && addr@ == write.address@,
        errors.4 matches ExchangeError::Timeout(addr) && addr@ == read.address@,
{
}

/// A reply of four bytes or more is read by its fourth byte alone: red is on if, and only if, it
/// is fifteen. A shorter reply says that red is off.
pub proof fn law_fourth_byte_tells(read: QueryRead, reply: &[u8], red: bool)
    requires
        call_ensures(QueryRead::replied, (read, reply), red),
    ensures
        reply@.len() >= 4 ==> (red <==> reply@[3] == 15),
        reply@.len() < 4 ==> !red,
{
}

/// What follows the fourth byte of a reply changes nothing.
pub proof fn law_further_bytes_change_nothing(
    read: QueryRead,
    reply: &[u8],
    longer: &[u8],
    red: bool,
    still_red: bool,
)
    requires
        call_ensures(QueryRead::replied, (read, reply), red),
        call_ensures(QueryRead::replied, (read, longer), still_red),
        reply@.len() >= 4,
        longer@.len() >= reply@.len(),
        longer@.take(reply@.len() as int) == reply@,
    ensures
        still_red == red,
{
    assert(longer@.take(reply@.len() as int)[3] == longer@[3]);
}

} // verus!
