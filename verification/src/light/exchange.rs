//! One exchange with a light over a connection: send a command, or ask for its status.
//!
//! Each type is a point in the exchange; its methods take what came of the I/O at that point.

use crate::tcp_manager::{broken, ManagedConnection};
use vstd::prelude::*;

verus! {

/// Why an exchange failed, with the address of the light.
#[derive(Debug)]
pub enum ExchangeError {
    ConnectionPool(String, String),
    Io(String, String),
    Timeout(String),
}

/// A command is to be sent; a connection is being acquired.
#[derive(Debug)]
pub struct SendAcquire {
    pub address: String,
    pub command: Vec<u8>,
    pub io_timeout_ms: u64,
}

/// The command is being written. This takes at most `io_timeout_ms`.
#[derive(Debug)]
pub struct SendWrite {
    pub address: String,
    pub command: Vec<u8>,
    pub io_timeout_ms: u64,
}

/// The command is written; the connection is being flushed, for as long as it takes.
#[derive(Debug)]
pub struct SendFlush {
    pub address: String,
}

impl SendAcquire {
    /// Starts to send `command` to `address`, with `io_timeout_ms` for the write.
    pub fn new(address: &str, command: Vec<u8>, io_timeout_ms: u64) -> (task: Self)
        ensures
            task.address@ == address@,
            task.command == command,
            task.io_timeout_ms == io_timeout_ms,
    {
        SendAcquire { address: address.to_string(), command, io_timeout_ms }
    }

    /// There is no connection to be had.
    pub fn failed(self, message: String) -> (error: ExchangeError)
        ensures
            error == ExchangeError::ConnectionPool(self.address, message),
    {
        ExchangeError::ConnectionPool(self.address, message)
    }

    /// A connection was acquired: write the command.
    pub fn acquired(self) -> (task: SendWrite)
        ensures
            task.address == self.address,
            task.command == self.command,
            task.io_timeout_ms == self.io_timeout_ms,
    {
        SendWrite {
            address: self.address,
            command: self.command,
            io_timeout_ms: self.io_timeout_ms,
        }
    }
}

impl SendWrite {
    /// The write failed: the connection is not to be used again.
    pub fn failed(self, connection: &mut ManagedConnection, message: String) -> (error:
        ExchangeError)
        ensures
            error == ExchangeError::Io(self.address, message),
            *final(connection) == broken(*old(connection)),
    {
        connection.status = false;
        ExchangeError::Io(self.address, message)
    }

    /// The write took too long: the connection is not to be used again.
    pub fn timed_out(self, connection: &mut ManagedConnection) -> (error: ExchangeError)
        ensures
            error == ExchangeError::Timeout(self.address),
            *final(connection) == broken(*old(connection)),
    {
        connection.status = false;
        ExchangeError::Timeout(self.address)
    }

    /// The command is written: flush the connection.
    pub fn written(self) -> (task: SendFlush)
        ensures
            task.address == self.address,
    {
        SendFlush { address: self.address }
    }
}

impl SendFlush {
    /// The flush is over: the command is sent, or the connection is not to be used again.
    pub fn flushed(self, connection: &mut ManagedConnection, flushed: Result<(), String>) -> (
    result: Result<(), ExchangeError>)
        ensures
            match flushed {
                Ok(_) => result is Ok && *final(connection) == *old(connection),
                Err(message) => result == Err::<(), ExchangeError>(
                    ExchangeError::Io(self.address, message),
                ) && *final(connection) == broken(*old(connection)),
            },
    {
        match flushed {
            Ok(()) => Ok(()),
            Err(message) => {
                connection.status = false;
                Err(ExchangeError::Io(self.address, message))
            },
        }
    }
}

/// The status is to be asked for; a connection is being acquired.
#[derive(Debug)]
pub struct QueryAcquire {
    pub address: String,
    pub question: Vec<u8>,
    pub io_timeout_ms: u64,
}

/// The question is being written. This takes at most `io_timeout_ms`.
#[derive(Debug)]
pub struct QueryWrite {
    pub address: String,
    pub question: Vec<u8>,
    pub io_timeout_ms: u64,
}

/// The question is written; the reply is being read. This takes at most `io_timeout_ms`.
#[derive(Debug)]
pub struct QueryRead {
    pub address: String,
    pub io_timeout_ms: u64,
}

/// The most bytes that are read of a reply.
pub const MAX_REPLY_BYTES: usize = 1024;

/// Whether a reply says that the red light is on: its fourth byte is 15.
pub open spec fn reports_red(reply: Seq<u8>) -> bool {
    reply.len() > 3 && reply[3] == 15
}

impl QueryAcquire {
    /// Starts to put `question` to the light at `address`, with `io_timeout_ms` for the write and
    /// as much again for the read.
    pub fn new(address: &str, question: Vec<u8>, io_timeout_ms: u64) -> (task: Self)
        ensures
            task.address@ == address@,
            task.question == question,
            task.io_timeout_ms == io_timeout_ms,
    {
        QueryAcquire { address: address.to_string(), question, io_timeout_ms }
    }

    /// There is no connection to be had.
    pub fn failed(self, message: String) -> (error: ExchangeError)
        ensures
            error == ExchangeError::ConnectionPool(self.address, message),
    {
        ExchangeError::ConnectionPool(self.address, message)
    }

    /// A connection was acquired: write the question.
    pub fn acquired(self) -> (task: QueryWrite)
        ensures
            task.address == self.address,
            task.question == self.question,
            task.io_timeout_ms == self.io_timeout_ms,
    {
        QueryWrite {
            address: self.address,
            question: self.question,
            io_timeout_ms: self.io_timeout_ms,
        }
    }
}

impl QueryWrite {
    /// The write failed: the connection is not to be used again.
    pub fn failed(self, connection: &mut ManagedConnection, message: String) -> (error:
        ExchangeError)
        ensures
            error == ExchangeError::Io(self.address, message),
            *final(connection) == broken(*old(connection)),
    {
        connection.status = false;
        ExchangeError::Io(self.address, message)
    }

    /// The write took too long. The connection stays as it is.
    pub fn timed_out(self) -> (error: ExchangeError)
        ensures
            error == ExchangeError::Timeout(self.address),
    {
        ExchangeError::Timeout(self.address)
    }

    /// The question is written: read the reply.
    pub fn written(self) -> (task: QueryRead)
        ensures
            task.address == self.address,
            task.io_timeout_ms == self.io_timeout_ms,
    {
        QueryRead { address: self.address, io_timeout_ms: self.io_timeout_ms }
    }
}

impl QueryRead {
    /// The read failed: the connection is not to be used again.
    pub fn failed(self, connection: &mut ManagedConnection, message: String) -> (error:
        ExchangeError)
        ensures
            error == ExchangeError::Io(self.address, message),
            *final(connection) == broken(*old(connection)),
    {
        connection.status = false;
        ExchangeError::Io(self.address, message)
    }

    /// The reply took too long. The connection stays as it is.
    pub fn timed_out(self) -> (error: ExchangeError)
        ensures
            error == ExchangeError::Timeout(self.address),
    {
        ExchangeError::Timeout(self.address)
    }

    /// The reply is read: tell whether the red light is on.
    pub fn replied(self, reply: &[u8]) -> (red: bool)
        ensures
            red == reports_red(reply@),
    {
        reply.len() > 3 && reply[3] == 15
    }
}

} // verus!
