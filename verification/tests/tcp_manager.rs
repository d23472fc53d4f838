use light_manager::tcp_manager::{
    ConnectFailure, ConnectStep, Error, ManagedConnection, Recycle, TcpManager,
    CONNECT_TIMEOUT_MS, MAX_CONNECT_ATTEMPTS, RECONNECT_DELAY_MS,
};

fn manager() -> TcpManager {
    TcpManager {
        addr: "10.0.1.1:502".to_string(),
    }
}

fn connection(status: bool) -> ManagedConnection {
    ManagedConnection {
        addr: "10.0.1.1:502".to_string(),
        status,
        disconnected_logged: false,
    }
}

#[test]
fn create_returns_error_after_connect_attempts_fail() {
    let (target, mut attempt) = manager().create(Some(7)).ok().unwrap();
    assert_eq!(target, 7);
    assert_eq!(attempt.timeout_ms(), 1000);

    let mut numbers = Vec::new();
    let err = loop {
        numbers.push(attempt.number());
        match attempt.failed(ConnectFailure::Refused(format!("refused {}", numbers.len()))) {
            ConnectStep::Retry { delay_ms, next } => {
                assert_eq!(delay_ms, 500);
                attempt = next;
            }
            ConnectStep::GiveUp(err) => break err,
        }
    };

    assert!(matches!(err, Error::ConnectFailed(_, _)));
    assert_eq!(
        err.to_string(),
        "failed to connect socket address 10.0.1.1:502: refused 3"
    );
    assert_eq!(numbers, vec![1, 2, 3]);
}

#[test]
fn last_timeout_is_reported() {
    let (_, attempt) = manager().create(Some(())).ok().unwrap();
    let mut attempt = attempt;

    let err = loop {
        match attempt.failed(ConnectFailure::TimedOut) {
            ConnectStep::Retry { next, .. } => attempt = next,
            ConnectStep::GiveUp(err) => break err,
        }
    };

    assert_eq!(
        err.to_string(),
        "failed to connect socket address 10.0.1.1:502: timeout"
    );
}

#[test]
fn address_that_does_not_parse_is_refused() {
    let manager = TcpManager {
        addr: "light".to_string(),
    };

    let err = manager.create::<()>(None).err().unwrap();

    assert!(matches!(&err, Error::InvalidAddress(addr) if addr == "light"));
    assert_eq!(err.to_string(), "invalid socket address: light");
    assert_eq!(manager.parse_socket_addr(Some(3)).ok(), Some(3));
}

#[test]
fn connection_can_succeed_at_any_attempt() {
    let (_, first) = manager().create(Some(())).ok().unwrap();
    let second = match first.failed(ConnectFailure::TimedOut) {
        ConnectStep::Retry { next, .. } => next,
        ConnectStep::GiveUp(_) => panic!("gave up after one attempt"),
    };

    let connection = second.connected();

    assert_eq!(connection.addr, "10.0.1.1:502");
    assert!(connection.status);
    assert!(!connection.disconnected_logged);
}

#[test]
fn limits_are_the_documented_ones() {
    assert_eq!(CONNECT_TIMEOUT_MS, 1000);
    assert_eq!(RECONNECT_DELAY_MS, 500);
    assert_eq!(MAX_CONNECT_ATTEMPTS, 3);
}

#[test]
fn healthy_connection_is_kept() {
    let mut connection = connection(true);

    assert!(matches!(manager().recycle(&mut connection), Recycle::Keep));
    assert!(!connection.disconnected_logged);
}

#[test]
fn unhealthy_connection_is_discarded() {
    let mut connection = connection(false);

    assert!(matches!(
        manager().recycle(&mut connection),
        Recycle::Discard {
            log: Some("unhealthy"),
            message: "can't recycle"
        }
    ));
    assert!(connection.disconnected_logged);
}

#[test]
fn end_of_a_connection_is_logged_once() {
    let mut unhealthy = connection(false);
    manager().recycle(&mut unhealthy);
    assert_eq!(manager().detach(&mut unhealthy), None);
    assert_eq!(unhealthy.dropped(), None);

    let mut detached = connection(true);
    assert_eq!(manager().detach(&mut detached), Some("detached"));
    assert_eq!(detached.dropped(), None);

    let mut dropped = connection(true);
    assert_eq!(dropped.dropped(), Some("dropped"));
    assert_eq!(dropped.log_disconnect("again"), None);
}
