use vistream::protocol::stream::Status;
use vistream::stream::{
    on_completion, Completion, Connection, Hub, Read, Round, Step, StreamRound,
    COMPLETION_WAIT_MS, IDLE_REST_MS, STREAM_REST_MS,
};

const READS: [Read; 8] = [
    Read::Opcode(0),
    Read::Opcode(1),
    Read::Opcode(2),
    Read::Opcode(3),
    Read::Opcode(4),
    Read::Opcode(255),
    Read::Empty,
    Read::Failed,
];

fn reachable() -> Vec<Connection> {
    let mut found = vec![Connection::new()];
    let mut i = 0;
    while i < found.len() {
        for read in READS {
            let mut next = found[i];
            next.on_read(read);
            if !found.contains(&next) {
                found.push(next);
            }
        }
        i += 1;
    }
    found
}

#[test]
fn a_fresh_connection_is_healthy_and_inactive() {
    let c = Connection::new();
    assert!(c.is_healthy());
    assert!(!c.is_active());
}

#[test]
fn every_state_that_is_active_is_healthy() {
    let states = reachable();
    assert_eq!(states.len(), 3);
    for c in states {
        assert!(!c.is_active() || c.is_healthy());
    }
}

#[test]
fn commands_change_the_state() {
    let mut c = Connection::new();
    assert_eq!(c.on_read(Read::Opcode(0)), None);
    assert!(c.is_active() && c.is_healthy());
    assert_eq!(c.on_read(Read::Opcode(1)), None);
    assert!(!c.is_active() && c.is_healthy());
    assert_eq!(c.on_read(Read::Opcode(1)), None);
    assert!(!c.is_active() && c.is_healthy());
    assert_eq!(c.on_read(Read::Opcode(0)), None);
    assert!(c.is_active());
    assert_eq!(c.on_read(Read::Opcode(0)), None);
    assert!(c.is_active());
    assert_eq!(c.on_read(Read::Opcode(2)), None);
    assert!(!c.is_active() && !c.is_healthy());
}

#[test]
fn a_status_request_is_answered_and_changes_nothing() {
    let mut c = Connection::new();
    assert_eq!(c.on_read(Read::Opcode(3)), Some(Status { enabled: false, healthy: true }));
    assert_eq!(c, Connection::new());
    c.activate();
    assert_eq!(c.on_read(Read::Opcode(3)), Some(Status { enabled: true, healthy: true }));
    assert!(c.is_active());
    c.poison();
    assert_eq!(c.on_read(Read::Opcode(3)), Some(Status { enabled: false, healthy: false }));
}

#[test]
fn bytes_that_are_no_command_and_empty_reads_change_nothing() {
    for start in reachable() {
        for read in [Read::Opcode(4), Read::Opcode(77), Read::Opcode(255), Read::Empty] {
            let mut c = start;
            assert_eq!(c.on_read(read), None);
            assert_eq!(c, start);
        }
    }
}

#[test]
fn an_error_poisons() {
    let mut c = Connection::new();
    c.activate();
    assert_eq!(c.on_read(Read::Failed), None);
    assert!(!c.is_healthy());
    assert!(!c.is_active());
}

#[test]
fn poisoning_is_final() {
    let mut c = Connection::new();
    c.poison();
    for read in READS {
        c.on_read(read);
        assert!(!c.is_healthy());
        assert!(!c.is_active());
    }
    c.activate();
    assert!(!c.is_active());
    c.deactivate();
    assert!(!c.is_healthy());
}

#[test]
fn after_stop_nothing_is_delivered_until_start() {
    for start in reachable() {
        let mut c = start;
        c.on_read(Read::Opcode(1));
        for read in [Read::Opcode(3), Read::Empty, Read::Opcode(9), Read::Opcode(1), Read::Opcode(3)] {
            c.on_read(read);
            assert!(!c.is_active());
        }
        c.on_read(Read::Opcode(0));
        assert_eq!(c.is_active(), start.is_healthy());
    }
}

#[test]
fn after_start_frames_are_delivered_until_stop() {
    let mut c = Connection::new();
    c.on_read(Read::Opcode(0));
    for read in [Read::Opcode(3), Read::Empty, Read::Opcode(9), Read::Opcode(0)] {
        c.on_read(read);
        assert!(c.is_active());
    }
    c.on_read(Read::Opcode(1));
    assert!(!c.is_active());
}

#[test]
fn rests_and_waits() {
    assert_eq!(IDLE_REST_MS, 20);
    assert_eq!(COMPLETION_WAIT_MS, 10);
    assert_eq!(STREAM_REST_MS, 16);
}

#[test]
fn a_status_request_on_a_fresh_connection() {
    let mut hub = Hub::new();
    let client = hub.accept();
    let reply = hub.on_read(client, Read::Opcode(3));
    assert_eq!(reply, Some(Status { enabled: false, healthy: true }));
    assert_eq!(hub.round(), Round::Idle);
}

#[test]
fn a_started_client_is_owed_frames() {
    let mut hub = Hub::new();
    let client = hub.accept();
    assert!(!hub.wants_frame(client));
    assert_eq!(hub.on_read(client, Read::Opcode(0)), None);
    assert!(hub.wants_frame(client));
    assert_eq!(hub.round(), Round::Serve);
    assert_eq!(on_completion(hub.round(), Completion::Ready), Step::Deliver);
}

#[test]
fn a_paused_client_gets_status_replies_only() {
    let mut hub = Hub::new();
    let a = hub.accept();
    let b = hub.accept();
    assert_eq!((a, b), (0, 1));
    hub.on_read(a, Read::Opcode(0));
    hub.on_read(b, Read::Opcode(0));
    hub.on_read(b, Read::Opcode(1));
    for _ in 0..5 {
        assert_eq!(hub.round(), Round::Serve);
        assert_eq!(on_completion(hub.round(), Completion::Ready), Step::Deliver);
        assert!(hub.wants_frame(a));
        assert!(!hub.wants_frame(b));
        let reply = hub.on_read(b, Read::Opcode(3));
        assert_eq!(reply, Some(Status { enabled: false, healthy: true }));
        assert_eq!(hub.on_read(a, Read::Empty), None);
    }
    hub.on_read(b, Read::Opcode(0));
    assert!(hub.wants_frame(b));
    assert!(hub.wants_frame(a));
}

#[test]
fn without_active_clients_one_request_at_a_time_goes_back_unused() {
    let mut hub = Hub::new();
    assert_eq!(hub.round(), Round::Idle);
    let a = hub.accept();
    hub.on_read(a, Read::Opcode(3));
    for _ in 0..10 {
        assert_eq!(hub.round(), Round::Idle);
        assert_eq!(on_completion(hub.round(), Completion::Ready), Step::ReturnUnused);
    }
    assert_eq!(on_completion(Round::Idle, Completion::Pending), Step::Continue);
    assert_eq!(on_completion(Round::Idle, Completion::Closed), Step::Disconnected);
    assert_eq!(on_completion(Round::Serve, Completion::Pending), Step::Continue);
    assert_eq!(on_completion(Round::Serve, Completion::Closed), Step::Disconnected);
}

#[test]
fn a_failed_write_poisons_one_connection() {
    let mut hub = Hub::new();
    let a = hub.accept();
    let b = hub.accept();
    hub.on_read(a, Read::Opcode(0));
    hub.on_read(b, Read::Opcode(0));
    hub.write_failed(a);
    assert!(!hub.wants_frame(a));
    assert!(!hub.connection(a).is_healthy());
    assert!(hub.wants_frame(b));
    assert!(hub.any_active());
}

#[test]
fn pruning_drops_what_is_not_healthy_and_keeps_the_order() {
    let mut hub = Hub::new();
    for _ in 0..5 {
        hub.accept();
    }
    hub.on_read(1, Read::Opcode(0));
    hub.on_read(0, Read::Opcode(2));
    hub.on_read(3, Read::Failed);
    hub.on_read(4, Read::Opcode(1));
    let kept = hub.prune();
    assert_eq!(kept, vec![false, true, true, false, true]);
    assert_eq!(hub.len(), 3);
    assert!(hub.connection(0).is_active());
    assert!(!hub.connection(1).is_active() && hub.connection(1).is_healthy());
    assert!(hub.connection(2).is_healthy());
    let again = hub.prune();
    assert_eq!(again, vec![true, true, true]);
    assert_eq!(hub.len(), 3);
    let mut empty = Hub::new();
    assert_eq!(empty.prune(), Vec::<bool>::new());
}

#[test]
fn rounds_of_a_network_stream() {
    let mut hub = Hub::new();
    assert_eq!(hub.stream_round(), StreamRound::Rest);
    let a = hub.accept();
    assert_eq!(hub.stream_round(), StreamRound::Listen);
    hub.on_read(a, Read::Opcode(0));
    assert_eq!(hub.stream_round(), StreamRound::Serve);
    hub.on_read(a, Read::Opcode(1));
    assert_eq!(hub.stream_round(), StreamRound::Listen);
    hub.on_read(a, Read::Opcode(2));
    assert_eq!(hub.stream_round(), StreamRound::Listen);
    hub.prune();
    assert_eq!(hub.stream_round(), StreamRound::Rest);
    assert!(!hub.any_active());
}
