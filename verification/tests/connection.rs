use statsd::connection::{step, ConnectionAction, ConnectionEvent, ConnectionState};

fn all_states() -> Vec<ConnectionState> {
    vec![
        ConnectionState::Open,
        ConnectionState::Reading,
        ConnectionState::Dispatching,
        ConnectionState::Writing,
        ConnectionState::Closed,
    ]
}

fn all_events() -> Vec<ConnectionEvent> {
    vec![
        ConnectionEvent::Started,
        ConnectionEvent::Line(b"stats\n".to_vec()),
        ConnectionEvent::Answer(b"END\n".to_vec()),
        ConnectionEvent::Written,
        ConnectionEvent::EndOfStream,
        ConnectionEvent::Failed,
    ]
}

#[test]
fn a_connection_starts_by_reading() {
    assert_eq!(
        step(ConnectionState::Open, ConnectionEvent::Started),
        (ConnectionState::Reading, ConnectionAction::ReadLine)
    );
}

#[test]
fn a_line_is_executed_as_it_was_read() {
    assert_eq!(
        step(ConnectionState::Reading, ConnectionEvent::Line(b"counters\r\n".to_vec())),
        (ConnectionState::Dispatching, ConnectionAction::Execute(b"counters\r\n".to_vec()))
    );
}

#[test]
fn an_answer_is_written_as_it_is() {
    assert_eq!(
        step(ConnectionState::Dispatching, ConnectionEvent::Answer(b"a = 1\nEND\n".to_vec())),
        (ConnectionState::Writing, ConnectionAction::Write(b"a = 1\nEND\n".to_vec()))
    );
}

#[test]
fn after_writing_the_next_line_is_read() {
    assert_eq!(
        step(ConnectionState::Writing, ConnectionEvent::Written),
        (ConnectionState::Reading, ConnectionAction::ReadLine)
    );
}

#[test]
fn end_of_stream_and_failure_close_from_every_state() {
    for state in all_states() {
        assert_eq!(
            step(state, ConnectionEvent::EndOfStream),
            (ConnectionState::Closed, ConnectionAction::Close)
        );
        assert_eq!(
            step(state, ConnectionEvent::Failed),
            (ConnectionState::Closed, ConnectionAction::Close)
        );
    }
}

#[test]
fn a_closed_connection_stays_closed() {
    for event in all_events() {
        assert_eq!(
            step(ConnectionState::Closed, event),
            (ConnectionState::Closed, ConnectionAction::Close)
        );
    }
}

#[test]
fn an_unexpected_event_closes_the_connection() {
    let expected = [
        (ConnectionState::Open, 0usize),
        (ConnectionState::Reading, 1),
        (ConnectionState::Dispatching, 2),
        (ConnectionState::Writing, 3),
    ];
    for (state, wanted) in expected {
        for (i, event) in all_events().into_iter().enumerate() {
            if i != wanted {
                assert_eq!(step(state, event), (ConnectionState::Closed, ConnectionAction::Close));
            }
        }
    }
}

#[test]
fn one_answer_per_command() {
    let mut state = ConnectionState::Open;
    let mut written: Vec<Vec<u8>> = Vec::new();
    let (next, action) = step(state, ConnectionEvent::Started);
    state = next;
    assert_eq!(action, ConnectionAction::ReadLine);
    for command in ["a\n", "b\n", "c\n"] {
        let (next, action) = step(state, ConnectionEvent::Line(command.as_bytes().to_vec()));
        state = next;
        let line = match action {
            ConnectionAction::Execute(line) => line,
            other => panic!("expected a command to execute, got {:?}", other),
        };
        let mut answer = b"re: ".to_vec();
        answer.extend_from_slice(&line);
        let (next, action) = step(state, ConnectionEvent::Answer(answer));
        state = next;
        match action {
            ConnectionAction::Write(bytes) => written.push(bytes),
            other => panic!("expected an answer to write, got {:?}", other),
        }
        let (next, action) = step(state, ConnectionEvent::Written);
        state = next;
        assert_eq!(action, ConnectionAction::ReadLine);
    }
    assert_eq!(written, vec![b"re: a\n".to_vec(), b"re: b\n".to_vec(), b"re: c\n".to_vec()]);
    assert_eq!(
        step(state, ConnectionEvent::EndOfStream),
        (ConnectionState::Closed, ConnectionAction::Close)
    );
}
