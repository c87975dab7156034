use led_oxide::transport::{
    interpret_reply, probe_accepts, Discovery, DiscoveryAction, ReadAction, ReadEvent, ReadState, TransportError,
    POLL_INTERVAL_MS, READ_CHUNK_LEN, RECEIVE_TIMEOUT_MS,
};

/// Drives an accumulation against a simulated port on which `chunks` arrive one
/// after another, each at every third poll; returns the outcome and the sleeps taken.
fn drive(timeout_ms: u64, chunks: &[&[u8]]) -> (Result<String, TransportError>, usize) {
    let mut state = ReadState::start(timeout_ms);
    let mut arriving: Vec<Vec<u8>> = chunks.iter().map(|c| c.to_vec()).collect();
    let mut port: Vec<u8> = Vec::new();
    let mut sleeps = 0usize;
    let mut polls = 0usize;
    loop {
        match state.action() {
            ReadAction::Poll => {
                polls += 1;
                if polls % 3 == 0 && !arriving.is_empty() {
                    port.extend(arriving.remove(0));
                }
                state.step(ReadEvent::Available { count: port.len() as u32, elapsed_ms: 0 });
            }
            ReadAction::Sleep => {
                sleeps += 1;
                state.step(ReadEvent::Slept { elapsed_ms: POLL_INTERVAL_MS });
            }
            ReadAction::Read => {
                let n = port.len().min(READ_CHUNK_LEN);
                let chunk: Vec<u8> = port.drain(..n).collect();
                state.step(ReadEvent::Received { bytes: chunk, elapsed_ms: 0 });
            }
            ReadAction::Finish => return (state.outcome(), sleeps),
        }
    }
}

#[test]
fn quiet_port_times_out_after_the_whole_budget() {
    let (outcome, sleeps) = drive(RECEIVE_TIMEOUT_MS, &[]);
    assert_eq!(outcome, Err(TransportError::TimedOut));
    assert_eq!(sleeps, 50);
}

#[test]
fn budget_is_rounded_up_to_whole_intervals() {
    let (outcome, sleeps) = drive(0, &[]);
    assert_eq!(outcome, Err(TransportError::TimedOut));
    assert_eq!(sleeps, 0);
    let (outcome, sleeps) = drive(9, &[]);
    assert_eq!(outcome, Err(TransportError::TimedOut));
    assert_eq!(sleeps, 1);
    let (outcome, sleeps) = drive(15, &[]);
    assert_eq!(outcome, Err(TransportError::TimedOut));
    assert_eq!(sleeps, 2);
    let (outcome, sleeps) = drive(25, &[]);
    assert_eq!(outcome, Err(TransportError::TimedOut));
    assert_eq!(sleeps, 3);
    let (outcome, sleeps) = drive(30, &[]);
    assert_eq!(outcome, Err(TransportError::TimedOut));
    assert_eq!(sleeps, 3);
}

#[test]
fn bytes_are_accumulated_over_the_whole_budget() {
    let (outcome, sleeps) = drive(RECEIVE_TIMEOUT_MS, &[b"[CSE:0]", b"A0D8\r\n", b"[CSB:0]F1F5\r\n"]);
    assert_eq!(outcome, Ok(String::from("[CSE:0]A0D8\r\n[CSB:0]F1F5\r\n")));
    assert_eq!(sleeps, 50);
}

#[test]
fn port_failure_is_a_serial_link_error() {
    let mut state = ReadState::start(100);
    assert_eq!(state.action(), ReadAction::Poll);
    state.step(ReadEvent::PortFailed);
    assert_eq!(state.action(), ReadAction::Finish);
    assert_eq!(state.outcome(), Err(TransportError::SerialLinkError));

    let mut state = ReadState::start(100);
    state.step(ReadEvent::Available { count: 4, elapsed_ms: 0 });
    state.step(ReadEvent::Available { count: 4, elapsed_ms: 0 });
    assert_eq!(state.action(), ReadAction::Read);
    state.step(ReadEvent::PortFailed);
    assert_eq!(state.outcome(), Err(TransportError::SerialLinkError));
}

#[test]
fn bytes_that_are_not_utf8_are_a_serial_link_error() {
    let (outcome, _) = drive(100, &[&[0xff, 0xfe]]);
    assert_eq!(outcome, Err(TransportError::SerialLinkError));
}

#[test]
fn an_event_the_phase_does_not_await_changes_nothing() {
    let mut state = ReadState::start(100);
    state.step(ReadEvent::Slept { elapsed_ms: 50 });
    assert_eq!(state.action(), ReadAction::Poll);
    state.step(ReadEvent::Received { bytes: vec![1, 2], elapsed_ms: 50 });
    assert_eq!(state.action(), ReadAction::Poll);
    state.step(ReadEvent::Available { count: 0, elapsed_ms: 0 });
    assert_eq!(state.action(), ReadAction::Sleep);
    state.step(ReadEvent::Available { count: 3, elapsed_ms: 0 });
    assert_eq!(state.action(), ReadAction::Sleep);
    // None of the ignored events was charged: the full budget still remains.
    for _ in 0..9 {
        state.step(ReadEvent::Slept { elapsed_ms: 10 });
        assert_eq!(state.action(), ReadAction::Poll);
        state.step(ReadEvent::Available { count: 0, elapsed_ms: 0 });
        assert_eq!(state.action(), ReadAction::Sleep);
    }
    state.step(ReadEvent::Slept { elapsed_ms: 10 });
    assert_eq!(state.action(), ReadAction::Finish);
}

#[test]
fn a_port_that_never_falls_quiet_still_finishes() {
    let mut state = ReadState::start(RECEIVE_TIMEOUT_MS);
    let mut steps = 0u64;
    let mut received = 0usize;
    while state.action() != ReadAction::Finish {
        steps += 1;
        match state.action() {
            ReadAction::Poll => state.step(ReadEvent::Available { count: 10, elapsed_ms: 0 }),
            ReadAction::Read => {
                received += 10;
                state.step(ReadEvent::Received { bytes: b"0123456789".to_vec(), elapsed_ms: 0 })
            }
            other => panic!("unexpected {:?}", other),
        }
    }
    assert!(steps <= 4 * RECEIVE_TIMEOUT_MS + 4);
    // Each read is charged at least a millisecond.
    assert_eq!(received, RECEIVE_TIMEOUT_MS as usize * 10);
    assert_eq!(state.outcome().map(|s| s.len()), Ok(received));
}

#[test]
fn reported_time_is_charged_in_every_phase() {
    let mut state = ReadState::start(100);
    state.step(ReadEvent::Available { count: 5, elapsed_ms: 40 });
    assert_eq!(state.action(), ReadAction::Poll);
    state.step(ReadEvent::Available { count: 5, elapsed_ms: 30 });
    assert_eq!(state.action(), ReadAction::Read);
    state.step(ReadEvent::Received { bytes: b"[CSE:".to_vec(), elapsed_ms: 29 });
    assert_eq!(state.action(), ReadAction::Poll);
    state.step(ReadEvent::Available { count: 0, elapsed_ms: 0 });
    assert_eq!(state.action(), ReadAction::Sleep);
    // One millisecond is left; a sleep reported as shorter than an interval
    // is charged a whole one.
    state.step(ReadEvent::Slept { elapsed_ms: 0 });
    assert_eq!(state.action(), ReadAction::Finish);
    assert_eq!(state.outcome(), Ok(String::from("[CSE:")));
}

#[test]
fn probe_accepts_any_decodable_reply() {
    assert!(probe_accepts(&Ok(String::from("[CPV:0:LEDSC_TEENSY_001]0000\r\n"))));
    assert!(probe_accepts(&Ok(String::from("[CS:-104]599D"))));
    assert!(!probe_accepts(&Ok(String::from("garbage"))));
    assert!(!probe_accepts(&Ok(String::from("[CPV]7D02"))));
    assert!(!probe_accepts(&Err(TransportError::TimedOut)));
}

#[test]
fn interpret_reply_maps_each_outcome() {
    match interpret_reply(Ok(String::from("[CSE:0]A0D8"))) {
        Ok(pkt) => {
            assert_eq!(pkt.command, "CSE");
            assert_eq!(pkt.crc16_calc, 0xA0D8);
        }
        Err(e) => panic!("unexpected {:?}", e),
    }
    assert_eq!(
        interpret_reply(Ok(String::from("[CS:-104]599D"))).map(|p| p.command),
        Err(TransportError::RemoteReportedFailure)
    );
    assert_eq!(
        interpret_reply(Ok(String::from("CSE:0]"))).map(|p| p.command),
        Err(TransportError::LocalParseFailure)
    );
    assert_eq!(
        interpret_reply(Err(TransportError::FailedToWrite)).map(|p| p.command),
        Err(TransportError::FailedToWrite)
    );
}

#[test]
fn discovery_stops_at_the_first_accepting_port() {
    let mut d = Discovery::start(Some(4));
    assert_eq!(d.action(), DiscoveryAction::Probe(0));
    d.report(false);
    assert_eq!(d.action(), DiscoveryAction::Probe(1));
    d.report(false);
    assert_eq!(d.action(), DiscoveryAction::Probe(2));
    d.report(true);
    assert_eq!(d.action(), DiscoveryAction::Found(2));
    d.report(false);
    assert_eq!(d.action(), DiscoveryAction::Found(2));
}

#[test]
fn discovery_failures() {
    let d = Discovery::start(None);
    assert_eq!(d.action(), DiscoveryAction::Fail(TransportError::NoPortsAvailable));
    let d = Discovery::start(Some(0));
    assert_eq!(d.action(), DiscoveryAction::Fail(TransportError::NoDeviceFound));
    let mut d = Discovery::start(Some(2));
    d.report(false);
    d.report(false);
    assert_eq!(d.action(), DiscoveryAction::Fail(TransportError::NoDeviceFound));
    d.report(true);
    assert_eq!(d.action(), DiscoveryAction::Fail(TransportError::NoDeviceFound));
}
