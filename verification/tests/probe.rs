use mcscan::{
    probe_with, ConnectOutcome, Description, Probe, ProbeAction, ProbeError, ProbeEvent,
    ProbeState, QueryOutcome, RawPlayers, RawStatusResponse, SampleEntry, ScanTarget,
};

fn answer() -> RawStatusResponse {
    RawStatusResponse {
        version_name: "1.20.4".to_string(),
        description: Description::Plain("hi".to_string()),
        players: RawPlayers {
            max: 8,
            sample: Some(vec![SampleEntry {
                name: "Steve".to_string(),
                id: "00000000-0000-0000-0000-00000000000a".to_string(),
            }]),
        },
    }
}

fn probe_in(state: ProbeState) -> Probe {
    Probe { address: "203.0.113.9".to_string(), state }
}

fn every_event() -> Vec<ProbeEvent> {
    vec![
        ProbeEvent::Begin,
        ProbeEvent::ConnectionOpened,
        ProbeEvent::ConnectionFailed,
        ProbeEvent::RequestSent,
        ProbeEvent::ResponseReceived(answer()),
        ProbeEvent::ExchangeFailed,
        ProbeEvent::TimedOut,
    ]
}

#[test]
fn new_probe_is_pending() {
    let probe = Probe::new("203.0.113.9".to_string());
    assert_eq!(probe.state, ProbeState::Pending);
    assert_eq!(probe.address, "203.0.113.9");
    assert!(!probe.state.ended());
}

#[test]
fn probe_runs_from_pending_to_succeeded() {
    let mut probe = Probe::new("203.0.113.9".to_string());
    assert_eq!(probe.step(ProbeEvent::Begin), Some(ProbeAction::Connect));
    assert_eq!(probe.state, ProbeState::Connecting);
    assert_eq!(probe.step(ProbeEvent::ConnectionOpened), Some(ProbeAction::SendRequest));
    assert_eq!(probe.state, ProbeState::Connected);
    assert_eq!(probe.step(ProbeEvent::RequestSent), Some(ProbeAction::AwaitResponse));
    assert_eq!(probe.state, ProbeState::Querying);
    let action = probe.step(ProbeEvent::ResponseReceived(answer()));
    assert_eq!(probe.state, ProbeState::Succeeded);
    assert!(probe.state.ended());
    match action {
        Some(ProbeAction::Finish(Ok(status))) => {
            assert_eq!(status.address, "203.0.113.9");
            assert_eq!(status.version_name, "1.20.4");
            assert_eq!(status.motd, "hi");
            assert_eq!(status.max_players, 8);
            assert_eq!(status.players.len(), 1);
            assert_eq!(status.players[0].username, "Steve");
            assert_eq!(status.players[0].id, 10);
        }
        other => panic!("no status: {:?}", other),
    }
}

#[test]
fn refused_connection_is_unreachable() {
    let mut probe = probe_in(ProbeState::Connecting);
    assert_eq!(
        probe.step(ProbeEvent::ConnectionFailed),
        Some(ProbeAction::Finish(Err(ProbeError::Unreachable)))
    );
    assert_eq!(probe.state, ProbeState::ConnectFailed);
}

#[test]
fn failed_exchange_is_a_protocol_error() {
    for state in [ProbeState::Connected, ProbeState::Querying] {
        let mut probe = probe_in(state);
        assert_eq!(
            probe.step(ProbeEvent::ExchangeFailed),
            Some(ProbeAction::Finish(Err(ProbeError::ProtocolError)))
        );
        assert_eq!(probe.state, ProbeState::ProtocolFailed);
    }
}

#[test]
fn timeout_is_unreachable_in_every_phase() {
    for state in [ProbeState::Connecting, ProbeState::Connected, ProbeState::Querying] {
        let mut probe = probe_in(state);
        assert_eq!(
            probe.step(ProbeEvent::TimedOut),
            Some(ProbeAction::Finish(Err(ProbeError::Unreachable)))
        );
        assert_eq!(probe.state, ProbeState::ConnectFailed);
        assert!(probe.state.ended());
    }
}

#[test]
fn endpoint_that_never_answers_ends_unreachable() {
    let mut probe = Probe::new("198.51.100.1".to_string());
    assert_eq!(probe.step(ProbeEvent::Begin), Some(ProbeAction::Connect));
    assert_eq!(probe.step(ProbeEvent::ConnectionOpened), Some(ProbeAction::SendRequest));
    assert_eq!(probe.step(ProbeEvent::RequestSent), Some(ProbeAction::AwaitResponse));
    assert_eq!(
        probe.step(ProbeEvent::TimedOut),
        Some(ProbeAction::Finish(Err(ProbeError::Unreachable)))
    );
}

#[test]
fn ended_probe_takes_no_event() {
    for state in [ProbeState::Succeeded, ProbeState::ProtocolFailed, ProbeState::ConnectFailed] {
        for event in every_event() {
            let mut probe = probe_in(state);
            assert_eq!(probe.step(event), None);
            assert_eq!(probe.state, state);
            assert_eq!(probe.address, "203.0.113.9");
        }
    }
}

#[test]
fn pending_probe_takes_begin_only() {
    for event in every_event() {
        let mut probe = probe_in(ProbeState::Pending);
        let action = probe.step(event.clone());
        if event == ProbeEvent::Begin {
            assert_eq!(action, Some(ProbeAction::Connect));
            assert_eq!(probe.state, ProbeState::Connecting);
        } else {
            assert_eq!(action, None);
            assert_eq!(probe.state, ProbeState::Pending);
        }
    }
}

#[test]
fn events_out_of_turn_are_refused() {
    let refused = [
        (ProbeState::Connecting, ProbeEvent::Begin),
        (ProbeState::Connecting, ProbeEvent::RequestSent),
        (ProbeState::Connecting, ProbeEvent::ResponseReceived(answer())),
        (ProbeState::Connecting, ProbeEvent::ExchangeFailed),
        (ProbeState::Connected, ProbeEvent::Begin),
        (ProbeState::Connected, ProbeEvent::ConnectionOpened),
        (ProbeState::Connected, ProbeEvent::ConnectionFailed),
        (ProbeState::Connected, ProbeEvent::ResponseReceived(answer())),
        (ProbeState::Querying, ProbeEvent::Begin),
        (ProbeState::Querying, ProbeEvent::ConnectionOpened),
        (ProbeState::Querying, ProbeEvent::ConnectionFailed),
        (ProbeState::Querying, ProbeEvent::RequestSent),
    ];
    for (state, event) in refused {
        let mut probe = probe_in(state);
        assert_eq!(probe.step(event), None);
        assert_eq!(probe.state, state);
    }
}

#[test]
fn only_the_final_states_have_ended() {
    assert!(!ProbeState::Pending.ended());
    assert!(!ProbeState::Connecting.ended());
    assert!(!ProbeState::Connected.ended());
    assert!(!ProbeState::Querying.ended());
    assert!(ProbeState::Succeeded.ended());
    assert!(ProbeState::ProtocolFailed.ended());
    assert!(ProbeState::ConnectFailed.ended());
}

#[test]
fn every_probe_ends_within_four_events() {
    let events = every_event();
    let mut runs = vec![(Probe::new("a".to_string()), 0usize)];
    let mut longest = 0;
    while let Some((probe, taken)) = runs.pop() {
        longest = longest.max(taken);
        for event in &events {
            let mut next = probe.clone();
            if next.step(event.clone()).is_some() {
                runs.push((next, taken + 1));
            }
        }
    }
    assert_eq!(longest, 4);
}

fn probed_target() -> ScanTarget {
    ScanTarget::new("203.0.113.9".to_string(), "1700000000".to_string())
}

#[test]
fn probe_with_gives_the_status_of_a_server_that_answers() {
    let result = probe_with(
        &probed_target(),
        750,
        |address: &String, timeout_ms: u64| {
            assert_eq!(address, "203.0.113.9");
            assert_eq!(timeout_ms, 750);
            ConnectOutcome::Opened(17u8)
        },
        |connection: u8, timeout_ms: u64| {
            assert_eq!(connection, 17);
            assert_eq!(timeout_ms, 750);
            QueryOutcome::Answered(answer())
        },
    );
    let status = result.unwrap();
    assert_eq!(status.address, "203.0.113.9");
    assert_eq!(status.version_name, "1.20.4");
    assert_eq!(status.motd, "hi");
    assert_eq!(status.max_players, 8);
    assert_eq!(status.players.len(), 1);
    assert_eq!(status.players[0].id, 10);
}

#[test]
fn probe_with_does_not_ask_without_a_connection() {
    for refused in [false, true] {
        let result = probe_with(
            &probed_target(),
            750,
            |_: &String, _: u64| {
                if refused {
                    ConnectOutcome::<()>::Failed
                } else {
                    ConnectOutcome::<()>::TimedOut
                }
            },
            |_: (), _: u64| panic!("asked without a connection"),
        );
        assert_eq!(result, Err(ProbeError::Unreachable));
    }
}

#[test]
fn probe_with_classifies_a_failed_exchange() {
    let result = probe_with(
        &probed_target(),
        750,
        |_: &String, _: u64| ConnectOutcome::Opened(()),
        |_: (), _: u64| QueryOutcome::Failed,
    );
    assert_eq!(result, Err(ProbeError::ProtocolError));
}

#[test]
fn probe_with_classifies_an_answer_that_never_comes() {
    let result = probe_with(
        &probed_target(),
        750,
        |_: &String, _: u64| ConnectOutcome::Opened(()),
        |_: (), _: u64| QueryOutcome::TimedOut,
    );
    assert_eq!(result, Err(ProbeError::Unreachable));
}

#[test]
fn probe_with_connects_once_and_asks_once() {
    let mut connects = 0;
    let mut queries = 0;
    let result = probe_with(
        &probed_target(),
        750,
        |_: &String, _: u64| {
            connects += 1;
            ConnectOutcome::Opened(())
        },
        |_: (), _: u64| {
            queries += 1;
            QueryOutcome::Failed
        },
    );
    assert_eq!(result, Err(ProbeError::ProtocolError));
    assert_eq!((connects, queries), (1, 1));
}
