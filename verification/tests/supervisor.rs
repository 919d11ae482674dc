use loopback_gateway::supervisor::{
    surface, OutputSource, ProcessEvent, SidecarEvent, SpawnError, Supervisor, SupervisorState,
};

fn running() -> Supervisor {
    let mut supervisor = Supervisor::new();
    assert_eq!(supervisor.spawn(Ok(())), Ok(()));
    supervisor
}

fn stdout(line: &[u8]) -> ProcessEvent {
    ProcessEvent::Stdout { line: line.to_vec() }
}

fn line(source: OutputSource, text: &str) -> SidecarEvent {
    SidecarEvent::OutputLine { source, text: String::from(text) }
}

#[test]
fn starts_not_started() {
    let supervisor = Supervisor::new();
    assert_eq!(supervisor.state(), SupervisorState::NotStarted);
    assert!(!supervisor.is_finished());
}

#[test]
fn spawn_makes_it_running() {
    let supervisor = running();
    assert_eq!(supervisor.state(), SupervisorState::Running);
    assert!(!supervisor.is_finished());
}

#[test]
fn failed_launch_is_reported_with_its_cause() {
    let mut supervisor = Supervisor::new();
    assert_eq!(
        supervisor.spawn(Err(String::from("No such file or directory"))),
        Err(SpawnError::LaunchFailed { cause: String::from("No such file or directory") })
    );
    assert_eq!(supervisor.state(), SupervisorState::NotStarted);
}

#[test]
fn process_is_started_once() {
    let mut supervisor = running();
    assert_eq!(supervisor.spawn(Ok(())), Err(SpawnError::AlreadyStarted));
    assert_eq!(supervisor.spawn(Err(String::from("x"))), Err(SpawnError::AlreadyStarted));
    assert_eq!(supervisor.state(), SupervisorState::Running);
    supervisor.observe(&ProcessEvent::Terminated { code: Some(0) });
    assert_eq!(supervisor.spawn(Ok(())), Err(SpawnError::AlreadyStarted));
    assert_eq!(supervisor.state(), SupervisorState::NormallyTerminated);
}

#[test]
fn nothing_is_emitted_before_the_start() {
    let mut supervisor = Supervisor::new();
    assert_eq!(supervisor.observe(&stdout(b"early\n")), None);
    assert_eq!(supervisor.observe(&ProcessEvent::Terminated { code: None }), None);
    assert_eq!(supervisor.state(), SupervisorState::NotStarted);
}

#[test]
fn lines_lose_their_line_end() {
    assert_eq!(surface(&stdout(b"ready\n")), line(OutputSource::Stdout, "ready"));
    assert_eq!(surface(&stdout(b"ready\r\n")), line(OutputSource::Stdout, "ready"));
    assert_eq!(surface(&stdout(b"ready")), line(OutputSource::Stdout, "ready"));
    assert_eq!(surface(&stdout(b"ready\r")), line(OutputSource::Stdout, "ready\r"));
    assert_eq!(surface(&stdout(b"ready\n\n")), line(OutputSource::Stdout, "ready\n"));
    assert_eq!(surface(&stdout(b"\n")), line(OutputSource::Stdout, ""));
    assert_eq!(surface(&stdout(b"\r\n")), line(OutputSource::Stdout, ""));
    assert_eq!(surface(&stdout(b"")), line(OutputSource::Stdout, ""));
    assert_eq!(
        surface(&ProcessEvent::Stderr { line: b"warn: x\n".to_vec() }),
        line(OutputSource::Stderr, "warn: x")
    );
}

#[test]
fn malformed_bytes_are_repaired() {
    assert_eq!(surface(&stdout(b"a\xffb\n")), line(OutputSource::Stdout, "a\u{fffd}b"));
    assert_eq!(surface(&stdout(b"\xe2\x82")), line(OutputSource::Stdout, "\u{fffd}"));
    assert_eq!(surface(&stdout("h\u{e9}llo \u{1f600}\n".as_bytes())), line(OutputSource::Stdout, "h\u{e9}llo \u{1f600}"));
}

#[test]
fn failure_and_end_are_surfaced() {
    assert_eq!(
        surface(&ProcessEvent::Error { message: String::from("broken pipe") }),
        SidecarEvent::AbnormalExit { status: String::from("broken pipe") }
    );
    assert_eq!(
        surface(&ProcessEvent::Terminated { code: Some(3) }),
        SidecarEvent::Terminated { exit_code: Some(3) }
    );
    assert_eq!(
        surface(&ProcessEvent::Terminated { code: None }),
        SidecarEvent::Terminated { exit_code: None }
    );
}

#[test]
fn observe_steps_through_the_states() {
    let mut supervisor = running();
    assert_eq!(supervisor.observe(&stdout(b"one\n")), Some(line(OutputSource::Stdout, "one")));
    assert_eq!(supervisor.state(), SupervisorState::Running);
    assert_eq!(
        supervisor.observe(&ProcessEvent::Error { message: String::from("killed") }),
        Some(SidecarEvent::AbnormalExit { status: String::from("killed") })
    );
    assert_eq!(supervisor.state(), SupervisorState::AbnormallyTerminated);
    assert!(supervisor.is_finished());
    assert_eq!(supervisor.observe(&stdout(b"late\n")), None);
    assert_eq!(supervisor.observe(&ProcessEvent::Terminated { code: Some(1) }), None);
    assert_eq!(supervisor.state(), SupervisorState::AbnormallyTerminated);
}

#[test]
fn no_line_follows_the_end() {
    let events = vec![
        stdout(b"a\n"),
        ProcessEvent::Stderr { line: b"b\n".to_vec() },
        ProcessEvent::Terminated { code: Some(2) },
        stdout(b"c\n"),
        ProcessEvent::Error { message: String::from("late") },
        ProcessEvent::Terminated { code: Some(9) },
    ];
    let mut supervisor = running();
    let out = supervisor.drain(&events);
    assert_eq!(
        out,
        vec![
            line(OutputSource::Stdout, "a"),
            line(OutputSource::Stderr, "b"),
            SidecarEvent::Terminated { exit_code: Some(2) },
        ]
    );
    assert_eq!(supervisor.state(), SupervisorState::NormallyTerminated);
    assert_eq!(supervisor.drain(&events), vec![]);
    assert_eq!(supervisor.state(), SupervisorState::NormallyTerminated);
}

#[test]
fn draining_in_parts_gives_the_same_stream() {
    let events = vec![
        stdout(b"a\n"),
        stdout(b"b\n"),
        ProcessEvent::Error { message: String::from("x") },
        stdout(b"c\n"),
    ];
    let mut whole = running();
    let all = whole.drain(&events);
    for cut in 0..=events.len() {
        let mut parts = running();
        let mut out = parts.drain(&events[..cut]);
        out.extend(parts.drain(&events[cut..]));
        assert_eq!(out, all);
        assert_eq!(parts.state(), whole.state());
    }
}

#[test]
fn drain_without_an_end_leaves_it_running() {
    let mut supervisor = running();
    assert_eq!(supervisor.drain(&[]), vec![]);
    assert_eq!(
        supervisor.drain(&[stdout(b"a\n"), stdout(b"b\n")]),
        vec![line(OutputSource::Stdout, "a"), line(OutputSource::Stdout, "b")]
    );
    assert_eq!(supervisor.state(), SupervisorState::Running);
}

#[test]
fn ready_line_then_clean_exit() {
    let mut supervisor = running();
    let out = supervisor.drain(&[stdout(b"ready\n"), ProcessEvent::Terminated { code: Some(0) }]);
    assert_eq!(
        out,
        vec![line(OutputSource::Stdout, "ready"), SidecarEvent::Terminated { exit_code: Some(0) }]
    );
    assert!(supervisor.is_finished());
    assert_eq!(supervisor.state(), SupervisorState::NormallyTerminated);
    assert_eq!(supervisor.observe(&stdout(b"more\n")), None);
}

#[test]
fn crash_before_any_output() {
    let mut supervisor = running();
    let out = supervisor.drain(&[ProcessEvent::Error { message: String::from("crashed") }]);
    assert_eq!(out, vec![SidecarEvent::AbnormalExit { status: String::from("crashed") }]);
    assert!(supervisor.is_finished());
    assert_eq!(supervisor.state(), SupervisorState::AbnormallyTerminated);
    assert_eq!(supervisor.drain(&[stdout(b"x\n")]), vec![]);
}
