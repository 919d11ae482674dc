//! The supervisor of the companion process: what it reports of the
//! process's output and end, and the state it is in.

use crate::text::{decode_lossy, lossy_text};
use vstd::utf8::{decode_utf8, valid_utf8};
use vstd::prelude::*;
use vstd::slice::slice_subrange;

verus! {

/// The stream that a line of output came from.
#[derive(Debug, Clone, Copy, PartialEq, Eq, Structural)]
pub enum OutputSource {
    Stdout,
    Stderr,
}

/// What the process layer reports of the running process.
#[derive(Debug, PartialEq, Eq)]
pub enum ProcessEvent {
    /// One line on standard output, as bytes, with or without its line end.
    Stdout { line: Vec<u8> },
    /// One line on standard error, likewise.
    Stderr { line: Vec<u8> },
    /// The process failed; `message` says how.
    Error { message: String },
    /// The process ended, with this exit code if one is known.
    Terminated { code: Option<i32> },
}

/// A `ProcessEvent` as a mathematical value.
pub enum ProcessEventView {
    Stdout { line: Seq<u8> },
    Stderr { line: Seq<u8> },
    Error { message: Seq<char> },
    Terminated { code: Option<i32> },
}

impl View for ProcessEvent {
    type V = ProcessEventView;

    open spec fn view(&self) -> ProcessEventView {
        match self {
            ProcessEvent::Stdout { line } => ProcessEventView::Stdout { line: line@ },
            ProcessEvent::Stderr { line } => ProcessEventView::Stderr { line: line@ },
            ProcessEvent::Error { message } => ProcessEventView::Error { message: message@ },
            ProcessEvent::Terminated { code } => ProcessEventView::Terminated { code: *code },
        }
    }
}

/// What the supervisor tells its consumer.
#[derive(Debug, PartialEq, Eq)]
pub enum SidecarEvent {
    /// A line of output, decoded, without its line end.
    OutputLine { source: OutputSource, text: String },
    /// The process failed.
    AbnormalExit { status: String },
    /// The process ended.
    Terminated { exit_code: Option<i32> },
}

/// A `SidecarEvent` as a mathematical value.
pub enum SidecarEventView {
    OutputLine { source: OutputSource, text: Seq<char> },
    AbnormalExit { status: Seq<char> },
    Terminated { exit_code: Option<i32> },
}

impl View for SidecarEvent {
    type V = SidecarEventView;

    open spec fn view(&self) -> SidecarEventView {
        match self {
            SidecarEvent::OutputLine { source, text } => SidecarEventView::OutputLine {
                source: *source,
                text: text@,
            },
            SidecarEvent::AbnormalExit { status } => SidecarEventView::AbnormalExit {
                status: status@,
            },
            SidecarEvent::Terminated { exit_code } => SidecarEventView::Terminated {
                exit_code: *exit_code,
            },
        }
    }
}

/// The states of the supervised process.
#[derive(Debug, Clone, Copy, PartialEq, Eq, Structural)]
pub enum SupervisorState {
    NotStarted,
    Running,
    AbnormallyTerminated,
    NormallyTerminated,
}

/// A line without its line end: a final line feed is dropped, and with it
/// the carriage return before it, if there is one.
pub open spec fn without_line_end(line: Seq<u8>) -> Seq<u8> {
    if line.len() >= 2 && line[line.len() - 2] == 13 && line[line.len() - 1] == 10 {
        line.take(line.len() - 2)
    } else if line.len() >= 1 && line[line.len() - 1] == 10 {
        line.take(line.len() - 1)
    } else {
        line
    }
}

/// The text of a line of output: its bytes without the line end, decoded
/// with every malformed part replaced.
pub open spec fn line_text(line: Seq<u8>) -> Seq<char> {
    lossy_text(without_line_end(line))
}

/// A line that is well-formed UTF-8 before its line end is surfaced as the
/// text it encodes: with a carriage return and a line feed after it, with a
/// line feed alone unless the carriage return is its own last byte, and
/// with no line end unless the line feed is.
pub proof fn lemma_line_text_of_text(content: Seq<u8>)
    requires
        valid_utf8(content),
    ensures
        line_text(content + seq![13u8, 10u8]) == decode_utf8(content),
        content.len() == 0 || content.last() != 13 ==> line_text(content + seq![10u8])
            == decode_utf8(content),
        content.len() == 0 || content.last() != 10 ==> line_text(content) == decode_utf8(content),
{
    let crlf = content + seq![13u8, 10u8];
    assert(crlf.take(crlf.len() - 2) =~= content);
    let lf = content + seq![10u8];
    assert(lf.take(lf.len() - 1) =~= content);
}

/// What a running process's report is surfaced as.
pub open spec fn surfaced(event: ProcessEventView) -> SidecarEventView {
    match event {
        ProcessEventView::Stdout { line } => SidecarEventView::OutputLine {
            source: OutputSource::Stdout,
            text: line_text(line),
        },
        ProcessEventView::Stderr { line } => SidecarEventView::OutputLine {
            source: OutputSource::Stderr,
            text: line_text(line),
        },
        ProcessEventView::Error { message } => SidecarEventView::AbnormalExit { status: message },
        ProcessEventView::Terminated { code } => SidecarEventView::Terminated { exit_code: code },
    }
}

/// Whether an event ends the stream.
pub open spec fn is_terminal(event: SidecarEventView) -> bool {
    !(event is OutputLine)
}

/// Whether a state is one of the two final states.
pub open spec fn is_final(state: SupervisorState) -> bool {
    state == SupervisorState::AbnormallyTerminated || state == SupervisorState::NormallyTerminated
}

/// What the supervisor emits for a report that reaches it in `state`: the
/// surfaced event while the process runs, nothing before it has started and
/// nothing after it has ended.
pub open spec fn emitted(state: SupervisorState, event: ProcessEventView) -> Option<
    SidecarEventView,
> {
    if state == SupervisorState::Running {
        Some(surfaced(event))
    } else {
        None
    }
}

/// The state that follows `state` when a report reaches the supervisor.
pub open spec fn next_state(state: SupervisorState, event: ProcessEventView) -> SupervisorState {
    if state == SupervisorState::Running {
        match event {
            ProcessEventView::Error { .. } => SupervisorState::AbnormallyTerminated,
            ProcessEventView::Terminated { .. } => SupervisorState::NormallyTerminated,
            _ => SupervisorState::Running,
        }
    } else {
        state
    }
}

/// Everything that the supervisor emits for a run of reports, in order.
pub open spec fn stream(state: SupervisorState, events: Seq<ProcessEventView>) -> Seq<
    SidecarEventView,
>
    decreases events.len(),
{
    if events.len() == 0 {
        Seq::empty()
    } else {
        let rest = stream(next_state(state, events[0]), events.drop_first());
        match emitted(state, events[0]) {
            Some(event) => seq![event] + rest,
            None => rest,
        }
    }
}

/// The state that the supervisor is in after a run of reports.
pub open spec fn state_after(state: SupervisorState, events: Seq<ProcessEventView>) -> SupervisorState
    decreases events.len(),
{
    if events.len() == 0 {
        state
    } else {
        state_after(next_state(state, events[0]), events.drop_first())
    }
}

/// The reports of a list, each as a mathematical value.
pub open spec fn reports(events: Seq<ProcessEvent>) -> Seq<ProcessEventView> {
    events.map_values(|e: ProcessEvent| e@)
}

/// The events of a list, each as a mathematical value.
pub open spec fn event_views(events: Seq<SidecarEvent>) -> Seq<SidecarEventView> {
    events.map_values(|e: SidecarEvent| e@)
}

/// Outside the running state nothing is emitted and the state stays: no
/// report counts before the start, and the two final states are absorbing.
pub proof fn lemma_only_running_emits(state: SupervisorState, events: Seq<ProcessEventView>)
    requires
        state != SupervisorState::Running,
    ensures
        stream(state, events) == Seq::<SidecarEventView>::empty(),
        state_after(state, events) == state,
    decreases events.len(),
{
    if events.len() > 0 {
        lemma_only_running_emits(state, events.drop_first());
    }
}

/// One report gives what `emitted` and `next_state` say of it.
pub proof fn lemma_stream_of_one(state: SupervisorState, event: ProcessEventView)
    ensures
        stream(state, seq![event]) == match emitted(state, event) {
            Some(e) => seq![e],
            None => Seq::empty(),
        },
        state_after(state, seq![event]) == next_state(state, event),
{
    let one = seq![event];
    let next = next_state(state, event);
    assert(one.drop_first() =~= Seq::<ProcessEventView>::empty());
    assert(stream(next, one.drop_first()) =~= Seq::<SidecarEventView>::empty());
    assert(state_after(next, one.drop_first()) == next);
    match emitted(state, event) {
        Some(e) => {
            assert(seq![e] + Seq::<SidecarEventView>::empty() =~= seq![e]);
        },
        None => {},
    }
}

/// A run of reports taken in two parts gives the same stream and the same
/// state as the run taken at once.
pub proof fn lemma_stream_concat(
    state: SupervisorState,
    first: Seq<ProcessEventView>,
    second: Seq<ProcessEventView>,
)
    ensures
        stream(state, first + second) == stream(state, first) + stream(
            state_after(state, first),
            second,
        ),
        state_after(state, first + second) == state_after(state_after(state, first), second),
    decreases first.len(),
{
    if first.len() == 0 {
        assert(first + second =~= second);
        assert(stream(state, first) + stream(state, second) =~= stream(state, second));
    } else {
        let next = next_state(state, first[0]);
        assert((first + second).drop_first() =~= first.drop_first() + second);
        lemma_stream_concat(next, first.drop_first(), second);
        let tail = stream(next, first.drop_first());
        let rest = stream(state_after(state, first), second);
        match emitted(state, first[0]) {
            Some(event) => {
                assert(seq![event] + (tail + rest) =~= (seq![event] + tail) + rest);
            },
            None => {},
        }
    }
}

/// How far a state is along the life of the process.
pub open spec fn progress(state: SupervisorState) -> nat {
    match state {
        SupervisorState::NotStarted => 0,
        SupervisorState::Running => 1,
        SupervisorState::AbnormallyTerminated => 2,
        SupervisorState::NormallyTerminated => 2,
    }
}

/// The process only moves on: no run of reports takes the supervisor back
/// to an earlier state, nor from one final state to the other, and only a
/// running process ends.
pub proof fn lemma_states_only_advance(state: SupervisorState, events: Seq<ProcessEventView>)
    ensures
        progress(state_after(state, events)) >= progress(state),
        is_final(state) ==> state_after(state, events) == state,
        state_after(state, events) != state ==> state == SupervisorState::Running && is_final(
            state_after(state, events),
        ),
    decreases events.len(),
{
    if events.len() > 0 {
        lemma_states_only_advance(next_state(state, events[0]), events.drop_first());
    }
}

/// The end of the process ends the stream: an event that another event
/// follows is a line of output, never an abnormal exit or a termination.
pub proof fn lemma_nothing_follows_the_end(
    state: SupervisorState,
    events: Seq<ProcessEventView>,
    i: int,
)
    requires
        0 <= i,
        i + 1 < stream(state, events).len(),
    ensures
        !is_terminal(stream(state, events)[i]),
    decreases events.len(),
{
    if events.len() > 0 {
        let next = next_state(state, events[0]);
        let rest = stream(next, events.drop_first());
        match emitted(state, events[0]) {
            Some(event) => {
                if is_terminal(event) {
                    lemma_only_running_emits(next, events.drop_first());
                } else if i > 0 {
                    lemma_nothing_follows_the_end(next, events.drop_first(), i - 1);
                }
            },
            None => {
                lemma_nothing_follows_the_end(next, events.drop_first(), i);
            },
        }
    }
}

/// The state is final exactly when the stream of a process that was running
/// has ended with an abnormal exit or a termination.
pub proof fn lemma_final_state_has_terminal_event(events: Seq<ProcessEventView>)
    ensures
        is_final(state_after(SupervisorState::Running, events)) <==> stream(
            SupervisorState::Running,
            events,
        ).len() > 0 && is_terminal(stream(SupervisorState::Running, events).last()),
        !is_final(state_after(SupervisorState::Running, events)) ==> state_after(
            SupervisorState::Running,
            events,
        ) == SupervisorState::Running,
    decreases events.len(),
{
    if events.len() > 0 {
        let state = SupervisorState::Running;
        let next = next_state(state, events[0]);
        let rest = stream(next, events.drop_first());
        if next == SupervisorState::Running {
            lemma_final_state_has_terminal_event(events.drop_first());
            let all = seq![surfaced(events[0])] + rest;
            if rest.len() > 0 {
                assert(all.last() == rest.last());
            }
        } else {
            lemma_only_running_emits(next, events.drop_first());
            assert(stream(state, events) =~= seq![surfaced(events[0])]);
        }
    }
}

/// Why the supervisor did not start the process.
#[derive(Debug, PartialEq, Eq)]
pub enum SpawnError {
    /// The process was started before; it is started once.
    AlreadyStarted,
    /// The launch failed; `cause` says why.
    LaunchFailed { cause: String },
}

/// A `SpawnError` as a mathematical value.
pub enum SpawnErrorView {
    AlreadyStarted,
    LaunchFailed { cause: Seq<char> },
}

impl View for SpawnError {
    type V = SpawnErrorView;

    open spec fn view(&self) -> SpawnErrorView {
        match self {
            SpawnError::AlreadyStarted => SpawnErrorView::AlreadyStarted,
            SpawnError::LaunchFailed { cause } => SpawnErrorView::LaunchFailed { cause: cause@ },
        }
    }
}

/// The outcome of a launch, as a mathematical value: nothing where it
/// succeeded, the cause where it failed.
pub open spec fn launch_failure(launch: Result<(), String>) -> Option<Seq<char>> {
    match launch {
        Ok(_) => None,
        Err(cause) => Some(cause@),
    }
}

/// What `spawn` answers in `state` to a launch that failed with
/// `failure`, or succeeded.
pub open spec fn spawn_result(state: SupervisorState, failure: Option<Seq<char>>) -> Result<
    (),
    SpawnErrorView,
> {
    if state != SupervisorState::NotStarted {
        Err(SpawnErrorView::AlreadyStarted)
    } else {
        match failure {
            Some(cause) => Err(SpawnErrorView::LaunchFailed { cause }),
            None => Ok(()),
        }
    }
}

/// What `spawn` answered, as a mathematical value.
pub open spec fn started_view(started: Result<(), SpawnError>) -> Result<(), SpawnErrorView> {
    match started {
        Ok(_) => Ok(()),
        Err(e) => Err(e@),
    }
}

/// The text of one line of output.
fn decode_line(line: &[u8]) -> (text: String)
    ensures
        text@ == line_text(line@),
{
    let n: usize = line.len();
    let end: usize = if n >= 2 && line[n - 2] == 13 && line[n - 1] == 10 {
        n - 2
    } else if n >= 1 && line[n - 1] == 10 {
        n - 1
    } else {
        n
    };
    assert(line@.subrange(0, end as int) =~= without_line_end(line@));
    decode_lossy(slice_subrange(line, 0, end))
}

/// The event that a running process's report is surfaced as.
pub fn surface(event: &ProcessEvent) -> (out: SidecarEvent)
    ensures
        out@ == surfaced(event@),
{
    match event {
        ProcessEvent::Stdout { line } => SidecarEvent::OutputLine {
            source: OutputSource::Stdout,
            text: decode_line(line.as_slice()),
        },
        ProcessEvent::Stderr { line } => SidecarEvent::OutputLine {
            source: OutputSource::Stderr,
            text: decode_line(line.as_slice()),
        },
        ProcessEvent::Error { message } => SidecarEvent::AbnormalExit { status: message.clone() },
        ProcessEvent::Terminated { code } => SidecarEvent::Terminated { exit_code: *code },
    }
}

/// The supervisor of one companion process.
#[derive(Debug)]
pub struct Supervisor {
    state: SupervisorState,
}

impl View for Supervisor {
    type V = SupervisorState;

    closed spec fn view(&self) -> SupervisorState {
        self.state
    }
}

impl Supervisor {
    /// A supervisor whose process has not been started.
    pub fn new() -> (supervisor: Self)
        ensures
            supervisor@ == SupervisorState::NotStarted,
    {
        Supervisor { state: SupervisorState::NotStarted }
    }

    /// The state of the process.
    pub fn state(&self) -> (state: SupervisorState)
        ensures
            state == self@,
    {
        self.state
    }

    /// Whether the process has ended, so that no event will follow.
    pub fn is_finished(&self) -> (finished: bool)
        ensures
            finished == is_final(self@),
    {
        match self.state {
            SupervisorState::AbnormallyTerminated => true,
            SupervisorState::NormallyTerminated => true,
            _ => false,
        }
    }

    /// Records the launch of the process. The process is launched once: a
    /// second launch is refused, whatever its outcome. A launch that failed
    /// is reported with its cause and leaves the process not started; one
    /// that succeeded makes it running.
    pub fn spawn(&mut self, launch: Result<(), String>) -> (started: Result<(), SpawnError>)
        ensures
            started_view(started) == spawn_result(old(self)@, launch_failure(launch)),
            final(self)@ == if started is Ok {
                SupervisorState::Running
            } else {
                old(self)@
            },
    {
        match self.state {
            SupervisorState::NotStarted => match launch {
                Ok(_) => {
                    self.state = SupervisorState::Running;
                    Ok(())
                },
                Err(cause) => Err(SpawnError::LaunchFailed { cause }),
            },
            _ => Err(SpawnError::AlreadyStarted),
        }
    }

    /// Takes one report from the process layer: the event to hand to the
    /// consumer, if there is one, and the step to the next state.
    pub fn observe(&mut self, event: &ProcessEvent) -> (out: Option<SidecarEvent>)
        ensures
            match out {
                Some(e) => emitted(old(self)@, event@) == Some(e@),
                None => emitted(old(self)@, event@) is None,
            },
            final(self)@ == next_state(old(self)@, event@),
    {
        match self.state {
            SupervisorState::Running => {
                let out = surface(event);
                match event {
                    ProcessEvent::Error { .. } => {
                        self.state = SupervisorState::AbnormallyTerminated;
                    },
                    ProcessEvent::Terminated { .. } => {
                        self.state = SupervisorState::NormallyTerminated;
                    },
                    _ => {},
                }
                Some(out)
            },
            _ => None,
        }
    }

    /// Takes a run of reports in the order in which they came, and stops at
    /// the first that ends the process: what is handed back is the stream
    /// for the whole run.
    pub fn drain(&mut self, events: &[ProcessEvent]) -> (out: Vec<SidecarEvent>)
        ensures
            event_views(out@) == stream(old(self)@, reports(events@)),
            final(self)@ == state_after(old(self)@, reports(events@)),
    {
        let mut out: Vec<SidecarEvent> = Vec::new();
        let mut i: usize = 0;
        let ghost all = reports(events@);
        proof {
            assert(event_views(out@) =~= stream(old(self)@, all.take(0)));
        }
        while i < events.len() && !self.is_finished()
            invariant
                0 <= i <= events.len(),
                all == reports(events@),
                event_views(out@) == stream(old(self)@, all.take(i as int)),
                self@ == state_after(old(self)@, all.take(i as int)),
            decreases events.len() - i,
        {
            let ghost before = event_views(out@);
            let ghost state = self@;
            let step = self.observe(&events[i]);
            proof {
                let seen = all.take(i as int);
                assert(all.take(i as int + 1) =~= seen + seq![all[i as int]]);
                lemma_stream_concat(old(self)@, seen, seq![all[i as int]]);
                lemma_stream_of_one(state, all[i as int]);
            }
            match step {
                Some(event) => {
                    out.push(event);
                    assert(event_views(out@) =~= before + seq![event@]);
                },
                None => {
                    assert(before + Seq::<SidecarEventView>::empty() =~= before);
                },
            }
            i = i + 1;
        }
        proof {
            let seen = all.take(i as int);
            let unseen = all.skip(i as int);
            assert(all =~= seen + unseen);
            lemma_stream_concat(old(self)@, seen, unseen);
            if i < events.len() {
                lemma_only_running_emits(self@, unseen);
            } else {
                assert(unseen =~= Seq::<ProcessEventView>::empty());
            }
            assert(event_views(out@) + stream(self@, unseen) =~= event_views(out@));
        }
        out
    }
}

} // verus!
