use vstd::prelude::*;

verus! {

/// Where the writer stands: before the file is open, waiting for a line,
/// writing one, flushing, or stopped.
pub enum WriterState {
    Starting,
    Waiting,
    Writing(String),
    Flushing,
    Terminated,
}

/// What the outside world reports back to the writer.
pub enum WriterEvent {
    /// The log file was opened for appending.
    Opened,
    /// The log file could not be opened, for the given reason.
    OpenFailed(String),
    /// A line arrived on the channel.
    Received(String),
    /// The channel is closed and drained.
    EndOfStream,
    /// The write of the current line finished, or failed with a reason.
    Wrote(Result<(), String>),
    /// The flush finished, or failed with a reason.
    Flushed(Result<(), String>),
}

/// What the writer asks the outside world to do next.
pub enum WriterAction {
    Open,
    Receive,
    Write(String),
    Flush,
    /// Opening failed: give up before serving, for the given reason.
    Abort(String),
    Stop,
}

/// A failure to put on the diagnostic stream; the writer carries on.
pub enum Report {
    WriteFailed(String),
    FlushFailed(String),
}

/// The answer to one event.
pub struct Step {
    pub action: WriterAction,
    pub report: Option<Report>,
}

/// The single owner of the log file's contents, as a state machine; `persisted`
/// holds the lines whose write went through, in order.
pub struct Writer {
    pub state: WriterState,
    pub persisted: Ghost<Seq<Seq<char>>>,
}

/// The action that a state waits on.
pub open spec fn awaited_in(s: WriterState) -> WriterAction {
    match s {
        WriterState::Starting => WriterAction::Open,
        WriterState::Waiting => WriterAction::Receive,
        WriterState::Writing(line) => WriterAction::Write(line),
        WriterState::Flushing => WriterAction::Flush,
        WriterState::Terminated => WriterAction::Stop,
    }
}

/// The next state and the step for an event; an event that the state does not
/// wait for changes nothing.
pub open spec fn transition(s: WriterState, e: WriterEvent) -> (WriterState, Step) {
    match (s, e) {
        (WriterState::Starting, WriterEvent::Opened) =>
            (WriterState::Waiting, Step { action: WriterAction::Receive, report: None }),
        (WriterState::Starting, WriterEvent::OpenFailed(reason)) =>
            (WriterState::Terminated, Step { action: WriterAction::Abort(reason), report: None }),
        (WriterState::Waiting, WriterEvent::Received(line)) =>
            (WriterState::Writing(line), Step { action: WriterAction::Write(line), report: None }),
        (WriterState::Waiting, WriterEvent::EndOfStream) =>
            (WriterState::Terminated, Step { action: WriterAction::Stop, report: None }),
        (WriterState::Writing(_), WriterEvent::Wrote(Ok(()))) =>
            (WriterState::Flushing, Step { action: WriterAction::Flush, report: None }),
        (WriterState::Writing(_), WriterEvent::Wrote(Err(reason))) =>
            (WriterState::Flushing, Step { action: WriterAction::Flush, report: Some(Report::WriteFailed(reason)) }),
        (WriterState::Flushing, WriterEvent::Flushed(Ok(()))) =>
            (WriterState::Waiting, Step { action: WriterAction::Receive, report: None }),
        (WriterState::Flushing, WriterEvent::Flushed(Err(reason))) =>
            (WriterState::Waiting, Step { action: WriterAction::Receive, report: Some(Report::FlushFailed(reason)) }),
        (s, _) => (s, Step { action: awaited_in(s), report: None }),
    }
}

/// The line that an event puts into the file, if any.
pub open spec fn persists(s: WriterState, e: WriterEvent) -> Option<Seq<char>> {
    match (s, e) {
        (WriterState::Writing(line), WriterEvent::Wrote(Ok(()))) => Some(line@),
        _ => None,
    }
}

/// The lines in the file after `e`, given those before.
pub open spec fn persisted_after(s: WriterState, p: Seq<Seq<char>>, e: WriterEvent) -> Seq<Seq<char>> {
    match persists(s, e) {
        Some(line) => p.push(line),
        None => p,
    }
}

impl Writer {
    /// A writer that has not opened the file yet.
    pub fn new() -> (r: Writer)
        ensures
            r.state == WriterState::Starting,
            r.persisted@ == Seq::<Seq<char>>::empty(),
    {
        Writer { state: WriterState::Starting, persisted: Ghost(Seq::empty()) }
    }

    /// The action that the writer waits on.
    pub fn awaited(&self) -> (r: WriterAction)
        ensures
            r == awaited_in(self.state),
    {
        match &self.state {
            WriterState::Starting => WriterAction::Open,
            WriterState::Waiting => WriterAction::Receive,
            WriterState::Writing(line) => WriterAction::Write(line.clone()),
            WriterState::Flushing => WriterAction::Flush,
            WriterState::Terminated => WriterAction::Stop,
        }
    }

    /// Takes in one event and says what to do next.
    pub fn step(&mut self, event: WriterEvent) -> (r: Step)
        ensures
            (final(self).state, r) == transition(old(self).state, event),
            final(self).persisted@ == persisted_after(old(self).state, old(self).persisted@, event),
    {
        let ghost p = self.persisted@;
        let (next, step) = match (&self.state, event) {
            (WriterState::Starting, WriterEvent::Opened) =>
                (WriterState::Waiting, Step { action: WriterAction::Receive, report: None }),
            (WriterState::Starting, WriterEvent::OpenFailed(reason)) =>
                (WriterState::Terminated, Step { action: WriterAction::Abort(reason), report: None }),
            (WriterState::Waiting, WriterEvent::Received(line)) => {
                let action = WriterAction::Write(line.clone());
                (WriterState::Writing(line), Step { action, report: None })
            },
            (WriterState::Waiting, WriterEvent::EndOfStream) =>
                (WriterState::Terminated, Step { action: WriterAction::Stop, report: None }),
            (WriterState::Writing(line), WriterEvent::Wrote(Ok(()))) => {
                self.persisted = Ghost(p.push(line@));
                (WriterState::Flushing, Step { action: WriterAction::Flush, report: None })
            },
            (WriterState::Writing(_), WriterEvent::Wrote(Err(reason))) =>
                (WriterState::Flushing, Step { action: WriterAction::Flush, report: Some(Report::WriteFailed(reason)) }),
            (WriterState::Flushing, WriterEvent::Flushed(Ok(()))) =>
                (WriterState::Waiting, Step { action: WriterAction::Receive, report: None }),
            (WriterState::Flushing, WriterEvent::Flushed(Err(reason))) =>
                (WriterState::Waiting, Step { action: WriterAction::Receive, report: Some(Report::FlushFailed(reason)) }),
            (_, _) => {
                let action = self.awaited();
                return Step { action, report: None };
            },
        };
        self.state = next;
        step
    }
}

/// The diagnostic line for a report about the file at `path`.
pub open spec fn report_text(r: Report, path: Seq<char>) -> Seq<char> {
    match r {
        Report::WriteFailed(reason) => "Error while writing to a log file: "@ + path + ", reason: "@ + reason@,
        Report::FlushFailed(reason) => "Error while flushing file: "@ + path + ", reason: "@ + reason@,
    }
}

/// The message with which start-up gives up when the file at `path` cannot be opened.
pub open spec fn open_failure_text(path: Seq<char>, reason: Seq<char>) -> Seq<char> {
    "Unable to open log file "@ + path + ". Reason: "@ + reason
}

impl Report {
    /// The diagnostic line for this report.
    pub fn describe(&self, path: &str) -> (r: String)
        ensures
            r@ == report_text(*self, path@),
    {
        let (head, reason) = match self {
            Report::WriteFailed(reason) => ("Error while writing to a log file: ", reason),
            Report::FlushFailed(reason) => ("Error while flushing file: ", reason),
        };
        let mut r = String::from_str(head);
        r.append(path);
        r.append(", reason: ");
        r.append(reason.as_str());
        r
    }
}

/// The message for a log file that cannot be opened.
pub fn open_failure(path: &str, reason: &str) -> (r: String)
    ensures
        r@ == open_failure_text(path@, reason@),
{
    let mut r = String::from_str("Unable to open log file ");
    r.append(path);
    r.append(". Reason: ");
    r.append(reason);
    r
}

/// The state and file contents after a run of events.
pub open spec fn run(s: WriterState, p: Seq<Seq<char>>, events: Seq<WriterEvent>) -> (WriterState, Seq<Seq<char>>)
    decreases events.len(),
{
    if events.len() == 0 {
        (s, p)
    } else {
        let e = events[0];
        run(transition(s, e).0, persisted_after(s, p, e), events.drop_first())
    }
}

/// The events of lines that arrive one by one and are each written and flushed.
pub open spec fn clean_cycles(lines: Seq<String>) -> Seq<WriterEvent>
    decreases lines.len(),
{
    if lines.len() == 0 {
        Seq::empty()
    } else {
        seq![WriterEvent::Received(lines[0]), WriterEvent::Wrote(Ok(())), WriterEvent::Flushed(Ok(()))]
            + clean_cycles(lines.drop_first())
    }
}

proof fn lemma_run_append(s: WriterState, p: Seq<Seq<char>>, a: Seq<WriterEvent>, b: Seq<WriterEvent>)
    ensures
        run(s, p, a + b) == run(run(s, p, a).0, run(s, p, a).1, b),
    decreases a.len(),
{
    if a.len() > 0 {
        let e = a[0];
        assert((a + b).drop_first() =~= a.drop_first() + b);
        lemma_run_append(transition(s, e).0, persisted_after(s, p, e), a.drop_first(), b);
    } else {
        assert(a + b =~= b);
    }
}

/// Every line that reaches a waiting writer and is written without failure ends
/// up in the file exactly once, in the order of arrival, and the writer waits
/// again afterwards.
pub proof fn lemma_lines_persisted_once(p: Seq<Seq<char>>, lines: Seq<String>)
    ensures
        run(WriterState::Waiting, p, clean_cycles(lines))
            == (WriterState::Waiting, p + lines.map_values(|l: String| l@)),
    decreases lines.len(),
{
    let views = lines.map_values(|l: String| l@);
    if lines.len() == 0 {
        assert(p + views =~= p);
    } else {
        let l = lines[0];
        let head = seq![WriterEvent::Received(l), WriterEvent::Wrote(Ok(())), WriterEvent::Flushed(Ok(()))];
        lemma_run_append(WriterState::Waiting, p, head, clean_cycles(lines.drop_first()));
        let h1 = head.drop_first();
        let h2 = h1.drop_first();
        let h3 = h2.drop_first();
        assert(h3 =~= Seq::<WriterEvent>::empty());
        assert(run(WriterState::Waiting, p.push(l@), h3) == (WriterState::Waiting, p.push(l@)));
        assert(h2[0] == WriterEvent::Flushed(Ok(())));
        assert(run(WriterState::Flushing, p.push(l@), h2) == (WriterState::Waiting, p.push(l@)));
        assert(h1[0] == WriterEvent::Wrote(Ok(())));
        assert(run(WriterState::Writing(l), p, h1) == (WriterState::Waiting, p.push(l@)));
        assert(run(WriterState::Waiting, p, head) == (WriterState::Waiting, p.push(l@)));
        lemma_lines_persisted_once(p.push(l@), lines.drop_first());
        assert(p.push(l@) + lines.drop_first().map_values(|l: String| l@) =~= p + views);
    }
}

/// A write that fails drops its line from the file, is reported, and does not
/// stop the writer: after the flush it takes the next line and writes it.
pub proof fn lemma_failed_write_dropped(
    p: Seq<Seq<char>>,
    line: String,
    reason: String,
    flushed: Result<(), String>,
    next: String,
)
    ensures
        ({
            let s0 = WriterState::Writing(line);
            let e1 = WriterEvent::Wrote(Err(reason));
            let (s1, step1) = transition(s0, e1);
            let p1 = persisted_after(s0, p, e1);
            let (s2, step2) = transition(s1, WriterEvent::Flushed(flushed));
            let (s3, step3) = transition(s2, WriterEvent::Received(next));
            let p4 = persisted_after(s3, p1, WriterEvent::Wrote(Ok(())));
            &&& p1 == p
            &&& step1.report == Some(Report::WriteFailed(reason))
            &&& s1 != WriterState::Terminated
            &&& step2.action == WriterAction::Receive
            &&& step3.action == WriterAction::Write(next)
            &&& p4 == p.push(next@)
        }),
{
}

} // verus!
