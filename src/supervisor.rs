use vstd::prelude::*;
use crate::decimal::{format_i64, signed_decimal};

verus! {

/// One event read from a supervised process.
pub enum ToolEvent {
    /// A line of the primary output; never surfaced as progress.
    Stdout(String),
    /// A line of the diagnostic output, which carries progress.
    Stderr(String),
    /// The process ended, with its exit code when the platform gave one.
    Terminated(Option<i32>),
    /// The process could not be run, or failed while running.
    Error(String),
}

/// How a supervised process ended.
pub enum ProcessOutcome {
    Success,
    NonZeroExit(i32),
    SpawnOrRuntimeError(String),
    UnknownTermination,
}

/// The kind of a notification handed to the caller's sink.
#[derive(PartialEq, Eq, Structural, Clone, Copy, Debug)]
pub enum NoteKind {
    Progress,
    Finished,
    Failed,
}

/// A notification handed to the caller's sink.
pub enum Notification {
    Progress(String),
    Finished(String),
    Failed(String),
}

impl View for Notification {
    type V = (NoteKind, Seq<char>);

    open spec fn view(&self) -> (NoteKind, Seq<char>) {
        match self {
            Notification::Progress(s) => (NoteKind::Progress, s@),
            Notification::Finished(s) => (NoteKind::Finished, s@),
            Notification::Failed(s) => (NoteKind::Failed, s@),
        }
    }
}

impl Notification {
    /// The name of the channel on which the sink delivers this notification.
    pub fn channel(&self) -> (r: &'static str)
        ensures
            r@ == channel_of(self@.0),
    {
        match self {
            Notification::Progress(_) => "ffmpeg-progress",
            Notification::Finished(_) => "ffmpeg-finished",
            Notification::Failed(_) => "ffmpeg-error",
        }
    }

    /// The text carried by this notification.
    pub fn text(&self) -> (r: &String)
        ensures
            r@ == self@.1,
    {
        match self {
            Notification::Progress(s) => s,
            Notification::Finished(s) => s,
            Notification::Failed(s) => s,
        }
    }
}

pub open spec fn channel_of(k: NoteKind) -> Seq<char> {
    match k {
        NoteKind::Progress => "ffmpeg-progress"@,
        NoteKind::Finished => "ffmpeg-finished"@,
        NoteKind::Failed => "ffmpeg-error"@,
    }
}

pub open spec fn is_terminal_event(e: ToolEvent) -> bool {
    e is Terminated || e is Error
}

/// Whether a terminal event occurs among `events`.
pub open spec fn has_terminal(events: Seq<ToolEvent>) -> bool
    decreases events.len(),
{
    if events.len() == 0 {
        false
    } else {
        has_terminal(events.drop_last()) || is_terminal_event(events.last())
    }
}

/// The diagnostic lines read before the first terminal event; what follows
/// it is never read.
pub open spec fn diag_lines(events: Seq<ToolEvent>) -> Seq<Seq<char>>
    decreases events.len(),
{
    if events.len() == 0 {
        seq![]
    } else {
        let prior = diag_lines(events.drop_last());
        if has_terminal(events.drop_last()) {
            prior
        } else {
            match events.last() {
                ToolEvent::Stderr(l) => prior.push(l@),
                _ => prior,
            }
        }
    }
}

/// The outcome decided by the first terminal event, if there is one.
pub open spec fn outcome_of(events: Seq<ToolEvent>) -> ProcessOutcome
    decreases events.len(),
{
    if events.len() == 0 {
        ProcessOutcome::UnknownTermination
    } else if has_terminal(events.drop_last()) {
        outcome_of(events.drop_last())
    } else {
        outcome_of_event(events.last())
    }
}

pub open spec fn outcome_of_event(e: ToolEvent) -> ProcessOutcome {
    match e {
        ToolEvent::Terminated(Some(code)) => if code == 0 {
            ProcessOutcome::Success
        } else {
            ProcessOutcome::NonZeroExit(code)
        },
        ToolEvent::Error(msg) => ProcessOutcome::SpawnOrRuntimeError(msg),
        _ => ProcessOutcome::UnknownTermination,
    }
}

/// Drops every line equal to the line just before it.
pub open spec fn dedup(lines: Seq<Seq<char>>) -> Seq<Seq<char>>
    decreases lines.len(),
{
    if lines.len() == 0 {
        seq![]
    } else if lines.len() >= 2 && lines.last() == lines[lines.len() - 2] {
        dedup(lines.drop_last())
    } else {
        dedup(lines.drop_last()).push(lines.last())
    }
}

pub open spec fn progress_notes(lines: Seq<Seq<char>>) -> Seq<(NoteKind, Seq<char>)> {
    lines.map_values(|l: Seq<char>| (NoteKind::Progress, l))
}

/// The terminal notification that reports an outcome.
pub open spec fn terminal_note(o: ProcessOutcome) -> (NoteKind, Seq<char>) {
    match o {
        ProcessOutcome::Success => (NoteKind::Finished, "Successfully processed video"@),
        ProcessOutcome::NonZeroExit(code) => (
            NoteKind::Failed,
            "FFmpeg exited with error code: "@ + signed_decimal(code as int),
        ),
        ProcessOutcome::SpawnOrRuntimeError(msg) => (
            NoteKind::Failed,
            "Tauri Command Error: "@ + msg@,
        ),
        ProcessOutcome::UnknownTermination => (
            NoteKind::Failed,
            "FFmpeg process finished without explicit status code."@,
        ),
    }
}

/// The notifications owed once `events` have been read.
pub open spec fn notes_so_far(events: Seq<ToolEvent>) -> Seq<(NoteKind, Seq<char>)> {
    progress_notes(dedup(diag_lines(events))) + if has_terminal(events) {
        seq![terminal_note(outcome_of(events))]
    } else {
        seq![]
    }
}

/// Every notification of an invocation whose event stream was `events`.
pub open spec fn notifications(events: Seq<ToolEvent>) -> Seq<(NoteKind, Seq<char>)> {
    progress_notes(dedup(diag_lines(events))) + seq![terminal_note(outcome_of(events))]
}

pub open spec fn opt_note(n: Option<Notification>) -> Seq<(NoteKind, Seq<char>)> {
    match n {
        Some(x) => seq![x@],
        None => seq![],
    }
}

pub open spec fn notes_view(v: Seq<Notification>) -> Seq<(NoteKind, Seq<char>)> {
    v.map_values(|n: Notification| n@)
}

proof fn lemma_dedup_last(lines: Seq<Seq<char>>)
    requires
        lines.len() > 0,
    ensures
        dedup(lines).len() > 0,
        dedup(lines).last() == lines.last(),
    decreases lines.len(),
{
    if lines.len() >= 2 && lines.last() == lines[lines.len() - 2] {
        lemma_dedup_last(lines.drop_last());
    }
}

proof fn lemma_no_terminal_unknown(events: Seq<ToolEvent>)
    requires
        !has_terminal(events),
    ensures
        outcome_of(events) == ProcessOutcome::UnknownTermination,
    decreases events.len(),
{
    if events.len() > 0 {
        lemma_no_terminal_unknown(events.drop_last());
    }
}

/// Builds the terminal notification that reports `o`.
pub fn terminal_notification(o: &ProcessOutcome) -> (r: Notification)
    ensures
        r@ == terminal_note(*o),
{
    match o {
        ProcessOutcome::Success => Notification::Finished(
            String::from_str("Successfully processed video"),
        ),
        ProcessOutcome::NonZeroExit(code) => {
            let digits = format_i64(*code as i64);
            let head = String::from_str("FFmpeg exited with error code: ");
            Notification::Failed(head.concat(digits.as_str()))
        },
        ProcessOutcome::SpawnOrRuntimeError(msg) => {
            let head = String::from_str("Tauri Command Error: ");
            Notification::Failed(head.concat(msg.as_str()))
        },
        ProcessOutcome::UnknownTermination => Notification::Failed(
            String::from_str("FFmpeg process finished without explicit status code."),
        ),
    }
}

/// Follows one supervised invocation event by event: relays each diagnostic
/// line that differs from the one before it, and reports the first terminal
/// event exactly once; events after it are ignored.
pub struct Supervisor {
    last_progress: Option<String>,
    outcome: Option<ProcessOutcome>,
    seen: Ghost<Seq<ToolEvent>>,
}

impl Supervisor {
    /// The events handed to this supervisor so far.
    pub closed spec fn events(&self) -> Seq<ToolEvent> {
        self.seen@
    }

    pub closed spec fn wf(&self) -> bool {
        let lines = diag_lines(self.seen@);
        &&& match self.last_progress {
            Some(l) => lines.len() > 0 && l@ == lines.last(),
            None => lines.len() == 0,
        }
        &&& match self.outcome {
            Some(o) => has_terminal(self.seen@) && o == outcome_of(self.seen@),
            None => !has_terminal(self.seen@),
        }
    }

    pub fn new() -> (r: Supervisor)
        ensures
            r.wf(),
            r.events() == Seq::<ToolEvent>::empty(),
    {
        Supervisor { last_progress: None, outcome: None, seen: Ghost(Seq::empty()) }
    }

    /// Whether the terminal event has been seen, after which the caller may
    /// stop reading.
    pub fn is_stopped(&self) -> (r: bool)
        requires
            self.wf(),
        ensures
            r == has_terminal(self.events()),
    {
        self.outcome.is_some()
    }

    /// Takes the next event; returns the notification it calls for, if any.
    pub fn on_event(&mut self, e: ToolEvent) -> (r: Option<Notification>)
        requires
            old(self).wf(),
        ensures
            final(self).wf(),
            final(self).events() == old(self).events().push(e),
            notes_so_far(final(self).events()) == notes_so_far(old(self).events()) + opt_note(r),
    {
        let ghost before = self.seen@;
        let ghost after = before.push(e);
        assert(after.drop_last() =~= before);
        proof {
            lemma_dedup_extend(before, e);
        }
        if self.outcome.is_some() {
            self.seen = Ghost(after);
            assert(notes_so_far(after) =~= notes_so_far(before) + opt_note(None));
            return None;
        }
        self.seen = Ghost(after);
        match e {
            ToolEvent::Stdout(_) => {
                assert(notes_so_far(after) =~= notes_so_far(before) + opt_note(None));
                None
            },
            ToolEvent::Stderr(line) => {
                let ghost lines = diag_lines(before);
                let ghost d = dedup(lines);
                assert(diag_lines(after) == lines.push(line@));
                assert(progress_notes(d.push(line@)) =~= progress_notes(d).push(
                    (NoteKind::Progress, line@),
                ));
                proof {
                    lemma_dedup_push(lines, line@);
                }
                let repeated = match &self.last_progress {
                    Some(l) => {
                        assert(lines.len() > 0 && l@ == lines.last());
                        l.eq(&line)
                    },
                    None => {
                        assert(lines.len() == 0);
                        false
                    },
                };
                if repeated {
                    assert(notes_so_far(after) =~= notes_so_far(before) + opt_note(None));
                    None
                } else {
                    self.last_progress = Some(line.clone());
                    let r = Some(Notification::Progress(line));
                    assert(notes_so_far(after) =~= notes_so_far(before) + opt_note(r));
                    r
                }
            },
            ToolEvent::Terminated(code) => {
                let o = match code {
                    Some(c) => if c == 0 {
                        ProcessOutcome::Success
                    } else {
                        ProcessOutcome::NonZeroExit(c)
                    },
                    None => ProcessOutcome::UnknownTermination,
                };
                let n = terminal_notification(&o);
                self.outcome = Some(o);
                let r = Some(n);
                assert(notes_so_far(after) =~= notes_so_far(before) + opt_note(r));
                r
            },
            ToolEvent::Error(msg) => {
                let o = ProcessOutcome::SpawnOrRuntimeError(msg);
                let n = terminal_notification(&o);
                self.outcome = Some(o);
                let r = Some(n);
                assert(notes_so_far(after) =~= notes_so_far(before) + opt_note(r));
                r
            },
        }
    }

    /// Called when the event stream has ended: returns the terminal
    /// notification if none has been given yet.
    pub fn finish(&self) -> (r: Option<Notification>)
        requires
            self.wf(),
        ensures
            notes_so_far(self.events()) + opt_note(r) == notifications(self.events()),
            r is Some <==> !has_terminal(self.events()),
    {
        if self.outcome.is_some() {
            assert(notes_so_far(self.seen@) + opt_note(None) =~= notifications(self.seen@));
            None
        } else {
            proof {
                lemma_no_terminal_unknown(self.seen@);
            }
            let r = Some(terminal_notification(&ProcessOutcome::UnknownTermination));
            assert(notes_so_far(self.seen@) + opt_note(r) =~= notifications(self.seen@));
            r
        }
    }
}

proof fn lemma_dedup_extend(before: Seq<ToolEvent>, e: ToolEvent)
    ensures
        ({
            let after = before.push(e);
            let lines = diag_lines(before);
            &&& after.drop_last() =~= before
            &&& has_terminal(after) == (has_terminal(before) || is_terminal_event(e))
            &&& has_terminal(before) ==> diag_lines(after) == lines
            &&& has_terminal(before) ==> outcome_of(after) == outcome_of(before)
            &&& !has_terminal(before) ==> outcome_of(after) == outcome_of_event(e)
            &&& !has_terminal(before) && !(e is Stderr) ==> diag_lines(after) == lines
            &&& !has_terminal(before) && e is Stderr ==> diag_lines(after) == lines.push(
                e->Stderr_0@,
            )
        }),
{
    let after = before.push(e);
    assert(after.drop_last() =~= before);
}

proof fn lemma_dedup_push(lines: Seq<Seq<char>>, l: Seq<char>)
    ensures
        dedup(lines.push(l)) == if lines.len() > 0 && lines.last() == l {
            dedup(lines)
        } else {
            dedup(lines).push(l)
        },
{
    let ext = lines.push(l);
    assert(ext.drop_last() =~= lines);
    if lines.len() > 0 {
        assert(ext[ext.len() - 2] == lines.last());
    }
}

impl ToolEvent {
    /// A copy of this event.
    pub fn duplicate(&self) -> (r: ToolEvent)
        ensures
            r == *self,
    {
        match self {
            ToolEvent::Stdout(s) => ToolEvent::Stdout(s.clone()),
            ToolEvent::Stderr(s) => ToolEvent::Stderr(s.clone()),
            ToolEvent::Terminated(c) => ToolEvent::Terminated(*c),
            ToolEvent::Error(s) => ToolEvent::Error(s.clone()),
        }
    }
}

/// Runs a whole recorded event stream through a fresh supervisor and returns
/// every notification it gives, the terminal one included.
pub fn supervise(events: &Vec<ToolEvent>) -> (r: Vec<Notification>)
    ensures
        notes_view(r@) == notifications(events@),
{
    let mut sup = Supervisor::new();
    let mut out: Vec<Notification> = Vec::new();
    let mut i: usize = 0;
    while i < events.len()
        invariant
            i <= events.len(),
            sup.wf(),
            sup.events() == events@.subrange(0, i as int),
            notes_view(out@) == notes_so_far(sup.events()),
        decreases events.len() - i,
    {
        let e = events[i].duplicate();
        let ghost prev = out@;
        match sup.on_event(e) {
            Some(n) => {
                out.push(n);
                assert(notes_view(out@) =~= notes_view(prev) + seq![n@]);
            },
            None => {},
        }
        i = i + 1;
        assert(sup.events() =~= events@.subrange(0, i as int));
    }
    assert(sup.events() =~= events@);
    let ghost prev = out@;
    match sup.finish() {
        Some(n) => {
            out.push(n);
            assert(notes_view(out@) =~= notes_view(prev) + seq![n@]);
        },
        None => {},
    }
    out
}

proof fn lemma_dedup_distinct_neighbours(lines: Seq<Seq<char>>)
    ensures
        forall|i: int| 0 <= i < dedup(lines).len() - 1 ==> #[trigger] dedup(lines)[i] != dedup(lines)[i + 1],
    decreases lines.len(),
{
    if lines.len() > 0 {
        let prior = lines.drop_last();
        lemma_dedup_distinct_neighbours(prior);
        assert(prior.push(lines.last()) =~= lines);
        lemma_dedup_push(prior, lines.last());
        if prior.len() > 0 {
            lemma_dedup_last(prior);
        }
    }
}

/// Whatever the event stream, an invocation gives exactly one terminal
/// notification and it comes last: every notification before it is progress,
/// and no two neighbouring progress notifications carry the same line. The
/// terminal one reports success exactly when the first terminal event was an
/// exit with code 0.
pub proof fn lemma_exactly_one_terminal(events: Seq<ToolEvent>)
    ensures
        ({
            let ns = notifications(events);
            &&& ns.len() >= 1
            &&& ns.last().0 != NoteKind::Progress
            &&& forall|i: int| 0 <= i < ns.len() - 1 ==> ns[i].0 == NoteKind::Progress
            &&& forall|i: int| 0 <= i < ns.len() - 2 ==> #[trigger] ns[i].1 != ns[i + 1].1
            &&& (ns.last().0 == NoteKind::Finished <==> outcome_of(events) is Success)
        }),
{
    let lines = dedup(diag_lines(events));
    lemma_dedup_distinct_neighbours(diag_lines(events));
    let ns = notifications(events);
    assert(ns.last() == terminal_note(outcome_of(events)));
    assert forall|i: int| 0 <= i < ns.len() - 1 implies ns[i].0 == NoteKind::Progress by {
        assert(ns[i] == progress_notes(lines)[i]);
    }
    assert forall|i: int| 0 <= i < ns.len() - 2 implies #[trigger] ns[i].1 != ns[i + 1].1 by {
        assert(ns[i] == progress_notes(lines)[i]);
        assert(ns[i + 1] == progress_notes(lines)[i + 1]);
    }
}

/// The first terminal event alone decides the outcome: nothing read after
/// it changes it.
pub proof fn lemma_first_terminal_decides(before: Seq<ToolEvent>, e: ToolEvent, rest: Seq<ToolEvent>)
    requires
        !has_terminal(before),
        is_terminal_event(e),
    ensures
        outcome_of(before.push(e) + rest) == outcome_of_event(e),
        diag_lines(before.push(e) + rest) == diag_lines(before),
    decreases rest.len(),
{
    let head = before.push(e);
    if rest.len() == 0 {
        assert(head + rest =~= head);
        assert(head.drop_last() =~= before);
    } else {
        lemma_first_terminal_decides(before, e, rest.drop_last());
        let all = head + rest;
        assert(all.drop_last() =~= head + rest.drop_last());
        lemma_terminal_stays(head, rest.drop_last());
    }
}

proof fn lemma_terminal_stays(head: Seq<ToolEvent>, rest: Seq<ToolEvent>)
    requires
        has_terminal(head),
    ensures
        has_terminal(head + rest),
    decreases rest.len(),
{
    if rest.len() == 0 {
        assert(head + rest =~= head);
    } else {
        lemma_terminal_stays(head, rest.drop_last());
        assert((head + rest).drop_last() =~= head + rest.drop_last());
    }
}

} // verus!
