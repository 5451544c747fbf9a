use clip_engine::supervisor::{supervise, terminal_notification, NoteKind, Notification, ProcessOutcome, Supervisor, ToolEvent};

fn kinds_and_texts(ns: &[Notification]) -> Vec<(NoteKind, String)> {
    ns.iter()
        .map(|n| {
            let kind = match n {
                Notification::Progress(_) => NoteKind::Progress,
                Notification::Finished(_) => NoteKind::Finished,
                Notification::Failed(_) => NoteKind::Failed,
            };
            (kind, n.text().clone())
        })
        .collect()
}

fn stderr(s: &str) -> ToolEvent {
    ToolEvent::Stderr(s.to_string())
}

#[test]
fn exit_zero_gives_one_success_notification() {
    let ns = supervise(&vec![stderr("frame=1"), ToolEvent::Terminated(Some(0))]);
    let v = kinds_and_texts(&ns);
    assert_eq!(v.len(), 2);
    assert_eq!(v[0], (NoteKind::Progress, "frame=1".to_string()));
    assert_eq!(v[1], (NoteKind::Finished, "Successfully processed video".to_string()));
    assert_eq!(ns[1].channel(), "ffmpeg-finished");
}

#[test]
fn exit_one_gives_one_failure_with_code() {
    let ns = supervise(&vec![ToolEvent::Terminated(Some(1))]);
    let v = kinds_and_texts(&ns);
    assert_eq!(v.len(), 1);
    assert_eq!(v[0].0, NoteKind::Failed);
    assert!(v[0].1.contains('1'));
    assert_eq!(v[0].1, "FFmpeg exited with error code: 1");
    assert_eq!(ns[0].channel(), "ffmpeg-error");
}

#[test]
fn negative_exit_code_is_written_with_sign() {
    let ns = supervise(&vec![ToolEvent::Terminated(Some(-2147483648))]);
    assert_eq!(ns[0].text(), "FFmpeg exited with error code: -2147483648");
}

#[test]
fn progress_lines_are_deduplicated() {
    let events: Vec<ToolEvent> =
        ["a", "a", "b", "b", "b", "c"].iter().map(|s| stderr(s)).collect();
    let ns = supervise(&events);
    let v = kinds_and_texts(&ns);
    let progress: Vec<String> =
        v.iter().filter(|(k, _)| *k == NoteKind::Progress).map(|(_, t)| t.clone()).collect();
    assert_eq!(progress, vec!["a".to_string(), "b".to_string(), "c".to_string()]);
    assert_eq!(v.len(), 4);
    assert_eq!(
        v[3],
        (NoteKind::Failed, "FFmpeg process finished without explicit status code.".to_string())
    );
}

#[test]
fn primary_output_is_never_progress() {
    let ns = supervise(&vec![
        ToolEvent::Stdout("x".to_string()),
        stderr("a"),
        ToolEvent::Stdout("y".to_string()),
        stderr("a"),
        ToolEvent::Terminated(Some(0)),
    ]);
    let v = kinds_and_texts(&ns);
    assert_eq!(v.len(), 2);
    assert_eq!(v[0], (NoteKind::Progress, "a".to_string()));
    assert_eq!(v[1].0, NoteKind::Finished);
}

#[test]
fn error_event_reports_message() {
    let ns = supervise(&vec![ToolEvent::Error("no such file".to_string())]);
    let v = kinds_and_texts(&ns);
    assert_eq!(v, vec![(NoteKind::Failed, "Tauri Command Error: no such file".to_string())]);
}

#[test]
fn events_after_terminal_are_ignored() {
    let ns = supervise(&vec![
        stderr("a"),
        ToolEvent::Terminated(Some(0)),
        stderr("b"),
        ToolEvent::Error("late".to_string()),
        ToolEvent::Terminated(Some(3)),
    ]);
    let v = kinds_and_texts(&ns);
    assert_eq!(v.len(), 2);
    assert_eq!(v[1].0, NoteKind::Finished);
}

#[test]
fn terminated_without_code_is_unknown() {
    let ns = supervise(&vec![ToolEvent::Terminated(None)]);
    assert_eq!(ns.len(), 1);
    assert_eq!(ns[0].text(), "FFmpeg process finished without explicit status code.");
}

#[test]
fn empty_stream_gives_one_failure() {
    let ns = supervise(&vec![]);
    assert_eq!(ns.len(), 1);
    assert_eq!(ns[0].channel(), "ffmpeg-error");
}

#[test]
fn stepwise_supervisor_reports_terminal_once() {
    let mut sup = Supervisor::new();
    assert!(sup.on_event(stderr("a")).is_some());
    assert!(sup.on_event(stderr("a")).is_none());
    assert!(!sup.is_stopped());
    assert!(sup.on_event(ToolEvent::Terminated(Some(0))).is_some());
    assert!(sup.is_stopped());
    assert!(sup.on_event(ToolEvent::Terminated(Some(0))).is_none());
    assert!(sup.finish().is_none());
}

#[test]
fn stepwise_finish_without_terminal() {
    let sup = Supervisor::new();
    let n = sup.finish().unwrap();
    assert_eq!(n.channel(), "ffmpeg-error");
}

#[test]
fn terminal_notification_per_outcome() {
    assert_eq!(terminal_notification(&ProcessOutcome::Success).text(), "Successfully processed video");
    assert_eq!(
        terminal_notification(&ProcessOutcome::NonZeroExit(255)).text(),
        "FFmpeg exited with error code: 255"
    );
    assert_eq!(
        terminal_notification(&ProcessOutcome::SpawnOrRuntimeError("boom".to_string())).text(),
        "Tauri Command Error: boom"
    );
    assert_eq!(
        terminal_notification(&ProcessOutcome::UnknownTermination).channel(),
        "ffmpeg-error"
    );
}
