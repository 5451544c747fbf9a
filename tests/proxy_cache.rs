use clip_engine::proxy::proxy_cache_path;
use clip_engine::proxy_job::{ProxyAction, ProxyError, ProxyEvent, ProxyJob};

/// Drives a request against a simulated file system and transcoder; returns
/// the result and how many times the transcoder ran.
fn drive(
    input: &str,
    input_exists: bool,
    mtime: Option<u64>,
    files: &mut Vec<String>,
    tool_code: i32,
    tool_writes: bool,
) -> (Result<String, ProxyError>, usize) {
    let (mut job, mut action) = ProxyJob::new(input);
    let mut runs = 0;
    loop {
        let event = match action {
            ProxyAction::CheckInput(_) => ProxyEvent::InputExists(input_exists),
            ProxyAction::ResolveCacheDir => ProxyEvent::CacheDir(Some("/cache".to_string())),
            ProxyAction::ReadMtime(_) => ProxyEvent::Mtime(mtime),
            ProxyAction::ProbeFile(p) => ProxyEvent::FileExists(files.contains(&p)),
            ProxyAction::RunTool(args) => {
                runs += 1;
                if tool_code == 0 && tool_writes {
                    files.push(args[args.len() - 1].clone());
                }
                ProxyEvent::ToolExited(Some(tool_code), "diag output".to_string())
            }
            ProxyAction::Finish(r) => {
                assert!(job.is_done());
                return (r, runs);
            }
            ProxyAction::Wait => panic!("unexpected wait"),
        };
        action = job.step(event);
    }
}

#[test]
fn second_call_reuses_cache() {
    let mut files = Vec::new();
    let (r1, n1) = drive("/v/a.mov", true, Some(100), &mut files, 0, true);
    let (r2, n2) = drive("/v/a.mov", true, Some(100), &mut files, 0, true);
    let p1 = r1.ok().unwrap();
    assert_eq!(p1, proxy_cache_path("/cache", "/v/a.mov", 100));
    assert_eq!(p1, r2.ok().unwrap());
    assert_eq!(n1, 1);
    assert_eq!(n2, 0);
}

#[test]
fn new_mtime_rebuilds() {
    let mut files = Vec::new();
    let (r1, n1) = drive("/v/a.mov", true, Some(100), &mut files, 0, true);
    let (r2, n2) = drive("/v/a.mov", true, Some(200), &mut files, 0, true);
    assert_eq!(n1 + n2, 2);
    assert_ne!(r1.ok().unwrap(), r2.ok().unwrap());
}

#[test]
fn missing_input_spawns_nothing() {
    let mut files = Vec::new();
    let (r, n) = drive("/nope.mov", false, Some(1), &mut files, 0, true);
    assert!(matches!(r, Err(ProxyError::InputNotFound)));
    assert_eq!(n, 0);
}

#[test]
fn success_without_output_is_an_error() {
    let mut files = Vec::new();
    let (r, n) = drive("/v/a.mov", true, Some(5), &mut files, 0, false);
    assert!(matches!(r, Err(ProxyError::OutputMissingAfterSuccess)));
    assert_eq!(n, 1);
}

#[test]
fn failing_tool_surfaces_diagnostics() {
    let mut files = Vec::new();
    let (r, _) = drive("/v/a.mov", true, Some(5), &mut files, 1, false);
    match r {
        Err(e) => {
            assert!(matches!(e, ProxyError::TranscodeFailed(_)));
            assert_eq!(e.message(), "Proxy generation failed: diag output");
        }
        Ok(_) => panic!("expected failure"),
    }
}

#[test]
fn unreadable_mtime_is_metadata_error() {
    let mut files = Vec::new();
    let (r, n) = drive("/v/a.mov", true, None, &mut files, 0, true);
    assert!(matches!(r, Err(ProxyError::MetadataReadError)));
    assert_eq!(n, 0);
}

#[test]
fn unavailable_cache_dir() {
    let (mut job, _) = ProxyJob::new("/v/a.mov");
    assert!(matches!(job.step(ProxyEvent::InputExists(true)), ProxyAction::ResolveCacheDir));
    assert!(matches!(
        job.step(ProxyEvent::CacheDir(None)),
        ProxyAction::Finish(Err(ProxyError::CacheDirUnavailable))
    ));
    assert!(job.is_done());
}

#[test]
fn spawn_failure_is_reported() {
    let (mut job, _) = ProxyJob::new("/v/a.mov");
    job.step(ProxyEvent::InputExists(true));
    job.step(ProxyEvent::CacheDir(Some("/c".to_string())));
    job.step(ProxyEvent::Mtime(Some(3)));
    assert!(matches!(job.step(ProxyEvent::FileExists(false)), ProxyAction::RunTool(_)));
    match job.step(ProxyEvent::SpawnFailed("no ffmpeg".to_string())) {
        ProxyAction::Finish(Err(e)) => {
            assert_eq!(e.message(), "Failed to start the transcoder: no ffmpeg")
        }
        _ => panic!("expected spawn error"),
    }
}

#[test]
fn unexpected_event_changes_nothing() {
    let (mut job, _) = ProxyJob::new("/v/a.mov");
    assert!(matches!(job.step(ProxyEvent::FileExists(true)), ProxyAction::Wait));
    assert!(!job.is_done());
    assert!(matches!(job.step(ProxyEvent::InputExists(false)), ProxyAction::Finish(Err(ProxyError::InputNotFound))));
}
