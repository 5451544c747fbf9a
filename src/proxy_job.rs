use vstd::prelude::*;
use crate::export::texts;
use crate::proxy::{lemma_cache_path_tracks_mtime, cache_path, proxy_cache_path, proxy_command_args, proxy_tokens};

verus! {

/// Why no proxy could be had.
pub enum ProxyError {
    InputNotFound,
    CacheDirUnavailable,
    MetadataReadError,
    /// The transcoder could not be started; the system's message.
    SpawnError(String),
    /// The transcoder exited with failure; its diagnostic output, verbatim.
    TranscodeFailed(String),
    OutputMissingAfterSuccess,
}

pub enum ProxyErrorView {
    InputNotFound,
    CacheDirUnavailable,
    MetadataReadError,
    SpawnError(Seq<char>),
    TranscodeFailed(Seq<char>),
    OutputMissingAfterSuccess,
}

impl View for ProxyError {
    type V = ProxyErrorView;

    open spec fn view(&self) -> ProxyErrorView {
        match self {
            ProxyError::InputNotFound => ProxyErrorView::InputNotFound,
            ProxyError::CacheDirUnavailable => ProxyErrorView::CacheDirUnavailable,
            ProxyError::MetadataReadError => ProxyErrorView::MetadataReadError,
            ProxyError::SpawnError(m) => ProxyErrorView::SpawnError(m@),
            ProxyError::TranscodeFailed(m) => ProxyErrorView::TranscodeFailed(m@),
            ProxyError::OutputMissingAfterSuccess => ProxyErrorView::OutputMissingAfterSuccess,
        }
    }
}

impl ProxyError {
    /// A human-readable description of the error.
    pub fn message(&self) -> (r: String)
        ensures
            r@ == error_message(self@),
    {
        match self {
            ProxyError::InputNotFound => String::from_str("Input file not found"),
            ProxyError::CacheDirUnavailable => String::from_str("Could not create the proxy cache directory"),
            ProxyError::MetadataReadError => String::from_str("Could not read the input file's metadata"),
            ProxyError::SpawnError(m) => String::from_str("Failed to start the transcoder: ").concat(m.as_str()),
            ProxyError::TranscodeFailed(m) => String::from_str("Proxy generation failed: ").concat(m.as_str()),
            ProxyError::OutputMissingAfterSuccess => String::from_str(
                "The transcoder reported success but wrote no output file",
            ),
        }
    }
}

pub open spec fn error_message(e: ProxyErrorView) -> Seq<char> {
    match e {
        ProxyErrorView::InputNotFound => "Input file not found"@,
        ProxyErrorView::CacheDirUnavailable => "Could not create the proxy cache directory"@,
        ProxyErrorView::MetadataReadError => "Could not read the input file's metadata"@,
        ProxyErrorView::SpawnError(m) => "Failed to start the transcoder: "@ + m,
        ProxyErrorView::TranscodeFailed(m) => "Proxy generation failed: "@ + m,
        ProxyErrorView::OutputMissingAfterSuccess => "The transcoder reported success but wrote no output file"@,
    }
}

/// Where one proxy request stands.
pub enum ProxyStage {
    CheckingInput,
    ResolvingCacheDir,
    ReadingMtime(String),
    ProbingCache(String),
    Transcoding(String),
    CheckingOutput(String),
    Done,
}

pub enum StageView {
    CheckingInput,
    ResolvingCacheDir,
    ReadingMtime(Seq<char>),
    ProbingCache(Seq<char>),
    Transcoding(Seq<char>),
    CheckingOutput(Seq<char>),
    Done,
}

impl View for ProxyStage {
    type V = StageView;

    open spec fn view(&self) -> StageView {
        match self {
            ProxyStage::CheckingInput => StageView::CheckingInput,
            ProxyStage::ResolvingCacheDir => StageView::ResolvingCacheDir,
            ProxyStage::ReadingMtime(d) => StageView::ReadingMtime(d@),
            ProxyStage::ProbingCache(p) => StageView::ProbingCache(p@),
            ProxyStage::Transcoding(p) => StageView::Transcoding(p@),
            ProxyStage::CheckingOutput(p) => StageView::CheckingOutput(p@),
            ProxyStage::Done => StageView::Done,
        }
    }
}

/// What the caller reports back to a proxy request.
pub enum ProxyEvent {
    /// Whether the source file exists.
    InputExists(bool),
    /// The proxy cache directory, or `None` where it could not be created.
    CacheDir(Option<String>),
    /// The source's modification time in seconds, or `None` where it could
    /// not be read.
    Mtime(Option<u64>),
    /// Whether the file last asked about exists.
    FileExists(bool),
    /// The transcoder exited, with its exit code and diagnostic output.
    ToolExited(Option<i32>, String),
    /// The transcoder could not be started.
    SpawnFailed(String),
}

pub enum EventView {
    InputExists(bool),
    CacheDir(Option<Seq<char>>),
    Mtime(Option<u64>),
    FileExists(bool),
    ToolExited(Option<i32>, Seq<char>),
    SpawnFailed(Seq<char>),
}

impl View for ProxyEvent {
    type V = EventView;

    open spec fn view(&self) -> EventView {
        match self {
            ProxyEvent::InputExists(b) => EventView::InputExists(*b),
            ProxyEvent::CacheDir(d) => EventView::CacheDir(
                match d {
                    Some(s) => Some(s@),
                    None => None,
                },
            ),
            ProxyEvent::Mtime(m) => EventView::Mtime(*m),
            ProxyEvent::FileExists(b) => EventView::FileExists(*b),
            ProxyEvent::ToolExited(c, s) => EventView::ToolExited(*c, s@),
            ProxyEvent::SpawnFailed(s) => EventView::SpawnFailed(s@),
        }
    }
}

/// What the caller is to do next for a proxy request.
pub enum ProxyAction {
    /// Test whether the source file exists.
    CheckInput(String),
    /// Find or create the proxy cache directory.
    ResolveCacheDir,
    /// Read the source's modification time.
    ReadMtime(String),
    /// Test whether a file exists.
    ProbeFile(String),
    /// Run the transcoder with these arguments and wait for it.
    RunTool(Vec<String>),
    /// The request is over.
    Finish(Result<String, ProxyError>),
    /// Nothing new: the event was not the one awaited.
    Wait,
}

pub enum ActionView {
    CheckInput(Seq<char>),
    ResolveCacheDir,
    ReadMtime(Seq<char>),
    ProbeFile(Seq<char>),
    RunTool(Seq<Seq<char>>),
    Finish(Result<Seq<char>, ProxyErrorView>),
    Wait,
}

impl View for ProxyAction {
    type V = ActionView;

    open spec fn view(&self) -> ActionView {
        match self {
            ProxyAction::CheckInput(p) => ActionView::CheckInput(p@),
            ProxyAction::ResolveCacheDir => ActionView::ResolveCacheDir,
            ProxyAction::ReadMtime(p) => ActionView::ReadMtime(p@),
            ProxyAction::ProbeFile(p) => ActionView::ProbeFile(p@),
            ProxyAction::RunTool(a) => ActionView::RunTool(texts(a@)),
            ProxyAction::Finish(r) => ActionView::Finish(
                match r {
                    Ok(p) => Ok(p@),
                    Err(e) => Err(e@),
                },
            ),
            ProxyAction::Wait => ActionView::Wait,
        }
    }
}

/// One step of a proxy request for the source `input`: the next stage and
/// what the caller is to do. An event that the stage does not await changes
/// nothing.
pub open spec fn proxy_step(input: Seq<char>, st: StageView, ev: EventView) -> (StageView, ActionView) {
    match (st, ev) {
        (StageView::CheckingInput, EventView::InputExists(true)) => (
            StageView::ResolvingCacheDir,
            ActionView::ResolveCacheDir,
        ),
        (StageView::CheckingInput, EventView::InputExists(false)) => (
            StageView::Done,
            ActionView::Finish(Err(ProxyErrorView::InputNotFound)),
        ),
        (StageView::ResolvingCacheDir, EventView::CacheDir(Some(dir))) => (
            StageView::ReadingMtime(dir),
            ActionView::ReadMtime(input),
        ),
        (StageView::ResolvingCacheDir, EventView::CacheDir(None)) => (
            StageView::Done,
            ActionView::Finish(Err(ProxyErrorView::CacheDirUnavailable)),
        ),
        (StageView::ReadingMtime(dir), EventView::Mtime(Some(m))) => {
            let p = cache_path(dir, input, m as nat);
            (StageView::ProbingCache(p), ActionView::ProbeFile(p))
        },
        (StageView::ReadingMtime(_), EventView::Mtime(None)) => (
            StageView::Done,
            ActionView::Finish(Err(ProxyErrorView::MetadataReadError)),
        ),
        (StageView::ProbingCache(p), EventView::FileExists(true)) => (
            StageView::Done,
            ActionView::Finish(Ok(p)),
        ),
        (StageView::ProbingCache(p), EventView::FileExists(false)) => (
            StageView::Transcoding(p),
            ActionView::RunTool(proxy_tokens(input, p)),
        ),
        (StageView::Transcoding(p), EventView::ToolExited(code, diag)) => if code == Some(0i32) {
            (StageView::CheckingOutput(p), ActionView::ProbeFile(p))
        } else {
            (StageView::Done, ActionView::Finish(Err(ProxyErrorView::TranscodeFailed(diag))))
        },
        (StageView::Transcoding(_), EventView::SpawnFailed(m)) => (
            StageView::Done,
            ActionView::Finish(Err(ProxyErrorView::SpawnError(m))),
        ),
        (StageView::CheckingOutput(p), EventView::FileExists(true)) => (
            StageView::Done,
            ActionView::Finish(Ok(p)),
        ),
        (StageView::CheckingOutput(_), EventView::FileExists(false)) => (
            StageView::Done,
            ActionView::Finish(Err(ProxyErrorView::OutputMissingAfterSuccess)),
        ),
        _ => (st, ActionView::Wait),
    }
}

/// The stage reached and the actions asked for after a run of events.
pub open spec fn proxy_run(input: Seq<char>, evs: Seq<EventView>) -> (StageView, Seq<ActionView>)
    decreases evs.len(),
{
    if evs.len() == 0 {
        (StageView::CheckingInput, seq![])
    } else {
        let (st, acts) = proxy_run(input, evs.drop_last());
        let (next, act) = proxy_step(input, st, evs.last());
        (next, acts.push(act))
    }
}

/// How many times the actions start the transcoder.
pub open spec fn spawns(acts: Seq<ActionView>) -> nat
    decreases acts.len(),
{
    if acts.len() == 0 {
        0
    } else {
        spawns(acts.drop_last()) + if acts.last() is RunTool {
            1nat
        } else {
            0nat
        }
    }
}

proof fn lemma_run_push(input: Seq<char>, evs: Seq<EventView>, e: EventView)
    ensures
        proxy_run(input, evs.push(e)) == ({
            let (st, acts) = proxy_run(input, evs);
            let (next, act) = proxy_step(input, st, e);
            (next, acts.push(act))
        }),
        spawns(proxy_run(input, evs.push(e)).1) == spawns(proxy_run(input, evs).1) + if proxy_step(
            input,
            proxy_run(input, evs).0,
            e,
        ).1 is RunTool {
            1nat
        } else {
            0nat
        },
{
    assert(evs.push(e).drop_last() =~= evs);
    let acts = proxy_run(input, evs).1;
    let act = proxy_step(input, proxy_run(input, evs).0, e).1;
    assert(acts.push(act).drop_last() =~= acts);
}

/// The events of a request that finds the source, the cache directory `dir`
/// and the modification time `m`.
pub open spec fn located(dir: Seq<char>, m: u64) -> Seq<EventView> {
    seq![EventView::InputExists(true), EventView::CacheDir(Some(dir)), EventView::Mtime(Some(m))]
}

proof fn lemma_located(input: Seq<char>, dir: Seq<char>, m: u64)
    ensures
        proxy_run(input, located(dir, m)).0 == StageView::ProbingCache(
            cache_path(dir, input, m as nat),
        ),
        proxy_run(input, located(dir, m)).1.last() == ActionView::ProbeFile(
            cache_path(dir, input, m as nat),
        ),
        spawns(proxy_run(input, located(dir, m)).1) == 0,
{
    let e0 = EventView::InputExists(true);
    let e1 = EventView::CacheDir(Some(dir));
    let e2 = EventView::Mtime(Some(m));
    let s0 = Seq::<EventView>::empty();
    assert(s0.len() == 0);
    lemma_run_push(input, s0, e0);
    lemma_run_push(input, s0.push(e0), e1);
    lemma_run_push(input, s0.push(e0).push(e1), e2);
    assert(s0.push(e0).push(e1).push(e2) =~= located(dir, m));
}

/// A cache entry is built once and then reused: a request that finds no
/// entry runs the transcoder once and returns the cache path; a later
/// request for the same source, unchanged, asks for that same path and,
/// finding it, returns it without starting the transcoder.
pub proof fn lemma_cache_reused(input: Seq<char>, dir: Seq<char>, m: u64, diag: Seq<char>)
    ensures
        ({
            let p = cache_path(dir, input, m as nat);
            let first = located(dir, m) + seq![
                EventView::FileExists(false),
                EventView::ToolExited(Some(0i32), diag),
                EventView::FileExists(true),
            ];
            let second = located(dir, m) + seq![EventView::FileExists(true)];
            &&& proxy_run(input, first).0 is Done
            &&& proxy_run(input, first).1.last() == ActionView::Finish(Ok(p))
            &&& spawns(proxy_run(input, first).1) == 1
            &&& proxy_run(input, second).0 is Done
            &&& proxy_run(input, second).1.last() == ActionView::Finish(Ok(p))
            &&& spawns(proxy_run(input, second).1) == 0
        }),
{
    let l = located(dir, m);
    lemma_located(input, dir, m);
    let a = EventView::FileExists(false);
    let b = EventView::ToolExited(Some(0i32), diag);
    let c = EventView::FileExists(true);
    lemma_run_push(input, l, a);
    lemma_run_push(input, l.push(a), b);
    lemma_run_push(input, l.push(a).push(b), c);
    assert(l.push(a).push(b).push(c) =~= l + seq![a, b, c]);
    lemma_run_push(input, l, c);
    assert(l.push(c) =~= l + seq![c]);
}

/// A changed modification time names a new cache entry: the request asks
/// for a path other than the one of the earlier time and, finding nothing
/// there, runs the transcoder with that new path as its output.
pub proof fn lemma_new_mtime_rebuilds(input: Seq<char>, dir: Seq<char>, m1: u64, m2: u64)
    requires
        m1 != m2,
    ensures
        ({
            let p1 = cache_path(dir, input, m1 as nat);
            let p2 = cache_path(dir, input, m2 as nat);
            let evs = located(dir, m2) + seq![EventView::FileExists(false)];
            &&& p1 != p2
            &&& proxy_run(input, located(dir, m2)).1.last() == ActionView::ProbeFile(p2)
            &&& proxy_run(input, evs).1.last() == ActionView::RunTool(proxy_tokens(input, p2))
            &&& spawns(proxy_run(input, evs).1) == 1
        }),
{
    lemma_cache_path_tracks_mtime(dir, input, m1 as nat, m2 as nat);
    lemma_located(input, dir, m2);
    let a = EventView::FileExists(false);
    lemma_run_push(input, located(dir, m2), a);
    assert(located(dir, m2).push(a) =~= located(dir, m2) + seq![a]);
}

proof fn lemma_done_stays(input: Seq<char>, pre: Seq<EventView>, rest: Seq<EventView>)
    requires
        proxy_run(input, pre).0 is Done,
    ensures
        proxy_run(input, pre + rest).0 is Done,
        spawns(proxy_run(input, pre + rest).1) == spawns(proxy_run(input, pre).1),
    decreases rest.len(),
{
    if rest.len() == 0 {
        assert(pre + rest =~= pre);
    } else {
        lemma_done_stays(input, pre, rest.drop_last());
        assert(pre + rest =~= (pre + rest.drop_last()).push(rest.last()));
        lemma_run_push(input, pre + rest.drop_last(), rest.last());
    }
}

/// A missing source ends the request at once with `InputNotFound`; whatever
/// is reported after that, the transcoder is never started.
pub proof fn lemma_missing_input(input: Seq<char>, rest: Seq<EventView>)
    ensures
        proxy_run(input, seq![EventView::InputExists(false)]).1 == seq![
            ActionView::Finish(Err(ProxyErrorView::InputNotFound)),
        ],
        spawns(proxy_run(input, seq![EventView::InputExists(false)] + rest).1) == 0,
{
    let e = EventView::InputExists(false);
    let s0 = Seq::<EventView>::empty();
    assert(s0.len() == 0);
    lemma_run_push(input, s0, e);
    assert(s0.push(e) =~= seq![e]);
    assert(proxy_run(input, s0).1.push(ActionView::Finish(Err(ProxyErrorView::InputNotFound)))
        =~= seq![ActionView::Finish(Err(ProxyErrorView::InputNotFound))]);
    lemma_done_stays(input, seq![e], rest);
}

/// A transcoder that exits with success but leaves no file at the cache
/// path makes the request fail with `OutputMissingAfterSuccess`.
pub proof fn lemma_output_missing(input: Seq<char>, dir: Seq<char>, m: u64, diag: Seq<char>)
    ensures
        ({
            let evs = located(dir, m) + seq![
                EventView::FileExists(false),
                EventView::ToolExited(Some(0i32), diag),
                EventView::FileExists(false),
            ];
            &&& proxy_run(input, evs).0 is Done
            &&& proxy_run(input, evs).1.last() == ActionView::Finish(
                Err(ProxyErrorView::OutputMissingAfterSuccess),
            )
        }),
{
    let l = located(dir, m);
    lemma_located(input, dir, m);
    let a = EventView::FileExists(false);
    let b = EventView::ToolExited(Some(0i32), diag);
    lemma_run_push(input, l, a);
    lemma_run_push(input, l.push(a), b);
    lemma_run_push(input, l.push(a).push(b), a);
    assert(l.push(a).push(b).push(a) =~= l + seq![a, b, a]);
}

/// One request for a proxy of a source file: validate, find the cache
/// entry, and build it only where it is missing.
pub struct ProxyJob {
    input: String,
    stage: ProxyStage,
}

impl ProxyJob {
    pub closed spec fn input(&self) -> Seq<char> {
        self.input@
    }

    pub closed spec fn stage(&self) -> StageView {
        self.stage@
    }

    /// Starts a request; the first action tests that the source exists.
    pub fn new(input: &str) -> (r: (ProxyJob, ProxyAction))
        ensures
            r.0.input() == input@,
            r.0.stage() == StageView::CheckingInput,
            r.1@ == ActionView::CheckInput(input@),
    {
        (
            ProxyJob { input: String::from_str(input), stage: ProxyStage::CheckingInput },
            ProxyAction::CheckInput(String::from_str(input)),
        )
    }

    /// Whether the request is over.
    pub fn is_done(&self) -> (r: bool)
        ensures
            r == (self.stage() is Done),
    {
        match self.stage {
            ProxyStage::Done => true,
            _ => false,
        }
    }

    /// Takes the caller's report on the last action and returns the next one.
    pub fn step(&mut self, ev: ProxyEvent) -> (r: ProxyAction)
        ensures
            final(self).input() == old(self).input(),
            (final(self).stage(), r@) == proxy_step(old(self).input(), old(self).stage(), ev@),
    {
        let mut stage = ProxyStage::Done;
        core::mem::swap(&mut stage, &mut self.stage);
        match (stage, ev) {
            (ProxyStage::CheckingInput, ProxyEvent::InputExists(exists)) => {
                if exists {
                    self.stage = ProxyStage::ResolvingCacheDir;
                    ProxyAction::ResolveCacheDir
                } else {
                    ProxyAction::Finish(Err(ProxyError::InputNotFound))
                }
            },
            (ProxyStage::ResolvingCacheDir, ProxyEvent::CacheDir(dir)) => {
                match dir {
                    Some(d) => {
                        self.stage = ProxyStage::ReadingMtime(d);
                        ProxyAction::ReadMtime(self.input.clone())
                    },
                    None => ProxyAction::Finish(Err(ProxyError::CacheDirUnavailable)),
                }
            },
            (ProxyStage::ReadingMtime(dir), ProxyEvent::Mtime(m)) => {
                match m {
                    Some(secs) => {
                        let p = proxy_cache_path(dir.as_str(), self.input.as_str(), secs);
                        self.stage = ProxyStage::ProbingCache(p.clone());
                        ProxyAction::ProbeFile(p)
                    },
                    None => ProxyAction::Finish(Err(ProxyError::MetadataReadError)),
                }
            },
            (ProxyStage::ProbingCache(p), ProxyEvent::FileExists(exists)) => {
                if exists {
                    ProxyAction::Finish(Ok(p))
                } else {
                    let args = proxy_command_args(self.input.as_str(), p.as_str());
                    self.stage = ProxyStage::Transcoding(p);
                    ProxyAction::RunTool(args)
                }
            },
            (ProxyStage::Transcoding(p), ProxyEvent::ToolExited(code, diag)) => {
                let ok = match code {
                    Some(c) => c == 0,
                    None => false,
                };
                if ok {
                    self.stage = ProxyStage::CheckingOutput(p.clone());
                    ProxyAction::ProbeFile(p)
                } else {
                    ProxyAction::Finish(Err(ProxyError::TranscodeFailed(diag)))
                }
            },
            (ProxyStage::Transcoding(_), ProxyEvent::SpawnFailed(m)) => {
                ProxyAction::Finish(Err(ProxyError::SpawnError(m)))
            },
            (ProxyStage::CheckingOutput(p), ProxyEvent::FileExists(exists)) => {
                if exists {
                    ProxyAction::Finish(Ok(p))
                } else {
                    ProxyAction::Finish(Err(ProxyError::OutputMissingAfterSuccess))
                }
            },
            (other, _) => {
                self.stage = other;
                ProxyAction::Wait
            },
        }
    }
}

} // verus!
