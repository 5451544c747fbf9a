use vstd::prelude::*;
use crate::export::texts;

verus! {

/// What `str::trim` returns for a text.
pub uninterp spec fn trimmed(s: Seq<char>) -> Seq<char>;

/// Relies on `str::trim`: the result is `s` with its leading and trailing
/// whitespace removed, which depends on the text alone.
#[verifier::external_body]
fn trim_text(s: &str) -> (r: String)
    ensures
        r@ == trimmed(s@),
{
    s.trim().to_string()
}

/// How a run of the probe tool went.
pub enum ProbeRun {
    /// The tool could not be started; the system's message.
    SpawnFailed(String),
    /// The tool ran and exited, with its exit code and both outputs.
    Exited(Option<i32>, String, String),
}

/// The probe tool's arguments: the codec name of the first video stream of
/// `input`, printed bare.
pub open spec fn probe_tokens(input: Seq<char>) -> Seq<Seq<char>> {
    seq![
        "-v"@,
        "error"@,
        "-select_streams"@,
        "v:0"@,
        "-show_entries"@,
        "stream=codec_name"@,
        "-of"@,
        "default=noprint_wrappers=1:nokey=1"@,
        input,
    ]
}

/// The answer for a probe that exited with `code`, given its trimmed
/// primary output and its diagnostic output.
pub open spec fn codec_answer_of(code: Option<i32>, out: Seq<char>, diag: Seq<char>) -> Result<
    Seq<char>,
    Seq<char>,
> {
    if code == Some(0i32) {
        Ok(out)
    } else {
        Err("ffprobe failed: "@ + diag)
    }
}

/// Builds the probe tool's argument list for `input`.
pub fn codec_probe_args(input: &str) -> (r: Vec<String>)
    ensures
        texts(r@) == probe_tokens(input@),
{
    let mut r: Vec<String> = Vec::new();
    r.push(String::from_str("-v"));
    r.push(String::from_str("error"));
    r.push(String::from_str("-select_streams"));
    r.push(String::from_str("v:0"));
    r.push(String::from_str("-show_entries"));
    r.push(String::from_str("stream=codec_name"));
    r.push(String::from_str("-of"));
    r.push(String::from_str("default=noprint_wrappers=1:nokey=1"));
    r.push(String::from_str(input));
    assert(texts(r@) =~= probe_tokens(input@));
    r
}

/// Decides the codec answer from an exit code, the trimmed primary output
/// and the diagnostic output: the codec on success, else an error that
/// carries the diagnostic output. An empty output is an empty codec, not an
/// error.
pub fn codec_answer(code: Option<i32>, out: String, diag: &str) -> (r: Result<String, String>)
    ensures
        match r {
            Ok(s) => codec_answer_of(code, out@, diag@) == Ok::<Seq<char>, Seq<char>>(s@),
            Err(e) => codec_answer_of(code, out@, diag@) == Err::<Seq<char>, Seq<char>>(e@),
        },
{
    let ok = match code {
        Some(c) => c == 0,
        None => false,
    };
    if ok {
        Ok(out)
    } else {
        Err(String::from_str("ffprobe failed: ").concat(diag))
    }
}

/// The codec of the first video stream, from a run of the probe tool: its
/// primary output trimmed where it exited with 0, an error otherwise.
pub fn inspect_codec(run: &ProbeRun) -> (r: Result<String, String>)
    ensures
        match run {
            ProbeRun::SpawnFailed(m) => r is Err && r->Err_0@ == "Failed to run ffprobe: "@ + m@,
            ProbeRun::Exited(code, out, diag) => match r {
                Ok(s) => codec_answer_of(*code, trimmed(out@), diag@) == Ok::<
                    Seq<char>,
                    Seq<char>,
                >(s@),
                Err(e) => codec_answer_of(*code, trimmed(out@), diag@) == Err::<
                    Seq<char>,
                    Seq<char>,
                >(e@),
            },
        },
{
    match run {
        ProbeRun::SpawnFailed(m) => Err(String::from_str("Failed to run ffprobe: ").concat(m.as_str())),
        ProbeRun::Exited(code, out, diag) => {
            let t = trim_text(out.as_str());
            codec_answer(*code, t, diag.as_str())
        },
    }
}

} // verus!
