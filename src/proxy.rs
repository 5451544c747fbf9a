use vstd::prelude::*;
use vstd::utf8::encode_utf8;
use crate::decimal::{decimal, format_u64, lemma_decimal_injective};
use crate::export::texts;

verus! {

pub const FNV_OFFSET: u64 = 14695981039346656037u64;

pub const FNV_PRIME: u64 = 1099511628211u64;

/// The 64-bit FNV-1a hash of a byte string.
pub open spec fn fnv1a(b: Seq<u8>) -> u64
    decreases b.len(),
{
    if b.len() == 0 {
        FNV_OFFSET
    } else {
        (fnv1a(b.drop_last()) ^ (b.last() as u64)).wrapping_mul(FNV_PRIME)
    }
}

/// The cache file name of a source: the hash of its path (of the path text,
/// not of the file's bytes), then its modification time in seconds.
pub open spec fn cache_name(input: Seq<char>, mtime: nat) -> Seq<char> {
    decimal(fnv1a(encode_utf8(input)) as nat) + "_"@ + decimal(mtime) + ".mp4"@
}

pub open spec fn cache_path(dir: Seq<char>, input: Seq<char>, mtime: nat) -> Seq<char> {
    dir + "/"@ + cache_name(input, mtime)
}

/// The transcoder's arguments for a proxy: hardware decode and encode, a
/// fixed bitrate, the height brought to 540 with the aspect ratio kept.
pub open spec fn proxy_tokens(input: Seq<char>, output: Seq<char>) -> Seq<Seq<char>> {
    seq![
        "-hwaccel"@,
        "auto"@,
        "-i"@,
        input,
        "-vf"@,
        "scale=-2:540"@,
        "-c:v"@,
        "h264_videotoolbox"@,
        "-b:v"@,
        "2M"@,
        "-c:a"@,
        "aac"@,
        "-y"@,
        output,
    ]
}

/// Hashes the text of a path with 64-bit FNV-1a.
pub fn path_hash(path: &str) -> (r: u64)
    ensures
        r == fnv1a(encode_utf8(path@)),
{
    let bytes = path.as_bytes();
    let mut h: u64 = FNV_OFFSET;
    let mut i: usize = 0;
    while i < bytes.len()
        invariant
            i <= bytes@.len(),
            bytes@ == encode_utf8(path@),
            h == fnv1a(bytes@.subrange(0, i as int)),
        decreases bytes@.len() - i,
    {
        let ghost prefix = bytes@.subrange(0, i as int);
        let ghost next = bytes@.subrange(0, i as int + 1);
        assert(next.drop_last() =~= prefix);
        h = (h ^ (bytes[i] as u64)).wrapping_mul(FNV_PRIME);
        i = i + 1;
    }
    assert(bytes@.subrange(0, i as int) =~= bytes@);
    h
}

/// The path of the cached proxy of `input`, last modified at `mtime`, in `dir`.
pub fn proxy_cache_path(dir: &str, input: &str, mtime: u64) -> (r: String)
    ensures
        r@ == cache_path(dir@, input@, mtime as nat),
{
    let hash = format_u64(path_hash(input));
    let time = format_u64(mtime);
    let r = String::from_str(dir).concat("/").concat(hash.as_str()).concat("_").concat(
        time.as_str(),
    ).concat(".mp4");
    proof {
        assert(r@ =~= cache_path(dir@, input@, mtime as nat));
    }
    r
}

/// Builds the transcoder's argument list for a proxy of `input` at `output`.
pub fn proxy_command_args(input: &str, output: &str) -> (r: Vec<String>)
    ensures
        texts(r@) == proxy_tokens(input@, output@),
{
    let mut r: Vec<String> = Vec::new();
    r.push(String::from_str("-hwaccel"));
    r.push(String::from_str("auto"));
    r.push(String::from_str("-i"));
    r.push(String::from_str(input));
    r.push(String::from_str("-vf"));
    r.push(String::from_str("scale=-2:540"));
    r.push(String::from_str("-c:v"));
    r.push(String::from_str("h264_videotoolbox"));
    r.push(String::from_str("-b:v"));
    r.push(String::from_str("2M"));
    r.push(String::from_str("-c:a"));
    r.push(String::from_str("aac"));
    r.push(String::from_str("-y"));
    r.push(String::from_str(output));
    assert(texts(r@) =~= proxy_tokens(input@, output@));
    r
}

/// Two modification times of one source give two different cache paths.
pub proof fn lemma_cache_path_tracks_mtime(dir: Seq<char>, input: Seq<char>, m1: nat, m2: nat)
    requires
        m1 != m2,
    ensures
        cache_path(dir, input, m1) != cache_path(dir, input, m2),
{
    let head = dir + "/"@ + decimal(fnv1a(encode_utf8(input)) as nat) + "_"@;
    let tail = ".mp4"@;
    let p1 = cache_path(dir, input, m1);
    let p2 = cache_path(dir, input, m2);
    assert(p1 =~= head + decimal(m1) + tail);
    assert(p2 =~= head + decimal(m2) + tail);
    if p1 == p2 {
        let d1 = decimal(m1);
        let d2 = decimal(m2);
        assert(p1.len() == p2.len());
        assert(p1.subrange(head.len() as int, p1.len() - tail.len()) =~= d1);
        assert(p2.subrange(head.len() as int, p2.len() - tail.len()) =~= d2);
        lemma_decimal_injective(m1, m2);
    }
}

} // verus!
