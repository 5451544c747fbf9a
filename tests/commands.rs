use clip_engine::codec::{codec_answer, codec_probe_args, inspect_codec, ProbeRun};
use clip_engine::decimal::{format_i64, format_u64};
use clip_engine::export::{crop_filter_text, export_command_args, ClipSelection, CropArea, ExportArgs};
use clip_engine::proxy::{path_hash, proxy_cache_path, proxy_command_args};

#[test]
fn decimal_text() {
    assert_eq!(format_u64(0), "0");
    assert_eq!(format_u64(7), "7");
    assert_eq!(format_u64(10), "10");
    assert_eq!(format_u64(1234567890), "1234567890");
    assert_eq!(format_u64(u64::MAX), "18446744073709551615");
    assert_eq!(format_i64(-42), "-42");
    assert_eq!(format_i64(i64::MIN), "-9223372036854775808");
    assert_eq!(format_i64(0), "0");
}

#[test]
fn crop_filter_is_width_height_x_y() {
    let c = CropArea { x: 10, y: 20, width: 640, height: 360 };
    assert_eq!(crop_filter_text(&c), "crop=640:360:10:20");
}

#[test]
fn export_arguments_in_order() {
    let a = ExportArgs {
        input_path: "/in/my clip.mov".to_string(),
        output_path: "/out/a.mp4".to_string(),
        selection: ClipSelection { start: "1.5".to_string(), end: "3.25".to_string() },
        crop: CropArea { x: 0, y: 0, width: 1920, height: 1080 },
    };
    let args = export_command_args(&a);
    assert_eq!(
        args,
        vec![
            "-i", "/in/my clip.mov", "-ss", "1.5", "-to", "3.25", "-filter:v",
            "crop=1920:1080:0:0", "-c:a", "copy", "-y", "/out/a.mp4"
        ]
    );
}

#[test]
fn fnv_hash_of_known_texts() {
    assert_eq!(path_hash(""), 0xcbf29ce484222325);
    assert_eq!(path_hash("a"), 0xaf63dc4c8601ec8c);
    assert_eq!(path_hash("foobar"), 0x85944171f73967e8);
}

#[test]
fn cache_path_layout() {
    let p = proxy_cache_path("/cache/proxies", "a", 1700000000);
    assert_eq!(p, format!("/cache/proxies/{}_1700000000.mp4", 0xaf63dc4c8601ec8cu64));
}

#[test]
fn cache_path_changes_with_mtime() {
    let p1 = proxy_cache_path("/c", "/v/clip.mov", 100);
    let p2 = proxy_cache_path("/c", "/v/clip.mov", 101);
    assert_ne!(p1, p2);
    assert_eq!(p1, proxy_cache_path("/c", "/v/clip.mov", 100));
}

#[test]
fn proxy_arguments() {
    let args = proxy_command_args("/v/in.mov", "/c/x.mp4");
    assert_eq!(args[3], "/v/in.mov");
    assert_eq!(args[args.len() - 1], "/c/x.mp4");
    assert!(args.iter().any(|a| a == "-hwaccel"));
    assert!(args.iter().any(|a| a == "-b:v"));
}

#[test]
fn probe_arguments_end_with_input() {
    let args = codec_probe_args("/v/in.mov");
    assert_eq!(args.len(), 9);
    assert_eq!(args[8], "/v/in.mov");
    assert_eq!(args[3], "v:0");
}

#[test]
fn codec_is_trimmed() {
    let r = inspect_codec(&ProbeRun::Exited(Some(0), "h264\n".to_string(), String::new()));
    assert_eq!(r, Ok("h264".to_string()));
}

#[test]
fn codec_failure_carries_diagnostics() {
    let r = inspect_codec(&ProbeRun::Exited(Some(1), String::new(), "no such file".to_string()));
    let e = r.unwrap_err();
    assert!(e.contains("no such file"));
}

#[test]
fn codec_empty_output_is_empty_codec() {
    let r = inspect_codec(&ProbeRun::Exited(Some(0), "  \n".to_string(), String::new()));
    assert_eq!(r, Ok(String::new()));
}

#[test]
fn codec_spawn_failure() {
    let r = inspect_codec(&ProbeRun::SpawnFailed("not found".to_string()));
    assert_eq!(r, Err("Failed to run ffprobe: not found".to_string()));
}

#[test]
fn codec_answer_without_code_fails() {
    assert_eq!(
        codec_answer(None, "h264".to_string(), "killed"),
        Err("ffprobe failed: killed".to_string())
    );
    assert_eq!(codec_answer(Some(0), "hevc".to_string(), ""), Ok("hevc".to_string()));
}
