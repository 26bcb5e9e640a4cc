use fluxforge::config::{AppConfig, CalendarDate};
use fluxforge::probe::parse_ffprobe_output;
use fluxforge::result::ConvertError;
use fluxforge::video::{
    convert_to_gif, estimate_gif_size, finish_gif, get_info, probe_call, seconds_string, GifOptions, ToolOutcome,
};

fn opts(start_ms: u64, end_ms: u64, quality: u32) -> GifOptions {
    GifOptions { start_ms, end_ms, width: 320, height: 240, fps: 10, quality, output_name: "clip".to_string() }
}

fn config() -> AppConfig {
    AppConfig {
        export_folder: "/home/u/Documents".to_string(),
        export_folder_name: "FluxForge".to_string(),
        theme: "dark".to_string(),
        default_pdf_dpi: 150,
        auto_create_date_folders: true,
        cloud_sync_folder: None,
    }
}

fn day() -> CalendarDate {
    CalendarDate { year: 2025, month: 12, day: 1 }
}

#[test]
fn estimate_reference_case() {
    let e = estimate_gif_size("v.mp4", &opts(0, 10_000, 3));
    assert_eq!(e.frame_count, 100);
    assert_eq!(e.estimated_bytes, 921_600);
    assert_eq!(e.estimated_size_tenths_mb, 9);
    assert_eq!(e.duration_ms, 10_000);
}

#[test]
fn estimate_quality_fallback() {
    let base = estimate_gif_size("v", &opts(0, 10_000, 3));
    for q in [0u32, 6, 7, 100, u32::MAX] {
        assert_eq!(estimate_gif_size("v", &opts(0, 10_000, q)), base);
    }
    assert_eq!(estimate_gif_size("v", &opts(0, 10_000, 1)).estimated_bytes, 384_000);
    assert_eq!(estimate_gif_size("v", &opts(0, 10_000, 5)).estimated_bytes, 1_920_000);
}

#[test]
fn estimate_edges() {
    let e = estimate_gif_size("v", &opts(5_000, 2_000, 3));
    assert_eq!(e.frame_count, 0);
    assert_eq!(e.estimated_bytes, 0);
    assert_eq!(e.duration_ms, -3_000);
    let f = estimate_gif_size("v", &opts(0, 1_550, 3));
    assert_eq!(f.frame_count, 15);
    let big = GifOptions { start_ms: 0, end_ms: u64::MAX, width: u32::MAX, height: u32::MAX, fps: u32::MAX, quality: 5, output_name: String::new() };
    assert_eq!(estimate_gif_size("v", &big).frame_count, u32::MAX);
}

#[test]
fn reversed_window_is_refused() {
    assert!(matches!(convert_to_gif(&config(), "/v.mp4", &opts(4_000, 4_000, 3), day()), Err(ConvertError::InvalidRequest(m)) if m == "the end time must be after the start time"));
    assert!(matches!(convert_to_gif(&config(), "/v.mp4", &opts(5_000, 1_000, 3), day()), Err(ConvertError::InvalidRequest(_))));
    let mut o = opts(0, 1_000, 3);
    o.width = 0;
    assert!(matches!(convert_to_gif(&config(), "/v.mp4", &o, day()), Err(ConvertError::InvalidRequest(m)) if m == "width, height and frame rate must be positive"));
}

#[test]
fn transcode_arguments() {
    let job = convert_to_gif(&config(), "/in/v.mp4", &opts(1_500, 4_000, 3), day()).unwrap();
    assert_eq!(job.output_folder, "/home/u/Documents/FluxForge/GIF/2025-12-01");
    assert_eq!(job.output_path, "/home/u/Documents/FluxForge/GIF/2025-12-01/clip.gif");
    assert_eq!(job.call.program, "ffmpeg");
    let expected: Vec<String> = [
        "-y", "-ss", "1.5", "-t", "2.5", "-i", "/in/v.mp4", "-filter_complex",
        "[0:v] fps=10,scale=320:240:flags=lanczos[x]; [x] split [a][b]; [a] palettegen=stats_mode=diff [p]; [b][p] paletteuse=dither=bayer:bayer_scale=5:diff_mode=rectangle",
        "/home/u/Documents/FluxForge/GIF/2025-12-01/clip.gif",
    ]
    .iter()
    .map(|s| s.to_string())
    .collect();
    assert_eq!(job.call.args, expected);
    let mut named = opts(0, 1_000, 3);
    named.output_name = "done.gif".to_string();
    assert!(convert_to_gif(&config(), "v", &named, day()).unwrap().output_path.ends_with("/done.gif"));
}

#[test]
fn failing_transcoder_reports_stderr() {
    let job = convert_to_gif(&config(), "/in/v.mp4", &opts(0, 1_000, 3), day()).unwrap();
    let r = finish_gif(&job, ToolOutcome::Finished { success: false, stderr: "Invalid data found".to_string() });
    assert!(matches!(r, Err(ConvertError::EncodingError(m)) if m == "FFmpeg error: Invalid data found"));
    let r = finish_gif(&job, ToolOutcome::NotStarted("No such file".to_string()));
    assert!(matches!(r, Err(ConvertError::ExecutionError(m)) if m.contains("No such file")));
    let ok = finish_gif(&job, ToolOutcome::Finished { success: true, stderr: String::new() }).unwrap();
    assert!(ok.success);
    assert_eq!(ok.output_files, vec![job.output_path.clone()]);
    assert_eq!(ok.output_folder, job.output_folder);
}

#[test]
fn seconds_rendering() {
    assert_eq!(seconds_string(0), "0");
    assert_eq!(seconds_string(10_000), "10");
    assert_eq!(seconds_string(1_500), "1.5");
    assert_eq!(seconds_string(1_050), "1.05");
    assert_eq!(seconds_string(42), "0.042");
}

#[test]
fn probe_report_parsing() {
    let json = r#"{"streams":[{"width": 640,"height":360}],"format":{"duration": "12.3456"}}"#;
    let v = parse_ffprobe_output(json, "/v.mp4");
    assert_eq!(v.path, "/v.mp4");
    assert_eq!(v.width, 640);
    assert_eq!(v.height, 360);
    assert_eq!(v.duration_ms, 12_345);
    assert_eq!(v.fps, 30);
}

#[test]
fn probe_report_defaults() {
    let v = parse_ffprobe_output("{}", "p");
    assert_eq!((v.duration_ms, v.width, v.height), (0, 1920, 1080));
    let v = parse_ffprobe_output(r#"{"width":"x","height":99999999999,"duration":"1.2.3"}"#, "p");
    assert_eq!((v.duration_ms, v.width, v.height), (0, 1920, 1080));
    let v = parse_ffprobe_output(r#"{"duration":".5"}"#, "p");
    assert_eq!(v.duration_ms, 500);
    let v = get_info("p", None);
    assert_eq!((v.duration_ms, v.width, v.height, v.fps), (0, 1920, 1080, 30));
    let v = get_info("p", Some(r#"{"width":7}"#.to_string()));
    assert_eq!(v.width, 7);
}

#[test]
fn probe_invocation() {
    let c = probe_call("/a b.mp4");
    assert_eq!(c.program, "ffprobe");
    assert_eq!(c.args, vec!["-v", "quiet", "-print_format", "json", "-show_format", "-show_streams", "/a b.mp4"]);
}
