//! Video side: GIF size estimation, the palette-based transcode invocation and
//! its outcome, and the media probe invocation and its parsing.
use vstd::prelude::*;
use crate::archive::archive_file_name_exec;
use crate::archive::archive_file_name;
use crate::config::{AppConfig, CalendarDate, Category, output_dir, get_output_path};
use crate::paths::{join, join_exec};
use crate::result::{ConvertError, ConvertResult};
use crate::text::{strings_view, chars_of, decimal, padded_decimal, push_all, push_decimal, push_padded_decimal, string_of};

verus! {

/// What a video is: its length, frame size and frame rate. Durations are in
/// milliseconds.
#[derive(Debug, Clone)]
pub struct VideoInfo {
    pub path: String,
    pub duration_ms: u64,
    pub width: u32,
    pub height: u32,
    pub fps: u32,
}

/// A GIF conversion request: the window `[start_ms, end_ms)`, the target frame
/// size and rate, a quality tier (1 to 5), and the output's base name.
#[derive(Debug, Clone)]
pub struct GifOptions {
    pub start_ms: u64,
    pub end_ms: u64,
    pub width: u32,
    pub height: u32,
    pub fps: u32,
    pub quality: u32,
    pub output_name: String,
}

/// A predicted GIF size: whole bytes, megabytes in tenths (rounded half up),
/// the window's length in milliseconds (negative for a reversed window), and
/// the number of frames.
#[derive(Debug, Clone, Copy, PartialEq, Eq, Structural)]
pub struct GifEstimate {
    pub estimated_bytes: u128,
    pub estimated_size_tenths_mb: u128,
    pub duration_ms: i128,
    pub frame_count: u32,
}

/// Bytes per pixel per frame of each quality tier, in hundredths; tiers outside
/// 1 to 5 use the tier-3 value.
pub open spec fn bytes_per_pixel_hundredths(q: u32) -> nat {
    if q == 1 { 5 }
    else if q == 2 { 8 }
    else if q == 3 { 12 }
    else if q == 4 { 18 }
    else if q == 5 { 25 }
    else { 12 }
}

/// `floor(duration * fps)`, saturated to `u32`; zero for an empty or reversed window.
pub open spec fn frame_count_of(o: GifOptions) -> nat {
    if o.end_ms <= o.start_ms {
        0
    } else {
        let f = ((o.end_ms - o.start_ms) * o.fps) as nat / 1000;
        if f > u32::MAX { u32::MAX as nat } else { f }
    }
}

/// The predicted size in hundredths of a byte: pixels times the tier's bytes
/// per pixel times frames.
pub open spec fn scaled_bytes(o: GifOptions) -> nat {
    o.width as nat * o.height as nat * bytes_per_pixel_hundredths(o.quality) * frame_count_of(o)
}

/// The estimate for `o`.
pub open spec fn estimate_of(o: GifOptions) -> GifEstimate {
    GifEstimate {
        estimated_bytes: (scaled_bytes(o) / 100) as u128,
        estimated_size_tenths_mb: ((scaled_bytes(o) * 10 + 52428800) / 104857600) as u128,
        duration_ms: (o.end_ms - o.start_ms) as i128,
        frame_count: frame_count_of(o) as u32,
    }
}

/// Tiers outside 1 to 5 fall back to the tier-3 coefficient.
pub proof fn lemma_quality_fallback(q: u32)
    requires
        q < 1 || q > 5,
    ensures
        bytes_per_pixel_hundredths(q) == bytes_per_pixel_hundredths(3),
{
}

/// Higher tiers never predict less per pixel.
pub proof fn lemma_quality_monotone(a: u32, b: u32)
    requires
        1 <= a <= b <= 5,
    ensures
        bytes_per_pixel_hundredths(a) <= bytes_per_pixel_hundredths(b),
{
}

fn bytes_per_pixel(q: u32) -> (r: u128)
    ensures
        r == bytes_per_pixel_hundredths(q),
{
    if q == 1 { 5 }
    else if q == 2 { 8 }
    else if q == 3 { 12 }
    else if q == 4 { 18 }
    else if q == 5 { 25 }
    else { 12 }
}

/// Predicts the size of the GIF that `options` would produce. A coarse,
/// advisory model; `path` is not read.
pub fn estimate_gif_size(path: &str, options: &GifOptions) -> (r: GifEstimate)
    ensures
        r == estimate_of(*options),
{
    let frames: u32 = if options.end_ms <= options.start_ms {
        0
    } else {
        let d = (options.end_ms - options.start_ms) as u128;
        let fp = options.fps as u128;
        assert(d as int * fp as int <= u64::MAX as int * u32::MAX as int) by (nonlinear_arith)
            requires d <= u64::MAX, fp <= u32::MAX;
        let f = d * fp / 1000;
        if f > u32::MAX as u128 { u32::MAX } else { f as u32 }
    };
    let bpp = bytes_per_pixel(options.quality);
    let w = options.width as u128;
    let h = options.height as u128;
    assert(w as int * h as int <= u32::MAX as int * u32::MAX as int) by (nonlinear_arith)
        requires w <= u32::MAX, h <= u32::MAX;
    let wh = w * h;
    let whb = wh * bpp;
    assert(whb <= u32::MAX as u128 * u32::MAX as u128 * 25) by (nonlinear_arith)
        requires whb == wh * bpp, wh <= u32::MAX as u128 * u32::MAX as u128, bpp <= 25;
    let fr = frames as u128;
    assert(whb as int * fr as int <= u32::MAX as int * u32::MAX as int * 25 * u32::MAX as int) by (nonlinear_arith)
        requires whb <= u32::MAX as int * u32::MAX as int * 25, fr <= u32::MAX;
    let scaled = whb * fr;
    assert(scaled == scaled_bytes(*options));
    let duration: i128 = options.end_ms as i128 - options.start_ms as i128;
    GifEstimate {
        estimated_bytes: scaled / 100,
        estimated_size_tenths_mb: (scaled * 10 + 52428800) / 104857600,
        duration_ms: duration,
        frame_count: frames,
    }
}

/// The fractional part `f` (1 to 999 milliseconds) as decimal digits without
/// trailing zeros.
pub open spec fn fraction_text(f: nat) -> Seq<char> {
    if f % 100 == 0 {
        decimal(f / 100)
    } else if f % 10 == 0 {
        padded_decimal(f / 10, 2)
    } else {
        padded_decimal(f, 3)
    }
}

/// `ms` milliseconds as seconds in decimal: `12`, `1.5`, `0.042`.
pub open spec fn seconds_text(ms: nat) -> Seq<char> {
    let f = ms % 1000;
    if f == 0 {
        decimal(ms / 1000)
    } else {
        decimal(ms / 1000) + seq!['.'] + fraction_text(f)
    }
}

/// Renders `ms` milliseconds as seconds (see `seconds_text`).
pub fn seconds_string(ms: u64) -> (r: String)
    ensures
        r@ == seconds_text(ms as nat),
{
    let mut out: Vec<char> = Vec::new();
    push_decimal(&mut out, ms / 1000);
    let f = ms % 1000;
    if f != 0 {
        out.push('.');
        if f % 100 == 0 {
            push_decimal(&mut out, f / 100);
        } else if f % 10 == 0 {
            push_padded_decimal(&mut out, f / 10, 2);
        } else {
            push_padded_decimal(&mut out, f, 3);
        }
    }
    proof {
        assert(out@ =~= seconds_text(ms as nat));
    }
    string_of(&out)
}

/// The two-stage filter graph: sample at the target rate, scale with Lanczos
/// resampling, build an adaptive palette tuned to frame differences, then map
/// the frames onto it with ordered (Bayer) dithering.
pub open spec fn palette_filter(o: GifOptions) -> Seq<char> {
    "[0:v] fps="@ + decimal(o.fps as nat) + ",scale="@ + decimal(o.width as nat) + ":"@
        + decimal(o.height as nat) + PALETTE_TAIL@
}

pub const PALETTE_TAIL: &'static str = ":flags=lanczos[x]; [x] split [a][b]; [a] palettegen=stats_mode=diff [p]; [b][p] paletteuse=dither=bayer:bayer_scale=5:diff_mode=rectangle";

/// The transcoder's arguments: overwrite the output, trim to the window, read
/// `input`, apply the filter graph, write `output`.
pub open spec fn gif_args(o: GifOptions, input: Seq<char>, output: Seq<char>) -> Seq<Seq<char>> {
    seq![
        "-y"@,
        "-ss"@,
        seconds_text(o.start_ms as nat),
        "-t"@,
        seconds_text((o.end_ms - o.start_ms) as nat),
        "-i"@,
        input,
        "-filter_complex"@,
        palette_filter(o),
        output,
    ]
}

/// A request that can be handed to the transcoder: a non-empty window and a
/// non-zero frame size and rate.
pub open spec fn valid_request(o: GifOptions) -> bool {
    o.end_ms > o.start_ms && o.width > 0 && o.height > 0 && o.fps > 0
}

/// The file a GIF conversion writes on day `d`.
pub open spec fn gif_output_path(c: AppConfig, o: GifOptions, d: CalendarDate) -> Seq<char> {
    join(output_dir(c, Category::Gif, d), archive_file_name(o.output_name@, "gif"@))
}

/// An external program to run: its name and arguments.
#[derive(Debug, Clone)]
pub struct ToolCall {
    pub program: String,
    pub args: Vec<String>,
}

/// A planned GIF conversion: where it writes and what to run.
#[derive(Debug, Clone)]
pub struct GifJob {
    pub output_folder: String,
    pub output_path: String,
    pub call: ToolCall,
}

fn lit(s: &str) -> (r: String)
    ensures
        r@ == s@,
{
    string_of(&chars_of(s))
}

fn filter_string(o: &GifOptions) -> (r: String)
    ensures
        r@ == palette_filter(*o),
{
    let mut v = chars_of("[0:v] fps=");
    push_decimal(&mut v, o.fps as u64);
    push_all(&mut v, &chars_of(",scale="));
    push_decimal(&mut v, o.width as u64);
    push_all(&mut v, &chars_of(":"));
    push_decimal(&mut v, o.height as u64);
    push_all(&mut v, &chars_of(PALETTE_TAIL));
    assert(v@ =~= palette_filter(*o));
    string_of(&v)
}

/// Plans the conversion of the video at `path` on day `today`. An invalid
/// request is refused before anything is run.
pub fn convert_to_gif(config: &AppConfig, path: &str, options: &GifOptions, today: CalendarDate) -> (r: Result<GifJob, ConvertError>)
    ensures
        !valid_request(*options) <==> (r matches Err(e) && e is InvalidRequest),
        options.end_ms <= options.start_ms ==> (r matches Err(ConvertError::InvalidRequest(t))
            && t@ == "the end time must be after the start time"@),
        options.end_ms > options.start_ms && !valid_request(*options) ==> (r matches Err(ConvertError::InvalidRequest(t))
            && t@ == "width, height and frame rate must be positive"@),
        r matches Err(e) ==> e is InvalidRequest,
        r matches Ok(job) ==> {
            &&& job.output_folder@ == output_dir(*config, Category::Gif, today)
            &&& job.output_path@ == gif_output_path(*config, *options, today)
            &&& job.call.program@ == "ffmpeg"@
            &&& strings_view(job.call.args@) == gif_args(*options, path@, job.output_path@)
        },
{
    if options.end_ms <= options.start_ms {
        return Err(ConvertError::InvalidRequest(lit("the end time must be after the start time")));
    }
    if options.width == 0 || options.height == 0 || options.fps == 0 {
        return Err(ConvertError::InvalidRequest(lit("width, height and frame rate must be positive")));
    }
    let folder = get_output_path(config, Category::Gif, today);
    let gif = chars_of("gif");
    let file = archive_file_name_exec(options.output_name.as_str(), &gif);
    let out_path = string_of(&join_exec(&chars_of(folder.as_str()), &file));
    let mut args: Vec<String> = Vec::new();
    args.push(lit("-y"));
    args.push(lit("-ss"));
    args.push(seconds_string(options.start_ms));
    args.push(lit("-t"));
    args.push(seconds_string(options.end_ms - options.start_ms));
    args.push(lit("-i"));
    args.push(lit(path));
    args.push(lit("-filter_complex"));
    args.push(filter_string(options));
    args.push(out_path.clone());
    assert(strings_view(args@) =~= gif_args(*options, path@, out_path@));
    Ok(GifJob {
        output_folder: folder,
        output_path: out_path,
        call: ToolCall { program: lit("ffmpeg"), args },
    })
}

/// How a run of an external tool ended.
#[derive(Debug, Clone)]
pub enum ToolOutcome {
    /// The tool could not be started; the operating system's message.
    NotStarted(String),
    /// The tool ran; whether it exited with status zero, and its error stream.
    Finished { success: bool, stderr: String },
}

/// The result of a planned conversion once the transcoder has run.
pub fn finish_gif(job: &GifJob, outcome: ToolOutcome) -> (r: Result<ConvertResult, ConvertError>)
    ensures
        match outcome {
            ToolOutcome::NotStarted(m) => r matches Err(ConvertError::ExecutionError(t))
                && t@ == "FFmpeg not found or failed to execute: "@ + m@,
            ToolOutcome::Finished { success: false, stderr } => r matches Err(ConvertError::EncodingError(t))
                && t@ == "FFmpeg error: "@ + stderr@,
            ToolOutcome::Finished { success: true, .. } => r matches Ok(res) && {
                &&& res.success
                &&& res.output_files@.len() == 1
                &&& res.output_files@[0]@ == job.output_path@
                &&& res.output_folder@ == job.output_folder@
            },
        },
{
    match outcome {
        ToolOutcome::NotStarted(m) => {
            let mut t = chars_of("FFmpeg not found or failed to execute: ");
            push_all(&mut t, &chars_of(m.as_str()));
            Err(ConvertError::ExecutionError(string_of(&t)))
        },
        ToolOutcome::Finished { success, stderr } => {
            if success {
                let mut files: Vec<String> = Vec::new();
                files.push(job.output_path.clone());
                Ok(ConvertResult {
                    success: true,
                    output_files: files,
                    output_folder: job.output_folder.clone(),
                    message: lit("GIF conversion complete"),
                })
            } else {
                let mut t = chars_of("FFmpeg error: ");
                push_all(&mut t, &chars_of(stderr.as_str()));
                Err(ConvertError::EncodingError(string_of(&t)))
            }
        },
    }
}

/// The probe's arguments: quiet, JSON output, format and stream sections, then the file.
pub open spec fn probe_args(path: Seq<char>) -> Seq<Seq<char>> {
    seq!["-v"@, "quiet"@, "-print_format"@, "json"@, "-show_format"@, "-show_streams"@, path]
}

/// The media probe invocation for the file at `path`.
pub fn probe_call(path: &str) -> (r: ToolCall)
    ensures
        r.program@ == "ffprobe"@,
        strings_view(r.args@) == probe_args(path@),
{
    let mut args: Vec<String> = Vec::new();
    args.push(lit("-v"));
    args.push(lit("quiet"));
    args.push(lit("-print_format"));
    args.push(lit("json"));
    args.push(lit("-show_format"));
    args.push(lit("-show_streams"));
    args.push(lit(path));
    assert(strings_view(args@) =~= probe_args(path@));
    ToolCall { program: lit("ffprobe"), args }
}

/// What the probe says of the file at `path`: its report's facts when it ran
/// and succeeded (`Some` holds its output), else the defaults: 0 ms, 1920 by
/// 1080, 30 frames per second.
pub fn get_info(path: &str, report: Option<String>) -> (r: VideoInfo)
    ensures
        r.path@ == path@,
        r.fps == 30,
        match report {
            Some(j) => (r.duration_ms as nat, r.width as nat, r.height as nat) == crate::probe::probe_facts(j@),
            None => r.duration_ms == 0 && r.width == 1920 && r.height == 1080,
        },
{
    match report {
        Some(j) => crate::probe::parse_ffprobe_output(j.as_str(), path),
        None => VideoInfo { path: string_of(&chars_of(path)), duration_ms: 0, width: 1920, height: 1080, fps: 30 },
    }
}

} // verus!
