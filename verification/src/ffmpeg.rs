//! The encoder's side of an encode: what the prober's answers mean, which bitrate meets a
//! target size, and the argument lists of the two passes.
//!
//! Durations are in millionths of a second, bitrates in millionths of a kibibit per second
//! and sizes in millionths of a mebibyte.

use vstd::prelude::*;
use vstd::string::StringExecFns;
use crate::crop::{filter_chain, filter_chain_text, scale_filter, CropRegion};
use crate::decimal::{decimal_text, format_decimal, parse_decimal, parsed_decimal, ParseError};
use crate::text::{
    is_whitespace, lemma_without_white_space_push, push_owned, push_text, same_text,
    without_white_space,
};
use crate::trim::{push_seek, push_stop, seek_args, stop_args, TimeRange};

verus! {

/// Where a finished encode was written: the file itself and the directory to show it in.
#[derive(Debug)]
pub struct OutFile {
    pub full_path: String,
    pub explorer_dir: String,
}

/// An `OutFile` as plain text.
pub struct OutFileView {
    pub full_path: Seq<char>,
    pub explorer_dir: Seq<char>,
}

impl View for OutFile {
    type V = OutFileView;

    open spec fn view(&self) -> OutFileView {
        OutFileView { full_path: self.full_path@, explorer_dir: self.explorer_dir@ }
    }
}

impl OutFile {
    /// An output at `file_path`, to be shown in `output_dir`.
    pub fn new(file_path: String, output_dir: String) -> (out: Self)
        ensures
            out.full_path == file_path,
            out.explorer_dir == output_dir,
    {
        OutFile { full_path: file_path, explorer_dir: output_dir }
    }

    /// The result of an encode that wrote nothing.
    pub fn empty() -> (out: Self)
        ensures
            out@ == (OutFileView { full_path: Seq::empty(), explorer_dir: Seq::empty() }),
    {
        OutFile { full_path: String::new(), explorer_dir: String::new() }
    }
}

/// The probe's answer without any white space, as it is compared and parsed.
pub fn remove_whitespace(s: &str) -> (stripped: String)
    ensures
        stripped@ == without_white_space(s@),
{
    let mut stripped = String::new();
    assert(s@.subrange(0, 0) =~= Seq::<char>::empty());
    for c in it: s.chars()
        invariant
            it.seq() == s@,
            stripped@ == without_white_space(s@.subrange(0, it.index() as int)),
    {
        proof {
            let seen = s@.subrange(0, it.index() as int);
            assert(s@.subrange(0, it.index() + 1) =~= seen.push(c));
            lemma_without_white_space_push(seen, c);
        }
        if !is_whitespace(c) {
            stripped.push(c);
        }
    }
    assert(s@.subrange(0, s@.len() as int) =~= s@);
    stripped
}

/// The duration that the prober printed, in millionths of a second.
pub open spec fn probed_duration(probe_output: Seq<char>) -> Result<u64, ParseError> {
    parsed_decimal(without_white_space(probe_output))
}

/// The audio bitrate that the prober printed in bits per second, in millionths of a kibibit
/// per second, rounded down. The answer `N/A` stands for no usable bitrate and gives zero.
pub open spec fn probed_audio_rate(probe_output: Seq<char>) -> Result<u64, ParseError> {
    let answer = without_white_space(probe_output);
    if answer == "N/A"@ {
        Ok(0)
    } else {
        match parsed_decimal(answer) {
            Ok(bits) => Ok(bits / 1024),
            Err(error) => Err(error),
        }
    }
}

/// Reads the duration out of the prober's answer.
pub fn get_duration(probe_output: &str) -> (duration: Result<u64, ParseError>)
    ensures
        duration == probed_duration(probe_output@),
{
    let answer = remove_whitespace(probe_output);
    parse_decimal(answer.as_str())
}

/// Reads the bitrate of the first audio stream out of the prober's answer.
pub fn get_original_audio_rate(probe_output: &str) -> (rate: Result<u64, ParseError>)
    ensures
        rate == probed_audio_rate(probe_output@),
{
    let answer = remove_whitespace(probe_output);
    if same_text(answer.as_str(), "N/A") {
        return Ok(0);
    }
    match parse_decimal(answer.as_str()) {
        Ok(bits) => Ok(bits / 1024),
        Err(error) => Err(error),
    }
}

/// The size that the audio alone takes: `audio_rate * duration / 8192`, rounded down to a
/// millionth of a mebibyte.
pub open spec fn minimum_size(audio_rate: int, duration: int) -> int {
    (audio_rate * duration) / (8192 * 1_000_000int)
}

/// Whether a target leaves room for video: only a target above the audio-only size does.
pub open spec fn is_feasible(min_size: int, size: int) -> bool {
    min_size < size
}

/// The video bitrate that fills a target: `size * 8192 / (1.048576 * duration) - audio_rate`,
/// the quotient rounded down to a millionth of a kibibit per second.
pub open spec fn video_rate(size: int, duration: int, audio_rate: int) -> int
    recommends
        duration > 0,
{
    (size * 8192 * 1_000_000_000_000int) / (1_048_576 * duration) - audio_rate
}

/// The least size that an output of this audio bitrate and duration can have.
pub fn get_target_size(audio_rate: u64, duration: u64) -> (size: u128)
    ensures
        size == minimum_size(audio_rate as int, duration as int),
{
    assert(audio_rate * duration <= 0xffff_ffff_ffff_ffff * 0xffff_ffff_ffff_ffff)
        by (nonlinear_arith)
        requires
            audio_rate <= 0xffff_ffff_ffff_ffff,
            duration <= 0xffff_ffff_ffff_ffff,
    ;
    (audio_rate as u128 * duration as u128) / 8_192_000_000
}

/// Tells whether a target size is above the least size.
pub fn is_minsize(min_size: u128, size: u128) -> (feasible: bool)
    ensures
        feasible == is_feasible(min_size as int, size as int),
{
    min_size < size
}

/// The video bitrate that fills a target size. It is negative where the target leaves no
/// room for video: whether it does is for the caller to ask first.
pub fn get_target_video_rate(size: u64, duration: u64, audio_rate: u64) -> (rate: i128)
    requires
        duration > 0,
    ensures
        rate == video_rate(size as int, duration as int, audio_rate as int),
{
    let budget: u128 = size as u128 * 8_192_000_000_000_000;
    let spread: u128 = 1_048_576 * duration as u128;
    let total: u128 = budget / spread;
    assert(total <= budget) by (nonlinear_arith)
        requires
            total == budget / spread,
            spread >= 1,
    ;
    total as i128 - audio_rate as i128
}

/// The audio-only size never shrinks when the audio bitrate or the duration grows, and it
/// grows as soon as their product does by what makes a millionth of a mebibyte.
pub proof fn lemma_minimum_size_monotonic(
    audio_rate: int,
    duration: int,
    more_audio_rate: int,
    more_duration: int,
)
    requires
        0 <= audio_rate <= more_audio_rate,
        0 < duration <= more_duration,
    ensures
        minimum_size(audio_rate, duration) <= minimum_size(more_audio_rate, more_duration),
        audio_rate * duration + 8192 * 1_000_000 <= more_audio_rate * more_duration
            ==> minimum_size(audio_rate, duration) < minimum_size(
            more_audio_rate,
            more_duration,
        ),
{
    assert(audio_rate * duration <= more_audio_rate * more_duration) by (nonlinear_arith)
        requires
            0 <= audio_rate <= more_audio_rate,
            0 < duration <= more_duration,
    ;
}

/// A target equal to the audio-only size is not feasible.
pub proof fn lemma_floor_is_not_feasible(audio_rate: int, duration: int)
    ensures
        !is_feasible(minimum_size(audio_rate, duration), minimum_size(audio_rate, duration)),
{
}

/// Rounding the audio-only size down loses nothing of the comparison: a target is feasible
/// exactly when it is above `audio_rate * duration / 8192` as a fraction.
pub proof fn lemma_feasible_exactly(audio_rate: int, duration: int, size: int)
    ensures
        is_feasible(minimum_size(audio_rate, duration), size) <==> audio_rate * duration < size
            * 8192 * 1_000_000,
{
}

/// A target at the audio-only size leaves no video bitrate: exactly none where the source
/// has no audio, and a negative one where it has, because the bitrate formula divides by
/// 1.048576 and the size formula does not.
pub proof fn lemma_floor_leaves_no_video(audio_rate: int, duration: int)
    requires
        0 <= audio_rate,
        0 < duration,
    ensures
        video_rate(minimum_size(audio_rate, duration), duration, audio_rate) <= 0,
        audio_rate == 0 ==> video_rate(minimum_size(audio_rate, duration), duration, audio_rate)
            == 0,
        audio_rate > 0 ==> video_rate(minimum_size(audio_rate, duration), duration, audio_rate)
            < 0,
{
    let floor = minimum_size(audio_rate, duration);
    let product = audio_rate * duration;
    assert(0 <= product) by (nonlinear_arith)
        requires
            0 <= audio_rate,
            0 < duration,
            product == audio_rate * duration,
    ;
    assert(0 <= floor && floor * 8_192_000_000 <= product);
    let budget = floor * 8192 * 1_000_000_000_000;
    let spread = 1_048_576 * duration;
    assert(budget <= duration * (audio_rate * 1_000_000)) by (nonlinear_arith)
        requires
            budget == floor * 8192 * 1_000_000_000_000,
            floor * 8_192_000_000 <= product,
            product == audio_rate * duration,
    ;
    assert(spread == duration * 1_048_576);
    vstd::arithmetic::div_mod::lemma_div_is_ordered(
        budget,
        duration * (audio_rate * 1_000_000),
        spread,
    );
    vstd::arithmetic::div_mod::lemma_div_multiples_vanish_quotient(
        duration,
        audio_rate * 1_000_000,
        1_048_576,
    );
    vstd::arithmetic::div_mod::lemma_div_pos_is_pos(budget, spread);
    if audio_rate == 0 {
        assert(budget / spread <= 0);
    }
}

/// The size that the two bitrates fill over the duration, by the formula of the audio-only
/// size, is the target divided by 1.048576: it is short of that by less than a millionth of
/// a mebibyte and the 8192nd part of a millionth of the duration. Only the target zero
/// comes back as it went in.
pub proof fn lemma_rates_fill_scaled_target(size: int, duration: int, audio_rate: int)
    requires
        0 <= size,
        0 < duration,
    ensures
        ({
            let total = video_rate(size, duration, audio_rate) + audio_rate;
            let filled = minimum_size(total, duration);
            &&& 8_192_000_000 * filled <= 7_812_500_000 * size
            &&& 7_812_500_000 * size < 8_192_000_000 * (filled + 1) + duration
            &&& size == 0 ==> filled == size
        }),
{
    let budget = size * 8192 * 1_000_000_000_000;
    let spread = 1_048_576 * duration;
    let total = budget / spread;
    assert(total == video_rate(size, duration, audio_rate) + audio_rate);
    vstd::arithmetic::div_mod::lemma_fundamental_div_mod(budget, spread);
    vstd::arithmetic::div_mod::lemma_mod_pos_bound(budget, spread);
    let filled = (total * duration) / 8_192_000_000;
    assert(filled == minimum_size(total, duration));
    assert(spread * total == 1_048_576 * (total * duration)) by (nonlinear_arith)
        requires
            spread == 1_048_576 * duration,
    ;
    assert(budget == 1_048_576 * (7_812_500_000 * size));
}

/// A bitrate as the encoder reads it: the number, then `k`.
pub open spec fn rate_text(rate: int) -> Seq<char> {
    decimal_text(rate) + "k"@
}

/// The arguments of the analysis pass. It reads the same part of the input as the output
/// pass, scales it, keeps no audio and writes its picture to `sink`; what it learns goes to
/// the pass log.
pub open spec fn first_pass_args(
    input: Seq<char>,
    video_bitrate: int,
    range: TimeRange,
    passlog: Seq<char>,
    sink: Seq<char>,
) -> Seq<Seq<char>> {
    seq!["-y"@] + seek_args(range) + seq!["-i"@, input] + stop_args(range) + seq![
        "-c:v"@,
        "libx264"@,
        "-passlogfile"@,
        passlog,
        "-filter:v"@,
        scale_filter(),
        "-b:v"@,
        rate_text(video_bitrate),
        "-pass"@,
        "1"@,
        "-an"@,
        "-f"@,
        "mp4"@,
        "-pix_fmt"@,
        "yuv420p"@,
        sink,
    ]
}

/// The audio arguments of the output pass: the stream is copied where the source gave no
/// bitrate, and encoded at the source's bitrate otherwise.
pub open spec fn audio_args(audio_bitrate: int) -> Seq<Seq<char>> {
    if audio_bitrate == 0 {
        seq!["-c:a"@, "copy"@]
    } else {
        seq!["-c:a"@, "aac"@, "-b:a"@, rate_text(audio_bitrate)]
    }
}

/// The arguments of the output pass, in the order the encoder needs: overwrite, seek, input,
/// stop, codec and pass log, filters, bitrate and pass, audio, container, output.
pub open spec fn output_pass_args(
    input: Seq<char>,
    video_bitrate: int,
    audio_bitrate: int,
    output: Seq<char>,
    range: TimeRange,
    crop: Option<CropRegion>,
    passlog: Seq<char>,
) -> Seq<Seq<char>> {
    seq!["-y"@] + seek_args(range) + seq!["-i"@, input] + stop_args(range) + seq![
        "-c:v"@,
        "libx264"@,
        "-passlogfile"@,
        passlog,
        "-filter:v"@,
        filter_chain_text(crop),
        "-b:v"@,
        rate_text(video_bitrate),
        "-pass"@,
        "2"@,
    ] + audio_args(audio_bitrate) + seq![
        "-movflags"@,
        "+faststart"@,
        "-f"@,
        "mp4"@,
        "-pix_fmt"@,
        "yuv420p"@,
        output,
    ]
}

/// What both passes begin with: overwrite, seek, input, stop, codec and pass log.
pub open spec fn shared_args(input: Seq<char>, range: TimeRange, passlog: Seq<char>) -> Seq<
    Seq<char>,
> {
    seq!["-y"@] + seek_args(range) + seq!["-i"@, input] + stop_args(range) + seq![
        "-c:v"@,
        "libx264"@,
        "-passlogfile"@,
        passlog,
    ]
}

/// The two passes of one encode read the same part of the same input and share one pass
/// log: their argument lists begin alike, up to and including the pass log.
pub proof fn lemma_passes_begin_alike(
    input: Seq<char>,
    video_bitrate: int,
    audio_bitrate: int,
    output: Seq<char>,
    range: TimeRange,
    crop: Option<CropRegion>,
    passlog: Seq<char>,
    sink: Seq<char>,
)
    ensures
        shared_args(input, range, passlog).is_prefix_of(
            first_pass_args(input, video_bitrate, range, passlog, sink),
        ),
        shared_args(input, range, passlog).is_prefix_of(
            output_pass_args(input, video_bitrate, audio_bitrate, output, range, crop, passlog),
        ),
{
    let shared = shared_args(input, range, passlog);
    let first = first_pass_args(input, video_bitrate, range, passlog, sink);
    let second = output_pass_args(
        input,
        video_bitrate,
        audio_bitrate,
        output,
        range,
        crop,
        passlog,
    );
    assert(first.subrange(0, shared.len() as int) =~= shared);
    assert(second.subrange(0, shared.len() as int) =~= shared);
}

fn format_rate(rate: i128) -> (text: String)
    ensures
        text@ == rate_text(rate as int),
{
    let mut text = format_decimal(rate);
    text.append("k");
    text
}

/// The place that swallows the analysis pass's picture on the named operating system.
pub open spec fn discard_sink_of(os: Seq<char>) -> Seq<char> {
    if os == "windows"@ {
        "nul"@
    } else {
        "/dev/null"@
    }
}

/// Names the place that swallows the analysis pass's picture.
pub fn discard_sink(os: &str) -> (sink: &'static str)
    ensures
        sink@ == discard_sink_of(os@),
{
    if same_text(os, "windows") {
        "nul"
    } else {
        "/dev/null"
    }
}

/// Builds the argument list of the analysis pass.
pub fn convert_first(
    input: &str,
    video_bitrate: i128,
    start_time: Option<u64>,
    end_time: Option<u64>,
    passlog: &str,
    sink: &str,
) -> (args: Vec<String>)
    ensures
        args.deep_view() == first_pass_args(
            input@,
            video_bitrate as int,
            TimeRange { start: start_time, end: end_time },
            passlog@,
            sink@,
        ),
{
    let range = TimeRange::new(start_time, end_time);
    let mut args: Vec<String> = Vec::new();
    push_text(&mut args, "-y");
    push_seek(&mut args, &range);
    push_text(&mut args, "-i");
    push_text(&mut args, input);
    push_stop(&mut args, &range);
    push_text(&mut args, "-c:v");
    push_text(&mut args, "libx264");
    push_text(&mut args, "-passlogfile");
    push_text(&mut args, passlog);
    push_text(&mut args, "-filter:v");
    push_text(&mut args, "scale=1280:-2");
    push_text(&mut args, "-b:v");
    push_owned(&mut args, format_rate(video_bitrate));
    push_text(&mut args, "-pass");
    push_text(&mut args, "1");
    push_text(&mut args, "-an");
    push_text(&mut args, "-f");
    push_text(&mut args, "mp4");
    push_text(&mut args, "-pix_fmt");
    push_text(&mut args, "yuv420p");
    push_text(&mut args, sink);
    assert(args.deep_view() =~= first_pass_args(
        input@,
        video_bitrate as int,
        range,
        passlog@,
        sink@,
    ));
    args
}

fn push_audio(args: &mut Vec<String>, audio_bitrate: u64)
    ensures
        final(args).deep_view() == old(args).deep_view() + audio_args(audio_bitrate as int),
{
    push_text(args, "-c:a");
    if audio_bitrate == 0 {
        push_text(args, "copy");
    } else {
        push_text(args, "aac");
        push_text(args, "-b:a");
        push_owned(args, format_rate(audio_bitrate as i128));
    }
    assert(args.deep_view() =~= old(args).deep_view() + audio_args(audio_bitrate as int));
}

/// Builds the argument list of the output pass.
pub fn convert_out(
    input: &str,
    video_bitrate: i128,
    audio_bitrate: u64,
    output: &str,
    start_time: Option<u64>,
    end_time: Option<u64>,
    crop: Option<CropRegion>,
    passlog: &str,
) -> (args: Vec<String>)
    ensures
        args.deep_view() == output_pass_args(
            input@,
            video_bitrate as int,
            audio_bitrate as int,
            output@,
            TimeRange { start: start_time, end: end_time },
            crop,
            passlog@,
        ),
{
    let range = TimeRange::new(start_time, end_time);
    let mut args: Vec<String> = Vec::new();
    push_text(&mut args, "-y");
    push_seek(&mut args, &range);
    push_text(&mut args, "-i");
    push_text(&mut args, input);
    push_stop(&mut args, &range);
    push_text(&mut args, "-c:v");
    push_text(&mut args, "libx264");
    push_text(&mut args, "-passlogfile");
    push_text(&mut args, passlog);
    push_text(&mut args, "-filter:v");
    push_owned(&mut args, filter_chain(crop));
    push_text(&mut args, "-b:v");
    push_owned(&mut args, format_rate(video_bitrate));
    push_text(&mut args, "-pass");
    push_text(&mut args, "2");
    push_audio(&mut args, audio_bitrate);
    push_text(&mut args, "-movflags");
    push_text(&mut args, "+faststart");
    push_text(&mut args, "-f");
    push_text(&mut args, "mp4");
    push_text(&mut args, "-pix_fmt");
    push_text(&mut args, "yuv420p");
    push_text(&mut args, output);
    assert(args.deep_view() =~= output_pass_args(
        input@,
        video_bitrate as int,
        audio_bitrate as int,
        output@,
        range,
        crop,
        passlog@,
    ));
    args
}

/// The text of an optional text.
pub open spec fn text_of(text: Option<&str>) -> Option<Seq<char>> {
    match text {
        Some(text) => Some(text@),
        None => None,
    }
}

/// The directory an output goes to: the user's video directory, else the directory of the
/// input, else the current directory.
pub open spec fn output_dir_of(video_dir: Option<Seq<char>>, input_dir: Option<Seq<char>>) -> Seq<
    char,
> {
    match video_dir {
        Some(dir) => dir,
        None => match input_dir {
            Some(dir) => dir,
            None => "."@,
        },
    }
}

/// The file name of the output of an input whose name, without its extension, is `stem`.
pub open spec fn output_name_of(stem: Seq<char>) -> Seq<char> {
    stem + "-8m.mp4"@
}

/// Chooses where the output of an input goes: the directory and the file name in it. An
/// input without a file name has no output.
pub fn get_output(video_dir: Option<&str>, input_dir: Option<&str>, input_stem: Option<&str>) -> (output:
    Option<(String, String)>)
    ensures
        output is Some <==> input_stem is Some,
        output matches Some(place) ==> place.0@ == output_dir_of(
            text_of(video_dir),
            text_of(input_dir),
        ) && place.1@ == output_name_of(input_stem.unwrap()@),
{
    match input_stem {
        None => None,
        Some(stem) => {
            let dir = match video_dir {
                Some(dir) => dir,
                None => match input_dir {
                    Some(dir) => dir,
                    None => ".",
                },
            };
            let mut name = stem.to_owned();
            name.append("-8m.mp4");
            Some((dir.to_owned(), name))
        },
    }
}

} // verus!
