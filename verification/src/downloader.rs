//! Working with the external downloader: what to ask of it, how to read its
//! answer, and in which order to try installing it.
//!
//! Nothing here runs a program. These are the decisions around the runs.

use crate::text::{chars_of, same_chars, slice_of};
use vstd::prelude::*;
use vstd::string::StringExecFns;

verus! {

/// The views of a list of strings.
pub open spec fn strings_view(items: Seq<String>) -> Seq<Seq<char>> {
    Seq::new(items.len(), |i: int| items[i]@)
}

/// Whether `needle` stands in `hay` at position `i`.
pub open spec fn occurs_at(hay: Seq<char>, needle: Seq<char>, i: int) -> bool {
    0 <= i && i + needle.len() <= hay.len() && hay.subrange(i, i + needle.len()) == needle
}

/// Whether `needle` stands anywhere in `hay`.
pub open spec fn contains_text(hay: Seq<char>, needle: Seq<char>) -> bool {
    exists|i: int| occurs_at(hay, needle, i)
}

/// Whether the downloader's error output says that the video cannot be had:
/// it is unavailable, private or deleted.
pub open spec fn says_unavailable(report: Seq<char>) -> bool {
    contains_text(report, "unavailable"@) || contains_text(report, "private"@) || contains_text(
        report,
        "deleted"@,
    )
}

/// The address of a video's watch page.
pub open spec fn watch_url_of(video_id: Seq<char>) -> Seq<char> {
    "https://www.youtube.com/watch?v="@ + video_id
}

/// The names under which the downloader may have stored the captions, in the
/// order in which to look for them.
pub open spec fn subtitle_names(video_id: Seq<char>, language: Seq<char>) -> Seq<Seq<char>> {
    seq![
        video_id + "."@ + language + ".vtt"@,
        video_id + "."@ + language + "-orig.vtt"@,
    ]
}

/// The downloader's arguments for fetching the captions of one video in one
/// language, written and automatic, without the video itself.
pub open spec fn fetch_arguments_of(
    video_id: Seq<char>,
    language: Seq<char>,
    output_template: Seq<char>,
) -> Seq<Seq<char>> {
    seq![
        "--write-sub"@,
        "--write-auto-sub"@,
        "--sub-lang"@,
        language,
        "--sub-format"@,
        "vtt"@,
        "--skip-download"@,
        "--no-warnings"@,
        "-o"@,
        output_template,
        watch_url_of(video_id),
    ]
}

/// Whether `needle` stands anywhere in `hay`.
pub fn contains(hay: &Vec<char>, needle: &Vec<char>) -> (r: bool)
    ensures
        r == contains_text(hay@, needle@),
{
    if needle.len() > hay.len() {
        assert(forall|i: int| !occurs_at(hay@, needle@, i));
        return false;
    }
    let last = hay.len() - needle.len();
    let mut i: usize = 0;
    while i < last
        invariant
            i <= last,
            last == hay.len() - needle.len(),
            forall|j: int| 0 <= j < i ==> !occurs_at(hay@, needle@, j),
        decreases last - i,
    {
        let window = slice_of(hay, i, i + needle.len());
        if same_chars(&window, needle) {
            assert(occurs_at(hay@, needle@, i as int));
            return true;
        }
        i += 1;
    }
    let window = slice_of(hay, last, hay.len());
    let found = same_chars(&window, needle);
    assert(found == occurs_at(hay@, needle@, last as int));
    assert(!found ==> forall|j: int| !occurs_at(hay@, needle@, j));
    found
}

/// Whether the downloader's error output says that the video is unavailable,
/// private or deleted, as opposed to any other failure.
pub fn reports_unavailable(report: &str) -> (r: bool)
    ensures
        r == says_unavailable(report@),
{
    let text = chars_of(report);
    contains(&text, &chars_of("unavailable")) || contains(&text, &chars_of("private")) || contains(
        &text,
        &chars_of("deleted"),
    )
}

/// The address of a video's watch page.
pub fn watch_url(video_id: &str) -> (url: String)
    ensures
        url@ == watch_url_of(video_id@),
{
    let mut url = "https://www.youtube.com/watch?v=".to_owned();
    url.append(video_id);
    url
}

/// The file names under which the captions may have been stored: the
/// language's own track first, then its `-orig` variant.
pub fn subtitle_file_names(video_id: &str, language: &str) -> (names: Vec<String>)
    ensures
        strings_view(names@) == subtitle_names(video_id@, language@),
{
    let mut plain = video_id.to_owned();
    plain.append(".");
    plain.append(language);
    let mut variant = plain.clone();
    plain.append(".vtt");
    variant.append("-orig.vtt");
    let mut names: Vec<String> = Vec::new();
    names.push(plain);
    names.push(variant);
    assert(strings_view(names@) =~= subtitle_names(video_id@, language@));
    names
}

/// The downloader's arguments for fetching the captions of one video.
pub fn fetch_arguments(video_id: &str, language: &str, output_template: &str) -> (args: Vec<
    String,
>)
    ensures
        strings_view(args@) == fetch_arguments_of(video_id@, language@, output_template@),
{
    let mut args: Vec<String> = Vec::new();
    args.push("--write-sub".to_owned());
    args.push("--write-auto-sub".to_owned());
    args.push("--sub-lang".to_owned());
    args.push(language.to_owned());
    args.push("--sub-format".to_owned());
    args.push("vtt".to_owned());
    args.push("--skip-download".to_owned());
    args.push("--no-warnings".to_owned());
    args.push("-o".to_owned());
    args.push(output_template.to_owned());
    args.push(watch_url(video_id));
    assert(strings_view(args@) =~= fetch_arguments_of(video_id@, language@, output_template@));
    args
}

/// Why a run ends without a transcript.
#[derive(Debug, Clone, Copy, PartialEq, Eq, Structural)]
pub enum Failure {
    /// The input is neither a video identifier nor a URL that names one.
    InvalidInput,
    /// The downloader is missing and no installer could install it.
    DownloaderMissing,
    /// An install went well, and the downloader still cannot be started.
    DownloaderNotFound,
    /// No scratch directory could be made.
    NoScratchDirectory,
    /// The downloader could not be started.
    DownloaderDidNotRun,
    /// The downloader says the video is unavailable, private or deleted.
    VideoUnavailable,
    /// The downloader failed for any other reason.
    DownloaderFailed,
    /// The video has no captions in the language asked for.
    NoSubtitles,
    /// There is caption markup, and it holds no segment.
    NoContent,
    /// The output file could not be written.
    WriteFailed,
}

/// The exit status for each failure: 1 where the run could not begin, 2
/// where the video gave no transcript, 3 where the downloader did not start,
/// 4 where the file system refused.
pub open spec fn exit_code_of(failure: Failure) -> u8 {
    match failure {
        Failure::InvalidInput => 1,
        Failure::DownloaderMissing => 1,
        Failure::DownloaderNotFound => 1,
        Failure::VideoUnavailable => 2,
        Failure::DownloaderFailed => 2,
        Failure::NoSubtitles => 2,
        Failure::NoContent => 2,
        Failure::DownloaderDidNotRun => 3,
        Failure::NoScratchDirectory => 4,
        Failure::WriteFailed => 4,
    }
}

/// What a failed run of the downloader means, judged by its error output.
pub open spec fn download_failure_of(report: Seq<char>) -> Failure {
    if says_unavailable(report) {
        Failure::VideoUnavailable
    } else {
        Failure::DownloaderFailed
    }
}

/// No failure exits with the status of success.
pub proof fn lemma_failures_exit_nonzero(failure: Failure)
    ensures
        1 <= exit_code_of(failure) <= 4,
{
}

impl Failure {
    /// The exit status to end the run with.
    pub fn exit_code(&self) -> (code: u8)
        ensures
            code == exit_code_of(*self),
    {
        match self {
            Failure::InvalidInput => 1,
            Failure::DownloaderMissing => 1,
            Failure::DownloaderNotFound => 1,
            Failure::VideoUnavailable => 2,
            Failure::DownloaderFailed => 2,
            Failure::NoSubtitles => 2,
            Failure::NoContent => 2,
            Failure::DownloaderDidNotRun => 3,
            Failure::NoScratchDirectory => 4,
            Failure::WriteFailed => 4,
        }
    }
}

/// What a failed run of the downloader means: the video is unavailable where
/// the error output says so, and the downloader failed otherwise.
pub fn download_failure(report: &str) -> (failure: Failure)
    ensures
        failure == download_failure_of(report@),
{
    if reports_unavailable(report) {
        Failure::VideoUnavailable
    } else {
        Failure::DownloaderFailed
    }
}

/// A package manager that can install the downloader.
#[derive(Debug, Clone, Copy, PartialEq, Eq, Structural)]
pub enum Installer {
    Pip,
    Pipx,
    Brew,
}

/// One step of getting the downloader installed.
#[derive(Debug, Clone, Copy, PartialEq, Eq, Structural)]
pub enum InstallStep {
    /// Ask the installer for its version, to see whether it is there.
    Probe(Installer),
    /// Have the installer install the downloader.
    Install(Installer),
    /// Nothing more to do; the flag says whether an install succeeded.
    Done(bool),
}

/// The installer to turn to when this one is missing or has failed.
pub open spec fn installer_after(installer: Installer) -> Option<Installer> {
    match installer {
        Installer::Pip => Some(Installer::Pipx),
        Installer::Pipx => Some(Installer::Brew),
        Installer::Brew => None,
    }
}

/// The step to take when `installer` is missing or has failed: probe the
/// next one, or give up after the last.
pub open spec fn step_past(installer: Installer) -> InstallStep {
    match installer_after(installer) {
        Some(next) => InstallStep::Probe(next),
        None => InstallStep::Done(false),
    }
}

/// The step that follows `step`, given whether `step` went well. An installer
/// that answers the probe is asked to install; an install that succeeds ends
/// the plan; anything that fails moves on to the next installer.
pub open spec fn step_after(step: InstallStep, ok: bool) -> InstallStep {
    match step {
        InstallStep::Probe(installer) => if ok {
            InstallStep::Install(installer)
        } else {
            step_past(installer)
        },
        InstallStep::Install(installer) => if ok {
            InstallStep::Done(true)
        } else {
            step_past(installer)
        },
        InstallStep::Done(installed) => InstallStep::Done(installed),
    }
}

/// How many steps the plan can still take from `step`, at most.
pub open spec fn steps_left(step: InstallStep) -> nat {
    match step {
        InstallStep::Probe(Installer::Pip) => 6,
        InstallStep::Install(Installer::Pip) => 5,
        InstallStep::Probe(Installer::Pipx) => 4,
        InstallStep::Install(Installer::Pipx) => 3,
        InstallStep::Probe(Installer::Brew) => 2,
        InstallStep::Install(Installer::Brew) => 1,
        InstallStep::Done(_) => 0,
    }
}

/// The command line of a step: the program, then its arguments. A finished
/// plan has none.
pub open spec fn command_of(step: InstallStep) -> Seq<Seq<char>> {
    match step {
        InstallStep::Probe(Installer::Pip) => seq!["pip"@, "--version"@],
        InstallStep::Probe(Installer::Pipx) => seq!["pipx"@, "--version"@],
        InstallStep::Probe(Installer::Brew) => seq!["brew"@, "--version"@],
        InstallStep::Install(Installer::Pip) => seq!["pip"@, "install"@, "--user"@, "yt-dlp"@],
        InstallStep::Install(Installer::Pipx) => seq!["pipx"@, "install"@, "yt-dlp"@],
        InstallStep::Install(Installer::Brew) => seq!["brew"@, "install"@, "yt-dlp"@],
        InstallStep::Done(_) => Seq::empty(),
    }
}

/// Every step but the last brings the plan closer to its end, so a plan takes
/// six steps at most.
pub proof fn lemma_plan_ends(step: InstallStep, ok: bool)
    ensures
        step is Done ==> step_after(step, ok) == step,
        !(step is Done) ==> steps_left(step_after(step, ok)) < steps_left(step),
{
}

/// A plan ends with success only straight after an install that went well.
pub proof fn lemma_success_needs_an_install(step: InstallStep, ok: bool)
    requires
        !(step is Done),
    ensures
        step_after(step, ok) == InstallStep::Done(true) <==> step is Install && ok,
{
}

/// The first step: probe the first installer.
pub fn first_step() -> (step: InstallStep)
    ensures
        step == InstallStep::Probe(Installer::Pip),
{
    InstallStep::Probe(Installer::Pip)
}

/// The step to take when `installer` is missing or has failed.
fn past(installer: Installer) -> (step: InstallStep)
    ensures
        step == step_past(installer),
{
    match installer {
        Installer::Pip => InstallStep::Probe(Installer::Pipx),
        Installer::Pipx => InstallStep::Probe(Installer::Brew),
        Installer::Brew => InstallStep::Done(false),
    }
}

/// The step that follows `step`, given whether `step` went well.
pub fn next_step(step: InstallStep, ok: bool) -> (next: InstallStep)
    ensures
        next == step_after(step, ok),
{
    match step {
        InstallStep::Probe(installer) => if ok {
            InstallStep::Install(installer)
        } else {
            past(installer)
        },
        InstallStep::Install(installer) => if ok {
            InstallStep::Done(true)
        } else {
            past(installer)
        },
        InstallStep::Done(installed) => InstallStep::Done(installed),
    }
}

/// The program that an installer is started as.
fn installer_program(installer: Installer) -> (name: String)
    ensures
        name@ == match installer {
            Installer::Pip => "pip"@,
            Installer::Pipx => "pipx"@,
            Installer::Brew => "brew"@,
        },
{
    match installer {
        Installer::Pip => "pip".to_owned(),
        Installer::Pipx => "pipx".to_owned(),
        Installer::Brew => "brew".to_owned(),
    }
}

/// The command line to run for a step: the program, then its arguments.
pub fn step_command(step: InstallStep) -> (command: Vec<String>)
    ensures
        strings_view(command@) == command_of(step),
{
    let mut command: Vec<String> = Vec::new();
    match step {
        InstallStep::Probe(installer) => {
            command.push(installer_program(installer));
            command.push("--version".to_owned());
        },
        InstallStep::Install(installer) => {
            command.push(installer_program(installer));
            command.push("install".to_owned());
            match installer {
                Installer::Pip => {
                    command.push("--user".to_owned());
                },
                _ => {},
            }
            command.push("yt-dlp".to_owned());
        },
        InstallStep::Done(_) => {},
    }
    assert(strings_view(command@) =~= command_of(step));
    command
}

} // verus!
