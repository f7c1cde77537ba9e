use yt_transcriber::downloader::{
    contains, download_failure, fetch_arguments, first_step, next_step, reports_unavailable,
    step_command, subtitle_file_names, watch_url, Failure, InstallStep, Installer,
};
use yt_transcriber::video_id::extract_video_id;

fn chars(s: &str) -> Vec<char> {
    s.chars().collect()
}

#[test]
fn contains_matches_std() {
    let hays = ["", "a", "abc", "aaab", "ERROR: Video unavailable", "xx private xx"];
    let needles = ["", "a", "ab", "bc", "abc", "abcd", "aab", "unavailable", "private", "b"];
    for hay in hays {
        for needle in needles {
            assert_eq!(contains(&chars(hay), &chars(needle)), hay.contains(needle));
        }
    }
}

#[test]
fn unavailable_private_deleted() {
    assert!(reports_unavailable("ERROR: [youtube] abc: Video unavailable"));
    assert!(reports_unavailable("ERROR: this is a private video"));
    assert!(reports_unavailable("the uploader has deleted it"));
    assert!(!reports_unavailable("ERROR: unable to download webpage"));
    assert!(!reports_unavailable("Video Unavailable"));
    assert!(!reports_unavailable(""));
}

#[test]
fn watch_url_resolves_back() {
    assert_eq!(watch_url("dQw4w9WgXcQ"), "https://www.youtube.com/watch?v=dQw4w9WgXcQ");
    assert_eq!(extract_video_id(&watch_url("dQw4w9WgXcQ")), Some("dQw4w9WgXcQ".to_string()));
    assert_eq!(watch_url(""), "https://www.youtube.com/watch?v=");
}

#[test]
fn subtitle_names_in_order() {
    assert_eq!(
        subtitle_file_names("dQw4w9WgXcQ", "en"),
        vec!["dQw4w9WgXcQ.en.vtt".to_string(), "dQw4w9WgXcQ.en-orig.vtt".to_string()]
    );
    assert_eq!(
        subtitle_file_names("abc", "pt-BR"),
        vec!["abc.pt-BR.vtt".to_string(), "abc.pt-BR-orig.vtt".to_string()]
    );
}

#[test]
fn fetch_arguments_in_order() {
    assert_eq!(
        fetch_arguments("dQw4w9WgXcQ", "de", "/tmp/x/%(id)s"),
        vec![
            "--write-sub",
            "--write-auto-sub",
            "--sub-lang",
            "de",
            "--sub-format",
            "vtt",
            "--skip-download",
            "--no-warnings",
            "-o",
            "/tmp/x/%(id)s",
            "https://www.youtube.com/watch?v=dQw4w9WgXcQ",
        ]
    );
}

#[test]
fn plan_when_nothing_is_there() {
    let mut step = first_step();
    let mut seen = vec![];
    while !matches!(step, InstallStep::Done(_)) {
        seen.push(step);
        step = next_step(step, false);
    }
    assert_eq!(
        seen,
        vec![
            InstallStep::Probe(Installer::Pip),
            InstallStep::Probe(Installer::Pipx),
            InstallStep::Probe(Installer::Brew),
        ]
    );
    assert_eq!(step, InstallStep::Done(false));
}

#[test]
fn plan_when_the_first_install_fails() {
    let step = first_step();
    let step = next_step(step, true);
    assert_eq!(step, InstallStep::Install(Installer::Pip));
    let step = next_step(step, false);
    assert_eq!(step, InstallStep::Probe(Installer::Pipx));
    let step = next_step(step, true);
    assert_eq!(step, InstallStep::Install(Installer::Pipx));
    let step = next_step(step, true);
    assert_eq!(step, InstallStep::Done(true));
    assert_eq!(next_step(step, false), InstallStep::Done(true));
}

#[test]
fn plan_gives_up_after_the_last_installer() {
    assert_eq!(next_step(InstallStep::Probe(Installer::Brew), true), InstallStep::Install(Installer::Brew));
    assert_eq!(next_step(InstallStep::Install(Installer::Brew), false), InstallStep::Done(false));
    assert_eq!(next_step(InstallStep::Install(Installer::Brew), true), InstallStep::Done(true));
    assert_eq!(next_step(InstallStep::Done(false), true), InstallStep::Done(false));
}

#[test]
fn commands_of_each_step() {
    assert_eq!(step_command(InstallStep::Probe(Installer::Pip)), vec!["pip", "--version"]);
    assert_eq!(step_command(InstallStep::Probe(Installer::Pipx)), vec!["pipx", "--version"]);
    assert_eq!(step_command(InstallStep::Probe(Installer::Brew)), vec!["brew", "--version"]);
    assert_eq!(
        step_command(InstallStep::Install(Installer::Pip)),
        vec!["pip", "install", "--user", "yt-dlp"]
    );
    assert_eq!(step_command(InstallStep::Install(Installer::Pipx)), vec!["pipx", "install", "yt-dlp"]);
    assert_eq!(step_command(InstallStep::Install(Installer::Brew)), vec!["brew", "install", "yt-dlp"]);
    assert_eq!(step_command(InstallStep::Done(true)), Vec::<String>::new());
}

#[test]
fn exit_codes() {
    assert_eq!(Failure::InvalidInput.exit_code(), 1);
    assert_eq!(Failure::DownloaderMissing.exit_code(), 1);
    assert_eq!(Failure::DownloaderNotFound.exit_code(), 1);
    assert_eq!(Failure::VideoUnavailable.exit_code(), 2);
    assert_eq!(Failure::DownloaderFailed.exit_code(), 2);
    assert_eq!(Failure::NoSubtitles.exit_code(), 2);
    assert_eq!(Failure::NoContent.exit_code(), 2);
    assert_eq!(Failure::DownloaderDidNotRun.exit_code(), 3);
    assert_eq!(Failure::NoScratchDirectory.exit_code(), 4);
    assert_eq!(Failure::WriteFailed.exit_code(), 4);
}

#[test]
fn download_failures() {
    assert_eq!(download_failure("ERROR: Video unavailable"), Failure::VideoUnavailable);
    assert_eq!(download_failure("Sign in: private video"), Failure::VideoUnavailable);
    assert_eq!(download_failure("video was deleted"), Failure::VideoUnavailable);
    assert_eq!(download_failure("HTTP Error 429"), Failure::DownloaderFailed);
    assert_eq!(download_failure(""), Failure::DownloaderFailed);
}
