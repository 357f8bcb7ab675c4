use embed_bench::providers::Platform;
use embed_bench::startup::{begin_runtime, RuntimeStart, StartAction, StartAnswer, StartEnd};

/// Drives a start: what was asked for, in order, and the end.
fn drive(
    mut start: RuntimeStart,
    preloads: bool,
    library: Option<&str>,
    commits: bool,
) -> (Vec<String>, StartEnd) {
    let mut asked = Vec::new();
    loop {
        let answer = match start.action() {
            StartAction::Preload => {
                asked.push("preload".to_string());
                StartAnswer::Preloaded(preloads)
            }
            StartAction::Find => {
                asked.push("find".to_string());
                StartAnswer::Found(library.map(|path| path.to_string()))
            }
            StartAction::Commit { library, inter_threads, intra_threads } => {
                asked.push(format!("commit {:?} {} {}", library, inter_threads, intra_threads));
                StartAnswer::Committed(commits)
            }
            StartAction::Stop(end) => return (asked, end),
        };
        start = start.step(answer);
    }
}

#[test]
fn cuda_is_loaded_before_the_runtime_is_found_and_started() {
    for platform in [Platform::Linux, Platform::Windows] {
        let (asked, end) = drive(begin_runtime(platform, true), true, Some("/l.so"), true);
        assert_eq!(asked, vec!["preload", "find", "commit Some(\"/l.so\") 2 2"]);
        assert_eq!(end, StartEnd::Complete);
    }
}

#[test]
fn without_cuda_the_runtime_is_found_and_started() {
    let (asked, end) = drive(begin_runtime(Platform::Linux, false), false, Some("/l"), true);
    assert_eq!(asked, vec!["find", "commit Some(\"/l\") 2 2"]);
    assert_eq!(end, StartEnd::Complete);
}

#[test]
fn on_macos_the_runtime_is_started_at_once() {
    for preload in [true, false] {
        let (asked, end) = drive(begin_runtime(Platform::MacOs, preload), false, None, true);
        assert_eq!(asked, vec!["commit None 2 2"]);
        assert_eq!(end, StartEnd::Complete);
    }
}

#[test]
fn a_failure_ends_the_start() {
    let start = || begin_runtime(Platform::Linux, true);
    assert_eq!(
        drive(start(), false, Some("/l"), true),
        (vec!["preload".to_string()], StartEnd::PreloadFailed)
    );
    assert_eq!(
        drive(start(), true, None, true),
        (vec!["preload".to_string(), "find".to_string()], StartEnd::NotFound)
    );
    let (asked, end) = drive(start(), true, Some("/l"), false);
    assert_eq!(asked.len(), 3);
    assert_eq!(end, StartEnd::Refused);
}

#[test]
fn a_wrong_answer_to_the_start_is_ignored() {
    let start = begin_runtime(Platform::Linux, true);
    let start = start.step(StartAnswer::Committed(true));
    let start = start.step(StartAnswer::Found(Some("/l".to_string())));
    assert!(matches!(start.action(), StartAction::Preload));
    let start = start.step(StartAnswer::Preloaded(true));
    let start = start.step(StartAnswer::Preloaded(false));
    assert!(matches!(start.action(), StartAction::Find));
}
