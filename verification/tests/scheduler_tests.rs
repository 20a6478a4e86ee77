use fempeg::exiftool::{
    bundled_version, get_exiftool_version, linux_macos_install_hint, ToolRun, VersionError,
};
use fempeg::native::{
    entry_point_for, get_api, get_lib, init_libraw, library_hint, staging_directory, symbol_name,
    EntryPoint, InstallCommand, LibRawApi, LoadError, NativeLibraryHandle, Platform, Resolution,
    ENTRY_POINTS,
};
use fempeg::progress::{
    format_time, plan_execution, plan_with, progress_label, string_of, worker_count,
    ExecutionPath, ProgressCounter,
};
use fempeg::scheduler::{
    estimate_remaining, BatchScheduler, JobStatus, Outcome, ProgressMessage,
};
use fempeg::session::Action;
use fempeg::text::{chars_of, contains_folded, fold, trim, white_space};

#[test]
fn fresh_batch_has_pending_jobs() {
    let batch = BatchScheduler::new(3);
    assert_eq!(batch.total(), 3);
    assert_eq!(batch.jobs, vec![JobStatus::Pending; 3]);
    assert!(!batch.is_cancelled());
    assert!(!batch.is_terminated());
    assert_eq!(batch.messages(), 0);
    assert!(BatchScheduler::new(0).is_terminated());
}

#[test]
fn job_reports_exactly_once() {
    let mut batch = BatchScheduler::new(2);
    assert!(batch.claim(0));
    assert!(!batch.claim(0));
    assert_eq!(batch.jobs[0], JobStatus::Running);
    let message = batch.report(0, Outcome::Skipped, 10);
    assert_eq!(message, Some(ProgressMessage { job: 0, outcome: Outcome::Skipped, remaining_ms: None }));
    assert_eq!(batch.report(0, Outcome::Skipped, 20), None);
    assert_eq!(batch.messages(), 1);
    assert_eq!(batch.jobs[0], JobStatus::Reported);
    assert!(!batch.claim(0));
}

#[test]
fn job_that_never_started_cannot_report() {
    let mut batch = BatchScheduler::new(2);
    assert_eq!(batch.report(1, Outcome::Success(5), 10), None);
    assert_eq!(batch.report(7, Outcome::Success(5), 10), None);
    assert!(!batch.claim(2));
    assert_eq!(batch.messages(), 0);
    assert_eq!(batch.jobs, vec![JobStatus::Pending; 2]);
}

#[test]
fn success_carries_the_estimate() {
    let mut batch = BatchScheduler::new(4);
    assert!(batch.claim(2));
    let message = batch.report(2, Outcome::Success(900), 1_000).unwrap();
    // One of four jobs succeeded after one second: three seconds are left.
    assert_eq!(message.remaining_ms, Some(3_000));
    assert_eq!(message.outcome, Outcome::Success(900));
    assert_eq!(message.job, 2);
    assert_eq!(batch.succeeded, 1);
}

#[test]
fn every_reported_job_counts_as_completed() {
    let mut batch = BatchScheduler::new(3);
    assert!(batch.claim(0));
    assert!(batch.claim(1));
    let failed = batch.report(0, Outcome::Error("boom".to_string()), 500).unwrap();
    assert_eq!(failed.remaining_ms, None);
    assert_eq!(failed.outcome, Outcome::Error("boom".to_string()));
    let done = batch.report(1, Outcome::Success(100), 1_000).unwrap();
    // Two jobs completed in a second, one job left.
    assert_eq!(done.remaining_ms, Some(500));
    assert_eq!(batch.messages(), 2);
    assert_eq!(batch.succeeded, 1);
}

#[test]
fn last_job_after_a_skip_has_nothing_left() {
    let mut batch = BatchScheduler::new(2);
    assert!(batch.claim(0));
    assert!(batch.claim(1));
    let skipped = batch.report(0, Outcome::Skipped, 10).unwrap();
    assert_eq!(skipped.remaining_ms, None);
    let done = batch.report(1, Outcome::Success(60_000), 60_000).unwrap();
    assert_eq!(done.remaining_ms, Some(0));
    assert_eq!(done.time_left(), "0s");
    assert_eq!(skipped.time_left(), "0s");
    assert!(batch.is_terminated());
}

#[test]
fn time_left_is_shown_in_whole_seconds() {
    let mut batch = BatchScheduler::new(4);
    assert!(batch.claim(0));
    let first = batch.report(0, Outcome::Success(41_999), 41_999).unwrap();
    // One job in 41.999 s, three left: 125.997 s.
    assert_eq!(first.remaining_ms, Some(125_997));
    assert_eq!(first.time_left(), "2m 5s");
    assert!(batch.claim(1));
    let second = batch.report(1, Outcome::Success(1), 42_000).unwrap();
    assert_eq!(second.remaining_ms, Some(42_000));
    assert_eq!(second.time_left(), "42s");
}

#[test]
fn estimate_is_average_times_jobs_left() {
    assert_eq!(estimate_remaining(10_000, 2, 5), 15_000);
    assert_eq!(estimate_remaining(10_000, 5, 5), 0);
    assert_eq!(estimate_remaining(1_000, 3, 4), 333);
    assert_eq!(estimate_remaining(0, 1, 100), 0);
    assert_eq!(estimate_remaining(7, 1, 1), 0);
    assert_eq!(estimate_remaining(u64::MAX, 1, 3), u64::MAX);
    assert_eq!(estimate_remaining(u64::MAX, 2, 3), u64::MAX / 2);
}

#[test]
fn cancelled_batch_finishes_what_runs_and_starts_nothing() {
    // Five jobs on two workers; the interrupt arrives after job 2 is done.
    let mut batch = BatchScheduler::new(5);
    let mut messages = Vec::new();
    let mut launched = 0;
    for job in [0, 1] {
        assert!(batch.claim(job));
        launched += 1;
    }
    messages.push(batch.report(0, Outcome::Success(10), 100).unwrap());
    assert!(batch.claim(2));
    launched += 1;
    messages.push(batch.report(2, Outcome::Success(10), 200).unwrap());
    batch.cancel();
    assert!(batch.is_cancelled());
    // Job 1 still runs: the interrupt has not touched it.
    assert_eq!(batch.jobs[1], JobStatus::Running);
    assert!(!batch.is_terminated());
    // The workers come for the next jobs and are turned away.
    assert!(!batch.claim(3));
    assert!(!batch.claim(4));
    assert_eq!(batch.jobs[3], JobStatus::Dropped);
    assert_eq!(batch.jobs[4], JobStatus::Dropped);
    assert!(!batch.is_terminated());
    // The job in flight finishes and reports.
    messages.push(batch.report(1, Outcome::Error("late".to_string()), 300).unwrap());
    assert!(batch.is_terminated());
    assert_eq!(messages.len(), launched);
    assert_eq!(batch.messages(), 3);
    let mut jobs: Vec<usize> = messages.iter().map(|m| m.job).collect();
    jobs.sort();
    assert_eq!(jobs, vec![0, 1, 2]);
    // Dropped jobs stay dropped and say nothing.
    assert!(!batch.claim(3));
    assert_eq!(batch.report(3, Outcome::Skipped, 400), None);
    assert_eq!(batch.messages(), 3);
}

#[test]
fn cancelling_twice_changes_nothing() {
    let mut batch = BatchScheduler::new(1);
    batch.cancel();
    batch.cancel();
    assert!(batch.is_cancelled());
    assert!(!batch.claim(0));
    assert!(batch.is_terminated());
}

#[test]
fn any_interleaving_reports_each_launched_job_once() {
    // Workers claim, run and report in an order that a small generator
    // shuffles; the interrupt arrives at a step that it picks.
    let mut seed: u64 = 0x2545_f491_4f6c_dd1d;
    let mut next = move |bound: usize| -> usize {
        seed ^= seed << 13;
        seed ^= seed >> 7;
        seed ^= seed << 17;
        (seed % bound as u64) as usize
    };
    for round in 0..200 {
        let total = 1 + next(12);
        let cancel_at = next(3 * total + 1);
        let mut batch = BatchScheduler::new(total);
        let mut launched = Vec::new();
        let mut messages = Vec::new();
        let mut step = 0;
        while !batch.is_terminated() {
            if step == cancel_at {
                let running: Vec<usize> =
                    (0..total).filter(|j| batch.jobs[*j] == JobStatus::Running).collect();
                batch.cancel();
                for job in running {
                    assert_eq!(batch.jobs[job], JobStatus::Running);
                }
            }
            step += 1;
            let job = next(total);
            if next(2) == 0 {
                let was_cancelled = batch.is_cancelled();
                if batch.claim(job) {
                    assert!(!was_cancelled);
                    launched.push(job);
                }
            } else if let Some(message) = batch.report(job, Outcome::Success(1), step as u64) {
                assert_eq!(message.job, job);
                messages.push(job);
            }
            assert!(step < 100_000, "round {} does not end", round);
        }
        launched.sort();
        messages.sort();
        assert_eq!(messages, launched);
        messages.dedup();
        assert_eq!(messages.len(), launched.len());
        assert_eq!(batch.messages(), launched.len());
    }
}

#[test]
fn durations_are_written_in_minutes_and_seconds() {
    assert_eq!(format_time(0), "0s");
    assert_eq!(format_time(9), "9s");
    assert_eq!(format_time(59), "59s");
    assert_eq!(format_time(60), "1m 0s");
    assert_eq!(format_time(61), "1m 1s");
    assert_eq!(format_time(3_725), "62m 5s");
    assert_eq!(format_time(u64::MAX), "307445734561825860m 15s");
}

#[test]
fn labels_count_the_messages() {
    assert_eq!(progress_label(3, 12), "[3/12]");
    assert_eq!(progress_label(0, 0), "[0/0]");
    assert_eq!(progress_label(100, 1000), "[100/1000]");
    let mut counter = ProgressCounter::new(2);
    assert_eq!(counter.receive(), "[1/2]");
    assert_eq!(counter.receive(), "[2/2]");
    assert_eq!(counter.receive(), "[3/2]");
    assert_eq!(counter.received, 3);
    let mut full = ProgressCounter { total: 1, received: usize::MAX };
    full.receive();
    assert_eq!(full.received, usize::MAX);
}

#[test]
fn strings_are_built_from_characters() {
    assert_eq!(string_of(&vec!['a', '\u{e9}', '\u{1f600}']), "a\u{e9}\u{1f600}");
    assert_eq!(string_of(&vec![]), "");
    assert_eq!(chars_of("a\u{e9}\u{1f600}"), vec!['a', '\u{e9}', '\u{1f600}']);
}

#[test]
fn trimming_removes_unicode_whitespace() {
    let trimmed = |s: &str| -> String { trim(&s.chars().collect()).into_iter().collect() };
    for sample in ["", " ", "a", " a ", "\t\n a b \r\n", "\u{a0}x\u{2003}", "\u{200b}x", "\u{85}y\u{1680}",
        "\u{2028}\u{2029}\u{202f}\u{205f}\u{3000}z", "\u{180e}q", "a  b  "]
    {
        assert_eq!(trimmed(sample), sample.trim());
    }
    for code in 0..0x11_0000u32 {
        if let Some(c) = char::from_u32(code) {
            assert_eq!(white_space(c), c.is_whitespace());
        }
    }
}

#[test]
fn search_folds_ascii_capitals_only() {
    assert!(contains_folded(b"xxNIKONxx", b"nikon"));
    assert!(contains_folded(b"nikon", b"nikon"));
    assert!(contains_folded(b"anything", b""));
    assert!(contains_folded(b"", b""));
    assert!(!contains_folded(b"", b"n"));
    assert!(!contains_folded(b"niko", b"nikon"));
    assert!(!contains_folded(b"nik0n", b"nikon"));
    assert!(!contains_folded("n\u{130}kon".as_bytes(), b"nikon"));
    for b in 0..=255u8 {
        assert_eq!(fold(b), b.to_ascii_lowercase());
    }
}

#[test]
fn one_resolved_job_runs_inline() {
    assert_eq!(plan_with(0, true, None, 8), ExecutionPath::Idle);
    assert_eq!(plan_with(0, false, Some(3), 8), ExecutionPath::Idle);
    assert_eq!(plan_with(1, true, None, 8), ExecutionPath::Inline);
    assert_eq!(plan_with(1, true, Some(3), 8), ExecutionPath::Inline);
    assert_eq!(plan_with(1, false, None, 8), ExecutionPath::Pool(8));
    assert_eq!(plan_with(2, true, None, 8), ExecutionPath::Pool(8));
    assert_eq!(plan_with(2, true, Some(3), 8), ExecutionPath::Pool(3));
    assert_eq!(worker_count(Some(5), 2), 5);
    assert_eq!(worker_count(None, 2), 2);
}

#[test]
fn pool_defaults_to_the_cores_of_the_machine() {
    assert_eq!(plan_execution(0, false, None), ExecutionPath::Idle);
    assert_eq!(plan_execution(1, true, None), ExecutionPath::Inline);
    assert_eq!(plan_execution(7, false, Some(2)), ExecutionPath::Pool(2));
    assert_eq!(plan_execution(7, false, None), ExecutionPath::Pool(num_cpus::get()));
    assert!(num_cpus::get() >= 1);
}

#[test]
fn library_file_depends_on_the_platform() {
    assert_eq!(init_libraw(Platform::Linux, None), "libraw.so");
    assert_eq!(init_libraw(Platform::Linux, Some("/x/y.so".to_string())), "libraw.so");
    assert_eq!(init_libraw(Platform::MacOs, None), "libraw.dylib");
    assert_eq!(init_libraw(Platform::Windows, None), "libraw_c.dll");
    assert_eq!(init_libraw(Platform::Other, None), "libraw.so");
    assert_eq!(init_libraw(Platform::Other, Some("/opt/libraw.so.23".to_string())), "/opt/libraw.so.23");
    assert_eq!(staging_directory(), "fempeg_libraw");
}

#[test]
fn entry_points_have_their_exported_names() {
    let names: Vec<&str> =
        LibRawApi::required_entry_points().into_iter().map(symbol_name).collect();
    assert_eq!(
        names,
        vec![
            "libraw_init",
            "libraw_open_buffer",
            "libraw_unpack",
            "libraw_dcraw_process",
            "libraw_dcraw_make_mem_image",
            "libraw_dcraw_clear_mem",
            "libraw_close",
            "libraw_strerror",
            "libraw_set_output_bps",
            "libraw_set_output_color",
            "libraw_set_no_auto_bright",
        ]
    );
    assert_eq!(names.len(), ENTRY_POINTS);
}

#[test]
fn session_calls_go_to_entry_points() {
    assert_eq!(entry_point_for(Action::Init), Some(EntryPoint::Init));
    assert_eq!(entry_point_for(Action::OpenBuffer), Some(EntryPoint::OpenBuffer));
    assert_eq!(entry_point_for(Action::Unpack), Some(EntryPoint::Unpack));
    assert_eq!(entry_point_for(Action::SetOutputBps(8)), Some(EntryPoint::SetOutputBps));
    assert_eq!(entry_point_for(Action::SetOutputColor(1)), Some(EntryPoint::SetOutputColor));
    assert_eq!(entry_point_for(Action::SetNoAutoBright(0)), Some(EntryPoint::SetNoAutoBright));
    assert_eq!(entry_point_for(Action::MakeMemImage), Some(EntryPoint::DcrawMakeMemImage));
    assert_eq!(entry_point_for(Action::ErrorText(3)), Some(EntryPoint::Strerror));
    assert_eq!(entry_point_for(Action::Process), Some(EntryPoint::DcrawProcess));
    assert_eq!(entry_point_for(Action::FreeImage), Some(EntryPoint::DcrawClearMem));
    assert_eq!(entry_point_for(Action::Close), Some(EntryPoint::Close));
    assert_eq!(entry_point_for(Action::CopyBytes(9)), None);
    assert_eq!(entry_point_for(Action::Finish), None);
}

fn command(sudo: bool, manager: &str, arguments: &str, note: &str) -> InstallCommand {
    InstallCommand {
        sudo,
        manager: manager.to_string(),
        arguments: arguments.to_string(),
        note: note.to_string(),
    }
}

#[test]
fn library_hint_names_the_packages() {
    let linux = library_hint(Platform::Linux, "cannot open shared object file".to_string());
    assert_eq!(linux.headline, "Failed to load system libraw:");
    assert_eq!(linux.reason, "cannot open shared object file");
    assert_eq!(linux.advice, "Please install it using your package manager:");
    assert_eq!(
        linux.commands,
        vec![
            command(true, "apt", "install libraw-dev", "Ubuntu/Debian"),
            command(true, "dnf", "install libraw", "Fedora"),
            command(true, "pacman", "-S libraw", "Arch Linux"),
        ]
    );
    let mac = library_hint(Platform::MacOs, "x".to_string());
    assert_eq!(mac.advice, "Please install it using Homebrew:");
    assert_eq!(mac.commands, vec![command(false, "brew", "install libraw", "")]);
    let windows = library_hint(Platform::Windows, "y".to_string());
    assert_eq!(windows.headline, "Failed to load internal libraw DLL:");
    assert!(windows.commands.is_empty());
    assert_eq!(windows.advice, "");
    assert!(library_hint(Platform::Other, "z".to_string()).commands.is_empty());
}

#[test]
fn loader_failure_becomes_a_load_error() {
    assert_eq!(get_lib(Platform::Linux, Ok(())), Ok(()));
    assert_eq!(
        get_lib(Platform::MacOs, Err("not found".to_string())),
        Err(LoadError::Library(library_hint(Platform::MacOs, "not found".to_string())))
    );
}

#[test]
fn api_needs_every_entry_point() {
    let found: Vec<Result<(), String>> = vec![Ok(()); 11];
    let api = get_api(Ok(()), &found).unwrap();
    assert_eq!(api.entry_points, LibRawApi::required_entry_points());
    let mut missing = found.clone();
    missing[3] = Err("undefined symbol".to_string());
    missing[8] = Err("later".to_string());
    assert_eq!(
        get_api(Ok(()), &missing),
        Err(LoadError::Symbol(EntryPoint::DcrawProcess, "undefined symbol".to_string()))
    );
    let short: Vec<Result<(), String>> = vec![Ok(()); 10];
    assert_eq!(
        get_api(Ok(()), &short),
        Err(LoadError::Symbol(EntryPoint::SetNoAutoBright, "not looked up".to_string()))
    );
    assert_eq!(
        get_api(Ok(()), &vec![]),
        Err(LoadError::Symbol(EntryPoint::Init, "not looked up".to_string()))
    );
    let mut long = found.clone();
    long.push(Err("one too many".to_string()));
    assert!(get_api(Ok(()), &long).is_ok());
    let broken = LoadError::Library(library_hint(Platform::Linux, "gone".to_string()));
    assert_eq!(get_api(Err(broken.clone()), &found), Err(broken));
}

#[test]
fn handle_keeps_the_first_outcome() {
    let handle = NativeLibraryHandle::new();
    assert!(handle.must_load());
    assert!(!handle.is_ready());
    assert_eq!(handle.clone().resolve(), Resolution::MustLoad);
    let loaded = handle.clone().record(Ok(()));
    assert!(loaded.is_ready());
    assert!(!loaded.must_load());
    assert_eq!(loaded.clone().resolve(), Resolution::Ready);
    let error = LoadError::Symbol(EntryPoint::Close, "missing".to_string());
    assert_eq!(loaded.clone().record(Err(error.clone())), NativeLibraryHandle::Loaded);
    let failed = handle.record(Err(error.clone()));
    assert!(!failed.must_load());
    assert!(!failed.is_ready());
    assert_eq!(failed.clone().resolve(), Resolution::Unavailable(error.clone()));
    let again = failed.record(Ok(()));
    assert_eq!(again.clone().resolve(), Resolution::Unavailable(error.clone()));
    assert_eq!(again.record(Err(LoadError::Symbol(EntryPoint::Init, "other".to_string()))).resolve(),
        Resolution::Unavailable(error));
}

#[test]
fn tool_version_is_what_the_tool_wrote() {
    let ran = |stdout: &str| ToolRun::Exited {
        success: true,
        code: Some(0),
        stdout: stdout.to_string(),
        stderr: String::new(),
    };
    assert_eq!(get_exiftool_version(Platform::Linux, ran("12.76\n")), Ok("12.76".to_string()));
    assert_eq!(get_exiftool_version(Platform::MacOs, ran("  13.10 \r\n")), Ok("13.10".to_string()));
    assert_eq!(get_exiftool_version(Platform::Other, ran("")), Ok(String::new()));
    assert_eq!(get_exiftool_version(Platform::Windows, ran("1.0")), Ok("13.40".to_string()));
    assert_eq!(
        get_exiftool_version(Platform::Windows, ToolRun::NotStarted("x".to_string())),
        Ok("13.40".to_string())
    );
    assert_eq!(bundled_version(), "13.40");
}

#[test]
fn failing_tool_reports_its_exit_code() {
    let failed = |code: Option<i32>| ToolRun::Exited {
        success: false,
        code,
        stdout: "ignored".to_string(),
        stderr: "bad option".to_string(),
    };
    assert_eq!(
        get_exiftool_version(Platform::Linux, failed(Some(2))),
        Err(VersionError::Failed { code: 2, stderr: "bad option".to_string() })
    );
    assert_eq!(
        get_exiftool_version(Platform::Linux, failed(None)),
        Err(VersionError::Failed { code: -1, stderr: "bad option".to_string() })
    );
}

#[test]
fn missing_tool_comes_with_a_hint() {
    let hint = linux_macos_install_hint(Platform::Linux, "No such file or directory".to_string());
    assert_eq!(hint.headline, "Failed to execute exiftool:");
    assert_eq!(hint.reason, "No such file or directory");
    assert_eq!(hint.advice, "Please install it using your package manager:");
    assert_eq!(
        hint.commands,
        vec![
            command(true, "apt", "install exiftool", "Ubuntu/Debian"),
            command(true, "dnf", "install perl-image-exiftool", "Fedora"),
            command(true, "pacman", "-S exiftool", "Arch Linux"),
        ]
    );
    let mac = linux_macos_install_hint(Platform::MacOs, "x".to_string());
    assert_eq!(mac.advice, "Please install it using Homebrew:");
    assert_eq!(mac.commands, vec![command(false, "brew", "install exiftool", "")]);
    assert!(linux_macos_install_hint(Platform::Windows, "x".to_string()).commands.is_empty());
    assert_eq!(
        get_exiftool_version(Platform::Linux, ToolRun::NotStarted("No such file or directory".to_string())),
        Err(VersionError::Unavailable(hint))
    );
}
