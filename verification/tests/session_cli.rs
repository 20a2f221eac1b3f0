use ocr_cli::cli::{dispatch, CliArgs, Invocation};
use ocr_cli::model::{EngineConfig, OutputMode};
use ocr_cli::session::{input_token, on_confirmation, on_input, Directive, SessionState};

fn line(s: &str) -> String {
    String::from(s)
}

#[test]
fn exit_directives_terminate_in_any_case() {
    for s in ["EXIT", "Exit", "quit", "QUIT", "exit", "  quit  "] {
        let (state, d) = on_input(&line(s), false);
        assert!(matches!(state, SessionState::Exited), "input {s:?}");
        assert!(matches!(d, Directive::Farewell), "input {s:?}");
    }
}

#[test]
fn empty_line_never_terminates_and_never_processes() {
    for s in ["", "   ", "\t", "\n"] {
        let (state, d) = on_input(&line(s), true);
        assert!(matches!(state, SessionState::AwaitInput), "input {s:?}");
        assert!(matches!(d, Directive::Prompt), "input {s:?}");
    }
}

#[test]
fn nonexistent_file_reports_and_reprompts() {
    let (state, d) = on_input(&line("no/such/file.png"), false);
    assert!(matches!(state, SessionState::AwaitInput));
    assert!(matches!(d, Directive::ReportMissing));
}

#[test]
fn recognized_extension_runs_directly() {
    for s in ["photo.png", "scan.JPG", "page.jpeg", "x.BMP", "y.tiff", "z.webp"] {
        let (state, d) = on_input(&line(s), true);
        assert!(matches!(state, SessionState::AwaitInput), "input {s:?}");
        match d {
            Directive::RunImage(p) => assert_eq!(p, s),
            other => panic!("expected a run for {s:?}, got {other:?}"),
        }
    }
}

#[test]
fn unrecognized_extension_asks_for_confirmation() {
    for s in ["notes.txt", "archive.tar.gz", ".hidden", "noextension"] {
        let (state, d) = on_input(&line(s), true);
        assert!(matches!(state, SessionState::Confirming { .. }), "input {s:?}");
        assert!(matches!(d, Directive::AskConfirmation), "input {s:?}");
    }
}

#[test]
fn confirmation_no_reprompts_without_processing() {
    let (state, d) = on_input(&line("notes.txt"), true);
    assert!(matches!(d, Directive::AskConfirmation));
    let pending = match state {
        SessionState::Confirming { pending } => pending,
        other => panic!("expected a confirmation state, got {other:?}"),
    };
    for answer in ["n", "N", "no", "", "maybe"] {
        let (state, d) = on_confirmation(pending.clone(), &line(answer));
        assert!(matches!(state, SessionState::AwaitInput), "answer {answer:?}");
        assert!(matches!(d, Directive::Prompt), "answer {answer:?}");
    }
}

#[test]
fn confirmation_yes_proceeds_to_processing() {
    let (state, _) = on_input(&line("notes.txt"), true);
    let pending = match state {
        SessionState::Confirming { pending } => pending,
        other => panic!("expected a confirmation state, got {other:?}"),
    };
    for answer in ["y", "Y", "yes", "YES", " y "] {
        let (state, d) = on_confirmation(pending.clone(), &line(answer));
        assert!(matches!(state, SessionState::AwaitInput), "answer {answer:?}");
        match d {
            Directive::RunImage(p) => assert_eq!(p, "notes.txt"),
            other => panic!("expected a run for {answer:?}, got {other:?}"),
        }
    }
}

#[test]
fn input_token_trims_whitespace() {
    let t = input_token(&line("  some path.png \r\n"));
    let s: String = t.iter().collect();
    assert_eq!(s, "some path.png");
}

fn args(
    path: Option<&str>,
    version_info: bool,
    interactive: bool,
) -> CliArgs {
    CliArgs {
        path: path.map(String::from),
        mode: OutputMode::Text,
        verbose: false,
        version_info,
        interactive,
    }
}

#[test]
fn standard_engine_config_matches_documented_values() {
    let c = EngineConfig::standard();
    assert_eq!(c.rect_border_size, 12);
    assert!(!c.merge_boxes);
    assert_eq!(c.merge_threshold, 1);
}

#[test]
fn version_request_wins_over_everything() {
    let d = dispatch(args(Some("a.png"), true, true), true);
    assert!(matches!(d, Invocation::ShowVersion));
}

#[test]
fn interactive_flag_wins_over_single_shot() {
    let d = dispatch(args(Some("a.png"), false, true), true);
    assert!(matches!(d, Invocation::Interactive));
}

#[test]
fn single_shot_without_path_is_fatal() {
    let d = dispatch(args(None, false, false), false);
    assert!(matches!(d, Invocation::MissingPath));
}

#[test]
fn single_shot_with_missing_file_is_fatal() {
    match dispatch(args(Some("gone.png"), false, false), false) {
        Invocation::MissingFile(p) => assert_eq!(p, "gone.png"),
        other => panic!("expected a missing-file error, got {other:?}"),
    }
}

#[test]
fn single_shot_with_existing_file_processes_once() {
    match dispatch(args(Some("here.png"), false, false), true) {
        Invocation::SingleShot(p) => assert_eq!(p, "here.png"),
        other => panic!("expected single-shot processing, got {other:?}"),
    }
}
