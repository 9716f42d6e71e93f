use prtsc::cli::{output_path, parse_args, Command, Step, UsageError};

fn args(words: &[&str]) -> Vec<String> {
    words.iter().map(|word| word.to_string()).collect()
}

fn recorded(words: &[&str]) -> (Option<String>, bool) {
    match parse_args(&args(words)) {
        Ok(Command::Record { path, audio }) => (path, audio),
        _ => panic!("{:?} is no recording", words),
    }
}

fn refused(words: &[&str]) -> (String, i32) {
    match parse_args(&args(words)) {
        Err(err) => {
            let failure = err.failure();
            (failure.message, failure.exit_code)
        }
        Ok(_) => panic!("{:?} is accepted", words),
    }
}

#[test]
fn nothing_asks_for_a_screenshot() {
    assert!(matches!(parse_args(&args(&[])), Ok(Command::Capture)));
}

#[test]
fn mcp_asks_for_the_server() {
    assert!(matches!(parse_args(&args(&["mcp"])), Ok(Command::Serve)));
    assert!(matches!(parse_args(&args(&["mcp", "more"])), Ok(Command::Serve)));
}

#[test]
fn record_takes_a_path_and_a_flag() {
    assert_eq!(recorded(&["record"]), (None, false));
    assert_eq!(recorded(&["record", "a.mp4"]), (Some("a.mp4".to_string()), false));
    assert_eq!(recorded(&["record", "--audio"]), (None, true));
    assert_eq!(recorded(&["record", "--audio", "--audio"]), (None, true));
    assert_eq!(recorded(&["record", "--video"]), (Some("--video".to_string()), false));
}

#[test]
fn the_audio_flag_may_stand_anywhere() {
    let both = (Some("a.mp4".to_string()), true);
    assert_eq!(recorded(&["record", "--audio", "a.mp4"]), both);
    assert_eq!(recorded(&["record", "a.mp4", "--audio"]), both);
}

#[test]
fn a_second_path_is_refused() {
    assert_eq!(
        refused(&["record", "a", "--audio", "b", "c"]),
        ("unexpected argument: b".to_string(), 2)
    );
    assert!(matches!(
        parse_args(&args(&["record", "a", "b"])),
        Err(UsageError::Unexpected(arg)) if arg == "b"
    ));
}

#[test]
fn an_unknown_command_is_refused() {
    assert_eq!(
        refused(&["--audio"]),
        (
            "unknown argument: --audio (expected no arguments, `mcp`, or `record [--audio] [path]`)"
                .to_string(),
            2
        )
    );
    assert!(matches!(
        parse_args(&args(&["Record", "a"])),
        Err(UsageError::Unknown(arg)) if arg == "Record"
    ));
    assert!(matches!(parse_args(&args(&[""])), Err(UsageError::Unknown(_))));
}

#[test]
fn recordings_have_a_default_path() {
    assert_eq!(output_path(None), "recording.mp4");
    assert_eq!(output_path(Some("x/y.mp4".to_string())), "x/y.mp4");
    assert_eq!(output_path(Some(String::new())), "");
}

#[test]
fn failures_name_the_step() {
    let cases = [
        (Step::Capture, "capture failed: no"),
        (Step::RecordingSetup, "recording setup failed: no"),
        (Step::Recording, "recording failed: no"),
        (Step::Server, "mcp server error: no"),
    ];
    for (step, message) in cases {
        let failure = step.failure("no");
        assert_eq!(failure.message, message);
        assert_eq!(failure.exit_code, 1);
    }
}
