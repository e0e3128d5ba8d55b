use pll::outcome::{classify, shell_for, AttemptOutcome, RunResult};

#[test]
fn exit_codes_are_the_documented_ones() {
    assert_eq!(RunResult::Success.exit_code(), 0);
    assert_eq!(RunResult::MaxRetriesExceeded.exit_code(), 1);
    assert_eq!(RunResult::KilledBySignal.exit_code(), 2);
    assert_eq!(RunResult::UnableToLaunch.exit_code(), 3);
    assert_eq!(RunResult::MaxElapsedExceeded.exit_code(), 4);
}

#[test]
fn exit_status_zero_is_success() {
    assert_eq!(classify(Ok(Some(0))), AttemptOutcome::Success);
}

#[test]
fn nonzero_exit_status_is_a_failure_with_that_code() {
    assert_eq!(classify(Ok(Some(7))), AttemptOutcome::FailureWithCode(7));
    assert_eq!(classify(Ok(Some(-1))), AttemptOutcome::FailureWithCode(-1));
    assert_eq!(classify(Ok(Some(i32::MIN))), AttemptOutcome::FailureWithCode(i32::MIN));
    assert_eq!(classify(Ok(Some(255))), AttemptOutcome::FailureWithCode(255));
}

#[test]
fn missing_exit_status_means_a_signal() {
    assert_eq!(classify(Ok(None)), AttemptOutcome::KilledBySignal);
}

#[test]
fn a_process_that_did_not_start_is_a_launch_failure() {
    let reason = String::from("No such file or directory (os error 2)");
    assert_eq!(classify(Err(reason.clone())), AttemptOutcome::LaunchFailed(reason));
    assert_eq!(classify(Err(String::new())), AttemptOutcome::LaunchFailed(String::new()));
}

#[test]
fn only_the_exact_word_bash_selects_bash() {
    assert_eq!(shell_for(Some("bash")), "bash");
    assert_eq!(shell_for(Some("sh")), "sh");
    assert_eq!(shell_for(None), "sh");
    assert_eq!(shell_for(Some("")), "sh");
    assert_eq!(shell_for(Some("/bin/bash")), "sh");
    assert_eq!(shell_for(Some("Bash")), "sh");
    assert_eq!(shell_for(Some("bash ")), "sh");
    assert_eq!(shell_for(Some("bas")), "sh");
    assert_eq!(shell_for(Some("basi")), "sh");
    assert_eq!(shell_for(Some("zsh")), "sh");
    assert_eq!(shell_for(Some("b\u{e4}sh")), "sh");
}
