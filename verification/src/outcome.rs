//! How one attempt ended, how the whole run ended, and the exit code of each
//! ending.

use vstd::prelude::*;
use vstd::utf8::{encode_utf8, encode_utf8_decode_utf8, is_ascii_chars, is_ascii_chars_encode_utf8};

verus! {

/// The ways in which one attempt to run the command can end.
#[derive(Debug, Clone, PartialEq, Eq)]
pub enum AttemptOutcome {
    /// The command ran and exited with status zero.
    Success,
    /// The command ran and exited with the given nonzero status.
    FailureWithCode(i32),
    /// The command was ended by a signal and left no exit status.
    KilledBySignal,
    /// The command could not be started; the text says why.
    LaunchFailed(String),
}

/// The ways in which the whole run can end.
#[derive(Debug, Clone, Copy, PartialEq, Eq, Structural)]
pub enum RunResult {
    /// The command succeeded in the end.
    Success,
    /// The time allowed for the run was used up before the command succeeded.
    MaxElapsedExceeded,
    /// The command failed once more than it may be retried.
    MaxRetriesExceeded,
    /// The command was ended by a signal.
    KilledBySignal,
    /// The command could not be started.
    UnableToLaunch,
}

/// The exit code that the process reports for each ending of a run.
pub open spec fn exit_code_of(result: RunResult) -> int {
    match result {
        RunResult::Success => 0,
        RunResult::MaxRetriesExceeded => 1,
        RunResult::KilledBySignal => 2,
        RunResult::UnableToLaunch => 3,
        RunResult::MaxElapsedExceeded => 4,
    }
}

impl RunResult {
    /// The exit code of the process for this ending.
    pub fn exit_code(&self) -> (code: i32)
        ensures
            code == exit_code_of(*self),
    {
        match self {
            RunResult::Success => 0,
            RunResult::MaxRetriesExceeded => 1,
            RunResult::KilledBySignal => 2,
            RunResult::UnableToLaunch => 3,
            RunResult::MaxElapsedExceeded => 4,
        }
    }
}

/// Two endings with the same exit code are the same ending, and zero is the
/// code of success alone.
pub proof fn lemma_exit_codes_distinct(a: RunResult, b: RunResult)
    ensures
        exit_code_of(a) == exit_code_of(b) ==> a == b,
        exit_code_of(a) == 0 <==> a == RunResult::Success,
        0 <= exit_code_of(a) <= 4,
{
}

/// The outcome of an attempt whose process ran to its end. `status` is the
/// exit status that the process left, or nothing where a signal ended it.
pub open spec fn outcome_of_exit(status: Option<i32>) -> AttemptOutcome {
    match status {
        Some(code) => if code == 0 {
            AttemptOutcome::Success
        } else {
            AttemptOutcome::FailureWithCode(code)
        },
        None => AttemptOutcome::KilledBySignal,
    }
}

/// The outcome of an attempt. `attempt` is what launching the command
/// gave: the exit status of the process, or nothing where a signal ended
/// it; or, where the process could not be started, the reason.
pub open spec fn outcome_of(attempt: Result<Option<i32>, String>) -> AttemptOutcome {
    match attempt {
        Ok(status) => outcome_of_exit(status),
        Err(reason) => AttemptOutcome::LaunchFailed(reason),
    }
}

/// Classifies an attempt: a process that could not be started is a launch
/// failure, exit status zero is success, any other status is a failure
/// with that code, and no status means that a signal ended the process.
pub fn classify(attempt: Result<Option<i32>, String>) -> (outcome: AttemptOutcome)
    ensures
        outcome == outcome_of(attempt),
{
    match attempt {
        Err(reason) => AttemptOutcome::LaunchFailed(reason),
        Ok(None) => AttemptOutcome::KilledBySignal,
        Ok(Some(code)) => {
            if code == 0 {
                AttemptOutcome::Success
            } else {
                AttemptOutcome::FailureWithCode(code)
            }
        },
    }
}

/// The name of the shell that is asked for: the four letters `bash`.
pub open spec fn bash_name() -> Seq<char> {
    seq!['b', 'a', 's', 'h']
}

/// The name of the shell that runs the command where no other is asked for.
pub open spec fn default_shell_name() -> Seq<char> {
    seq!['s', 'h']
}

/// The shell for a preference: `bash` where the preference is exactly
/// that word, the default shell for every other preference and for none.
pub open spec fn shell_name_for(preference: Option<Seq<char>>) -> Seq<char> {
    if preference == Some(bash_name()) {
        bash_name()
    } else {
        default_shell_name()
    }
}

/// Chooses the shell that runs the command. `preference` is the shell that
/// the environment names, if it names one. Only the exact word `bash` is
/// honoured; any other text, the empty one too, gives the default shell.
pub fn shell_for(preference: Option<&str>) -> (shell: &'static str)
    ensures
        shell@ == shell_name_for(
            match preference {
                Some(name) => Some(name@),
                None => None,
            },
        ),
{
    proof {
        reveal_strlit("bash");
        reveal_strlit("sh");
        assert("bash"@ == bash_name());
        assert("sh"@ == default_shell_name());
    }
    match preference {
        Some(name) => {
            let bytes = name.as_bytes();
            let wanted = bytes.len() == 4 && bytes[0] == 0x62 && bytes[1] == 0x61 && bytes[2]
                == 0x73 && bytes[3] == 0x68;
            proof {
                let word: Seq<u8> = seq![0x62u8, 0x61u8, 0x73u8, 0x68u8];
                assert(is_ascii_chars(bash_name()));
                is_ascii_chars_encode_utf8(bash_name());
                assert(encode_utf8(bash_name()) == word);
                encode_utf8_decode_utf8(bash_name());
                encode_utf8_decode_utf8(name@);
                if wanted {
                    assert(bytes@ == word);
                }
            }
            if wanted {
                "bash"
            } else {
                "sh"
            }
        },
        None => "sh",
    }
}

} // verus!
