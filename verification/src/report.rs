//! One line per rule group, and the exit status of the run.

use vstd::prelude::*;
use crate::authorizer::{AuthorizationOutcome, RemoteFailure};
use crate::unknown_error::{
    joined, parse_unknown_error, parsed_document, ParseFailure, UnknownError,
};

verus! {

/// The line for a group whose request succeeded.
pub open spec fn success_line(group: Seq<char>) -> Seq<char> {
    "Succesfully updated security group "@ + group
}

/// The line for a group whose request failed with `message`.
pub open spec fn failure_line(group: Seq<char>, message: Seq<char>) -> Seq<char> {
    "Error updating security group "@ + group + ": "@ + message
}

/// What is reported for an opaque fault once its error document was read, or
/// could not be: the document's messages, or the description of why not.
pub open spec fn recovered_text(parsed: Result<UnknownError, ParseFailure>) -> Seq<char> {
    match parsed {
        Ok(document) => document.text(),
        Err(failure) => failure.description_text(),
    }
}

/// What is reported for an opaque fault whose error document is `payload`: the
/// messages of the document, one per line, or the description of why the
/// payload could not be read as one.
pub open spec fn payload_text(payload: Seq<char>) -> Seq<char> {
    match parsed_document(payload) {
        Ok(messages) => joined(messages, '\n'),
        Err(failure) => failure.description_text(),
    }
}

/// The message that is reported for a failed request.
pub open spec fn classified_text(failure: RemoteFailure) -> Seq<char> {
    match failure {
        RemoteFailure::Typed(text) => text@,
        RemoteFailure::Opaque(payload) => payload_text(payload@),
    }
}

/// Whether any of `outcomes` is a failure.
pub open spec fn any_failure(outcomes: Seq<AuthorizationOutcome>) -> bool {
    exists|i: int| 0 <= i < outcomes.len() && outcomes[i] is Failure
}

/// The exit status of a run with these outcomes: 1 if any is a failure, else 0.
pub open spec fn exit_code_for(outcomes: Seq<AuthorizationOutcome>) -> i32 {
    if any_failure(outcomes) {
        1
    } else {
        0
    }
}

/// What a run reports: its lines, in the order of the groups, and its exit status.
#[derive(Debug, PartialEq)]
pub struct Report {
    pub lines: Vec<String>,
    pub exit_code: i32,
}

/// The message for an opaque fault, given what reading its error document gave.
pub fn recovered_message(parsed: &Result<UnknownError, ParseFailure>) -> (message: String)
    ensures
        message@ == recovered_text(*parsed),
{
    match parsed {
        Ok(document) => document.to_text(),
        Err(failure) => failure.description(),
    }
}

/// The message to report for a failed request. A typed fault is reported in its
/// own words. For an opaque fault the error document is read and its messages
/// are reported, or else the description of why it could not be read.
pub fn classify(failure: &RemoteFailure) -> (message: String)
    ensures
        message@ == classified_text(*failure),
{
    match failure {
        RemoteFailure::Typed(text) => text.clone(),
        RemoteFailure::Opaque(payload) => recovered_message(&parse_unknown_error(payload.as_str())),
    }
}

/// Writes the line for a group whose request succeeded.
pub fn write_success_line(group: &str) -> (line: String)
    ensures
        line@ == success_line(group@),
{
    let mut line = "Succesfully updated security group ".to_string();
    line.append(group);
    line
}

/// Writes the line for a group whose request failed with `message`.
pub fn write_failure_line(group: &str, message: &str) -> (line: String)
    ensures
        line@ == failure_line(group@, message@),
{
    let mut line = "Error updating security group ".to_string();
    line.append(group);
    line.append(": ");
    line.append(message);
    line
}

/// The line that is reported for `group` with `outcome`: the success line, or
/// the failure line with the message of the failure.
pub open spec fn line_for(group: Seq<char>, outcome: AuthorizationOutcome) -> Seq<char> {
    match outcome {
        AuthorizationOutcome::Success => success_line(group),
        AuthorizationOutcome::Failure(failure) => failure_line(group, classified_text(failure)),
    }
}

/// Writes the line for one group and its outcome.
pub fn write_line(group: &str, outcome: &AuthorizationOutcome) -> (line: String)
    ensures
        line@ == line_for(group@, *outcome),
{
    match outcome {
        AuthorizationOutcome::Success => write_success_line(group),
        AuthorizationOutcome::Failure(failure) => {
            let message = classify(failure);
            write_failure_line(group, message.as_str())
        },
    }
}

/// Reports a run: one line per outcome, in order, each for the group at the same
/// position, and exit status 1 if any outcome is a failure, else 0.
pub fn handle_results(results: &Vec<AuthorizationOutcome>, security_groups: &Vec<String>) -> (report:
    Report)
    requires
        results@.len() <= security_groups@.len(),
    ensures
        report.lines@.len() == results@.len(),
        forall|i: int|
            0 <= i < results@.len() ==> #[trigger] report.lines@[i]@ == line_for(
                security_groups@[i]@,
                results@[i],
            ),
        report.exit_code == exit_code_for(results@),
{
    let mut lines: Vec<String> = Vec::new();
    let mut failed = false;
    let mut i: usize = 0;
    while i < results.len()
        invariant
            i <= results@.len() <= security_groups@.len(),
            lines@.len() == i,
            forall|j: int|
                0 <= j < i ==> #[trigger] lines@[j]@ == line_for(security_groups@[j]@, results@[j]),
            failed == any_failure(results@.take(i as int)),
        decreases results.len() - i,
    {
        let line = write_line(security_groups[i].as_str(), &results[i]);
        lines.push(line);
        proof {
            let before = results@.take(i as int);
            let after = results@.take(i + 1);
            if any_failure(before) {
                let k = choose|k: int| 0 <= k < before.len() && before[k] is Failure;
                assert(after[k] is Failure);
            }
            if results@[i as int] is Failure {
                assert(after[i as int] is Failure);
            }
            if any_failure(after) {
                let k = choose|k: int| 0 <= k < after.len() && after[k] is Failure;
                if k < i {
                    assert(before[k] is Failure);
                }
            }
        }
        match &results[i] {
            AuthorizationOutcome::Failure(_) => {
                failed = true;
            },
            AuthorizationOutcome::Success => {},
        }
        i += 1;
    }
    assert(results@.take(results@.len() as int) =~= results@);
    Report { lines, exit_code: if failed { 1 } else { 0 } }
}

/// A run without any failure exits with 0.
pub proof fn lemma_all_successes_exit_zero(outcomes: Seq<AuthorizationOutcome>)
    requires
        forall|i: int| 0 <= i < outcomes.len() ==> outcomes[i] is Success,
    ensures
        exit_code_for(outcomes) == 0,
{
}

/// One failure is enough for exit status 1, however many requests succeeded.
pub proof fn lemma_one_failure_exits_one(outcomes: Seq<AuthorizationOutcome>, i: int)
    requires
        0 <= i < outcomes.len(),
        outcomes[i] is Failure,
    ensures
        exit_code_for(outcomes) == 1,
{
}

} // verus!
