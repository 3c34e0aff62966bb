//! Why the process stops: the message for the first service that ended, or for
//! an interrupt from the terminal.

use crate::services::{service_name, Service};
use crate::text::{glue, glue3};
use tokio::task::JoinError;
use vstd::prelude::*;
use vstd::string::*;

verus! {

/// `tokio::task::JoinError`, the reason why awaiting a task gave no value. It
/// is opaque here: it is only asked whether it stands for a panic, and for its
/// text.
#[verifier::external_type_specification]
#[verifier::external_body]
pub struct ExJoinError(tokio::task::JoinError);

/// `anyhow::Error`, the error that a service returns. It is opaque here: it is
/// only asked for its text.
#[verifier::external_type_specification]
#[verifier::external_body]
pub struct ExAnyhowError(anyhow::Error);

/// Whether a join error was caused by the task panicking, as opposed to being
/// cancelled.
pub uninterp spec fn caused_by_panic(e: JoinError) -> bool;

/// `tokio::task::JoinError::is_panic`: true exactly for an error that a panic
/// of the task caused. The answer is fixed when the error is made.
pub assume_specification[ tokio::task::JoinError::is_panic ](e: &tokio::task::JoinError) -> (r: bool)
    ensures
        r == caused_by_panic(*e),
;

/// The text that displaying a join error gives.
pub uninterp spec fn join_error_text(e: JoinError) -> Seq<char>;

/// The text of a join error, as `tokio::task::JoinError`'s `Display` writes it.
/// It is made of the number of the task and, after a panic, of the panic's
/// message where that is a string; all of these are fixed when the error is
/// made, so one error always gives one text. Nothing more is said of it.
#[verifier::external_body]
fn display_join_error(e: &JoinError) -> (r: String)
    ensures
        r@ == join_error_text(*e),
{
    e.to_string()
}

/// How a service's task ended, with the text of its error where it has one.
#[derive(Debug)]
pub enum TaskOutcome {
    /// The task panicked.
    Panicked(String),
    /// The task was lost for another reason.
    Lost(String),
    /// The service returned an error.
    Failed(String),
    /// The service returned without an error.
    Clean,
}

/// The message for a task of `service` that ended with `outcome`.
pub open spec fn outcome_message(service: Seq<char>, outcome: TaskOutcome) -> Seq<char> {
    match outcome {
        TaskOutcome::Panicked(text) => service + " panicked: "@ + text@,
        TaskOutcome::Lost(text) => service + " task error: "@ + text@,
        TaskOutcome::Failed(text) => "error: "@ + text@,
        TaskOutcome::Clean => service + " exited cleanly (unexpected)"@,
    }
}

/// Whether `outcome` describes `res`: the variant follows from `res`, and the
/// text is the one that displaying the error gives. A service's own error may
/// display itself as it likes, so its text is only known to be one that
/// displaying it gave.
pub open spec fn describes(
    res: Result<Result<(), anyhow::Error>, JoinError>,
    outcome: TaskOutcome,
) -> bool {
    match res {
        Err(e) => match outcome {
            TaskOutcome::Panicked(text) => caused_by_panic(e) && text@ == join_error_text(e),
            TaskOutcome::Lost(text) => !caused_by_panic(e) && text@ == join_error_text(e),
            _ => false,
        },
        Ok(Err(e)) => match outcome {
            TaskOutcome::Failed(text) => to_string_from_display_ensures::<anyhow::Error>(&e, text),
            _ => false,
        },
        Ok(Ok(())) => outcome == TaskOutcome::Clean,
    }
}

/// The message for a task of `service` whose awaiting gave `res`, where that is
/// not an error which the service returned itself.
pub open spec fn exit_text(
    service: Seq<char>,
    res: Result<Result<(), anyhow::Error>, JoinError>,
) -> Seq<char> {
    match res {
        Err(e) => if caused_by_panic(e) {
            service + " panicked: "@ + join_error_text(e)
        } else {
            service + " task error: "@ + join_error_text(e)
        },
        _ => service + " exited cleanly (unexpected)"@,
    }
}

/// Whether `res` is an error which the service returned itself.
pub open spec fn is_own_error(res: Result<Result<(), anyhow::Error>, JoinError>) -> bool {
    res matches Ok(inner) && inner is Err
}

/// What made the process stop.
pub enum FirstExit {
    /// An interrupt from the terminal.
    CtrlC,
    /// The task of a service ended.
    Ended(Service, Result<Result<(), anyhow::Error>, JoinError>),
}

/// A panic, a lost task and a clean exit are told with the name of the service
/// in front and, where there is an error, with its text at the end; an error of
/// the service itself is told by its text alone.
pub proof fn lemma_messages(service: Seq<char>, text: String)
    ensures
        outcome_message(service, TaskOutcome::Panicked(text)) == service + " panicked: "@ + text@,
        outcome_message(service, TaskOutcome::Lost(text)) == service + " task error: "@ + text@,
        outcome_message(service, TaskOutcome::Failed(text)) == "error: "@ + text@,
        outcome_message(service, TaskOutcome::Clean) == service
            + " exited cleanly (unexpected)"@,
{
}

/// How a task ended follows from what awaiting it gave: a join error is a panic
/// or a lost task, as its cause says, with its own text; an error of the service
/// has a text that displaying it gave; and only a return without an error is
/// clean.
pub proof fn lemma_outcome_follows_from_result(
    res: Result<Result<(), anyhow::Error>, JoinError>,
    outcome: TaskOutcome,
)
    requires
        describes(res, outcome),
    ensures
        res matches Err(e) && caused_by_panic(e) ==> (outcome matches TaskOutcome::Panicked(t)
            && t@ == join_error_text(res->Err_0)),
        res matches Err(e) && !caused_by_panic(e) ==> (outcome matches TaskOutcome::Lost(t) && t@
            == join_error_text(res->Err_0)),
        res matches Ok(inner) && inner is Err ==> (outcome matches TaskOutcome::Failed(t)
            && to_string_from_display_ensures::<anyhow::Error>(&res->Ok_0->Err_0, t)),
        res matches Ok(inner) && inner is Ok ==> outcome is Clean,
{
}

/// The message about a join error has the name of the service in front and the
/// text of the error at the end, with the cause between them.
pub proof fn lemma_exit_texts(
    service: Seq<char>,
    res: Result<Result<(), anyhow::Error>, JoinError>,
)
    ensures
        is_own_error(res) <==> (res is Ok && res->Ok_0 is Err),
        res is Err && caused_by_panic(res->Err_0) ==> exit_text(service, res) == service
            + " panicked: "@ + join_error_text(res->Err_0),
        res is Err && !caused_by_panic(res->Err_0) ==> exit_text(service, res) == service
            + " task error: "@ + join_error_text(res->Err_0),
        res is Ok && res->Ok_0 is Ok ==> exit_text(service, res) == service
            + " exited cleanly (unexpected)"@,
{
}

/// The name of the service stands in front of the message as it is, once, and
/// changes nothing else in it, but for an error which the service returned
/// itself.
pub proof fn lemma_message_names_service(service: Seq<char>, outcome: TaskOutcome)
    requires
        !(outcome is Failed),
    ensures
        outcome_message(service, outcome) == service + outcome_message(Seq::empty(), outcome),
{
    let none = Seq::<char>::empty();
    match outcome {
        TaskOutcome::Panicked(text) => {
            assert(service + " panicked: "@ + text@ =~= service + (none + " panicked: "@ + text@));
        },
        TaskOutcome::Lost(text) => {
            assert(service + " task error: "@ + text@ =~= service + (none + " task error: "@
                + text@));
        },
        TaskOutcome::Failed(_) => {},
        TaskOutcome::Clean => {
            assert(none + " exited cleanly (unexpected)"@ =~= " exited cleanly (unexpected)"@);
        },
    }
}

/// The message about an error which the service returned itself does not depend
/// on the name of the service.
pub proof fn lemma_own_error_hides_name(a: Seq<char>, b: Seq<char>, outcome: TaskOutcome)
    requires
        outcome is Failed,
    ensures
        outcome_message(a, outcome) == outcome_message(b, outcome),
{
}

/// The same of what awaiting a task gave: the message is the name followed by
/// the message for an empty name.
pub proof fn lemma_exit_text_names_service(
    service: Seq<char>,
    res: Result<Result<(), anyhow::Error>, JoinError>,
)
    requires
        !is_own_error(res),
    ensures
        exit_text(service, res) == service + exit_text(Seq::empty(), res),
{
    let none = Seq::<char>::empty();
    match res {
        Err(e) => {
            let text = join_error_text(e);
            assert(service + " panicked: "@ + text =~= service + (none + " panicked: "@ + text));
            assert(service + " task error: "@ + text =~= service + (none + " task error: "@
                + text));
        },
        _ => {
            assert(none + " exited cleanly (unexpected)"@ =~= " exited cleanly (unexpected)"@);
        },
    }
}

/// The message for a task of `service` that ended with `outcome`.
pub fn exit_message(service: &str, outcome: &TaskOutcome) -> (r: String)
    ensures
        r@ == outcome_message(service@, *outcome),
{
    match outcome {
        TaskOutcome::Panicked(text) => glue3(service, " panicked: ", text.as_str()),
        TaskOutcome::Lost(text) => glue3(service, " task error: ", text.as_str()),
        TaskOutcome::Failed(text) => glue("error: ", text.as_str()),
        TaskOutcome::Clean => glue(service, " exited cleanly (unexpected)"),
    }
}

/// How the awaited task ended, read off what awaiting it gave. The text of an
/// error is the one that displaying it gives; nothing is said of what it holds.
pub fn task_outcome(res: Result<Result<(), anyhow::Error>, JoinError>) -> (r: TaskOutcome)
    ensures
        describes(res, r),
{
    match res {
        Err(e) => if e.is_panic() {
            TaskOutcome::Panicked(display_join_error(&e))
        } else {
            TaskOutcome::Lost(display_join_error(&e))
        },
        Ok(Err(e)) => TaskOutcome::Failed(e.to_string()),
        Ok(Ok(())) => TaskOutcome::Clean,
    }
}

/// The message for a task of `service` whose awaiting gave `res`.
pub fn format_exit(service: &str, res: Result<Result<(), anyhow::Error>, JoinError>) -> (r: String)
    ensures
        exists|outcome: TaskOutcome| #[trigger]
            describes(res, outcome) && r@ == outcome_message(service@, outcome),
        !is_own_error(res) ==> r@ == exit_text(service@, res),
{
    let outcome = task_outcome(res);
    exit_message(service, &outcome)
}

/// The reason for the shutdown, as it is logged.
pub fn exit_reason(first: FirstExit) -> (r: String)
    ensures
        match first {
            FirstExit::CtrlC => r@ == "ctrl-c"@,
            FirstExit::Ended(service, res) => {
                &&& exists|outcome: TaskOutcome| #[trigger]
                    describes(res, outcome) && r@ == outcome_message(service_name(service), outcome)
                &&& !is_own_error(res) ==> r@ == exit_text(service_name(service), res)
            },
        },
{
    match first {
        FirstExit::CtrlC => "ctrl-c".to_owned(),
        FirstExit::Ended(service, res) => format_exit(service.name(), res),
    }
}

} // verus!
