use vstd::prelude::*;

use crate::PASSWORD_EXIT_CODE;
use crate::naming::Args;
use crate::naming::get_prefix;
use crate::naming::output_file_names;
use crate::naming::planned_file_names;
use crate::naming::resolved_prefix;

verus! {

/// The two ways an invocation can start: extracting text (and never
/// loading the rendering library), or opening the document to count or
/// render its pages.
pub enum Mode {
    ExtractText,
    OpenDocument,
}

/// Decides how a run starts from its parameters.
pub fn initial_mode(args: &Args) -> (r: Mode)
    ensures
        r is ExtractText <==> args.text_only,
{
    if args.text_only {
        Mode::ExtractText
    } else {
        Mode::OpenDocument
    }
}

/// What opening the document produced, as the conversion logic reads
/// it: the page count on success, the password failure the tool
/// recovers from, or any other failure's message.
pub enum OpenOutcome {
    Opened { page_count: usize },
    PasswordError,
    OtherError { message: String },
}

/// What a run does once the document open was attempted.
pub enum RunAction {
    /// Print the document's page count and quit without converting.
    PrintCountOnly { page_count: usize },
    /// Write one image file per listed name, in page order, into the
    /// output directory (overwriting files of the same name), then
    /// print the count of files produced: the page count ordinarily,
    /// `1` in first-page-only mode for any non-empty document.
    RenderPages { file_names: Vec<String>, printed_count: usize },
    /// Print the message to standard error and exit with the password
    /// exit code.
    FailPassword { message: String },
    /// Abort the run, surfacing the underlying message.
    FailOther { message: String },
}

pub open spec fn missing_password_message() -> Seq<char> {
    "PDF is password protected!"@
}

pub open spec fn incorrect_password_message() -> Seq<char> {
    "Passed PDF password is incorrect!"@
}

/// The diagnostic for a password failure: one message when no password
/// was supplied at all, another when the supplied one was not accepted.
pub open spec fn password_failure_text(password_supplied: bool) -> Seq<char> {
    if password_supplied {
        incorrect_password_message()
    } else {
        missing_password_message()
    }
}

/// Picks the password-failure diagnostic.
pub fn password_failure_message(password_supplied: bool) -> (r: String)
    ensures
        r@ == password_failure_text(password_supplied),
{
    if password_supplied {
        "Passed PDF password is incorrect!".to_owned()
    } else {
        "PDF is password protected!".to_owned()
    }
}

/// Decides the whole remainder of a run from the parameters, the input
/// file's name, and what opening the document produced: a password
/// failure turns into the matching diagnostic, any other open failure
/// is surfaced unchanged, and a successful open leads either to the
/// bare page count or to the full list of output file names together
/// with the count to print, which is the number of files produced.
pub fn plan_after_open(args: &Args, pdf_file_name: &str, outcome: OpenOutcome) -> (r: RunAction)
    ensures
        outcome is PasswordError ==> (r matches RunAction::FailPassword { message }
            && message@ == password_failure_text(args.password is Some)),
        outcome matches OpenOutcome::OtherError { message: m } ==> (r matches
            RunAction::FailOther { message } && message == m),
        outcome matches OpenOutcome::Opened { page_count } ==> (if args.page_count_only {
            r == (RunAction::PrintCountOnly { page_count })
        } else {
            r matches RunAction::RenderPages { file_names, printed_count }
                && file_names.deep_view() =~~= planned_file_names(
                resolved_prefix(args.prefix.deep_view(), pdf_file_name@),
                page_count as nat,
                args.first_page_only,
            ) && printed_count == file_names@.len() && (!args.first_page_only ==> printed_count
                == page_count) && (args.first_page_only && page_count >= 1 ==> printed_count == 1)
        }),
{
    match outcome {
        OpenOutcome::PasswordError => RunAction::FailPassword {
            message: password_failure_message(args.password.is_some()),
        },
        OpenOutcome::OtherError { message } => RunAction::FailOther { message },
        OpenOutcome::Opened { page_count } => {
            if args.page_count_only {
                RunAction::PrintCountOnly { page_count }
            } else {
                let prefix = get_prefix(pdf_file_name, args);
                let file_names = output_file_names(
                    prefix.as_str(),
                    page_count,
                    args.first_page_only,
                );
                let printed_count = file_names.len();
                RunAction::RenderPages { file_names, printed_count }
            }
        },
    }
}

/// The process exit code an action ends in: the dedicated code for a
/// password failure, the generic failure code for any other failure,
/// and success otherwise.
pub fn action_exit_code(action: &RunAction) -> (r: i32)
    ensures
        r == PASSWORD_EXIT_CODE <==> action is FailPassword,
        action is FailOther ==> r == 1,
        action is PrintCountOnly || action is RenderPages ==> r == 0,
{
    match action {
        RunAction::FailPassword { .. } => PASSWORD_EXIT_CODE,
        RunAction::FailOther { .. } => 1,
        RunAction::PrintCountOnly { .. } => 0,
        RunAction::RenderPages { .. } => 0,
    }
}

} // verus!
