//! What can go wrong during a search.

use vstd::prelude::*;
use vstd::std_specs::convert::FromSpecImpl;
use vstd::string::*;

verus! {

#[verifier::external_type_specification]
#[verifier::external_body]
pub struct ExIoError(std::io::Error);

/// The errors of a search.
#[derive(Debug)]
pub enum SearchError {
    /// A file could not be read although it exists.
    IoError(std::io::Error),
    /// A directory could not be listed; the text names it.
    InvalidDir(String),
    /// A channel of the pipeline is disconnected: a message could not be
    /// handed over. This breaks the hand-over itself and is fatal.
    ChannelFailure,
    /// A search was asked to run with no worker at all.
    NoWorkers,
}

impl From<std::io::Error> for SearchError {
    fn from(error: std::io::Error) -> (converted: Self) {
        SearchError::IoError(error)
    }
}

impl FromSpecImpl<std::io::Error> for SearchError {
    open spec fn obeys_from_spec() -> bool {
        true
    }

    open spec fn from_spec(error: std::io::Error) -> Self {
        SearchError::IoError(error)
    }
}

/// The message of an unreadable directory.
pub open spec fn invalid_dir_message(dir: Seq<char>) -> Seq<char> {
    "Failed to read directory: '"@ + dir + "'"@
}

/// The message of a read failure whose cause reads `detail`.
pub open spec fn io_error_message(detail: Seq<char>) -> Seq<char> {
    "IO error: "@ + detail
}

/// The message of a read failure, given the text of its cause.
pub fn describe_io_error(detail: &str) -> (text: String)
    ensures
        text@ == io_error_message(detail@),
{
    let mut text = String::from_str("IO error: ");
    text.append(detail);
    text
}

/// A message, followed by the text of what caused the error.
pub open spec fn with_cause(message: Seq<char>, cause: Seq<char>) -> Seq<char> {
    message + "\nCaused by: "@ + cause
}

/// The report of a directory that could not be listed: the directory, and
/// on a line of its own what kept it from being listed.
pub fn invalid_dir_report(dir: &str, cause: &str) -> (text: String)
    ensures
        text@ == invalid_dir_message(dir@) + "\nCaused by: "@ + cause@,
{
    let mut text = String::from_str("Failed to read directory: '");
    text.append(dir);
    text.append("'");
    text.append("\nCaused by: ");
    text.append(cause);
    text
}

impl SearchError {
    /// What [`SearchError::message`] returns: for a read failure the text
    /// of its cause behind the prefix, for every other error a fixed text.
    pub open spec fn message_is(self, text: Seq<char>) -> bool {
        match self {
            SearchError::IoError(error) => exists|shown: String|
                to_string_from_display_ensures::<std::io::Error>(&error, shown) && text
                    == io_error_message(#[trigger] shown@),
            SearchError::InvalidDir(dir) => text == invalid_dir_message(dir@),
            SearchError::ChannelFailure => text == "Channel disconnected"@,
            SearchError::NoWorkers => text == "At least one worker is needed"@,
        }
    }

    /// What [`SearchError::message_with_cause`] returns: the message of the
    /// error, then the text of the cause on a line of its own.
    pub open spec fn report_is(self, cause: std::io::Error, text: Seq<char>) -> bool {
        exists|own: Seq<char>, shown: String|
            #![trigger self.message_is(own), to_string_from_display_ensures::<std::io::Error>(&cause, shown)]
            self.message_is(own) && to_string_from_display_ensures::<std::io::Error>(
                &cause,
                shown,
            ) && text == with_cause(own, shown@)
    }

    /// The message shown to the user for an error that `cause` brought
    /// about: for a directory that could not be listed it names both the
    /// directory and the cause.
    pub fn message_with_cause(&self, cause: &std::io::Error) -> (text: String)
        ensures
            self.report_is(*cause, text@),
    {
        let shown = cause.to_string();
        match self {
            SearchError::InvalidDir(dir) => {
                let text = invalid_dir_report(dir.as_str(), shown.as_str());
                assert(self.message_is(invalid_dir_message(dir@)));
                assert(text@ == with_cause(invalid_dir_message(dir@), shown@));
                text
            },
            _ => {
                let mut text = self.message();
                let ghost own = text@;
                text.append("\nCaused by: ");
                text.append(shown.as_str());
                assert(self.message_is(own));
                assert(text@ == with_cause(own, shown@));
                text
            },
        }
    }

    /// The message shown to the user for this error.
    pub fn message(&self) -> (text: String)
        ensures
            self.message_is(text@),
    {
        match self {
            SearchError::IoError(error) => {
                let detail = error.to_string();
                describe_io_error(detail.as_str())
            },
            SearchError::InvalidDir(dir) => {
                let mut text = String::from_str("Failed to read directory: '");
                text.append(dir.as_str());
                text.append("'");
                text
            },
            SearchError::ChannelFailure => String::from_str("Channel disconnected"),
            SearchError::NoWorkers => String::from_str("At least one worker is needed"),
        }
    }
}

} // verus!
