//! What can go wrong with a job.

use vstd::prelude::*;
use vstd::string::StringExecFns;

verus! {

/// The reasons for which a job, or a worker, fails.
#[derive(Debug, Clone, PartialEq, Eq)]
pub enum Error {
    /// The page could not be parsed.
    HtmlParse,
    /// The request could not be sent.
    SendRequest,
    /// The body of the response could not be read.
    GetResponseBody,
    /// A path did not begin with the expected directory.
    StripPath,
    /// The file could not be created.
    CreateFile,
    /// The file could not be written.
    WriteFile,
    /// The file could not be read back.
    ReadFile,
    /// The runtime of a worker could not be built.
    BuildRuntime,
    /// A header holds bytes that are no text.
    HeaderValueToString,
    /// The content length is no number; `value` is what the header held.
    ParseContentLength { value: String },
    /// No data arrived in time.
    TimedOut,
    /// The count of busy workers could not be lowered.
    DecrementLatch,
    /// The count of busy workers could not be raised.
    IncrementLatch,
}

impl Error {
    /// The text of the message that `message` returns.
    pub open spec fn message_text(&self) -> Seq<char> {
        match self {
            Error::HtmlParse => "Failed to parse document"@,
            Error::SendRequest => "Failed to send reqwest"@,
            Error::GetResponseBody => "Failed to get response body"@,
            Error::StripPath => "Failed to strip path"@,
            Error::CreateFile => "Failed to create file"@,
            Error::WriteFile => "Failed to write to file"@,
            Error::ReadFile => "Failed to read file to string"@,
            Error::BuildRuntime => "Failed to build tokio runtime"@,
            Error::HeaderValueToString => "Failed to convert header value to string"@,
            Error::ParseContentLength { value } => "Failed to parse content length (`"@ + value@
                + "`)"@,
            Error::TimedOut => "Connection timed out"@,
            Error::DecrementLatch => "Failed to decrement latch"@,
            Error::IncrementLatch => "Failed to increment latch"@,
        }
    }

    /// The message that a user reads.
    pub fn message(&self) -> (text: String)
        ensures
            text@ == self.message_text(),
    {
        match self {
            Error::HtmlParse => "Failed to parse document".to_owned(),
            Error::SendRequest => "Failed to send reqwest".to_owned(),
            Error::GetResponseBody => "Failed to get response body".to_owned(),
            Error::StripPath => "Failed to strip path".to_owned(),
            Error::CreateFile => "Failed to create file".to_owned(),
            Error::WriteFile => "Failed to write to file".to_owned(),
            Error::ReadFile => "Failed to read file to string".to_owned(),
            Error::BuildRuntime => "Failed to build tokio runtime".to_owned(),
            Error::HeaderValueToString => "Failed to convert header value to string".to_owned(),
            Error::ParseContentLength { value } => {
                let mut text = "Failed to parse content length (`".to_owned();
                text.append(value.as_str());
                text.append("`)");
                text
            },
            Error::TimedOut => "Connection timed out".to_owned(),
            Error::DecrementLatch => "Failed to decrement latch".to_owned(),
            Error::IncrementLatch => "Failed to increment latch".to_owned(),
        }
    }
}

} // verus!
