//! The failures this crate reports. None of them aborts the process: each is
//! a value that the caller can print and recover from.

use vstd::prelude::*;

verus! {

/// A request description that cannot be turned into a request.
#[derive(Clone, Copy, Debug, PartialEq, Eq, Structural)]
pub enum ConfigError {
    /// The method is none of GET, POST, PUT, PATCH, DELETE.
    UnsupportedMethod,
    /// A header name or value is not syntactically valid, or a header value
    /// in the JSON block is not a string.
    InvalidHeader,
    /// A text that should hold JSON does not parse.
    MalformedJson,
    /// The proxy URL does not parse.
    MalformedProxy,
    /// The cookie document is not an array of `{name, value}` objects.
    InvalidCookie,
    /// The credentials are not of the form `username:password`.
    MalformedCredentials,
    /// A file that the description refers to could not be read.
    UnreadableFile,
}

impl ConfigError {
    /// What to tell the user.
    pub fn message(&self) -> (s: String)
        ensures
            s@ == self.message_text(),
    {
        match self {
            ConfigError::UnsupportedMethod => "Unsupported method!".to_owned(),
            ConfigError::InvalidHeader => "Invalid header name or value".to_owned(),
            ConfigError::MalformedJson => "Malformed JSON".to_owned(),
            ConfigError::MalformedProxy => "Malformed proxy URL".to_owned(),
            ConfigError::InvalidCookie => "Invalid cookie file".to_owned(),
            ConfigError::MalformedCredentials => "Credentials must be username:password".to_owned(),
            ConfigError::UnreadableFile => "Cannot read file".to_owned(),
        }
    }

    pub open spec fn message_text(self) -> Seq<char> {
        match self {
            ConfigError::UnsupportedMethod => "Unsupported method!"@,
            ConfigError::InvalidHeader => "Invalid header name or value"@,
            ConfigError::MalformedJson => "Malformed JSON"@,
            ConfigError::MalformedProxy => "Malformed proxy URL"@,
            ConfigError::InvalidCookie => "Invalid cookie file"@,
            ConfigError::MalformedCredentials => "Credentials must be username:password"@,
            ConfigError::UnreadableFile => "Cannot read file"@,
        }
    }
}

/// Which step of writing a body to a file went wrong.
#[derive(Clone, Copy, Debug, PartialEq, Eq, Structural)]
pub enum IoStage {
    /// Creating or truncating the destination file.
    Create,
    /// Reading the next chunk of the body.
    Read,
    /// Writing a chunk to the file.
    Write,
}

/// A file or stream operation that failed, with the system's description.
#[derive(Clone, Debug, PartialEq, Eq)]
pub struct IoError {
    pub stage: IoStage,
    pub detail: String,
}

impl IoError {
    /// What to tell the user about this failure.
    pub open spec fn message_text(self) -> Seq<char> {
        (match self.stage {
            IoStage::Create => "Error creating file: "@,
            IoStage::Read => "Error reading response: "@,
            IoStage::Write => "Error writing to file: "@,
        }) + self.detail@
    }

    /// What to tell the user about this failure.
    pub fn message(&self) -> (s: String)
        ensures
            s@ == self.message_text(),
    {
        let mut s = match self.stage {
            IoStage::Create => "Error creating file: ".to_owned(),
            IoStage::Read => "Error reading response: ".to_owned(),
            IoStage::Write => "Error writing to file: ".to_owned(),
        };
        s.append(self.detail.as_str());
        s
    }

    /// What to tell the user when this failure ended a download.
    pub fn download_message(&self) -> (s: String)
        ensures
            s@ == "Download failed: "@ + self.detail@,
    {
        let mut s = "Download failed: ".to_owned();
        s.append(self.detail.as_str());
        s
    }
}

} // verus!
