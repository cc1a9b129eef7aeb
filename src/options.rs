use vstd::prelude::*;

verus! {

/// What the admin client was asked to do.
#[derive(Clone, Debug, PartialEq, Eq)]
pub enum Command {
    NotSet,
    Health,
    Publishers(PublishersCommand),
}

/// The publisher management commands of the admin client. File names are
/// given as the paths the user typed.
#[derive(Clone, Debug, PartialEq, Eq)]
pub enum PublishersCommand {
    /// Add a publisher from a request file.
    Add(String),
    /// Show the details of a publisher.
    Details(String),
    /// Remove a publisher.
    Remove(String),
    /// Get the repository response for a publisher, saved to a file if one
    /// is given.
    RepositoryResponseXml(String, Option<String>),
    /// Save the identity certificate of a publisher to a file.
    IdCert(String, String),
    List,
}

/// Why a report format could not be used.
#[derive(Clone, Copy, Debug, PartialEq, Eq, Structural)]
pub enum ReportError {
    /// The format is not one of none, json, text or xml.
    UnrecognisedFormat,
    /// The format cannot show this kind of response.
    UnsupportedFormat,
}

/// How the admin client shows a response.
#[derive(Clone, Copy, Debug, PartialEq, Eq, Structural)]
pub enum ReportFormat {
    /// As the server's response type suggests.
    Default,
    /// No report at all.
    NoOutput,
    Json,
    Text,
    Xml,
}

/// The format a name on the command line stands for.
pub open spec fn format_named(b: Seq<u8>) -> Result<ReportFormat, ReportError> {
    if b == seq![110u8, 111u8, 110u8, 101u8] {
        Ok(ReportFormat::NoOutput)
    } else if b == seq![106u8, 115u8, 111u8, 110u8] {
        Ok(ReportFormat::Json)
    } else if b == seq![116u8, 101u8, 120u8, 116u8] {
        Ok(ReportFormat::Text)
    } else if b == seq![120u8, 109u8, 108u8] {
        Ok(ReportFormat::Xml)
    } else {
        Err(ReportError::UnrecognisedFormat)
    }
}

fn is_word4(b: &[u8], c0: u8, c1: u8, c2: u8, c3: u8) -> (r: bool)
    ensures
        r == (b@ == seq![c0, c1, c2, c3]),
{
    if b.len() == 4 && b[0] == c0 && b[1] == c1 && b[2] == c2 && b[3] == c3 {
        assert(b@ =~= seq![c0, c1, c2, c3]);
        true
    } else {
        proof {
            if b@ == seq![c0, c1, c2, c3] {
                assert(b@[0] == c0 && b@[1] == c1 && b@[2] == c2 && b@[3] == c3);
            }
        }
        false
    }
}

fn is_word3(b: &[u8], c0: u8, c1: u8, c2: u8) -> (r: bool)
    ensures
        r == (b@ == seq![c0, c1, c2]),
{
    if b.len() == 3 && b[0] == c0 && b[1] == c1 && b[2] == c2 {
        assert(b@ =~= seq![c0, c1, c2]);
        true
    } else {
        proof {
            if b@ == seq![c0, c1, c2] {
                assert(b@[0] == c0 && b@[1] == c1 && b@[2] == c2);
            }
        }
        false
    }
}

impl ReportFormat {
    /// The format for a name given on the command line: none, json, text or
    /// xml.
    pub fn from_name(b: &[u8]) -> (r: Result<ReportFormat, ReportError>)
        ensures
            r == format_named(b@),
    {
        if is_word4(b, 110, 111, 110, 101) {
            Ok(ReportFormat::NoOutput)
        } else if is_word4(b, 106, 115, 111, 110) {
            Ok(ReportFormat::Json)
        } else if is_word4(b, 116, 101, 120, 116) {
            Ok(ReportFormat::Text)
        } else if is_word3(b, 120, 109, 108) {
            Ok(ReportFormat::Xml)
        } else {
            Err(ReportError::UnrecognisedFormat)
        }
    }
}

/// Why the admin client's options could not be made.
#[derive(Clone, Copy, Debug, PartialEq, Eq, Structural)]
pub enum Error {
    ServerUriError,
    ReportError(ReportError),
}

impl Error {
    /// The message shown to the user.
    pub fn message(&self) -> (r: &'static str)
        ensures
            *self == Error::ServerUriError ==> r == "Cannot parse server URI.",
            *self == Error::ReportError(ReportError::UnrecognisedFormat) ==> r
                == "Unrecognised report format.",
            *self == Error::ReportError(ReportError::UnsupportedFormat) ==> r
                == "Report format not supported for this response.",
    {
        match self {
            Error::ServerUriError => "Cannot parse server URI.",
            Error::ReportError(ReportError::UnrecognisedFormat) => "Unrecognised report format.",
            Error::ReportError(ReportError::UnsupportedFormat) => "Report format not supported for this response.",
        }
    }
}

impl From<ReportError> for Error {
    fn from(e: ReportError) -> Error {
        Error::ReportError(e)
    }
}

impl vstd::std_specs::convert::FromSpecImpl<ReportError> for Error {
    open spec fn obeys_from_spec() -> bool {
        true
    }

    open spec fn from_spec(e: ReportError) -> Error {
        Error::ReportError(e)
    }
}

} // verus!
