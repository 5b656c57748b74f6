//! The errors that the library reports.

use vstd::prelude::*;
use vstd::string::StringExecFns;

verus! {

/// What can go wrong between the configuration files and a set of
/// credentials.
#[derive(Debug)]
pub enum StsClientError {
    /// The secure transport for a client could not be set up; holds the
    /// transport's own words.
    TlsError(String),
    /// The named profile is not among the resolved profiles.
    StsProfileError(String),
    /// No directory was given for the configuration files and no home
    /// directory is known.
    NoHomeError,
    /// Assuming the role failed; holds the reason.
    CredentialsError(String),
    /// Any other failure reported by the remote service; holds its message.
    RusotoError(String),
}

/// The mathematical value of a [`StsClientError`].
pub ghost enum ErrorView {
    TlsError(Seq<char>),
    StsProfileError(Seq<char>),
    NoHomeError,
    CredentialsError(Seq<char>),
    RusotoError(Seq<char>),
}

impl ErrorView {
    /// The text shown for the error.
    pub open spec fn message(self) -> Seq<char> {
        match self {
            ErrorView::TlsError(_) => "HttpClient init failed"@,
            ErrorView::StsProfileError(name) => "Profile "@ + name + " is not available"@,
            ErrorView::NoHomeError => "No HOME directory"@,
            ErrorView::CredentialsError(reason) => "Error obtaining STS Credentials "@ + reason,
            ErrorView::RusotoError(reason) => "RusotoError "@ + reason,
        }
    }
}

impl View for StsClientError {
    type V = ErrorView;

    open spec fn view(&self) -> ErrorView {
        match self {
            StsClientError::TlsError(detail) => ErrorView::TlsError(detail@),
            StsClientError::StsProfileError(name) => ErrorView::StsProfileError(name@),
            StsClientError::NoHomeError => ErrorView::NoHomeError,
            StsClientError::CredentialsError(reason) => ErrorView::CredentialsError(reason@),
            StsClientError::RusotoError(reason) => ErrorView::RusotoError(reason@),
        }
    }
}

impl Clone for StsClientError {
    fn clone(&self) -> (r: Self)
        ensures
            r@ == self@,
    {
        match self {
            StsClientError::TlsError(detail) => StsClientError::TlsError(detail.clone()),
            StsClientError::StsProfileError(name) => StsClientError::StsProfileError(name.clone()),
            StsClientError::NoHomeError => StsClientError::NoHomeError,
            StsClientError::CredentialsError(reason) => StsClientError::CredentialsError(
                reason.clone(),
            ),
            StsClientError::RusotoError(reason) => StsClientError::RusotoError(reason.clone()),
        }
    }
}

impl StsClientError {
    /// The text shown for the error.
    pub fn message(&self) -> (text: String)
        ensures
            text@ == self@.message(),
    {
        match self {
            StsClientError::TlsError(_) => "HttpClient init failed".to_owned(),
            StsClientError::StsProfileError(name) => {
                let mut text = "Profile ".to_owned();
                text.append(name.as_str());
                text.append(" is not available");
                text
            },
            StsClientError::NoHomeError => "No HOME directory".to_owned(),
            StsClientError::CredentialsError(reason) => {
                let mut text = "Error obtaining STS Credentials ".to_owned();
                text.append(reason.as_str());
                text
            },
            StsClientError::RusotoError(reason) => {
                let mut text = "RusotoError ".to_owned();
                text.append(reason.as_str());
                text
            },
        }
    }
}

} // verus!
