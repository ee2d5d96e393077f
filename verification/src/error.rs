use vstd::prelude::*;

verus! {

/// Why a step of the mirror did not succeed.
#[derive(Debug, Clone, PartialEq, Eq)]
pub enum UploadError {
    /// The local root directory cannot be resolved.
    Configuration,
    /// The token exchange failed, also when it was made after a rejected call.
    Auth,
    /// The service rejected the credential; a renewal is due.
    Unauthorized,
    /// The credential was renewed after a rejected call; the caller may retry.
    RetryNeeded,
    /// The service answered with a status that is neither a success nor a rejection.
    RemoteApi { status: u16, body: String },
    /// The service reported success but the expected field is missing.
    MalformedResponse,
    /// A local file or directory cannot be read.
    LocalIo,
    /// The file is larger than the configured maximum and was left out on purpose.
    OversizeSkipped,
}

/// The mathematical value of an [`UploadError`].
pub enum ErrorView {
    Configuration,
    Auth,
    Unauthorized,
    RetryNeeded,
    RemoteApi { status: u16, body: Seq<char> },
    MalformedResponse,
    LocalIo,
    OversizeSkipped,
}

impl View for UploadError {
    type V = ErrorView;

    open spec fn view(&self) -> ErrorView {
        match *self {
            UploadError::Configuration => ErrorView::Configuration,
            UploadError::Auth => ErrorView::Auth,
            UploadError::Unauthorized => ErrorView::Unauthorized,
            UploadError::RetryNeeded => ErrorView::RetryNeeded,
            UploadError::RemoteApi { status, body } => ErrorView::RemoteApi { status, body: body@ },
            UploadError::MalformedResponse => ErrorView::MalformedResponse,
            UploadError::LocalIo => ErrorView::LocalIo,
            UploadError::OversizeSkipped => ErrorView::OversizeSkipped,
        }
    }
}

/// The value of a textual result.
pub open spec fn text_result(r: Result<String, UploadError>) -> Result<Seq<char>, ErrorView> {
    match r {
        Ok(s) => Ok(s@),
        Err(e) => Err(e@),
    }
}

/// The value of a result without payload.
pub open spec fn unit_result(r: Result<(), UploadError>) -> Result<(), ErrorView> {
    match r {
        Ok(_) => Ok(()),
        Err(e) => Err(e@),
    }
}

/// The value of an optional text.
pub open spec fn text_option(o: Option<String>) -> Option<Seq<char>> {
    match o {
        Some(s) => Some(s@),
        None => None,
    }
}

/// The value of an optional borrowed text.
pub open spec fn str_option(o: Option<&str>) -> Option<Seq<char>> {
    match o {
        Some(s) => Some(s@),
        None => None,
    }
}

} // verus!
