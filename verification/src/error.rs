//! The errors that client operations report.
use vstd::prelude::*;

verus! {

/// An error of the WebSocket layer (`tungstenite::Error`), carried as it came.
#[verifier::external_type_specification]
#[verifier::external_body]
pub struct ExWebSocketError(tokio_tungstenite::tungstenite::Error);

/// A JSON (de)serialization error (`serde_json::Error`), carried as it came.
#[verifier::external_type_specification]
#[verifier::external_body]
pub struct ExJsonError(serde_json::Error);

/// An HTTP client error (`reqwest::Error`), carried as it came.
#[verifier::external_type_specification]
#[verifier::external_body]
pub struct ExHttpError(reqwest::Error);

/// An I/O error (`std::io::Error`), carried as it came.
#[verifier::external_type_specification]
#[verifier::external_body]
pub struct ExIoError(std::io::Error);

/// A URL parsing error (`url::ParseError`), carried as it came.
#[verifier::external_type_specification]
#[verifier::external_body]
pub struct ExUrlParseError(url::ParseError);

/// The errors of client operations.
#[derive(Debug)]
pub enum LMStudioError {
    WebSocket(tokio_tungstenite::tungstenite::Error),
    Json(serde_json::Error),
    Http(reqwest::Error),
    Connection(String),
    ModelNotFound(String),
    ModelAlreadyLoaded(String),
    LoadingTimeout(String),
    InvalidNamespace(String),
    RemoteCallFailed(String),
    ServiceUnavailable(String),
    InvalidResponse(String),
    Cancelled,
    Io(std::io::Error),
    UrlParse(url::ParseError),
    Other(String),
}

/// The result of client operations.
pub type Result<T> = core::result::Result<T, LMStudioError>;

impl LMStudioError {
    /// A connection error with the given message.
    pub fn connection(msg: &str) -> (e: LMStudioError)
        ensures
            e matches LMStudioError::Connection(m) && m@ == msg@,
    {
        LMStudioError::Connection(msg.to_owned())
    }

    /// A model-not-found error naming the model.
    pub fn model_not_found(model: &str) -> (e: LMStudioError)
        ensures
            e matches LMStudioError::ModelNotFound(m) && m@ == model@,
    {
        LMStudioError::ModelNotFound(model.to_owned())
    }

    /// A remote-call-failed error with the given message.
    pub fn remote_call_failed(msg: &str) -> (e: LMStudioError)
        ensures
            e matches LMStudioError::RemoteCallFailed(m) && m@ == msg@,
    {
        LMStudioError::RemoteCallFailed(msg.to_owned())
    }

    /// A service-unavailable error with the given message.
    pub fn service_unavailable(msg: &str) -> (e: LMStudioError)
        ensures
            e matches LMStudioError::ServiceUnavailable(m) && m@ == msg@,
    {
        LMStudioError::ServiceUnavailable(msg.to_owned())
    }

    /// An invalid-response error with the given message.
    pub fn invalid_response(msg: &str) -> (e: LMStudioError)
        ensures
            e matches LMStudioError::InvalidResponse(m) && m@ == msg@,
    {
        LMStudioError::InvalidResponse(msg.to_owned())
    }

    /// The error of a load cancelled from outside: "Model loading cancelled:
    /// <model>".
    pub fn model_loading_cancelled(model: &str) -> (e: LMStudioError)
        ensures
            e matches LMStudioError::Other(m) && m@ == "Model loading cancelled: "@ + model@,
    {
        let mut m = "Model loading cancelled: ".to_owned();
        m.append(model);
        LMStudioError::Other(m)
    }

    /// Any other error, with the given message.
    pub fn other(msg: &str) -> (e: LMStudioError)
        ensures
            e matches LMStudioError::Other(m) && m@ == msg@,
    {
        LMStudioError::Other(msg.to_owned())
    }
}

} // verus!
