//! The upload transaction: the request line and headers it is built from,
//! and the classification of what the transport reported into exactly one
//! outcome.

use vstd::prelude::*;
use vstd::string::StringExecFns;
use crate::config::Configuration;

verus! {

/// The one outcome of an attempted upload. `Success` carries the response
/// body, already read out of the transport.
pub enum UploadOutcome {
    Success { body: String },
    IOFailure,
    TransportFailure,
    ClientError { status: u16 },
    ServerError { status: u16 },
}

/// What the transport reported, freed of any live handles: building the
/// multipart form failed, sending failed, or a response came back with a
/// status and a body.
pub enum SendResult {
    FormError,
    SendError,
    Response { status: u16, body: String },
}

/// A completed response with a 4xx status.
pub open spec fn is_client_error(status: u16) -> bool {
    400 <= status < 500
}

/// A completed response with a 5xx status.
pub open spec fn is_server_error(status: u16) -> bool {
    500 <= status < 600
}

/// Any other completed response is a success.
pub open spec fn is_success_status(status: u16) -> bool {
    !is_client_error(status) && !is_server_error(status)
}

/// Every status falls in exactly one of the three response classes, so the
/// outcome of a completed response is determined by its status alone, with
/// no overlap.
pub proof fn lemma_status_partition(status: u16)
    ensures
        is_client_error(status) || is_server_error(status) || is_success_status(status),
        !(is_client_error(status) && is_server_error(status)),
        !(is_client_error(status) && is_success_status(status)),
        !(is_server_error(status) && is_success_status(status)),
{
}

/// Classifies one attempted upload into its outcome: a form-building
/// failure is an I/O failure, a failed send is a transport failure, and a
/// completed response goes by its status class, the body kept on success.
pub fn classify_send(res: SendResult) -> (r: UploadOutcome)
    ensures
        match res {
            SendResult::FormError => r == UploadOutcome::IOFailure,
            SendResult::SendError => r == UploadOutcome::TransportFailure,
            SendResult::Response { status, body } => {
                if is_client_error(status) {
                    r == (UploadOutcome::ClientError { status })
                } else if is_server_error(status) {
                    r == (UploadOutcome::ServerError { status })
                } else {
                    r == (UploadOutcome::Success { body })
                }
            },
        },
{
    match res {
        SendResult::FormError => UploadOutcome::IOFailure,
        SendResult::SendError => UploadOutcome::TransportFailure,
        SendResult::Response { status, body } => {
            if 400 <= status && status < 500 {
                UploadOutcome::ClientError { status }
            } else if 500 <= status && status < 600 {
                UploadOutcome::ServerError { status }
            } else {
                UploadOutcome::Success { body }
            }
        }
    }
}

/// Whether a completed response's body is discarded: the error classes do
/// not carry their body onward.
pub fn is_error_status(status: u16) -> (r: bool)
    ensures
        r == (is_client_error(status) || is_server_error(status)),
{
    400 <= status && status < 600
}

/// The URL the file is posted to: the configured host followed by the fixed
/// upload route.
pub fn upload_url(host: &str) -> (r: String)
    ensures
        r@ == host@ + "/api/upload"@,
{
    let mut r = host.to_owned();
    r.append("/api/upload");
    r
}

/// The header set of the upload request: the token, verbatim, as the
/// authorization value, and the two fixed headers asking for a randomized
/// name and an embed-friendly response.
pub fn construct_headers(config: &Configuration) -> (r: Vec<(String, String)>)
    ensures
        r@.len() == 3,
        r@[0].0@ == "Authorization"@ && r@[0].1@ == config.token@,
        r@[1].0@ == "Format"@ && r@[1].1@ == "RANDOM"@,
        r@[2].0@ == "Embed"@ && r@[2].1@ == "true"@,
{
    let mut r: Vec<(String, String)> = Vec::new();
    r.push(("Authorization".to_owned(), config.token.clone()));
    r.push(("Format".to_owned(), "RANDOM".to_owned()));
    r.push(("Embed".to_owned(), "true".to_owned()));
    r
}

} // verus!
