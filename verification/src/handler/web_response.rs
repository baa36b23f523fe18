//! What a plugin answers a request, and what is sent for it.
use vstd::prelude::*;

verus! {

/// What a plugin answers a request.
pub enum WebResponse {
    Success,
    /// Open a session for this address.
    Login(String),
    Logout,
    OkData(String),
    OkFile(String, Vec<u8>),
    /// A file by its name and its path.
    OkFilePath(String, String),
    NotFound,
    Unauthorized,
    BadRequest,
    Forbidden,
    /// This plugin does not answer that request.
    NotImplemented,
}

/// What is sent.
pub enum Sent {
    /// A status, and nothing more.
    Status(u16),
    /// A text, as a success.
    Text(String),
    /// The file at a path, as a success.
    File(String),
}

/// What is sent for an answer. `file_exists` says whether the file that the
/// answer names is there, where it names one by its path.
pub fn conv_response(resp: WebResponse, file_exists: bool) -> (r: Sent)
    requires
        !(resp is NotImplemented),
    ensures
        match resp {
            WebResponse::Success | WebResponse::Logout | WebResponse::Login(_) | WebResponse::OkFile(
                _,
                _,
            ) => r == Sent::Status(200),
            WebResponse::OkData(text) => r == Sent::Text(text),
            WebResponse::OkFilePath(_, p) => if file_exists {
                r == Sent::File(p)
            } else {
                r == Sent::Status(404)
            },
            WebResponse::NotFound => r == Sent::Status(404),
            WebResponse::Unauthorized => r == Sent::Status(401),
            WebResponse::BadRequest => r == Sent::Status(400),
            WebResponse::Forbidden => r == Sent::Status(403),
            WebResponse::NotImplemented => true,
        },
{
    match resp {
        WebResponse::Success => Sent::Status(200),
        WebResponse::Logout => Sent::Status(200),
        WebResponse::Login(_) => Sent::Status(200),
        WebResponse::OkData(text) => Sent::Text(text),
        WebResponse::OkFile(_, _) => Sent::Status(200),
        WebResponse::OkFilePath(_, p) => if file_exists {
            Sent::File(p)
        } else {
            Sent::Status(404)
        },
        WebResponse::NotFound => Sent::Status(404),
        WebResponse::Unauthorized => Sent::Status(401),
        WebResponse::BadRequest => Sent::Status(400),
        WebResponse::Forbidden => Sent::Status(403),
        WebResponse::NotImplemented => Sent::Status(500),
    }
}

} // verus!
