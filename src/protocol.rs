//! The two calls to the Contents API: the existence probe and the write.
use vstd::prelude::*;

use crate::error::UploadError;
use crate::target::UploadTarget;

verus! {

/// Where the Contents API of a repository starts.
pub const API_REPOS: &'static str = "https://api.github.com/repos/";

/// The path between the repository and the file.
pub const CONTENTS: &'static str = "/contents/";

/// The media type asked of the provider.
pub const ACCEPT_V3: &'static str = "application/vnd.github.v3+json";

/// The product named in every request.
pub const USER_AGENT: &'static str = "GitHub-Uploader-Rust/0.1.0";

/// The status of a file that does not exist.
pub const NOT_FOUND: u16 = 404;

/// A status in the success range.
pub open spec fn is_success(status: u16) -> bool {
    200 <= status <= 299
}

/// The request method.
#[derive(Debug, Clone, Copy, PartialEq, Eq)]
pub enum Method {
    Get,
    Put,
}

/// One authenticated request to the provider.
#[derive(Debug, Clone, PartialEq, Eq)]
pub struct HttpRequest {
    pub method: Method,
    pub url: String,
    /// Name and value of each header, in order.
    pub headers: Vec<(String, String)>,
    /// The JSON body of a write.
    pub body: Option<String>,
}

/// What the probe learned of the remote file.
#[derive(Debug, Clone, PartialEq, Eq)]
pub struct RemoteFileState {
    pub exists: bool,
    pub content_hash: Option<String>,
}

/// A write the provider accepted.
#[derive(Debug, Clone, PartialEq, Eq)]
pub struct UploadResult {
    pub succeeded: bool,
    /// The commit the write made, when the reply names it.
    pub commit_hash: Option<String>,
}

/// The contents endpoint of the target's file.
pub open spec fn contents_url_of(t: UploadTarget) -> Seq<char> {
    API_REPOS@ + t.repo@ + CONTENTS@ + t.remote_path@
}

/// `h` is the header `name: value`.
pub open spec fn is_header(h: (String, String), name: Seq<char>, value: Seq<char>) -> bool {
    h.0@ == name && h.1@ == value
}

/// `req` is the authenticated request of `method` for the target's file,
/// carrying `body`.
pub open spec fn is_request(
    req: HttpRequest,
    t: UploadTarget,
    method: Method,
    body: Option<Seq<char>>,
) -> bool {
    &&& req.method == method
    &&& req.url@ == contents_url_of(t)
    &&& req.headers@.len() == if body is Some { 4int } else { 3int }
    &&& is_header(req.headers@[0], "Authorization"@, "token "@ + t.token@)
    &&& is_header(req.headers@[1], "Accept"@, ACCEPT_V3@)
    &&& is_header(req.headers@[2], "User-Agent"@, USER_AGENT@)
    &&& body is Some ==> is_header(req.headers@[3], "Content-Type"@, "application/json"@)
    &&& match body {
        Some(b) => req.body is Some && req.body->Some_0@ == b,
        None => req.body is None,
    }
}

/// Builds the request of `method` for the target's file, with the headers
/// every call shares, and the content type where a body is sent.
pub fn authenticated_request(t: &UploadTarget, method: Method, body: Option<String>) -> (r:
    HttpRequest)
    ensures
        is_request(
            r,
            *t,
            method,
            match body {
                Some(b) => Some(b@),
                None => None,
            },
        ),
{
    let mut url = String::from_str(API_REPOS);
    url.append(t.repo.as_str());
    url.append(CONTENTS);
    url.append(t.remote_path.as_str());
    let mut auth = String::from_str("token ");
    auth.append(t.token.as_str());
    let mut headers: Vec<(String, String)> = Vec::new();
    headers.push((String::from_str("Authorization"), auth));
    headers.push((String::from_str("Accept"), String::from_str(ACCEPT_V3)));
    headers.push((String::from_str("User-Agent"), String::from_str(USER_AGENT)));
    if body.is_some() {
        headers.push((String::from_str("Content-Type"), String::from_str("application/json")));
    }
    HttpRequest { method, url, headers, body }
}

/// Reads the probe's reply: `sha` is the `sha` string of the body when the
/// body is a JSON object that holds one.
pub fn remote_state(status: u16, body: String, sha: Option<String>) -> (r: Result<
    RemoteFileState,
    UploadError,
>)
    ensures
        is_success(status) && sha is Some ==> r == Ok::<RemoteFileState, UploadError>(
            RemoteFileState { exists: true, content_hash: sha },
        ),
        is_success(status) && sha is None ==> r == Err::<RemoteFileState, UploadError>(
            UploadError::ResponseParse,
        ),
        status == NOT_FOUND ==> r == Ok::<RemoteFileState, UploadError>(
            RemoteFileState { exists: false, content_hash: None },
        ),
        !is_success(status) && status != NOT_FOUND ==> r == Err::<RemoteFileState, UploadError>(
            UploadError::RemoteProbe { status, body },
        ),
{
    if 200 <= status && status <= 299 {
        match sha {
            Some(h) => Ok(RemoteFileState { exists: true, content_hash: Some(h) }),
            None => Err(UploadError::ResponseParse),
        }
    } else if status == NOT_FOUND {
        Ok(RemoteFileState { exists: false, content_hash: None })
    } else {
        Err(UploadError::RemoteProbe { status, body })
    }
}

/// Reads the write's reply: `parsed` says whether the body was a JSON
/// object, `commit_sha` is its `commit.sha` string when it has one.
pub fn upload_outcome(status: u16, body: String, parsed: bool, commit_sha: Option<String>) -> (r:
    Result<UploadResult, UploadError>)
    ensures
        is_success(status) && parsed ==> r == Ok::<UploadResult, UploadError>(
            UploadResult { succeeded: true, commit_hash: commit_sha },
        ),
        is_success(status) && !parsed ==> r == Err::<UploadResult, UploadError>(
            UploadError::ResponseParse,
        ),
        !is_success(status) ==> r == Err::<UploadResult, UploadError>(
            UploadError::UploadRejected { status, body },
        ),
{
    if 200 <= status && status <= 299 {
        if parsed {
            Ok(UploadResult { succeeded: true, commit_hash: commit_sha })
        } else {
            Err(UploadError::ResponseParse)
        }
    } else {
        Err(UploadError::UploadRejected { status, body })
    }
}

} // verus!
