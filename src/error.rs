//! What can stop an upload.
use vstd::prelude::*;

verus! {

/// Every way the pipeline can fail. Each one is terminal.
#[derive(Debug, Clone, PartialEq, Eq)]
pub enum UploadError {
    /// The URL does not have the accepted raw-content shape.
    MalformedInput,
    /// The local path does not name an existing file.
    FileNotFound,
    /// The size of the local file could not be read; the detail says why.
    Metadata(String),
    /// The local file is larger than the ceiling; its size is carried.
    FileTooLarge(u64),
    /// The content of the local file could not be read; the detail says why.
    Read(String),
    /// A request did not reach the provider (name lookup, connection, TLS).
    Network(String),
    /// The existence probe answered with a status other than success or 404.
    RemoteProbe { status: u16, body: String },
    /// A successful reply whose body did not hold what was needed.
    ResponseParse,
    /// The write was answered with a status other than success.
    UploadRejected { status: u16, body: String },
}

} // verus!
