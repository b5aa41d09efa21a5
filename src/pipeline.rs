//! The upload as a state machine: each step takes what the outside world
//! reported and names the next thing to do. It runs Parsed, Checked,
//! Validated, Probed, then Uploaded; any failure ends it in Failed.
use vstd::prelude::*;

use crate::error::UploadError;
use crate::local::{base64_of, check_size, final_segment, is_final_segment, LocalFile, MAX_FILE_SIZE};
use crate::payload::{build_payload, commit_message, commit_message_of, hash_view, payload_members, render_object};
use crate::protocol::{
    authenticated_request,
    is_request,
    is_success,
    remote_state,
    upload_outcome,
    Method,
    HttpRequest,
    RemoteFileState,
    UploadResult,
    NOT_FOUND,
};
use crate::target::{is_raw_url, parse_github_url, UploadTarget};

verus! {

/// Where the upload stands.
#[derive(Debug, Clone, Copy, PartialEq, Eq)]
pub enum Stage {
    /// The URL is parsed; the local file is to be checked.
    Parsed,
    /// The file exists within the ceiling; its content is to be read.
    Checked,
    /// The content is encoded; the probe is under way.
    Validated,
    /// The remote state is known; the write is under way.
    Probed,
    /// The write was accepted.
    Uploaded,
    /// Some stage failed.
    Failed,
}

/// What the caller reports back.
#[derive(Debug, PartialEq, Eq)]
pub enum Event {
    /// Whether the local path names a file, and its size or why it is unknown.
    FileChecked { exists: bool, size: Result<u64, String> },
    /// The content of the local file, or why it could not be read.
    FileRead(Result<Vec<u8>, String>),
    /// The probe's status, body, and the `sha` string of the body if any.
    ProbeAnswered { status: u16, body: String, sha: Option<String> },
    /// The write's status, body, whether the body parsed, and its `commit.sha`.
    WriteAnswered { status: u16, body: String, parsed: bool, commit_sha: Option<String> },
    /// A request did not reach the provider.
    NetworkFailed(String),
}

/// What the caller is to do next.
#[derive(Debug, Clone, PartialEq, Eq)]
pub enum Action {
    /// Check that the path names a file and read its size.
    CheckFile(String),
    /// Read the file's content.
    ReadFile(String),
    /// Send this request and report its answer.
    Send(HttpRequest),
    /// The upload is done.
    Succeed(UploadResult),
    /// The upload failed; nothing further is to be done.
    Fail(UploadError),
    /// The event does not belong to this stage; nothing changed.
    Ignore,
}

/// One upload of one file.
#[derive(Debug, Clone, PartialEq, Eq)]
pub struct Upload {
    pub stage: Stage,
    pub file_path: String,
    /// The final segment of `file_path`, named in the commit message.
    pub file_name: String,
    /// Meaningful from `Parsed` on.
    pub target: UploadTarget,
    /// The encoded content, from `Validated` on.
    pub content: String,
}

impl Upload {
    /// The upload has ended.
    pub open spec fn is_done(&self) -> bool {
        self.stage == Stage::Uploaded || self.stage == Stage::Failed
    }

    /// The write request for this upload, given what the probe found.
    pub open spec fn is_write_for(&self, req: HttpRequest, state: RemoteFileState) -> bool {
        let name = self.file_name@;
        is_request(
            req,
            self.target,
            Method::Put,
            Some(
                render_object(
                    payload_members(
                        commit_message_of(name, state.exists),
                        self.content@,
                        self.target.branch@,
                        hash_view(state),
                    ),
                ),
            ),
        )
    }

    /// Begins an upload: parses the URL and, when it is accepted, asks for
    /// the local file to be checked. A refused URL ends the upload at once,
    /// before any file or network work.
    pub fn start(file_path: String, url: &str) -> (r: (Upload, Action))
        ensures
            r.0.file_path == file_path,
            is_final_segment(file_path@, r.0.file_name@),
            is_raw_url(url@) ==> r.0.stage == Stage::Parsed && r.0.target.parsed_from(url@)
                && r.1 == Action::CheckFile(file_path),
            !is_raw_url(url@) ==> r.0.stage == Stage::Failed && r.1 == Action::Fail(
                UploadError::MalformedInput,
            ),
    {
        let file_name = final_segment(file_path.as_str());
        match parse_github_url(url) {
            Ok(target) => {
                let path = file_path.clone();
                (
                    Upload {
                        stage: Stage::Parsed,
                        file_path,
                        file_name,
                        target,
                        content: String::new(),
                    },
                    Action::CheckFile(path),
                )
            },
            Err(e) => {
                let target = UploadTarget {
                    owner: String::new(),
                    repo: String::new(),
                    branch: String::new(),
                    remote_path: String::new(),
                    token: String::new(),
                };
                (
                    Upload {
                        stage: Stage::Failed,
                        file_path,
                        file_name,
                        target,
                        content: String::new(),
                    },
                    Action::Fail(e),
                )
            },
        }
    }

    /// Takes what the caller reports and names the next thing to do. An
    /// event that does not belong to the current stage changes nothing.
    pub fn step(&mut self, event: Event) -> (a: Action)
        ensures
            final(self).file_path == old(self).file_path,
            final(self).file_name == old(self).file_name,
            final(self).target == old(self).target,
            a == Action::Ignore ==> *final(self) == *old(self),
            match event {
                Event::FileChecked { exists, size } => old(self).stage == Stage::Parsed ==> {
                    if !exists {
                        final(self).stage == Stage::Failed && a == Action::Fail(
                            UploadError::FileNotFound,
                        )
                    } else {
                        match size {
                            Err(d) => final(self).stage == Stage::Failed && a == Action::Fail(
                                UploadError::Metadata(d),
                            ),
                            Ok(n) => if n <= MAX_FILE_SIZE {
                                final(self).stage == Stage::Checked && a == Action::ReadFile(
                                    old(self).file_path,
                                )
                            } else {
                                final(self).stage == Stage::Failed && a == Action::Fail(
                                    UploadError::FileTooLarge(n),
                                )
                            },
                        }
                    }
                },
                Event::FileRead(res) => old(self).stage == Stage::Checked ==> match res {
                    Err(d) => final(self).stage == Stage::Failed && a == Action::Fail(
                        UploadError::Read(d),
                    ),
                    Ok(bytes) => if bytes@.len() <= MAX_FILE_SIZE {
                        &&& final(self).stage == Stage::Validated
                        &&& final(self).content@ == base64_of(bytes@)
                        &&& a is Send
                        &&& is_request(a->Send_0, old(self).target, Method::Get, None)
                    } else {
                        final(self).stage == Stage::Failed && a == Action::Fail(
                            UploadError::FileTooLarge(bytes@.len() as u64),
                        )
                    },
                },
                Event::ProbeAnswered { status, body, sha } => old(self).stage == Stage::Validated
                    ==> {
                    if is_success(status) && sha is Some {
                        &&& final(self).stage == Stage::Probed
                        &&& a is Send
                        &&& old(self).is_write_for(
                            a->Send_0,
                            RemoteFileState { exists: true, content_hash: sha },
                        )
                    } else if is_success(status) {
                        final(self).stage == Stage::Failed && a == Action::Fail(
                            UploadError::ResponseParse,
                        )
                    } else if status == NOT_FOUND {
                        &&& final(self).stage == Stage::Probed
                        &&& a is Send
                        &&& old(self).is_write_for(
                            a->Send_0,
                            RemoteFileState { exists: false, content_hash: None },
                        )
                    } else {
                        final(self).stage == Stage::Failed && a == Action::Fail(
                            UploadError::RemoteProbe { status, body },
                        )
                    }
                },
                Event::WriteAnswered { status, body, parsed, commit_sha } => old(self).stage
                    == Stage::Probed ==> {
                    if is_success(status) && parsed {
                        final(self).stage == Stage::Uploaded && a == Action::Succeed(
                            UploadResult { succeeded: true, commit_hash: commit_sha },
                        )
                    } else if is_success(status) {
                        final(self).stage == Stage::Failed && a == Action::Fail(
                            UploadError::ResponseParse,
                        )
                    } else {
                        final(self).stage == Stage::Failed && a == Action::Fail(
                            UploadError::UploadRejected { status, body },
                        )
                    }
                },
                Event::NetworkFailed(d) => old(self).stage == Stage::Validated || old(self).stage
                    == Stage::Probed ==> final(self).stage == Stage::Failed && a == Action::Fail(
                    UploadError::Network(d),
                ),
            },
            !expects(old(self).stage, event) ==> a == Action::Ignore,
    {
        match event {
            Event::FileChecked { exists, size } => {
                if !matches!(self.stage, Stage::Parsed) {
                    return Action::Ignore;
                }
                if !exists {
                    self.stage = Stage::Failed;
                    return Action::Fail(UploadError::FileNotFound);
                }
                match size {
                    Err(d) => {
                        self.stage = Stage::Failed;
                        Action::Fail(UploadError::Metadata(d))
                    },
                    Ok(n) => match check_size(n) {
                        Ok(()) => {
                            self.stage = Stage::Checked;
                            Action::ReadFile(self.file_path.clone())
                        },
                        Err(e) => {
                            self.stage = Stage::Failed;
                            Action::Fail(e)
                        },
                    },
                }
            },
            Event::FileRead(res) => {
                if !matches!(self.stage, Stage::Checked) {
                    return Action::Ignore;
                }
                match res {
                    Err(d) => {
                        self.stage = Stage::Failed;
                        Action::Fail(UploadError::Read(d))
                    },
                    Ok(bytes) => match LocalFile::new(self.file_path.clone(), bytes) {
                        Ok(file) => {
                            self.stage = Stage::Validated;
                            self.content = file.encoded_content;
                            Action::Send(authenticated_request(&self.target, Method::Get, None))
                        },
                        Err(e) => {
                            self.stage = Stage::Failed;
                            Action::Fail(e)
                        },
                    },
                }
            },
            Event::ProbeAnswered { status, body, sha } => {
                if !matches!(self.stage, Stage::Validated) {
                    return Action::Ignore;
                }
                match remote_state(status, body, sha) {
                    Ok(state) => {
                        let message = commit_message(self.file_name.as_str(), state.exists);
                        let payload = build_payload(
                            message.as_str(),
                            self.content.as_str(),
                            self.target.branch.as_str(),
                            &state,
                        );
                        self.stage = Stage::Probed;
                        Action::Send(authenticated_request(&self.target, Method::Put, Some(payload)))
                    },
                    Err(e) => {
                        self.stage = Stage::Failed;
                        Action::Fail(e)
                    },
                }
            },
            Event::WriteAnswered { status, body, parsed, commit_sha } => {
                if !matches!(self.stage, Stage::Probed) {
                    return Action::Ignore;
                }
                match upload_outcome(status, body, parsed, commit_sha) {
                    Ok(result) => {
                        self.stage = Stage::Uploaded;
                        Action::Succeed(result)
                    },
                    Err(e) => {
                        self.stage = Stage::Failed;
                        Action::Fail(e)
                    },
                }
            },
            Event::NetworkFailed(d) => {
                if !matches!(self.stage, Stage::Validated) && !matches!(self.stage, Stage::Probed) {
                    return Action::Ignore;
                }
                self.stage = Stage::Failed;
                Action::Fail(UploadError::Network(d))
            },
        }
    }
}

/// The event is one that `stage` waits for.
pub open spec fn expects(stage: Stage, event: Event) -> bool {
    match event {
        Event::FileChecked { .. } => stage == Stage::Parsed,
        Event::FileRead(_) => stage == Stage::Checked,
        Event::ProbeAnswered { .. } => stage == Stage::Validated,
        Event::WriteAnswered { .. } => stage == Stage::Probed,
        Event::NetworkFailed(_) => stage == Stage::Validated || stage == Stage::Probed,
    }
}

/// An upload that has failed or finished waits for no event: every later
/// step is ignored, so no request follows a failure.
pub proof fn lemma_done_expects_nothing(stage: Stage, event: Event)
    requires
        stage == Stage::Failed || stage == Stage::Uploaded,
    ensures
        !expects(stage, event),
{
}

} // verus!
