use github_upload::error::UploadError;
use github_upload::local::{check_size, final_segment, LocalFile, MAX_FILE_SIZE};
use github_upload::payload::{build_payload, commit_message};
use github_upload::pipeline::{Action, Event, Stage, Upload};
use github_upload::protocol::{
    authenticated_request, remote_state, upload_outcome, HttpRequest, Method, RemoteFileState,
    UploadResult,
};
use github_upload::target::parse_github_url;

const ORIGINAL_PATTERN: &str =
    r"^https://raw\.githubusercontent\.com/([^/]+)/([^/]+)/refs/heads/([^/]+)/(.+)\?token=(.+)$";

fn regex_parts(url: &str) -> Option<Vec<String>> {
    let re = regex::Regex::new(ORIGINAL_PATTERN).unwrap();
    re.captures(url)
        .map(|c| (1..=5).map(|i| c.get(i).unwrap().as_str().to_string()).collect())
}

fn parser_parts(url: &str) -> Option<Vec<String>> {
    parse_github_url(url).ok().map(|t| {
        let name = t.repo[t.owner.len() + 1..].to_string();
        vec![t.owner, name, t.branch, t.remote_path, t.token]
    })
}

fn probe_state_absent() -> RemoteFileState {
    RemoteFileState { exists: false, content_hash: None }
}

fn body_json(req: &HttpRequest) -> serde_json::Value {
    serde_json::from_str(req.body.as_ref().unwrap()).unwrap()
}

#[test]
fn parses_well_formed_url() {
    let t = parse_github_url(
        "https://raw.githubusercontent.com/alice/notes/refs/heads/main/docs/a/b.txt?token=SECRET-REDACTED",
    )
    .unwrap();
    assert_eq!(t.owner, "alice");
    assert_eq!(t.repo, "alice/notes");
    assert_eq!(t.branch, "main");
    assert_eq!(t.remote_path, "docs/a/b.txt");
    assert_eq!(t.token, "SECRET-REDACTED");
}

#[test]
fn path_runs_to_last_token_marker() {
    let t = parse_github_url(
        "https://raw.githubusercontent.com/o/r/refs/heads/dev/x?token=y?token=z",
    )
    .unwrap();
    assert_eq!(t.remote_path, "x?token=y");
    assert_eq!(t.token, "z");
}

#[test]
fn empty_token_after_last_marker_falls_back() {
    let t = parse_github_url(
        "https://raw.githubusercontent.com/o/r/refs/heads/dev/x?token=y?token=",
    )
    .unwrap();
    assert_eq!(t.remote_path, "x");
    assert_eq!(t.token, "y?token=");
}

#[test]
fn malformed_urls_are_refused() {
    let bad = [
        "raw.githubusercontent.com/o/r/refs/heads/main/f.txt?token=t",
        "https://raw.githubusercontent.com/o/r/refs/heads/main/f.txt",
        "https://example.com/o/r/refs/heads/main/f.txt?token=t",
        "https://raw.githubusercontent.com/o/r/main/f.txt?token=t",
        "https://raw.githubusercontent.com//r/refs/heads/main/f.txt?token=t",
        "https://raw.githubusercontent.com/o/r/refs/heads/main/?token=t",
        "https://raw.githubusercontent.com/o/r/refs/heads/main/f\n.txt?token=t",
        "",
    ];
    for url in bad.iter() {
        assert_eq!(parse_github_url(url), Err(UploadError::MalformedInput), "{}", url);
    }
}

#[test]
fn parser_agrees_with_original_pattern() {
    let urls = [
        "https://raw.githubusercontent.com/alice/notes/refs/heads/main/docs/a/b.txt?token=abc",
        "https://raw.githubusercontent.com/o/r/refs/heads/dev/x?token=y?token=z",
        "https://raw.githubusercontent.com/o/r/refs/heads/dev/x?token=y?token=",
        "https://raw.githubusercontent.com/o/r/refs/heads/dev/?token=y",
        "https://raw.githubusercontent.com/o/r/refs/heads/dev/p?token=",
        "https://raw.githubusercontent.com/o/r/refs/heads/b/p?token=t\n",
        "https://raw.githubusercontent.com/ü/ré/refs/heads/β/路径/文件?token=令牌",
        "https://raw.githubusercontent.com/o/refs/heads/b/p?token=t",
        "http://raw.githubusercontent.com/o/r/refs/heads/b/p?token=t",
    ];
    for url in urls.iter() {
        assert_eq!(parser_parts(url), regex_parts(url), "{}", url);
    }
}

#[test]
fn size_ceiling_is_inclusive() {
    assert_eq!(MAX_FILE_SIZE, 104_857_600);
    assert_eq!(check_size(104_857_600), Ok(()));
    assert_eq!(check_size(0), Ok(()));
    assert_eq!(check_size(104_857_601), Err(UploadError::FileTooLarge(104_857_601)));
}

#[test]
fn oversized_file_fails_before_read() {
    let (mut up, _) = Upload::start(
        "big.bin".to_string(),
        "https://raw.githubusercontent.com/o/r/refs/heads/main/big.bin?token=t",
    );
    let a = up.step(Event::FileChecked { exists: true, size: Ok(MAX_FILE_SIZE + 1) });
    assert_eq!(a, Action::Fail(UploadError::FileTooLarge(MAX_FILE_SIZE + 1)));
    assert_eq!(up.stage, Stage::Failed);
}

#[test]
fn file_at_ceiling_is_read() {
    let (mut up, _) = Upload::start(
        "big.bin".to_string(),
        "https://raw.githubusercontent.com/o/r/refs/heads/main/big.bin?token=t",
    );
    let a = up.step(Event::FileChecked { exists: true, size: Ok(MAX_FILE_SIZE) });
    assert_eq!(a, Action::ReadFile("big.bin".to_string()));
    assert_eq!(up.stage, Stage::Checked);
}

fn round_trip(bytes: Vec<u8>) {
    let f = LocalFile::new("f".to_string(), bytes.clone()).unwrap();
    assert_eq!(f.size_bytes, bytes.len() as u64);
    assert_eq!(base64::decode(&f.encoded_content).unwrap(), bytes);
}

#[test]
fn round_trip_empty() {
    round_trip(Vec::new());
}

#[test]
fn round_trip_single_byte() {
    round_trip(vec![0x7f]);
}

#[test]
fn round_trip_all_byte_values() {
    round_trip((0..=255u8).collect());
}

#[test]
fn encodes_hi() {
    let f = LocalFile::new("hello.txt".to_string(), b"hi".to_vec()).unwrap();
    assert_eq!(f.encoded_content, "aGk=");
}

#[test]
fn final_segment_of_paths() {
    assert_eq!(final_segment("dir/sub/hello.txt"), "hello.txt");
    assert_eq!(final_segment("hello.txt"), "hello.txt");
    assert_eq!(final_segment("/abs/x"), "x");
}

#[test]
fn commit_messages() {
    assert_eq!(commit_message("a.txt", true), "update a.txt");
    assert_eq!(commit_message("a.txt", false), "create a.txt");
}

#[test]
fn payload_after_404_has_no_sha() {
    let st = remote_state(404, String::new(), None).unwrap();
    assert_eq!(st, probe_state_absent());
    let p = build_payload("create f", "aGk=", "main", &st);
    let v: serde_json::Value = serde_json::from_str(&p).unwrap();
    let obj = v.as_object().unwrap();
    assert!(obj.get("sha").is_none());
    assert_eq!(obj.len(), 3);
    assert_eq!(obj["message"], "create f");
    assert_eq!(obj["content"], "aGk=");
    assert_eq!(obj["branch"], "main");
}

#[test]
fn payload_after_200_carries_sha() {
    let st = remote_state(200, "{\"sha\":\"abc123\"}".to_string(), Some("abc123".to_string()))
        .unwrap();
    assert!(st.exists);
    let msg = commit_message("f.txt", st.exists);
    assert!(msg.starts_with("update"));
    let p = build_payload(&msg, "eA==", "dev", &st);
    let v: serde_json::Value = serde_json::from_str(&p).unwrap();
    assert_eq!(v["sha"], "abc123");
    assert_eq!(v["message"], "update f.txt");
}

#[test]
fn payload_escapes_text() {
    let p = build_payload("say \"hi\"\n", "", "b", &probe_state_absent());
    let v: serde_json::Value = serde_json::from_str(&p).unwrap();
    assert_eq!(v["message"], "say \"hi\"\n");
}

#[test]
fn probe_replies() {
    assert_eq!(remote_state(200, String::new(), None), Err(UploadError::ResponseParse));
    assert_eq!(
        remote_state(500, "boom".to_string(), None),
        Err(UploadError::RemoteProbe { status: 500, body: "boom".to_string() })
    );
    assert_eq!(
        remote_state(299, String::new(), Some("h".to_string())),
        Ok(RemoteFileState { exists: true, content_hash: Some("h".to_string()) })
    );
}

#[test]
fn write_replies() {
    assert_eq!(
        upload_outcome(201, String::new(), true, Some("c".to_string())),
        Ok(UploadResult { succeeded: true, commit_hash: Some("c".to_string()) })
    );
    assert_eq!(
        upload_outcome(200, String::new(), true, None),
        Ok(UploadResult { succeeded: true, commit_hash: None })
    );
    assert_eq!(upload_outcome(200, String::new(), false, None), Err(UploadError::ResponseParse));
    assert_eq!(
        upload_outcome(409, "conflict".to_string(), true, None),
        Err(UploadError::UploadRejected { status: 409, body: "conflict".to_string() })
    );
}

#[test]
fn request_headers() {
    let t = parse_github_url("https://raw.githubusercontent.com/o/r/refs/heads/main/d/f?token=tk")
        .unwrap();
    let get = authenticated_request(&t, Method::Get, None);
    assert_eq!(get.url, "https://api.github.com/repos/o/r/contents/d/f");
    assert_eq!(get.headers.len(), 3);
    assert_eq!(get.headers[0], ("Authorization".to_string(), "token tk".to_string()));
    assert_eq!(get.headers[1].1, "application/vnd.github.v3+json");
    assert_eq!(get.headers[2].0, "User-Agent");
    assert!(get.body.is_none());
    let put = authenticated_request(&t, Method::Put, Some("{}".to_string()));
    assert_eq!(put.method, Method::Put);
    assert_eq!(put.headers[3], ("Content-Type".to_string(), "application/json".to_string()));
    assert_eq!(put.body, Some("{}".to_string()));
}

#[test]
fn scenario_create_new_file() {
    let (mut up, a) = Upload::start(
        "dir/hello.txt".to_string(),
        "https://raw.githubusercontent.com/o/r/refs/heads/main/hello.txt?token=t",
    );
    assert_eq!(a, Action::CheckFile("dir/hello.txt".to_string()));
    assert_eq!(
        up.step(Event::FileChecked { exists: true, size: Ok(2) }),
        Action::ReadFile("dir/hello.txt".to_string())
    );
    let get = match up.step(Event::FileRead(Ok(b"hi".to_vec()))) {
        Action::Send(r) => r,
        other => panic!("{:?}", other),
    };
    assert_eq!(get.method, Method::Get);
    let put = match up.step(Event::ProbeAnswered { status: 404, body: String::new(), sha: None }) {
        Action::Send(r) => r,
        other => panic!("{:?}", other),
    };
    assert_eq!(put.method, Method::Put);
    let v = body_json(&put);
    assert_eq!(v["content"], "aGk=");
    assert!(v.get("sha").is_none());
    assert!(v["message"].as_str().unwrap().contains("hello.txt"));
    let done = up.step(Event::WriteAnswered {
        status: 201,
        body: "{\"commit\":{\"sha\":\"deadbeef\"}}".to_string(),
        parsed: true,
        commit_sha: Some("deadbeef".to_string()),
    });
    assert_eq!(
        done,
        Action::Succeed(UploadResult { succeeded: true, commit_hash: Some("deadbeef".to_string()) })
    );
    assert_eq!(up.stage, Stage::Uploaded);
}

#[test]
fn scenario_update_existing_file() {
    let (mut up, _) = Upload::start(
        "f.txt".to_string(),
        "https://raw.githubusercontent.com/o/r/refs/heads/main/f.txt?token=t",
    );
    up.step(Event::FileChecked { exists: true, size: Ok(1) });
    up.step(Event::FileRead(Ok(vec![b'x'])));
    let put = match up.step(Event::ProbeAnswered {
        status: 200,
        body: "{\"sha\":\"abc123\"}".to_string(),
        sha: Some("abc123".to_string()),
    }) {
        Action::Send(r) => r,
        other => panic!("{:?}", other),
    };
    let v = body_json(&put);
    assert_eq!(v["sha"], "abc123");
    assert!(v["message"].as_str().unwrap().starts_with("update"));
}

#[test]
fn scenario_probe_server_error_halts() {
    let (mut up, _) = Upload::start(
        "f.txt".to_string(),
        "https://raw.githubusercontent.com/o/r/refs/heads/main/f.txt?token=t",
    );
    up.step(Event::FileChecked { exists: true, size: Ok(1) });
    up.step(Event::FileRead(Ok(vec![1])));
    let a = up.step(Event::ProbeAnswered { status: 500, body: "oops".to_string(), sha: None });
    assert_eq!(a, Action::Fail(UploadError::RemoteProbe { status: 500, body: "oops".to_string() }));
    assert_eq!(up.stage, Stage::Failed);
    let late = up.step(Event::WriteAnswered {
        status: 200,
        body: String::new(),
        parsed: true,
        commit_sha: None,
    });
    assert_eq!(late, Action::Ignore);
}

#[test]
fn scenario_missing_refs_heads_fails_at_once() {
    let (up, a) = Upload::start(
        "f.txt".to_string(),
        "https://raw.githubusercontent.com/o/r/main/f.txt?token=t",
    );
    assert_eq!(a, Action::Fail(UploadError::MalformedInput));
    assert_eq!(up.stage, Stage::Failed);
}

#[test]
fn missing_file_and_errors() {
    let url = "https://raw.githubusercontent.com/o/r/refs/heads/main/f.txt?token=t";
    let (mut up, _) = Upload::start("f.txt".to_string(), url);
    assert_eq!(
        up.step(Event::FileChecked { exists: false, size: Ok(0) }),
        Action::Fail(UploadError::FileNotFound)
    );
    let (mut up, _) = Upload::start("f.txt".to_string(), url);
    assert_eq!(
        up.step(Event::FileChecked { exists: true, size: Err("denied".to_string()) }),
        Action::Fail(UploadError::Metadata("denied".to_string()))
    );
    let (mut up, _) = Upload::start("f.txt".to_string(), url);
    up.step(Event::FileChecked { exists: true, size: Ok(3) });
    assert_eq!(
        up.step(Event::FileRead(Err("io".to_string()))),
        Action::Fail(UploadError::Read("io".to_string()))
    );
    let (mut up, _) = Upload::start("f.txt".to_string(), url);
    up.step(Event::FileChecked { exists: true, size: Ok(3) });
    up.step(Event::FileRead(Ok(vec![1, 2, 3])));
    assert_eq!(
        up.step(Event::NetworkFailed("dns".to_string())),
        Action::Fail(UploadError::Network("dns".to_string()))
    );
}

#[test]
fn event_out_of_stage_is_ignored() {
    let (mut up, _) = Upload::start(
        "f.txt".to_string(),
        "https://raw.githubusercontent.com/o/r/refs/heads/main/f.txt?token=t",
    );
    let before = up.clone();
    assert_eq!(up.step(Event::FileRead(Ok(vec![1]))), Action::Ignore);
    assert_eq!(up, before);
}
