//! The JSON body of the write call.
use vstd::prelude::*;

use crate::protocol::RemoteFileState;

verus! {

/// The JSON string literal (quoted and escaped) that stands for `s`.
pub uninterp spec fn json_string_of(s: Seq<char>) -> Seq<char>;

/// Relies on serde_json::to_string applied to a `str`: it writes the quoted,
/// escaped string into a `Vec`, which cannot fail.
#[verifier::external_body]
fn json_string(s: &str) -> (r: String)
    ensures
        r@ == json_string_of(s@),
{
    serde_json::to_string(s).unwrap_or_default()
}

/// The object member `"key":"value"`.
pub open spec fn json_member(key: Seq<char>, value: Seq<char>) -> Seq<char> {
    json_string_of(key) + seq![':'] + json_string_of(value)
}

/// The members, each rendered, separated by commas.
pub open spec fn render_members(ms: Seq<(Seq<char>, Seq<char>)>) -> Seq<char>
    decreases ms.len(),
{
    if ms.len() == 0 {
        seq![]
    } else if ms.len() == 1 {
        json_member(ms[0].0, ms[0].1)
    } else {
        render_members(ms.drop_last()) + seq![','] + json_member(ms.last().0, ms.last().1)
    }
}

/// The JSON object with these members, in order.
pub open spec fn render_object(ms: Seq<(Seq<char>, Seq<char>)>) -> Seq<char> {
    seq!['{'] + render_members(ms) + seq!['}']
}

/// The members of a write: message, content and branch, then `sha` exactly
/// when the remote file has a content hash.
pub open spec fn payload_members(
    message: Seq<char>,
    content: Seq<char>,
    branch: Seq<char>,
    hash: Option<Seq<char>>,
) -> Seq<(Seq<char>, Seq<char>)> {
    let base = seq![("message"@, message), ("content"@, content), ("branch"@, branch)];
    match hash {
        Some(h) => base.push(("sha"@, h)),
        None => base,
    }
}

/// The content hash of a remote state, as text.
pub open spec fn hash_view(state: RemoteFileState) -> Option<Seq<char>> {
    match state.content_hash {
        Some(h) => Some(h@),
        None => None,
    }
}

/// The commit message: an update of the file when it exists, else its creation.
pub open spec fn commit_message_of(file_name: Seq<char>, exists: bool) -> Seq<char> {
    (if exists {
        "update "@
    } else {
        "create "@
    }) + file_name
}

/// Names the change a write makes to `file_name`.
pub fn commit_message(file_name: &str, exists: bool) -> (r: String)
    ensures
        r@ == commit_message_of(file_name@, exists),
{
    let mut m = if exists {
        String::from_str("update ")
    } else {
        String::from_str("create ")
    };
    m.append(file_name);
    m
}

/// Renders one member.
fn member_text(key: &str, value: &str) -> (r: String)
    ensures
        r@ == json_member(key@, value@),
{
    let mut m = json_string(key);
    m.append(":");
    let v = json_string(value);
    m.append(v.as_str());
    proof {
        reveal_strlit(":");
    }
    m
}

/// The JSON body of the write: message, content, branch, and the remote
/// file's content hash under `sha` when it has one; otherwise no `sha` key.
pub fn build_payload(message: &str, content: &str, branch: &str, remote: &RemoteFileState) -> (r:
    String)
    ensures
        r@ == render_object(payload_members(message@, content@, branch@, hash_view(*remote))),
{
    let mut out = String::from_str("{");
    let m = member_text("message", message);
    out.append(m.as_str());
    out.append(",");
    let c = member_text("content", content);
    out.append(c.as_str());
    out.append(",");
    let b = member_text("branch", branch);
    out.append(b.as_str());
    let ghost three = seq![("message"@, message@), ("content"@, content@), ("branch"@, branch@)];
    proof {
        reveal_strlit("{");
        reveal_strlit(",");
        reveal_with_fuel(render_members, 4);
        assert(three.drop_last().drop_last() =~= seq![("message"@, message@)]);
        assert(three.drop_last() =~= seq![("message"@, message@), ("content"@, content@)]);
        assert(out@ =~= seq!['{'] + render_members(three));
    }
    match &remote.content_hash {
        Some(h) => {
            out.append(",");
            let s = member_text("sha", h.as_str());
            out.append(s.as_str());
            proof {
                let four = three.push(("sha"@, h@));
                assert(four.drop_last() =~= three);
                assert(out@ =~= seq!['{'] + render_members(four));
            }
        },
        None => {},
    }
    out.append("}");
    proof {
        reveal_strlit("}");
        assert(out@ =~= render_object(
            payload_members(message@, content@, branch@, hash_view(*remote)),
        ));
    }
    out
}

/// When the probe found no file (404 gives a state that does not exist and
/// has no hash), no member of the write payload is keyed `sha`.
pub proof fn lemma_create_payload_has_no_sha(
    message: Seq<char>,
    content: Seq<char>,
    branch: Seq<char>,
    state: RemoteFileState,
)
    requires
        state == (RemoteFileState { exists: false, content_hash: None }),
    ensures
        forall|i: int|
            0 <= i < payload_members(message, content, branch, hash_view(state)).len()
                ==> #[trigger] payload_members(message, content, branch, hash_view(state))[i].0
                != "sha"@,
{
    reveal_strlit("sha");
    reveal_strlit("message");
    reveal_strlit("content");
    reveal_strlit("branch");
    let ms = payload_members(message, content, branch, hash_view(state));
    assert forall|i: int| 0 <= i < ms.len() implies #[trigger] ms[i].0 != "sha"@ by {
        assert(ms[i].0.len() != 3 || ms[i].0[0] != 's');
    }
}

/// When the probe found the file with hash `h`, the write payload ends with
/// the member `sha` holding `h`, and the commit message starts with `update `.
pub proof fn lemma_update_payload_carries_sha(
    message: Seq<char>,
    content: Seq<char>,
    branch: Seq<char>,
    file_name: Seq<char>,
    state: RemoteFileState,
    h: String,
)
    requires
        state == (RemoteFileState { exists: true, content_hash: Some(h) }),
    ensures
        payload_members(message, content, branch, hash_view(state)).len() == 4,
        payload_members(message, content, branch, hash_view(state))[3] == ("sha"@, h@),
        commit_message_of(file_name, state.exists).subrange(0, 7) == "update "@,
{
    reveal_strlit("update ");
    assert(commit_message_of(file_name, state.exists).subrange(0, 7) =~= "update "@);
}

} // verus!
