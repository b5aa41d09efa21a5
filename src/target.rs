//! The pre-authenticated raw-content URL and the upload target it names.
use vstd::prelude::*;

use crate::error::UploadError;

verus! {

/// The host and scheme every accepted URL starts with.
pub const RAW_PREFIX: &'static str = "https://raw.githubusercontent.com/";

/// The separator between the repository name and the branch.
pub const REFS_HEADS: &'static str = "/refs/heads/";

/// The separator between the remote path and the token.
pub const TOKEN_MARKER: &'static str = "?token=";

/// Where one upload goes, and the credential that authorises it.
#[derive(Debug, Clone, PartialEq, Eq)]
pub struct UploadTarget {
    pub owner: String,
    /// `owner/repository`.
    pub repo: String,
    pub branch: String,
    pub remote_path: String,
    pub token: String,
}

/// A non-empty segment without `/`.
pub open spec fn is_segment(s: Seq<char>) -> bool {
    s.len() > 0 && !s.contains('/')
}

/// A non-empty run of characters without a line break.
pub open spec fn is_line(s: Seq<char>) -> bool {
    s.len() > 0 && !s.contains('\n')
}

/// `s` holds `lit` starting at position `at`.
pub open spec fn occurs_at(s: Seq<char>, at: int, lit: Seq<char>) -> bool {
    0 <= at && at + lit.len() <= s.len() && s.subrange(at, at + lit.len()) == lit
}

/// No token marker inside `token` is followed by further characters, so the
/// marker before `token` is the last one that leaves a non-empty token.
pub open spec fn token_is_final(token: Seq<char>) -> bool {
    forall|k: int|
        0 <= k && k + TOKEN_MARKER@.len() < token.len() ==> !#[trigger] occurs_at(
            token,
            k,
            TOKEN_MARKER@,
        )
}

/// The URL assembled from its parts.
#[verifier::opaque]
pub open spec fn url_of(
    owner: Seq<char>,
    repo_name: Seq<char>,
    branch: Seq<char>,
    path: Seq<char>,
    token: Seq<char>,
) -> Seq<char> {
    RAW_PREFIX@ + owner + seq!['/'] + repo_name + REFS_HEADS@ + branch + seq!['/'] + path
        + TOKEN_MARKER@ + token
}

/// `url` has the accepted shape, and these are its parts.
pub open spec fn is_url_parts(
    url: Seq<char>,
    owner: Seq<char>,
    repo_name: Seq<char>,
    branch: Seq<char>,
    path: Seq<char>,
    token: Seq<char>,
) -> bool {
    &&& url == url_of(owner, repo_name, branch, path, token)
    &&& is_segment(owner)
    &&& is_segment(repo_name)
    &&& is_segment(branch)
    &&& is_line(path)
    &&& is_line(token)
    &&& token_is_final(token)
}

/// `url` has the accepted shape.
pub open spec fn is_raw_url(url: Seq<char>) -> bool {
    exists|o: Seq<char>, r: Seq<char>, b: Seq<char>, p: Seq<char>, t: Seq<char>|
        #[trigger] is_url_parts(url, o, r, b, p, t)
}

impl UploadTarget {
    /// The repository name, the part of `repo` after `owner/`.
    pub open spec fn repo_name(&self) -> Seq<char> {
        self.repo@.subrange(self.owner@.len() as int + 1, self.repo@.len() as int)
    }

    /// This target is the one that `url` names.
    pub open spec fn parsed_from(&self, url: Seq<char>) -> bool {
        &&& self.repo@ == self.owner@ + seq!['/'] + self.repo_name()
        &&& is_url_parts(
            url,
            self.owner@,
            self.repo_name(),
            self.branch@,
            self.remote_path@,
            self.token@,
        )
    }
}

/// Where each part of an accepted URL lies.
proof fn lemma_parts_layout(
    url: Seq<char>,
    o: Seq<char>,
    r: Seq<char>,
    b: Seq<char>,
    p: Seq<char>,
    t: Seq<char>,
)
    requires
        is_url_parts(url, o, r, b, p, t),
    ensures
        ({
            let a = RAW_PREFIX@.len() as int;
            let c = a + o.len() + 1;
            let d = c + r.len();
            let e = d + REFS_HEADS@.len();
            let f = e + b.len();
            let g = f + 1;
            let h = g + p.len();
            let i = h + TOKEN_MARKER@.len();
            &&& url.len() == i + t.len()
            &&& occurs_at(url, 0, RAW_PREFIX@)
            &&& url.subrange(a, c - 1) == o
            &&& url[c - 1] == '/'
            &&& url.subrange(c, d) == r
            &&& occurs_at(url, d, REFS_HEADS@)
            &&& url[d] == '/'
            &&& url.subrange(e, f) == b
            &&& url[f] == '/'
            &&& url.subrange(g, h) == p
            &&& occurs_at(url, h, TOKEN_MARKER@)
            &&& url.subrange(i, url.len() as int) == t
        }),
{
    reveal(url_of);
    let s1 = RAW_PREFIX@ + o;
    let s2 = s1 + seq!['/'];
    let s3 = s2 + r;
    let s4 = s3 + REFS_HEADS@;
    let s5 = s4 + b;
    let s6 = s5 + seq!['/'];
    let s7 = s6 + p;
    let s8 = s7 + TOKEN_MARKER@;
    assert(url == s8 + t);
    assert(url.subrange(0, s8.len() as int) =~= s8);
    assert(url.subrange(s8.len() as int, url.len() as int) =~= t);
    assert(s8.subrange(0, s7.len() as int) =~= s7);
    assert(s8.subrange(s7.len() as int, s8.len() as int) =~= TOKEN_MARKER@);
    assert(s7.subrange(0, s6.len() as int) =~= s6);
    assert(s7.subrange(s6.len() as int, s7.len() as int) =~= p);
    assert(s6.subrange(0, s5.len() as int) =~= s5);
    assert(s5.subrange(0, s4.len() as int) =~= s4);
    assert(s5.subrange(s4.len() as int, s5.len() as int) =~= b);
    assert(s4.subrange(0, s3.len() as int) =~= s3);
    assert(s4.subrange(s3.len() as int, s4.len() as int) =~= REFS_HEADS@);
    assert(s3.subrange(0, s2.len() as int) =~= s2);
    assert(s3.subrange(s2.len() as int, s3.len() as int) =~= r);
    assert(s2.subrange(0, s1.len() as int) =~= s1);
    assert(s1.subrange(0, RAW_PREFIX@.len() as int) =~= RAW_PREFIX@);
    assert(s1.subrange(RAW_PREFIX@.len() as int, s1.len() as int) =~= o);
    assert(url.subrange(0, s7.len() as int) =~= s7);
    assert(url.subrange(0, s6.len() as int) =~= s6);
    assert(url.subrange(0, s5.len() as int) =~= s5);
    assert(url.subrange(0, s4.len() as int) =~= s4);
    assert(url.subrange(0, s3.len() as int) =~= s3);
    assert(url.subrange(0, s2.len() as int) =~= s2);
    assert(url.subrange(0, s1.len() as int) =~= s1);
    assert(url.subrange(s7.len() as int, s8.len() as int) =~= TOKEN_MARKER@);
    assert(url.subrange(s6.len() as int, s7.len() as int) =~= p);
    assert(url.subrange(s4.len() as int, s5.len() as int) =~= b);
    assert(url.subrange(s3.len() as int, s4.len() as int) =~= REFS_HEADS@);
    assert(url.subrange(s2.len() as int, s3.len() as int) =~= r);
    assert(url.subrange(RAW_PREFIX@.len() as int, s1.len() as int) =~= o);
    assert(url.subrange(0, RAW_PREFIX@.len() as int) =~= RAW_PREFIX@);
    assert(url[s5.len() as int] == s6[s5.len() as int]);
    assert(url[s1.len() as int] == s2[s1.len() as int]);
    reveal_strlit("/refs/heads/");
    assert(url[s3.len() as int] == url.subrange(s3.len() as int, s4.len() as int)[0]);
}

/// The first `/` at or after the start of a segment is the one that ends it.
proof fn lemma_first_slash(url: Seq<char>, start: int, seg: Seq<char>, i: int)
    requires
        is_segment(seg),
        0 <= start,
        start + seg.len() < url.len(),
        url.subrange(start, start + seg.len()) == seg,
        url[start + seg.len()] == '/',
        start <= i <= url.len(),
        i < url.len() ==> url[i] == '/',
        forall|k: int| start <= k < i ==> url[k] != '/',
    ensures
        i == start + seg.len(),
{
    if i < start + seg.len() {
        assert(seg[i - start] == url[i]);
        assert(seg.contains('/'));
    }
}

/// A text with the three literals and two slashes in place is the URL
/// assembled from the pieces between them.
proof fn lemma_assemble(u: Seq<char>, o_end: int, r_end: int, b_end: int, j: int)
    requires
        occurs_at(u, 0, RAW_PREFIX@),
        RAW_PREFIX@.len() <= o_end,
        o_end + 1 <= r_end,
        occurs_at(u, r_end, REFS_HEADS@),
        r_end + REFS_HEADS@.len() <= b_end,
        b_end + 1 <= j,
        occurs_at(u, j, TOKEN_MARKER@),
        u[o_end] == '/',
        u[b_end] == '/',
    ensures
        u == url_of(
            u.subrange(RAW_PREFIX@.len() as int, o_end),
            u.subrange(o_end + 1, r_end),
            u.subrange(r_end + REFS_HEADS@.len(), b_end),
            u.subrange(b_end + 1, j),
            u.subrange(j + TOKEN_MARKER@.len(), u.len() as int),
        ),
{
    reveal(url_of);
    let e = r_end + REFS_HEADS@.len();
    let i = j + TOKEN_MARKER@.len();
    let s1 = RAW_PREFIX@ + u.subrange(RAW_PREFIX@.len() as int, o_end);
    assert(u.subrange(0, o_end) =~= s1);
    let s2 = s1 + seq!['/'];
    assert(u.subrange(0, o_end + 1) =~= s2);
    let s3 = s2 + u.subrange(o_end + 1, r_end);
    assert(u.subrange(0, r_end) =~= s3);
    let s4 = s3 + REFS_HEADS@;
    assert(u.subrange(0, e) =~= s4);
    let s5 = s4 + u.subrange(e, b_end);
    assert(u.subrange(0, b_end) =~= s5);
    let s6 = s5 + seq!['/'];
    assert(u.subrange(0, b_end + 1) =~= s6);
    let s7 = s6 + u.subrange(b_end + 1, j);
    assert(u.subrange(0, j) =~= s7);
    let s8 = s7 + TOKEN_MARKER@;
    assert(u.subrange(0, i) =~= s8);
    assert(u =~= s8 + u.subrange(i, u.len() as int));
}

/// After the branch, an accepted URL holds no line break.
proof fn lemma_tail_has_no_newline(url: Seq<char>, g: int, p: Seq<char>, t: Seq<char>)
    requires
        0 <= g,
        url.len() == g + p.len() + TOKEN_MARKER@.len() + t.len(),
        url.subrange(g, g + p.len()) == p,
        occurs_at(url, g + p.len(), TOKEN_MARKER@),
        url.subrange(g + p.len() + TOKEN_MARKER@.len(), url.len() as int) == t,
        is_line(p),
        is_line(t),
    ensures
        forall|k: int| g <= k < url.len() ==> url[k] != '\n',
{
    reveal_strlit("?token=");
    let h = g + p.len();
    let i = h + TOKEN_MARKER@.len();
    assert forall|k: int| g <= k < url.len() implies url[k] != '\n' by {
        if k < h {
            assert(p[k - g] == url[k]);
        } else if k < i {
            assert(TOKEN_MARKER@[k - h] == url[k]);
        } else {
            assert(t[k - i] == url[k]);
        }
    }
}

/// No `/` stands where a segment lies.
proof fn lemma_segment_has_no_slash(url: Seq<char>, start: int, seg: Seq<char>)
    requires
        is_segment(seg),
        0 <= start,
        start + seg.len() <= url.len(),
        url.subrange(start, start + seg.len()) == seg,
    ensures
        forall|k: int| start <= k < start + seg.len() ==> url[k] != '/',
{
    assert forall|k: int| start <= k < start + seg.len() implies url[k] != '/' by {
        assert(seg[k - start] == url[k]);
    }
}

/// Two token markers do not overlap.
proof fn lemma_markers_apart(url: Seq<char>, h1: int, h2: int)
    requires
        0 <= h1 < h2,
        occurs_at(url, h1, TOKEN_MARKER@),
        occurs_at(url, h2, TOKEN_MARKER@),
    ensures
        h1 + TOKEN_MARKER@.len() <= h2,
{
    reveal_strlit("?token=");
    if h2 < h1 + TOKEN_MARKER@.len() {
        assert(url[h2] == TOKEN_MARKER@[0]);
        assert(url[h2] == TOKEN_MARKER@[h2 - h1]);
    }
}

/// A marker after the token's start stands inside the token.
proof fn lemma_marker_in_token(url: Seq<char>, i: int, h2: int, t: Seq<char>)
    requires
        0 <= i <= h2,
        h2 + TOKEN_MARKER@.len() < url.len(),
        occurs_at(url, h2, TOKEN_MARKER@),
        url.subrange(i, url.len() as int) == t,
    ensures
        occurs_at(t, h2 - i, TOKEN_MARKER@),
        h2 - i + TOKEN_MARKER@.len() < t.len(),
{
    let m = TOKEN_MARKER@.len() as int;
    assert(t.subrange(h2 - i, h2 - i + m) =~= url.subrange(h2, h2 + m));
}

/// Path and token after a fixed start split at one marker only.
proof fn lemma_path_length_unique(
    url: Seq<char>,
    g: int,
    p1: Seq<char>,
    t1: Seq<char>,
    p2: Seq<char>,
    t2: Seq<char>,
)
    requires
        0 <= g,
        url.len() == g + p1.len() + TOKEN_MARKER@.len() + t1.len(),
        url.len() == g + p2.len() + TOKEN_MARKER@.len() + t2.len(),
        occurs_at(url, g + p1.len(), TOKEN_MARKER@),
        occurs_at(url, g + p2.len(), TOKEN_MARKER@),
        url.subrange(g + p1.len() + TOKEN_MARKER@.len(), url.len() as int) == t1,
        url.subrange(g + p2.len() + TOKEN_MARKER@.len(), url.len() as int) == t2,
        t1.len() > 0,
        t2.len() > 0,
        token_is_final(t1),
        token_is_final(t2),
    ensures
        p1.len() == p2.len(),
{
    let m = TOKEN_MARKER@.len() as int;
    if p1.len() < p2.len() {
        let h1 = g + p1.len();
        let h2 = g + p2.len();
        lemma_markers_apart(url, h1, h2);
        lemma_marker_in_token(url, h1 + m, h2, t1);
    } else if p2.len() < p1.len() {
        let h1 = g + p2.len();
        let h2 = g + p1.len();
        lemma_markers_apart(url, h1, h2);
        lemma_marker_in_token(url, h1 + m, h2, t2);
    }
}

/// An accepted URL has exactly one decomposition: owner, repository, branch,
/// path and token are fixed by the separators `/`, `/refs/heads/` and the
/// last `?token=`.
#[verifier::rlimit(50)]
pub proof fn lemma_url_parts_unique(
    url: Seq<char>,
    o1: Seq<char>,
    r1: Seq<char>,
    b1: Seq<char>,
    p1: Seq<char>,
    t1: Seq<char>,
    o2: Seq<char>,
    r2: Seq<char>,
    b2: Seq<char>,
    p2: Seq<char>,
    t2: Seq<char>,
)
    requires
        is_url_parts(url, o1, r1, b1, p1, t1),
        is_url_parts(url, o2, r2, b2, p2, t2),
    ensures
        o1 == o2,
        r1 == r2,
        b1 == b2,
        p1 == p2,
        t1 == t2,
{
    lemma_parts_layout(url, o1, r1, b1, p1, t1);
    lemma_parts_layout(url, o2, r2, b2, p2, t2);
    let a = RAW_PREFIX@.len() as int;
    lemma_segment_has_no_slash(url, a, o2);
    lemma_first_slash(url, a, o1, a + o2.len());
    let c = a + o1.len() + 1;
    lemma_segment_has_no_slash(url, c, r2);
    lemma_first_slash(url, c, r1, c + r2.len());
    let e = c + r1.len() + REFS_HEADS@.len();
    lemma_segment_has_no_slash(url, e, b2);
    lemma_first_slash(url, e, b1, e + b2.len());
    let g = e + b1.len() + 1;
    let m = TOKEN_MARKER@.len() as int;
    lemma_path_length_unique(url, g, p1, t1, p2, t2);
}

/// Position of the first `c` in `s` at or after `from`.
fn find_char(s: &str, len: usize, from: usize, c: char) -> (r: Option<usize>)
    requires
        len == s@.len(),
        from <= len,
    ensures
        match r {
            Some(i) => from <= i < len && s@[i as int] == c && forall|k: int|
                from <= k < i ==> s@[k] != c,
            None => forall|k: int| from <= k < len ==> s@[k] != c,
        },
{
    let mut i: usize = from;
    while i < len
        invariant
            from <= i <= len,
            len == s@.len(),
            forall|k: int| from <= k < i ==> s@[k] != c,
        decreases len - i,
    {
        if s.get_char(i) == c {
            return Some(i);
        }
        i = i + 1;
    }
    None
}

/// Whether `lit` stands in `s` at position `at`.
fn occurs_at_exec(s: &str, len: usize, at: usize, lit: &str) -> (r: bool)
    requires
        len == s@.len(),
        at <= len,
    ensures
        r == occurs_at(s@, at as int, lit@),
{
    let n = lit.unicode_len();
    if n > len - at {
        return false;
    }
    let mut k: usize = 0;
    while k < n
        invariant
            n == lit@.len(),
            at + n <= len,
            len == s@.len(),
            k <= n,
            forall|j: int| 0 <= j < k ==> s@[at + j] == lit@[j],
        decreases n - k,
    {
        if s.get_char(at + k) != lit.get_char(k) {
            assert(s@.subrange(at as int, at + n)[k as int] != lit@[k as int]);
            return false;
        }
        k = k + 1;
    }
    assert(s@.subrange(at as int, at + n) =~= lit@);
    true
}

/// Parses a pre-authenticated raw-content URL of the shape
/// `https://raw.githubusercontent.com/{owner}/{repo}/refs/heads/{branch}/{path}?token={token}`.
/// Owner, repository and branch hold no `/`; the path runs up to the last
/// `?token=` that leaves a non-empty token. Nothing but the text is read.
#[verifier::rlimit(50)]
pub fn parse_github_url(url: &str) -> (r: Result<UploadTarget, UploadError>)
    ensures
        r is Ok <==> is_raw_url(url@),
        match r {
            Ok(t) => t.parsed_from(url@),
            Err(e) => e == UploadError::MalformedInput,
        },
{
    proof {
        reveal_strlit("https://raw.githubusercontent.com/");
        reveal_strlit("/refs/heads/");
        reveal_strlit("?token=");
    }
    let len = url.unicode_len();
    let a = RAW_PREFIX.unicode_len();
    if !occurs_at_exec(url, len, 0, RAW_PREFIX) {
        proof {
            assert forall|o: Seq<char>, r: Seq<char>, b: Seq<char>, p: Seq<char>, t: Seq<char>|
                !#[trigger] is_url_parts(url@, o, r, b, p, t) by {
                if is_url_parts(url@, o, r, b, p, t) {
                    lemma_parts_layout(url@, o, r, b, p, t);
                }
            }
        }
        return Err(UploadError::MalformedInput);
    }
    let owner_end = match find_char(url, len, a, '/') {
        Some(i) => i,
        None => len,
    };
    if owner_end == len || owner_end == a {
        proof {
            assert forall|o: Seq<char>, r: Seq<char>, b: Seq<char>, p: Seq<char>, t: Seq<char>|
                !#[trigger] is_url_parts(url@, o, r, b, p, t) by {
                if is_url_parts(url@, o, r, b, p, t) {
                    lemma_parts_layout(url@, o, r, b, p, t);
                    lemma_first_slash(url@, a as int, o, owner_end as int);
                }
            }
        }
        return Err(UploadError::MalformedInput);
    }
    let repo_start = owner_end + 1;
    let repo_end = match find_char(url, len, repo_start, '/') {
        Some(i) => i,
        None => len,
    };
    if repo_end == len || repo_end == repo_start || !occurs_at_exec(
        url,
        len,
        repo_end,
        REFS_HEADS,
    ) {
        proof {
            assert forall|o: Seq<char>, r: Seq<char>, b: Seq<char>, p: Seq<char>, t: Seq<char>|
                !#[trigger] is_url_parts(url@, o, r, b, p, t) by {
                if is_url_parts(url@, o, r, b, p, t) {
                    lemma_parts_layout(url@, o, r, b, p, t);
                    lemma_first_slash(url@, a as int, o, owner_end as int);
                    lemma_first_slash(url@, repo_start as int, r, repo_end as int);
                }
            }
        }
        return Err(UploadError::MalformedInput);
    }
    let branch_start = repo_end + REFS_HEADS.unicode_len();
    let branch_end = match find_char(url, len, branch_start, '/') {
        Some(i) => i,
        None => len,
    };
    if branch_end == len || branch_end == branch_start {
        proof {
            assert forall|o: Seq<char>, r: Seq<char>, b: Seq<char>, p: Seq<char>, t: Seq<char>|
                !#[trigger] is_url_parts(url@, o, r, b, p, t) by {
                if is_url_parts(url@, o, r, b, p, t) {
                    lemma_parts_layout(url@, o, r, b, p, t);
                    lemma_first_slash(url@, a as int, o, owner_end as int);
                    lemma_first_slash(url@, repo_start as int, r, repo_end as int);
                    lemma_first_slash(url@, branch_start as int, b, branch_end as int);
                }
            }
        }
        return Err(UploadError::MalformedInput);
    }
    let path_start = branch_end + 1;
    let m = TOKEN_MARKER.unicode_len();
    let newline = find_char(url, len, path_start, '\n');
    if newline.is_some() || len - path_start < m + 2 {
        proof {
            assert forall|o: Seq<char>, r: Seq<char>, b: Seq<char>, p: Seq<char>, t: Seq<char>|
                !#[trigger] is_url_parts(url@, o, r, b, p, t) by {
                if is_url_parts(url@, o, r, b, p, t) {
                    lemma_parts_layout(url@, o, r, b, p, t);
                    lemma_first_slash(url@, a as int, o, owner_end as int);
                    lemma_first_slash(url@, repo_start as int, r, repo_end as int);
                    lemma_first_slash(url@, branch_start as int, b, branch_end as int);
                    lemma_tail_has_no_newline(url@, path_start as int, p, t);
                }
            }
        }
        return Err(UploadError::MalformedInput);
    }
    // The last marker that leaves both the path and the token non-empty.
    let mut j: usize = len - m - 1;
    let mut found = false;
    while j > path_start && !found
        invariant
            m == TOKEN_MARKER@.len(),
            len == url@.len(),
            path_start <= j,
            j + m < len,
            forall|k: int|
                j < k && k + m < len ==> !#[trigger] occurs_at(url@, k, TOKEN_MARKER@),
            found ==> path_start < j && occurs_at(url@, j as int, TOKEN_MARKER@),
        decreases 2 * j + if found {
            0int
        } else {
            1int
        },
    {
        if occurs_at_exec(url, len, j, TOKEN_MARKER) {
            found = true;
        } else {
            j = j - 1;
        }
    }
    if !found {
        proof {
            assert forall|o: Seq<char>, r: Seq<char>, b: Seq<char>, p: Seq<char>, t: Seq<char>|
                !#[trigger] is_url_parts(url@, o, r, b, p, t) by {
                if is_url_parts(url@, o, r, b, p, t) {
                    lemma_parts_layout(url@, o, r, b, p, t);
                    lemma_first_slash(url@, a as int, o, owner_end as int);
                    lemma_first_slash(url@, repo_start as int, r, repo_end as int);
                    lemma_first_slash(url@, branch_start as int, b, branch_end as int);
                    let h = path_start + p.len();
                    assert(j == path_start);
                    assert(occurs_at(url@, h, TOKEN_MARKER@));
                    assert(h + m < len);
                }
            }
        }
        return Err(UploadError::MalformedInput);
    }
    let token_start = j + m;
    let owner = String::from_str(url.substring_char(a, owner_end));
    let repo_name = url.substring_char(repo_start, repo_end);
    let branch = String::from_str(url.substring_char(branch_start, branch_end));
    let remote_path = String::from_str(url.substring_char(path_start, j));
    let token = String::from_str(url.substring_char(token_start, len));
    let mut repo = owner.clone();
    repo.append("/");
    repo.append(repo_name);
    proof {
        reveal_strlit("/");
        let u = url@;
        let o = owner@;
        let rn = repo_name@;
        let b = branch@;
        let p = remote_path@;
        let t = token@;
        assert(repo@.subrange(o.len() as int + 1, repo@.len() as int) =~= rn);
        assert(repo@ =~= o + seq!['/'] + rn);
        assert(!o.contains('/')) by {
            if o.contains('/') {
                let k = choose|k: int| 0 <= k < o.len() && o[k] == '/';
                assert(u[a + k] == o[k]);
            }
        }
        assert(!rn.contains('/')) by {
            if rn.contains('/') {
                let k = choose|k: int| 0 <= k < rn.len() && rn[k] == '/';
                assert(u[repo_start + k] == rn[k]);
            }
        }
        assert(!b.contains('/')) by {
            if b.contains('/') {
                let k = choose|k: int| 0 <= k < b.len() && b[k] == '/';
                assert(u[branch_start + k] == b[k]);
            }
        }
        assert(!p.contains('\n')) by {
            if p.contains('\n') {
                let k = choose|k: int| 0 <= k < p.len() && p[k] == '\n';
                assert(u[path_start + k] == p[k]);
            }
        }
        assert(!t.contains('\n')) by {
            if t.contains('\n') {
                let k = choose|k: int| 0 <= k < t.len() && t[k] == '\n';
                assert(u[token_start + k] == t[k]);
            }
        }
        assert forall|k: int| 0 <= k && k + m < t.len() implies !#[trigger] occurs_at(
            t,
            k,
            TOKEN_MARKER@,
        ) by {
            assert(t.subrange(k, k + m) =~= u.subrange(token_start + k, token_start + k + m));
            assert(!occurs_at(u, token_start + k, TOKEN_MARKER@));
        }
        lemma_assemble(u, owner_end as int, repo_end as int, branch_end as int, j as int);
        assert(is_url_parts(u, o, rn, b, p, t));
    }
    Ok(UploadTarget { owner, repo, branch, remote_path, token })
}

} // verus!
