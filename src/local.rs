//! The local file: its size ceiling, its name, and its transport encoding.
use vstd::prelude::*;

use crate::error::UploadError;

verus! {

/// The largest file that is uploaded, 100 MiB; it is never read whole beyond this.
pub const MAX_FILE_SIZE: u64 = 100 * 1024 * 1024;

/// The base64 text (standard alphabet, padded) of `bytes`.
pub uninterp spec fn base64_of(bytes: Seq<u8>) -> Seq<char>;

/// Relies on base64::encode, which encodes with the standard alphabet and
/// padding; it panics only when the encoded length overflows `usize`.
#[verifier::external_body]
fn base64_encode(bytes: &[u8]) -> (r: String)
    requires
        bytes@.len() <= usize::MAX / 2,
    ensures
        r@ == base64_of(bytes@),
        bytes@.len() == 0 ==> r@.len() == 0,
{
    base64::encode(bytes)
}

/// Accepts a size up to and including the ceiling.
pub fn check_size(size: u64) -> (r: Result<(), UploadError>)
    ensures
        r == if size <= MAX_FILE_SIZE {
            Ok(())
        } else {
            Err(UploadError::FileTooLarge(size))
        },
{
    if size > MAX_FILE_SIZE {
        Err(UploadError::FileTooLarge(size))
    } else {
        Ok(())
    }
}

/// `seg` is what follows the last `/` of `path` (all of it when there is none).
pub open spec fn is_final_segment(path: Seq<char>, seg: Seq<char>) -> bool {
    &&& seg.len() <= path.len()
    &&& path.subrange(path.len() - seg.len(), path.len() as int) == seg
    &&& !seg.contains('/')
    &&& seg.len() == path.len() || path[path.len() - seg.len() - 1] == '/'
}

/// The final segment of a local path, the name the commit message uses.
pub fn final_segment(path: &str) -> (r: String)
    ensures
        is_final_segment(path@, r@),
{
    let len = path.unicode_len();
    let mut i: usize = len;
    while i > 0 && path.get_char(i - 1) != '/'
        invariant
            i <= len,
            len == path@.len(),
            forall|k: int| i <= k < len ==> path@[k] != '/',
        decreases i,
    {
        i = i - 1;
    }
    let seg = path.substring_char(i, len);
    proof {
        if seg@.contains('/') {
            let k = choose|k: int| 0 <= k < seg@.len() && seg@[k] == '/';
            assert(path@[i + k] == seg@[k]);
        }
    }
    String::from_str(seg)
}

/// A local file held in memory, with the text that carries it.
#[derive(Debug, Clone, PartialEq, Eq)]
pub struct LocalFile {
    pub path: String,
    pub size_bytes: u64,
    pub raw_bytes: Vec<u8>,
    pub encoded_content: String,
}

impl LocalFile {
    /// Takes the bytes read from `path` and encodes them. Content longer than
    /// the ceiling (a file that grew after its size was checked) is refused.
    pub fn new(path: String, raw_bytes: Vec<u8>) -> (r: Result<LocalFile, UploadError>)
        ensures
            raw_bytes@.len() > MAX_FILE_SIZE ==> r == Err::<LocalFile, UploadError>(
                UploadError::FileTooLarge(raw_bytes@.len() as u64),
            ),
            raw_bytes@.len() <= MAX_FILE_SIZE ==> r is Ok,
            r is Ok ==> ({
                let f = r->Ok_0;
                &&& f.path == path
                &&& f.size_bytes == raw_bytes@.len()
                &&& f.raw_bytes@ == raw_bytes@
                &&& f.encoded_content@ == base64_of(raw_bytes@)
            }),
    {
        let n = raw_bytes.len();
        if n as u64 > MAX_FILE_SIZE {
            return Err(UploadError::FileTooLarge(n as u64));
        }
        let encoded_content = base64_encode(raw_bytes.as_slice());
        Ok(LocalFile { path, size_bytes: n as u64, raw_bytes, encoded_content })
    }
}

} // verus!
