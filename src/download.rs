//! The download plan of an artifact: its URL, the byte ranges asked one
//! after the other, and which answers are accepted.
use vstd::prelude::*;

use crate::candidate::InstallationCandidate;
use crate::error::GManError;
use crate::repository::{ensure_scheme, with_scheme};
use crate::text::{decimal, u64_text};

verus! {

/// The download URL of a candidate's artifact on `server`.
pub open spec fn artifact_url_of(server: Seq<char>, c: InstallationCandidate) -> Seq<char> {
    with_scheme(
        server + "/repository/download/"@ + c.flavor.teamcity_metadata.teamcity_id@ + "/"@
            + c.remote_id@ + ":id/"@ + c.flavor.teamcity_metadata.teamcity_binary_path@,
    )
}

/// The URL of `candidate`'s artifact on `server`.
pub fn artifact_url(candidate: &InstallationCandidate, server: &str) -> (r: String)
    ensures
        r@ == artifact_url_of(server@, *candidate),
{
    let s = String::from_str(server);
    let s = s.concat("/repository/download/");
    let s = s.concat(candidate.flavor.teamcity_metadata.teamcity_id.as_str());
    let s = s.concat("/");
    let s = s.concat(candidate.remote_id.as_str());
    let s = s.concat(":id/");
    let s = s.concat(candidate.flavor.teamcity_metadata.teamcity_binary_path.as_str());
    ensure_scheme(s.as_str())
}

/// The `Range` header value of the bytes `start` to `end`, both included.
pub open spec fn range_header_of(start: nat, end: nat) -> Seq<char> {
    "bytes="@ + decimal(start) + "-"@ + decimal(end)
}

/// The `Range` header value `bytes=start-end`.
pub fn range_header(start: u64, end: u64) -> (r: String)
    ensures
        r@ == range_header_of(start as nat, end as nat),
{
    let s = String::from_str("bytes=");
    let a = u64_text(start);
    let s = s.concat(a.as_str());
    let s = s.concat("-");
    let b = u64_text(end);
    s.concat(b.as_str())
}

/// Walks the bytes `start` to `end` in chunks of `buffer_size`.
#[derive(Debug, Clone, Copy, PartialEq, Eq, Structural)]
pub struct PartialRangeIter {
    pub start: u64,
    pub end: u64,
    pub buffer_size: u64,
}

impl PartialRangeIter {
    /// Fails where `buffer_size` is zero.
    pub fn new(start: u64, end: u64, buffer_size: u64) -> (r: Result<PartialRangeIter, GManError>)
        ensures
            match r {
                Ok(it) => buffer_size > 0 && it == (PartialRangeIter { start, end, buffer_size }),
                Err(_) => buffer_size == 0,
            },
    {
        if buffer_size == 0 {
            return Err(GManError::new("invalid buffer_size, give a value greater than zero."));
        }
        Ok(PartialRangeIter { start, end, buffer_size })
    }

    /// The next chunk, both ends included, or `None` once `end` is passed.
    pub fn next_range(&mut self) -> (r: Option<(u64, u64)>)
        requires
            old(self).buffer_size > 0,
            old(self).end < u64::MAX,
        ensures
            final(self).end == old(self).end,
            final(self).buffer_size == old(self).buffer_size,
            old(self).start > old(self).end ==> r is None && *final(self) == *old(self),
            old(self).start <= old(self).end ==> {
                let len = if old(self).buffer_size <= old(self).end - old(self).start + 1 {
                    old(self).buffer_size as int
                } else {
                    old(self).end - old(self).start + 1
                };
                &&& r == Some((old(self).start, (old(self).start + len - 1) as u64))
                &&& final(self).start == old(self).start + len
            },
    {
        if self.start > self.end {
            None
        } else {
            let prev_start = self.start;
            let rest = self.end - self.start;
            let len: u64 = if self.buffer_size - 1 <= rest {
                self.buffer_size
            } else {
                rest + 1
            };
            self.start = self.start + len;
            Some((prev_start, self.start - 1))
        }
    }
}

/// Whether `r` splits the bytes `0` to `length - 1` into consecutive chunks
/// of `chunk` bytes, the last one possibly shorter.
pub open spec fn is_chunking(r: Seq<(u64, u64)>, length: nat, chunk: nat) -> bool {
    &&& length == 0 ==> r.len() == 0
    &&& length > 0 ==> {
        &&& r.len() > 0
        &&& r[0].0 == 0
        &&& r[r.len() - 1].1 == length - 1
        &&& forall|i: int| 0 <= i < r.len() ==> (#[trigger] r[i]).0 <= r[i].1
        &&& forall|i: int| 0 <= i < r.len() - 1 ==> (#[trigger] r[i]).1 - r[i].0 + 1 == chunk
        &&& r[r.len() - 1].1 - r[r.len() - 1].0 + 1 <= chunk
        &&& forall|i: int| 0 <= i < r.len() - 1 ==> (#[trigger] r[i + 1]).0 == r[i].1 + 1
    }
}

/// The byte ranges of a download of `length` bytes in chunks of `chunk`.
pub fn download_ranges(length: u64, chunk: u64) -> (r: Vec<(u64, u64)>)
    requires
        chunk > 0,
    ensures
        is_chunking(r@, length as nat, chunk as nat),
{
    let mut out: Vec<(u64, u64)> = Vec::new();
    if length == 0 {
        return out;
    }
    let mut it = PartialRangeIter { start: 0, end: length - 1, buffer_size: chunk };
    while it.start <= it.end
        invariant
            it.end == length - 1,
            it.buffer_size == chunk,
            chunk > 0,
            length > 0,
            it.start <= length,
            out.len() == 0 ==> it.start == 0,
            out.len() > 0 ==> {
                &&& out@[0].0 == 0
                &&& out@[out.len() - 1].1 + 1 == it.start
                &&& out@[out.len() - 1].1 - out@[out.len() - 1].0 + 1 <= chunk
                &&& out@[out.len() - 1].1 - out@[out.len() - 1].0 + 1 != chunk ==> it.start == length
            },
            forall|i: int| 0 <= i < out.len() ==> (#[trigger] out@[i]).0 <= out@[i].1,
            forall|i: int| 0 <= i < out.len() - 1 ==> (#[trigger] out@[i]).1 - out@[i].0 + 1 == chunk,
            forall|i: int| 0 <= i < out.len() - 1 ==> (#[trigger] out@[i + 1]).0 == out@[i].1 + 1,
        decreases length - it.start,
    {
        let ghost before = out@;
        match it.next_range() {
            Some(range) => {
                out.push(range);
                proof {
                    if before.len() > 0 {
                        let l = before.len() - 1;
                        assert(out@[l] == before[l]);
                    }
                    assert forall|i: int| 0 <= i < out.len() - 1 implies (#[trigger] out@[i + 1]).0 == out@[i].1 + 1 by {
                        if i < before.len() - 1 {
                            assert(out@[i + 1] == before[i + 1]);
                        }
                    }
                }
            },
            None => {},
        }
    }
    out
}

/// Whether a ranged GET answer is accepted: 200 or 206.
pub fn accepts_range_status(status: u16) -> (r: bool)
    ensures
        r == (status == 200 || status == 206),
{
    status == 200 || status == 206
}

/// Why a download failed.
#[derive(Debug, Clone, Copy, PartialEq, Eq, Structural)]
pub enum DownloadFailure {
    /// The repository refused the credentials (401 or 403)
    NotAuthorized,
    /// The artifact is not on the repository (404)
    FileNotFound,
    /// Another status than 200 answered the size probe
    UnexpectedStatus(u16),
    /// The size probe gave no content length
    MissingLength,
    /// A range request was answered with neither 200 nor 206
    RangeRejected(u16),
}

/// What the status of the size probe means: nothing wrong for 200, else the
/// failure it stands for.
pub fn probe_failure(status: u16) -> (r: Option<DownloadFailure>)
    ensures
        status == 200 ==> r is None,
        (status == 401 || status == 403) ==> r == Some(DownloadFailure::NotAuthorized),
        status == 404 ==> r == Some(DownloadFailure::FileNotFound),
        (status != 200 && status != 401 && status != 403 && status != 404) ==> r == Some(
            DownloadFailure::UnexpectedStatus(status),
        ),
{
    if status == 200 {
        None
    } else if status == 401 || status == 403 {
        Some(DownloadFailure::NotAuthorized)
    } else if status == 404 {
        Some(DownloadFailure::FileNotFound)
    } else {
        Some(DownloadFailure::UnexpectedStatus(status))
    }
}

} // verus!
