//! The digest of a remote file while it streams in.

use vstd::prelude::*;

use crate::digest::{absorbed, feed_digest, finish_digest, sha256, start_digest, RunningDigest};
use crate::net::error::NetError;
use crate::net::safe::{copy_bytes, has_low_byte, validate_ftp_path};
use crate::net::staging::refused;

verus! {

/// The digest of a remote file, of which some bytes have arrived.
pub struct RemoteDigest {
    hasher: RunningDigest,
}

impl RemoteDigest {
    /// The bytes that have arrived so far.
    pub closed spec fn received(&self) -> Seq<u8> {
        absorbed(self.hasher)
    }

    pub fn new() -> (r: Self)
        ensures
            r.received() == Seq::<u8>::empty(),
    {
        RemoteDigest { hasher: start_digest() }
    }

    pub fn receive(&mut self, bytes: &[u8])
        ensures
            final(self).received() == old(self).received() + bytes@,
    {
        feed_digest(&mut self.hasher, bytes);
    }

    /// The stream has ended. A failure while reading comes before one while closing the stream, and
    /// either leaves no digest.
    pub fn finish(self, read: Result<(), NetError>, close: Result<(), NetError>) -> (r: Result<
        Vec<u8>,
        NetError,
    >)
        ensures
            read matches Err(e) ==> (r matches Err(f) && f == e),
            read is Ok ==> (close matches Err(e) ==> (r matches Err(f) && f == e)),
            read is Ok && close is Ok ==> (r matches Ok(hash) && hash@ == sha256(self.received())),
    {
        match read {
            Err(e) => Err(e),
            Ok(()) => match close {
                Err(e) => Err(e),
                Ok(()) => Ok(finish_digest(self.hasher)),
            },
        }
    }
}

/// What to do about several remote files of which some have been hashed.
#[derive(Debug, PartialEq, Eq)]
pub enum HashStep {
    /// Hash this file next.
    Hash(String),
    /// The path cannot be sent to the server; no result is given.
    Failed(NetError),
    /// Every file with its digest.
    Finished(Vec<(String, Vec<u8>)>),
}

/// Files are hashed one after the other. The first path that cannot be sent to the server ends it.
pub fn hash_files(paths: &Vec<String>, digests: Vec<Vec<u8>>) -> (r: HashStep)
    requires
        digests@.len() <= paths@.len(),
    ensures
        ({
            let n = digests@.len() as int;
            if n < paths@.len() {
                if has_low_byte(paths@[n]@) {
                    r matches HashStep::Failed(e) && refused(
                        e,
                        "remote path contains a control character (CRLF/NUL injection guard)"@,
                    )
                } else {
                    r matches HashStep::Hash(path) && path == paths@[n]
                }
            } else {
                r matches HashStep::Finished(hashed) && hashed@.len() == n && forall|i: int|
                    0 <= i < n ==> (#[trigger] hashed@[i]).0 == paths@[i] && hashed@[i].1@
                        == digests@[i]@
            }
        }),
{
    let n: usize = digests.len();
    if n < paths.len() {
        return match validate_ftp_path(paths[n].as_str()) {
            Err(e) => HashStep::Failed(e),
            Ok(()) => HashStep::Hash(paths[n].clone()),
        };
    }
    let mut hashed: Vec<(String, Vec<u8>)> = Vec::new();
    let mut i: usize = 0;
    while i < n
        invariant
            i <= n,
            n == digests@.len(),
            n == paths@.len(),
            hashed@.len() == i,
            forall|j: int|
                0 <= j < i ==> (#[trigger] hashed@[j]).0 == paths@[j] && hashed@[j].1@
                    == digests@[j]@,
        decreases n - i,
    {
        hashed.push((paths[i].clone(), copy_bytes(digests[i].as_slice())));
        i += 1;
    }
    HashStep::Finished(hashed)
}

} // verus!
