//! Rules around single transfers: metadata, changed sources and byte limits.

use vstd::prelude::*;

use crate::model::RemoteEntry;
use crate::net::error::{IoFailure, IoKind, NetError};
use crate::net::partial::FileFacts;
use crate::numerals::{decimal, to_decimal};
use crate::text::{plus, same_text, string_of};

verus! {

/// Optional metadata copied alongside file contents. Ownership, groups, ACLs, extended attributes
/// and special permission bits are deliberately excluded: reproducing those across trust
/// boundaries can grant privileges or disclose data unexpectedly.
#[derive(Debug, Clone, Copy, PartialEq, Eq, Structural)]
pub struct MetadataPreservation {
    pub timestamps: bool,
    pub permissions: bool,
}

impl Default for MetadataPreservation {
    fn default() -> (r: Self)
        ensures
            r == (MetadataPreservation { timestamps: false, permissions: false }),
    {
        MetadataPreservation { timestamps: false, permissions: false }
    }
}

/// What a transfer carries over. Times are nanoseconds since the Unix epoch.
#[derive(Debug, Clone, Copy, PartialEq, Eq, Structural)]
pub struct TransferMetadata {
    pub modified: Option<i128>,
    pub permissions: Option<u32>,
}

/// The read, write and execute bits.
pub open spec fn rwx_bits(mode: u32) -> u32 {
    mode & 0o777
}

/// What the policy lets through of a local file's metadata.
pub fn local_transfer_metadata(
    modified: Option<i128>,
    mode: u32,
    policy: MetadataPreservation,
) -> (r: TransferMetadata)
    ensures
        r.modified == (if policy.timestamps {
            modified
        } else {
            None
        }),
        r.permissions == (if policy.permissions {
            Some(rwx_bits(mode))
        } else {
            None
        }),
{
    TransferMetadata {
        modified: if policy.timestamps {
            modified
        } else {
            None
        },
        permissions: if policy.permissions {
            Some(mode & 0o777)
        } else {
            None
        },
    }
}

/// What to set on a downloaded file. Nothing at all needs no open file; else the open file must be
/// a regular one with a single name. Only read, write and execute bits are ever set.
pub fn metadata_to_apply(metadata: TransferMetadata, opened: Option<FileFacts>) -> (r: Result<
    TransferMetadata,
    IoFailure,
>)
    requires
        metadata.modified is Some || metadata.permissions is Some ==> opened is Some,
    ensures
        metadata.modified is None && metadata.permissions is None ==> (r matches Ok(m) && m
            == metadata),
        metadata.modified is Some || metadata.permissions is Some ==> (r is Ok <==> opened->0.is_file
            && opened->0.links == 1),
        r matches Ok(m) ==> m.modified == metadata.modified && m.permissions == (
        match metadata.permissions {
            Some(mode) => Some(rwx_bits(mode)),
            None => None,
        }),
        r matches Err(e) ==> e.kind == IoKind::InvalidData && e.detail@ == (
        if !opened->0.is_file {
            "download destination is no longer a regular file"@
        } else {
            "download destination gained an unexpected hard link"@
        }),
{
    if metadata.modified.is_none() && metadata.permissions.is_none() {
        return Ok(metadata);
    }
    if let Some(facts) = opened {
        if !facts.is_file {
            return Err(
                IoFailure::new(
                    IoKind::InvalidData,
                    "download destination is no longer a regular file",
                ),
            );
        }
        if facts.links != 1 {
            return Err(
                IoFailure::new(
                    IoKind::InvalidData,
                    "download destination gained an unexpected hard link",
                ),
            );
        }
    }
    Ok(
        TransferMetadata {
            modified: metadata.modified,
            permissions: match metadata.permissions {
                Some(mode) => Some(mode & 0o777),
                None => None,
            },
        },
    )
}

/// No special permission bit ever crosses from one side to the other.
pub proof fn special_bits_are_stripped(mode: u32)
    ensures
        rwx_bits(mode) <= 0o777,
        rwx_bits(rwx_bits(mode)) == rwx_bits(mode),
{
    assert(mode & 0o777 <= 0o777) by (bit_vector);
    assert((mode & 0o777) & 0o777 == mode & 0o777) by (bit_vector);
}

#[derive(Debug, Clone, Copy, PartialEq, Eq, Structural)]
pub struct UploadResume {
    pub token: u64,
    pub expected_total: u64,
    pub expected_modified_unix_nanos: u64,
}

/// A time before the epoch, or too late for the field, counts as unknown.
pub fn modified_unix_nanos(modified: Option<i128>) -> (r: Option<u64>)
    ensures
        r == (match modified {
            Some(n) => if 0 <= n <= u64::MAX {
                Some(n as u64)
            } else {
                None
            },
            None => None,
        }),
{
    match modified {
        Some(n) => if 0 <= n && n <= 0xffff_ffff_ffff_ffff {
            Some(n as u64)
        } else {
            None
        },
        None => None,
    }
}

/// The local source still has the size and the time that it was queued with.
pub fn validate_upload_source(len: u64, modified: Option<u64>, resume: UploadResume) -> (r: Result<
    (),
    NetError,
>)
    ensures
        r is Ok <==> len == resume.expected_total && modified == Some(
            resume.expected_modified_unix_nanos,
        ),
        r matches Err(e) ==> e == NetError::UploadSourceChanged,
{
    if len != resume.expected_total {
        return Err(NetError::UploadSourceChanged);
    }
    match modified {
        Some(n) => if n == resume.expected_modified_unix_nanos {
            Ok(())
        } else {
            Err(NetError::UploadSourceChanged)
        },
        None => Err(NetError::UploadSourceChanged),
    }
}

#[derive(Debug, PartialEq, Eq)]
pub struct RemoteFileMetadata {
    pub path: String,
    pub size: u64,
    pub mtime: Option<i64>,
}

#[derive(Debug, PartialEq, Eq)]
pub struct RemoteMetadata {
    pub is_dir: bool,
    pub size: u64,
    pub mtime: Option<i64>,
    pub permissions: Option<u32>,
    pub owner: Option<String>,
    pub group: Option<String>,
}

impl Default for RemoteMetadata {
    fn default() -> (r: Self)
        ensures
            r == (RemoteMetadata {
                is_dir: false,
                size: 0,
                mtime: None,
                permissions: None,
                owner: None,
                group: None,
            }),
    {
        RemoteMetadata {
            is_dir: false,
            size: 0,
            mtime: None,
            permissions: None,
            owner: None,
            group: None,
        }
    }
}

/// The stream has gone past its byte ceiling and must be cancelled.
pub fn exceeds_limit(done: u64, max_bytes: u64) -> (r: bool)
    ensures
        r == (done > max_bytes),
{
    done > max_bytes
}

/// The result of a download with a byte ceiling, given whether the ceiling was exceeded on the way.
pub fn download_file_limited(exceeded: bool, result: Result<u64, NetError>, max_bytes: u64) -> (r:
    Result<u64, NetError>)
    ensures
        !exceeded ==> r == result,
        exceeded ==> (r matches Err(e) && e matches NetError::Io(failure) && failure.kind
            == IoKind::InvalidData && failure.detail@ == "remote file exceeds the "@ + decimal(
            max_bytes as nat,
        ) + "-byte safety limit"@),
{
    if exceeded {
        let number: String = string_of(&to_decimal(max_bytes));
        let m: String = plus(
            plus("remote file exceeds the ".to_owned(), number.as_str()),
            "-byte safety limit",
        );
        Err(NetError::Io(IoFailure { kind: IoKind::InvalidData, detail: m }))
    } else {
        result
    }
}

/// Some entry has the name.
pub open spec fn holds_name(entries: Seq<RemoteEntry>, name: Seq<char>) -> bool {
    exists|i: int| 0 <= i < entries.len() && (#[trigger] entries[i]).name@ == name
}

/// Whether a listing holds a name. A failed listing is an error, never the answer "no".
pub fn remote_exists(listing: Result<Vec<RemoteEntry>, NetError>, name: &str) -> (r: Result<
    bool,
    NetError,
>)
    ensures
        listing matches Ok(entries) ==> (r matches Ok(found) && found == holds_name(
            entries@,
            name@,
        )),
        listing matches Err(e) ==> (r matches Err(f) && f == e),
{
    let entries: Vec<RemoteEntry> = match listing {
        Err(e) => {
            return Err(e);
        },
        Ok(v) => v,
    };
    let mut i: usize = 0;
    while i < entries.len()
        invariant
            i <= entries@.len(),
            listing matches Ok(v) && v == entries,
            forall|j: int| 0 <= j < i ==> (#[trigger] entries@[j]).name@ != name@,
        decreases entries@.len() - i,
    {
        if same_text(entries[i].name.as_str(), name) {
            assert(holds_name(entries@, name@));
            return Ok(true);
        }
        i += 1;
    }
    Ok(false)
}

} // verus!
