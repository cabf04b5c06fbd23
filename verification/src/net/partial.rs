//! Secure local staging files for resumable downloads.

use vstd::prelude::*;

use crate::net::error::{IoFailure, IoKind};
use crate::net::safe::{append_bytes, copy_bytes, part_views, PartView, PathPart, PathParts, PathView};
use crate::net::staging::random_token;
use crate::numerals::{hex_padded, to_hex};
use crate::text::string_of;
use vstd::utf8::encode_utf8;

verus! {

/// Stable for one persisted queued job, including across application restarts. The random token
/// makes the staging name unguessable; `expected_total` prevents a corrupt or foreign oversized
/// fragment from being used.
#[derive(Debug, Clone, Copy, PartialEq, Eq, Structural)]
pub struct DownloadResume {
    pub token: u64,
    pub expected_total: Option<u64>,
}

/// What a fragment's name adds to the name of its destination.
pub open spec fn fragment_suffix(token: u64) -> Seq<u8> {
    encode_utf8(".gmacftp-"@ + hex_padded(token as nat, 16) + ".part"@)
}

/// The name of the file that a path ends in; `download` for a path that ends in none.
pub open spec fn file_name_or_default(p: PathView) -> Seq<u8> {
    if p.parts.len() > 0 && p.parts.last() is Normal {
        p.parts.last()->Normal_0
    } else {
        encode_utf8("download"@)
    }
}

/// The fragment of a destination: a hidden file beside it whose name carries the token. Without a
/// directory to lie in, it lies in the current one.
pub open spec fn fragment_path(destination: PathView, token: u64) -> PathView {
    let name = PartView::Normal(
        encode_utf8("."@) + file_name_or_default(destination) + fragment_suffix(token),
    );
    if destination.parts.len() == 0 {
        PathView { absolute: false, parts: seq![PartView::Current, name] }
    } else {
        PathView {
            absolute: destination.absolute,
            parts: destination.parts.drop_last().push(name),
        }
    }
}

pub fn resumable_part_path(destination: &PathParts, token: u64) -> (r: PathParts)
    ensures
        r@ == fragment_path(destination@, token),
{
    let n: usize = destination.parts.len();
    let mut name: Vec<u8> = copy_bytes(".".as_bytes());
    let mut named: bool = false;
    if n > 0 {
        assert(destination@.parts[n - 1] == destination.parts@[n - 1]@);
        if let PathPart::Normal(last) = &destination.parts[n - 1] {
            append_bytes(&mut name, last);
            named = true;
        }
    }
    if !named {
        append_bytes(&mut name, "download".as_bytes());
    }
    let mut suffix: String = ".gmacftp-".to_owned();
    suffix.append(string_of(&to_hex(token as u128, 16)).as_str());
    suffix.append(".part");
    append_bytes(&mut name, suffix.as_str().as_bytes());
    let mut parts: Vec<PathPart> = Vec::new();
    if n == 0 {
        parts.push(PathPart::Current);
        parts.push(PathPart::Normal(name));
        assert(part_views(parts@) =~= fragment_path(destination@, token).parts);
        return PathParts { absolute: false, parts };
    }
    let ghost dest = destination@.parts;
    let mut i: usize = 0;
    while i < n - 1
        invariant
            n == destination.parts@.len(),
            i <= n - 1,
            dest == destination@.parts,
            part_views(parts@) == dest.take(i as int),
        decreases n - 1 - i,
    {
        let ghost before = parts@;
        let part: PathPart = match &destination.parts[i] {
            PathPart::Normal(b) => PathPart::Normal(copy_bytes(b)),
            PathPart::Parent => PathPart::Parent,
            PathPart::Current => PathPart::Current,
        };
        assert(part@ == dest[i as int]);
        parts.push(part);
        assert(part_views(parts@) =~= part_views(before).push(dest[i as int]));
        assert(dest.take(i + 1) =~= dest.take(i as int).push(dest[i as int]));
        i += 1;
    }
    let ghost before = parts@;
    parts.push(PathPart::Normal(name));
    assert(part_views(parts@) =~= part_views(before).push(parts@.last()@));
    assert(dest.take(n - 1) =~= dest.drop_last());
    PathParts { absolute: destination.absolute, parts }
}

/// The path of a fragment that is not resumed, under a name that cannot be guessed.
pub fn unique_part_path(destination: &PathParts) -> (r: PathParts)
    ensures
        exists|token: u64| r@ == #[trigger] fragment_path(destination@, token),
{
    let token: u64 = (random_token() % 0x1_0000_0000_0000_0000) as u64;
    resumable_part_path(destination, token)
}

/// What the filesystem says of a file.
#[derive(Debug, Clone, Copy, PartialEq, Eq, Structural)]
pub struct FileFacts {
    pub is_file: bool,
    pub is_symlink: bool,
    pub device: u64,
    pub inode: u64,
    pub links: u64,
    pub mode: u32,
    pub owner: u32,
    pub len: u64,
}

/// Nobody but the owner has any right to the file.
pub open spec fn private_mode(mode: u32) -> bool {
    mode & 0o77 == 0
}

/// An existing fragment may be appended to: it was a regular file before it was opened, the opened
/// file is the same one, has no second name and is private.
pub open spec fn fragment_refusal(before: FileFacts, opened: FileFacts) -> Option<Seq<char>> {
    if !before.is_file || before.is_symlink {
        Some("download fragment is not a regular file"@)
    } else if !opened.is_file {
        Some("download fragment changed type while opening"@)
    } else if before.device != opened.device || before.inode != opened.inode || opened.links != 1
        || !private_mode(opened.mode) {
        Some("download fragment failed ownership/link safety checks"@)
    } else {
        None
    }
}

/// Decide on an existing fragment from what was seen before and after opening it. Nothing is opened
/// (`opened` is `None`) unless the first look allows it.
pub fn check_fragment(before: &FileFacts, opened: Option<&FileFacts>) -> (r: Result<
    bool,
    IoFailure,
>)
    ensures
        opened matches Some(o) ==> (r is Ok <==> fragment_refusal(*before, *o) is None) && (r
            matches Err(e) ==> e.kind == IoKind::InvalidData && fragment_refusal(*before, *o)
            == Some(e.detail@)) && (r matches Ok(done) ==> done),
        opened is None ==> (r is Ok <==> before.is_file && !before.is_symlink) && (r matches Err(e)
            ==> e.kind == IoKind::InvalidData && e.detail@
            == "download fragment is not a regular file"@) && (r matches Ok(done) ==> !done),
{
    if !before.is_file || before.is_symlink {
        return Err(IoFailure::new(IoKind::InvalidData, "download fragment is not a regular file"));
    }
    match opened {
        None => Ok(false),
        Some(opened) => {
            if !opened.is_file {
                return Err(
                    IoFailure::new(
                        IoKind::InvalidData,
                        "download fragment changed type while opening",
                    ),
                );
            }
            if before.device != opened.device || before.inode != opened.inode || opened.links != 1
                || opened.mode & 0o77 != 0 {
                return Err(
                    IoFailure::new(
                        IoKind::InvalidData,
                        "download fragment failed ownership/link safety checks",
                    ),
                );
            }
            Ok(true)
        },
    }
}

/// How many unguessable names are tried for a fragment that is not resumed.
pub const UNIQUE_ATTEMPTS: u32 = 16;

/// What came of creating a file that must not exist yet.
#[derive(Debug, PartialEq, Eq)]
pub enum CreateOutcome {
    Created,
    AlreadyExists,
    Failed(IoFailure),
}

/// What to do next to get a fragment.
#[derive(Debug, PartialEq, Eq)]
pub enum PartStep {
    /// Create the file exclusively; for a resumed download under the token's name, else under a
    /// fresh random one. `attempt` counts from zero.
    Create { attempt: u32 },
    /// Open the existing fragment of the token, after the safety checks.
    OpenExisting,
    /// Write from `offset` on.
    Ready { offset: u64, keep_on_error: bool },
    Fail(IoFailure),
}

/// The answer to the outcome of the attempt numbered `attempt` to create the fragment.
pub fn after_create(resume: Option<DownloadResume>, attempt: u32, outcome: CreateOutcome) -> (r:
    PartStep)
    requires
        attempt < UNIQUE_ATTEMPTS,
    ensures
        outcome is Created ==> r == (PartStep::Ready { offset: 0, keep_on_error: resume is Some }),
        outcome matches CreateOutcome::Failed(e) ==> r == PartStep::Fail(e),
        outcome is AlreadyExists && resume is Some ==> r == PartStep::OpenExisting,
        outcome is AlreadyExists && resume is None && attempt + 1 < UNIQUE_ATTEMPTS ==> r == (
        PartStep::Create { attempt: (attempt + 1) as u32 }),
        outcome is AlreadyExists && resume is None && attempt + 1 == UNIQUE_ATTEMPTS ==> (r
            matches PartStep::Fail(e) && e.kind == IoKind::AlreadyExists && e.detail@
            == "could not allocate a unique download temp file"@),
{
    match outcome {
        CreateOutcome::Created => PartStep::Ready { offset: 0, keep_on_error: resume.is_some() },
        CreateOutcome::Failed(e) => PartStep::Fail(e),
        CreateOutcome::AlreadyExists => {
            if resume.is_some() {
                PartStep::OpenExisting
            } else if attempt + 1 < UNIQUE_ATTEMPTS {
                PartStep::Create { attempt: attempt + 1 }
            } else {
                PartStep::Fail(
                    IoFailure::new(
                        IoKind::AlreadyExists,
                        "could not allocate a unique download temp file",
                    ),
                )
            }
        },
    }
}

/// The answer to an existing fragment of the given length: it is continued, unless it already
/// exceeds the expected file.
pub fn after_open_existing(resume: DownloadResume, len: u64) -> (r: PartStep)
    ensures
        resume.expected_total is None || len <= resume.expected_total->0 ==> r == (
        PartStep::Ready { offset: len, keep_on_error: true }),
        resume.expected_total is Some && len > resume.expected_total->0 ==> (r matches
            PartStep::Fail(e) && e.kind == IoKind::InvalidData && e.detail@
            == "download fragment is larger than the expected remote file"@),
{
    if let Some(total) = resume.expected_total {
        if len > total {
            return PartStep::Fail(
                IoFailure::new(
                    IoKind::InvalidData,
                    "download fragment is larger than the expected remote file",
                ),
            );
        }
    }
    PartStep::Ready { offset: len, keep_on_error: true }
}

/// Only a job with a token has a fragment that can be discarded.
pub fn discards_fragment(token: u64) -> (r: bool)
    ensures
        r == (token != 0),
{
    token != 0
}

} // verus!
