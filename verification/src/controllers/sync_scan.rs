//! Scanning the two sides of a folder synchronization.

use vstd::prelude::*;
use vstd::slice::slice_subrange;

use crate::folder_sync::{SyncComparison, SyncFileMetadata, SyncMode, SyncOptions};
use crate::model::TransferDirection;
use crate::net::safe::{sanitize_local_rel, sanitized};
use crate::net::transfer_rules::RemoteFileMetadata;
use crate::numerals::{parse_i64, parse_unsigned, signed_value, unsigned_value};
use crate::ordered_map::OrderedMap;
use crate::pieces::{
    drop_end_while, drop_while, has_prefix, only, starts_with, trim, trim_end_char, trim_start_char,
    trimmed,
};
use crate::text::{chars_of, plus, same_text, string_of};

verus! {

pub const MAX_TOLERANCE_SECONDS: u64 = 86_400;

pub const MAX_CLOCK_OFFSET_SECONDS: i64 = 86_400;

/// The comparison that a word of the form stands for.
pub open spec fn comparison_named(word: Seq<char>) -> Option<SyncComparison> {
    if word == "size_only"@ {
        Some(SyncComparison::SizeOnly)
    } else if word == "checksum"@ {
        Some(SyncComparison::Checksum)
    } else if word == "size_mtime"@ {
        Some(SyncComparison::SizeAndModificationTime)
    } else {
        None
    }
}

pub open spec fn mode_named(word: Seq<char>) -> Option<SyncMode> {
    if word == "one_way"@ {
        Some(SyncMode::OneWay)
    } else if word == "mirror"@ {
        Some(SyncMode::Mirror)
    } else {
        None
    }
}

/// The options that a form stands for. The clock offset of the server is taken off the times of the
/// side on which the server is.
pub open spec fn sync_options(
    direction: TransferDirection,
    comparison: Seq<char>,
    tolerance: Seq<char>,
    server_clock_offset: Seq<char>,
    mode: Seq<char>,
) -> Result<SyncOptions, Seq<char>> {
    let seconds = unsigned_value(trimmed(tolerance), u64::MAX as nat);
    let offset = signed_value(trimmed(server_clock_offset));
    if comparison_named(comparison) is None {
        Err("unknown folder-sync comparison method"@)
    } else if seconds is None {
        Err("timestamp tolerance must be a whole number of seconds"@)
    } else if seconds->0 > MAX_TOLERANCE_SECONDS {
        Err("timestamp tolerance cannot exceed 86400 seconds"@)
    } else if offset is None {
        Err("server clock offset must be a whole number of seconds"@)
    } else if offset->0 > MAX_CLOCK_OFFSET_SECONDS || offset->0 < -MAX_CLOCK_OFFSET_SECONDS {
        Err("server clock offset must stay within ±86400 seconds"@)
    } else if mode_named(mode) is None {
        Err("unknown folder-sync mode"@)
    } else {
        Ok(
            SyncOptions {
                mode: mode_named(mode)->0,
                comparison: comparison_named(comparison)->0,
                mtime_tolerance_seconds: seconds->0 as u64,
                source_time_adjustment_seconds: if direction == TransferDirection::Download {
                    (-offset->0) as i64
                } else {
                    0
                },
                target_time_adjustment_seconds: if direction == TransferDirection::Upload {
                    (-offset->0) as i64
                } else {
                    0
                },
            },
        )
    }
}

pub fn parse_folder_sync_options(
    direction: TransferDirection,
    comparison: &str,
    tolerance: &str,
    server_clock_offset: &str,
    mode: &str,
) -> (r: Result<SyncOptions, String>)
    ensures
        ({
            let options = sync_options(
                direction,
                comparison@,
                tolerance@,
                server_clock_offset@,
                mode@,
            );
            &&& r matches Ok(o) ==> options == Ok::<_, Seq<char>>(o)
            &&& r matches Err(e) ==> options == Err::<SyncOptions, _>(e@)
        }),
{
    let chosen: SyncComparison = if same_text(comparison, "size_only") {
        SyncComparison::SizeOnly
    } else if same_text(comparison, "checksum") {
        SyncComparison::Checksum
    } else if same_text(comparison, "size_mtime") {
        SyncComparison::SizeAndModificationTime
    } else {
        return Err("unknown folder-sync comparison method".to_owned());
    };
    let tolerance_chars: Vec<char> = chars_of(tolerance);
    let seconds: u64 = match parse_unsigned(trim(&tolerance_chars), 0xffff_ffff_ffff_ffff) {
        Some(n) => n,
        None => {
            return Err("timestamp tolerance must be a whole number of seconds".to_owned());
        },
    };
    if seconds > MAX_TOLERANCE_SECONDS {
        return Err("timestamp tolerance cannot exceed 86400 seconds".to_owned());
    }
    let offset_chars: Vec<char> = chars_of(server_clock_offset);
    let offset: i64 = match parse_i64(trim(&offset_chars)) {
        Some(n) => n,
        None => {
            return Err("server clock offset must be a whole number of seconds".to_owned());
        },
    };
    if offset > MAX_CLOCK_OFFSET_SECONDS || offset < -MAX_CLOCK_OFFSET_SECONDS {
        return Err("server clock offset must stay within ±86400 seconds".to_owned());
    }
    let chosen_mode: SyncMode = if same_text(mode, "one_way") {
        SyncMode::OneWay
    } else if same_text(mode, "mirror") {
        SyncMode::Mirror
    } else {
        return Err("unknown folder-sync mode".to_owned());
    };
    let (source, target): (i64, i64) = match direction {
        TransferDirection::Upload => (0, -offset),
        TransferDirection::Download => (-offset, 0),
    };
    Ok(
        SyncOptions {
            mode: chosen_mode,
            comparison: chosen,
            mtime_tolerance_seconds: seconds,
            source_time_adjustment_seconds: source,
            target_time_adjustment_seconds: target,
        },
    )
}

/// The clock offset of the server is applied to exactly one side, the one on which the server is.
pub proof fn clock_offset_is_applied_to_the_server(
    direction: TransferDirection,
    comparison: Seq<char>,
    tolerance: Seq<char>,
    offset: Seq<char>,
    mode: Seq<char>,
    options: SyncOptions,
)
    requires
        sync_options(direction, comparison, tolerance, offset, mode) == Ok::<_, Seq<char>>(options),
    ensures
        options.mtime_tolerance_seconds <= MAX_TOLERANCE_SECONDS,
        -MAX_CLOCK_OFFSET_SECONDS <= options.source_time_adjustment_seconds
            <= MAX_CLOCK_OFFSET_SECONDS,
        -MAX_CLOCK_OFFSET_SECONDS <= options.target_time_adjustment_seconds
            <= MAX_CLOCK_OFFSET_SECONDS,
        direction == TransferDirection::Upload ==> options.source_time_adjustment_seconds == 0,
        direction == TransferDirection::Download ==> options.target_time_adjustment_seconds == 0,
        signed_value(trimmed(offset)) == Some(
            -(options.source_time_adjustment_seconds + options.target_time_adjustment_seconds),
        ),
{
}

/// The path of a remote file below the synchronized folder.
pub open spec fn relative_to(root: Seq<char>, full_path: Seq<char>) -> Result<Seq<char>, Seq<char>> {
    let base = drop_end_while(trimmed(root), only('/'));
    let whole = base.len() == 0 || base == "."@;
    let prefix = base + "/"@;
    if !whole && !has_prefix(full_path, prefix) {
        Err("server returned a path outside the synchronized folder: "@ + full_path)
    } else {
        let relative = if whole {
            drop_while(full_path, only('/'))
        } else {
            full_path.skip(prefix.len() as int)
        };
        if relative.len() == 0 {
            Err("server returned an empty file path"@)
        } else {
            match sanitized(relative) {
                Ok(clean) => Ok(clean),
                Err(text) => Err("unsafe path: "@ + text),
            }
        }
    }
}

pub fn remote_sync_relative(root: &str, full_path: &str) -> (r: Result<String, String>)
    ensures
        r matches Ok(relative) ==> relative_to(root@, full_path@) == Ok::<_, Seq<char>>(relative@),
        r matches Err(e) ==> relative_to(root@, full_path@) == Err::<Seq<char>, _>(e@),
{
    let root_chars: Vec<char> = chars_of(root);
    let base: &[char] = trim_end_char(trim(&root_chars), '/');
    let path: Vec<char> = chars_of(full_path);
    let whole: bool = base.len() == 0 || crate::text::is_word(base, ".");
    let relative: &[char] = if whole {
        trim_start_char(&path, '/')
    } else {
        let mut prefix: Vec<char> = crate::pieces::copy_chars(base);
        prefix.push('/');
        proof {
            reveal_strlit("/");
            assert(prefix@ =~= base@ + "/"@);
        }
        if !starts_with(&path, &prefix) {
            return Err(
                plus(
                    "server returned a path outside the synchronized folder: ".to_owned(),
                    full_path,
                ),
            );
        }
        slice_subrange(path.as_slice(), prefix.len(), path.len())
    };
    if relative.len() == 0 {
        return Err("server returned an empty file path".to_owned());
    }
    let text: String = string_of(relative);
    assert(text@ =~= (if whole {
        drop_while(full_path@, only('/'))
    } else {
        full_path@.skip((base@ + "/"@).len() as int)
    }));
    match sanitize_local_rel(text.as_str()) {
        Ok(clean) => Ok(clean),
        Err(e) => Err(e.message()),
    }
}

/// The files of one side: what is known of each, and where it is.
pub struct Inventory {
    pub metadata: OrderedMap<SyncFileMetadata>,
    pub paths: OrderedMap<String>,
}

impl Inventory {
    /// Every file has both, and the file at each path is known once.
    pub open spec fn wf(&self) -> bool {
        &&& self.metadata.wf()
        &&& self.paths.wf()
        &&& forall|k: Seq<char>|
            #[trigger] self.metadata.spec_get(k) is Some <==> self.paths.spec_get(k) is Some
    }

    /// What the inventory says of a path.
    pub open spec fn knows(&self, relative: Seq<char>, path: Seq<char>, metadata: SyncFileMetadata) -> bool {
        &&& self.metadata.spec_get(relative) == Some(metadata)
        &&& self.paths.spec_get(relative) matches Some(p)
        &&& p@ == path
    }

    pub fn new() -> (r: Self)
        ensures
            r.wf(),
            r.metadata.seq().len() == 0,
            forall|k: Seq<char>| #[trigger] r.metadata.spec_get(k) is None,
    {
        Inventory { metadata: OrderedMap::new(), paths: OrderedMap::new() }
    }

    /// Add a file, unless one is known at its path already.
    pub fn insert_new(&mut self, relative: &str, path: &str, metadata: SyncFileMetadata) -> (r: bool)
        requires
            old(self).wf(),
        ensures
            final(self).wf(),
            r == (old(self).metadata.spec_get(relative@) is None),
            r ==> final(self).knows(relative@, path@, metadata) && final(self).metadata.seq().len()
                == old(self).metadata.seq().len() + 1,
            r ==> forall|k: Seq<char>|
                k != relative@ ==> #[trigger] final(self).metadata.spec_get(k) == old(
                    self,
                ).metadata.spec_get(k) && final(self).paths.spec_get(k) == old(
                    self,
                ).paths.spec_get(k),
            !r ==> *final(self) == *old(self),
    {
        if self.metadata.contains_key(relative) {
            return false;
        }
        let _ = self.metadata.insert(relative.to_owned(), metadata);
        let _ = self.paths.insert(relative.to_owned(), path.to_owned());
        true
    }
}

/// What the filesystem says of a local file right after the scan.
#[derive(Debug, Clone, Copy, PartialEq, Eq, Structural)]
pub struct LocalFacts {
    /// A regular file, and no link to one.
    pub regular: bool,
    pub bytes: u64,
    pub modified: Option<i64>,
}

/// A local file that a scan has found.
pub struct LocalScan {
    pub path: String,
    pub relative: String,
    pub bytes: u64,
    pub facts: Result<LocalFacts, String>,
}

/// An earlier file has the same relative path.
pub open spec fn local_duplicate(files: Seq<LocalScan>, i: int) -> bool {
    exists|j: int| 0 <= j < i && (#[trigger] files[j]).relative@ == files[i].relative@
}

/// Why the scan cannot be trusted at this file.
pub open spec fn local_problem(files: Seq<LocalScan>, i: int) -> Option<Seq<char>> {
    let relative = files[i].relative@;
    match files[i].facts {
        Err(e) => Some("local file changed during sync scan: "@ + relative + ": "@ + e@),
        Ok(facts) => if !facts.regular || facts.bytes != files[i].bytes {
            Some("local file changed during sync scan: "@ + relative)
        } else if local_duplicate(files, i) {
            Some("duplicate local path in sync scan: "@ + relative)
        } else {
            None
        },
    }
}

pub open spec fn local_metadata(file: LocalScan) -> SyncFileMetadata {
    SyncFileMetadata { bytes: file.bytes, modified: file.facts->Ok_0.modified, sha256: None }
}

/// The first file at which the scan cannot be trusted gives the reason.
pub open spec fn first_local_problem(files: Seq<LocalScan>, text: Seq<char>) -> bool {
    exists|i: int|
        0 <= i < files.len() && #[trigger] local_problem(files, i) == Some(text) && forall|j: int|
            0 <= j < i ==> #[trigger] local_problem(files, j) is None
}

/// The inventory of the local side.
#[verifier::loop_isolation(false)]
pub fn local_inventory(files: &Vec<LocalScan>) -> (r: Result<Inventory, String>)
    ensures
        r is Ok <==> forall|i: int|
            0 <= i < files@.len() ==> #[trigger] local_problem(files@, i) is None,
        r matches Ok(inventory) ==> {
            &&& inventory.wf()
            &&& inventory.metadata.seq().len() == files@.len()
            &&& forall|i: int|
                0 <= i < files@.len() ==> inventory.knows(
                    (#[trigger] files@[i]).relative@,
                    files@[i].path@,
                    local_metadata(files@[i]),
                )
        },
        r matches Err(e) ==> first_local_problem(files@, e@),
{
    let mut inventory: Inventory = Inventory::new();
    let mut i: usize = 0;
    while i < files.len()
        invariant
            i <= files@.len(),
            inventory.wf(),
            inventory.metadata.seq().len() == i,
            forall|j: int| 0 <= j < i ==> #[trigger] local_problem(files@, j) is None,
            forall|j: int|
                0 <= j < i ==> inventory.knows(
                    (#[trigger] files@[j]).relative@,
                    files@[j].path@,
                    local_metadata(files@[j]),
                ),
            forall|k: Seq<char>|
                #[trigger] inventory.metadata.spec_get(k) is Some ==> exists|j: int|
                    0 <= j < i && (#[trigger] files@[j]).relative@ == k,
        decreases files@.len() - i,
    {
        let file: &LocalScan = &files[i];
        let relative: &str = file.relative.as_str();
        let facts: LocalFacts = match &file.facts {
            Err(e) => {
                let text: String = plus(
                    plus(
                        plus("local file changed during sync scan: ".to_owned(), relative),
                        ": ",
                    ),
                    e.as_str(),
                );
                assert(local_problem(files@, i as int) == Some(text@));
                return Err(text);
            },
            Ok(facts) => *facts,
        };
        if !facts.regular || facts.bytes != file.bytes {
            let text: String = plus("local file changed during sync scan: ".to_owned(), relative);
            assert(local_problem(files@, i as int) == Some(text@));
            return Err(text);
        }
        let metadata = SyncFileMetadata {
            bytes: file.bytes,
            modified: facts.modified,
            sha256: None,
        };
        let ghost before = inventory;
        if !inventory.insert_new(relative, file.path.as_str(), metadata) {
            let text: String = plus("duplicate local path in sync scan: ".to_owned(), relative);
            assert(local_problem(files@, i as int) == Some(text@));
            return Err(text);
        }
        proof {
            assert(!local_duplicate(files@, i as int)) by {
                if local_duplicate(files@, i as int) {
                    let j = choose|j: int|
                        0 <= j < i && (#[trigger] files@[j]).relative@ == files@[i as int].relative@;
                    assert(before.knows(
                        files@[j].relative@,
                        files@[j].path@,
                        local_metadata(files@[j]),
                    ));
                }
            }
            assert forall|j: int| 0 <= j < i + 1 implies inventory.knows(
                (#[trigger] files@[j]).relative@,
                files@[j].path@,
                local_metadata(files@[j]),
            ) by {
                if j < i {
                    assert(before.knows(
                        files@[j].relative@,
                        files@[j].path@,
                        local_metadata(files@[j]),
                    ));
                    assert(files@[j].relative@ != relative@);
                }
            }
            assert forall|k: Seq<char>| #[trigger]
                inventory.metadata.spec_get(k) is Some implies exists|j: int|
                0 <= j < i + 1 && (#[trigger] files@[j]).relative@ == k by {
                if k == relative@ {
                    assert(files@[i as int].relative@ == k);
                } else {
                    assert(before.metadata.spec_get(k) is Some);
                }
            }
        }
        i += 1;
    }
    Ok(inventory)
}

/// The relative path of a remote file, where it has one.
pub open spec fn remote_relative(root: Seq<char>, file: RemoteFileMetadata) -> Option<Seq<char>> {
    match relative_to(root, file.path@) {
        Ok(relative) => Some(relative),
        Err(_) => None,
    }
}

pub open spec fn remote_duplicate(root: Seq<char>, files: Seq<RemoteFileMetadata>, i: int) -> bool {
    exists|j: int|
        0 <= j < i && remote_relative(root, #[trigger] files[j]) == remote_relative(root, files[i])
}

/// Why the listing of the server cannot be trusted at this file.
pub open spec fn remote_problem(
    root: Seq<char>,
    files: Seq<RemoteFileMetadata>,
    i: int,
    duplicate: Seq<char>,
) -> Option<Seq<char>> {
    match relative_to(root, files[i].path@) {
        Err(text) => Some(text),
        Ok(relative) => if remote_duplicate(root, files, i) {
            Some(duplicate + relative)
        } else {
            None
        },
    }
}

pub open spec fn remote_metadata(file: RemoteFileMetadata) -> SyncFileMetadata {
    SyncFileMetadata { bytes: file.size, modified: file.mtime, sha256: None }
}

pub open spec fn first_remote_problem(
    root: Seq<char>,
    files: Seq<RemoteFileMetadata>,
    duplicate: Seq<char>,
    text: Seq<char>,
) -> bool {
    exists|i: int|
        0 <= i < files.len() && #[trigger] remote_problem(root, files, i, duplicate) == Some(text)
            && forall|j: int|
            0 <= j < i ==> #[trigger] remote_problem(root, files, j, duplicate) is None
}

/// The inventory of the remote side. `duplicate` introduces the message about a path that the server
/// has listed twice.
#[verifier::loop_isolation(false)]
pub fn remote_inventory(root: &str, files: &Vec<RemoteFileMetadata>, duplicate: &str) -> (r: Result<
    Inventory,
    String,
>)
    ensures
        r is Ok <==> forall|i: int|
            0 <= i < files@.len() ==> #[trigger] remote_problem(root@, files@, i, duplicate@) is None,
        r matches Ok(inventory) ==> {
            &&& inventory.wf()
            &&& inventory.metadata.seq().len() == files@.len()
            &&& forall|i: int|
                0 <= i < files@.len() ==> inventory.knows(
                    remote_relative(root@, #[trigger] files@[i])->0,
                    files@[i].path@,
                    remote_metadata(files@[i]),
                )
        },
        r matches Err(e) ==> first_remote_problem(root@, files@, duplicate@, e@),
{
    let mut inventory: Inventory = Inventory::new();
    let mut i: usize = 0;
    while i < files.len()
        invariant
            i <= files@.len(),
            inventory.wf(),
            inventory.metadata.seq().len() == i,
            forall|j: int|
                0 <= j < i ==> #[trigger] remote_problem(root@, files@, j, duplicate@) is None,
            forall|j: int|
                0 <= j < i ==> inventory.knows(
                    remote_relative(root@, #[trigger] files@[j])->0,
                    files@[j].path@,
                    remote_metadata(files@[j]),
                ),
            forall|k: Seq<char>|
                #[trigger] inventory.metadata.spec_get(k) is Some ==> exists|j: int|
                    0 <= j < i && remote_relative(root@, #[trigger] files@[j]) == Some(k),
        decreases files@.len() - i,
    {
        let file: &RemoteFileMetadata = &files[i];
        let relative: String = match remote_sync_relative(root, file.path.as_str()) {
            Err(e) => {
                assert(remote_problem(root@, files@, i as int, duplicate@) == Some(e@));
                return Err(e);
            },
            Ok(relative) => relative,
        };
        let metadata = SyncFileMetadata { bytes: file.size, modified: file.mtime, sha256: None };
        let ghost before = inventory;
        if !inventory.insert_new(relative.as_str(), file.path.as_str(), metadata) {
            let text: String = plus(duplicate.to_owned(), relative.as_str());
            assert(remote_problem(root@, files@, i as int, duplicate@) == Some(text@));
            return Err(text);
        }
        proof {
            assert(!remote_duplicate(root@, files@, i as int)) by {
                if remote_duplicate(root@, files@, i as int) {
                    let j = choose|j: int|
                        0 <= j < i && remote_relative(root@, #[trigger] files@[j])
                            == remote_relative(root@, files@[i as int]);
                    assert(before.knows(
                        remote_relative(root@, files@[j])->0,
                        files@[j].path@,
                        remote_metadata(files@[j]),
                    ));
                }
            }
            assert forall|j: int| 0 <= j < i + 1 implies inventory.knows(
                remote_relative(root@, #[trigger] files@[j])->0,
                files@[j].path@,
                remote_metadata(files@[j]),
            ) by {
                if j < i {
                    assert(before.knows(
                        remote_relative(root@, files@[j])->0,
                        files@[j].path@,
                        remote_metadata(files@[j]),
                    ));
                    assert(remote_problem(root@, files@, j, duplicate@) is None);
                    assert(remote_relative(root@, files@[j]) != Some(relative@));
                }
            }
            assert forall|k: Seq<char>| #[trigger]
                inventory.metadata.spec_get(k) is Some implies exists|j: int|
                0 <= j < i + 1 && remote_relative(root@, #[trigger] files@[j]) == Some(k) by {
                if k == relative@ {
                    assert(remote_relative(root@, files@[i as int]) == Some(k));
                } else {
                    assert(before.metadata.spec_get(k) is Some);
                }
            }
        }
        i += 1;
    }
    Ok(inventory)
}

} // verus!
