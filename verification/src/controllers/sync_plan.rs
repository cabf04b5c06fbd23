//! Preparing a folder synchronization: from the inventories of both sides to what would be copied
//! and deleted.

use vstd::prelude::*;

use crate::controllers::sync_scan::Inventory;
use crate::folder_sync::{
    action_views, build_preview, copies_name_source_files, deletions_name_target_only_files,
    excluded, is_excluded, planned_copies, planned_deletions, previews, ActionView, Snapshot,
    SyncAction, SyncFileMetadata, SyncOptions, SyncPreview,
};
use crate::model::{ConnectionId, TransferDirection};
use crate::net::safe::{same_path, PathParts, PathView};
use crate::numerals::{decimal, to_decimal};
use crate::ordered_map::{keys_of, OrderedMap};
use crate::pieces::texts;
use crate::text::{chars_of, plus, same_text, string_of};

verus! {

/// Which folders are synchronized.
#[derive(Debug, PartialEq, Eq)]
pub struct FolderSyncKey {
    pub local_pane: usize,
    pub remote_pane: usize,
    pub local_root: PathParts,
    pub remote_root: String,
    pub connection_id: ConnectionId,
}

pub ghost struct KeyView {
    pub local_pane: usize,
    pub remote_pane: usize,
    pub local_root: PathView,
    pub remote_root: Seq<char>,
    pub connection_id: ConnectionId,
}

impl View for FolderSyncKey {
    type V = KeyView;

    open spec fn view(&self) -> KeyView {
        KeyView {
            local_pane: self.local_pane,
            remote_pane: self.remote_pane,
            local_root: self.local_root@,
            remote_root: self.remote_root@,
            connection_id: self.connection_id,
        }
    }
}

impl FolderSyncKey {
    pub fn same(&self, other: &FolderSyncKey) -> (r: bool)
        ensures
            r == (self@ == other@),
    {
        self.local_pane == other.local_pane && self.remote_pane == other.remote_pane && same_path(
            &self.local_root,
            &other.local_root,
        ) && same_text(self.remote_root.as_str(), other.remote_root.as_str())
            && self.connection_id.0 == other.connection_id.0
    }
}

/// What a pane shows.
#[derive(Debug, PartialEq, Eq)]
pub struct PaneSummary {
    pub is_remote: bool,
    /// The directory of a local pane.
    pub local_directory: PathParts,
    /// The directory of a remote pane.
    pub remote_directory: String,
    /// The connection of a remote pane, once it is connected.
    pub connection: Option<ConnectionId>,
}

/// How many of the first panes are of one kind.
pub open spec fn panes_of_kind(panes: Seq<PaneSummary>, is_remote: bool) -> nat
    decreases panes.len(),
{
    if panes.len() == 0 {
        0
    } else {
        panes_of_kind(panes.drop_last(), is_remote) + if panes.last().is_remote == is_remote {
            1nat
        } else {
            0nat
        }
    }
}

/// The last pane of one kind; -1 for none.
pub open spec fn last_of_kind(panes: Seq<PaneSummary>, is_remote: bool) -> int
    decreases panes.len(),
{
    if panes.len() == 0 {
        -1
    } else if panes.last().is_remote == is_remote {
        panes.len() - 1
    } else {
        last_of_kind(panes.drop_last(), is_remote)
    }
}

/// The folders that the panes would synchronize: there must be one local pane and one that is
/// connected to a server.
pub open spec fn sync_context(panes: Seq<PaneSummary>) -> Result<KeyView, Seq<char>> {
    if panes_of_kind(panes, false) != 1 || panes_of_kind(panes, true) != 1 {
        Err("folder sync requires exactly one local pane and one connected server pane"@)
    } else {
        let local = last_of_kind(panes, false);
        let remote = last_of_kind(panes, true);
        match panes[remote].connection {
            None => Err("the remote pane is not connected"@),
            Some(id) => Ok(
                KeyView {
                    local_pane: local as usize,
                    remote_pane: remote as usize,
                    local_root: panes[local].local_directory@,
                    remote_root: panes[remote].remote_directory@,
                    connection_id: id,
                },
            ),
        }
    }
}

proof fn lemma_last_of_kind(panes: Seq<PaneSummary>, is_remote: bool)
    ensures
        -1 <= last_of_kind(panes, is_remote) < panes.len(),
        panes_of_kind(panes, is_remote) > 0 <==> last_of_kind(panes, is_remote) >= 0,
        last_of_kind(panes, is_remote) >= 0 ==> panes[last_of_kind(panes, is_remote)].is_remote
            == is_remote,
    decreases panes.len(),
{
    if panes.len() > 0 {
        lemma_last_of_kind(panes.drop_last(), is_remote);
    }
}

fn count_panes(panes: &Vec<PaneSummary>, is_remote: bool) -> (r: (usize, usize))
    ensures
        r.0 == panes_of_kind(panes@, is_remote),
        r.0 > 0 ==> r.1 == last_of_kind(panes@, is_remote),
        r.0 > 0 ==> r.1 < panes@.len(),
{
    let mut n: usize = 0;
    let mut last: usize = 0;
    let mut i: usize = 0;
    while i < panes.len()
        invariant
            i <= panes@.len(),
            n <= i,
            n == panes_of_kind(panes@.take(i as int), is_remote),
            n > 0 ==> last == last_of_kind(panes@.take(i as int), is_remote) && last < i,
        decreases panes@.len() - i,
    {
        assert(panes@.take(i + 1).drop_last() =~= panes@.take(i as int));
        if panes[i].is_remote == is_remote {
            n = n + 1;
            last = i;
        }
        i += 1;
    }
    assert(panes@.take(panes@.len() as int) =~= panes@);
    (n, last)
}

pub fn folder_sync_context(panes: &Vec<PaneSummary>) -> (r: Result<FolderSyncKey, String>)
    ensures
        r matches Ok(key) ==> sync_context(panes@) == Ok::<_, Seq<char>>(key@),
        r matches Err(e) ==> sync_context(panes@) == Err::<KeyView, _>(e@),
{
    let local: (usize, usize) = count_panes(panes, false);
    let remote: (usize, usize) = count_panes(panes, true);
    if local.0 != 1 || remote.0 != 1 {
        return Err(
            "folder sync requires exactly one local pane and one connected server pane".to_owned(),
        );
    }
    match panes[remote.1].connection {
        None => Err("the remote pane is not connected".to_owned()),
        Some(connection_id) => Ok(
            FolderSyncKey {
                local_pane: local.1,
                remote_pane: remote.1,
                local_root: panes[local.1].local_directory.duplicate(),
                remote_root: panes[remote.1].remote_directory.clone(),
                connection_id,
            },
        ),
    }
}

/// The panes still show the folders of a synchronization.
pub open spec fn context_is_current(panes: Seq<PaneSummary>, key: KeyView) -> bool {
    &&& key.local_pane < panes.len()
    &&& key.remote_pane < panes.len()
    &&& !panes[key.local_pane as int].is_remote
    &&& panes[key.local_pane as int].local_directory@ == key.local_root
    &&& panes[key.remote_pane as int].is_remote
    &&& panes[key.remote_pane as int].remote_directory@ == key.remote_root
    &&& panes[key.remote_pane as int].connection == Some(key.connection_id)
}

pub fn folder_sync_context_is_current(panes: &Vec<PaneSummary>, expected: &FolderSyncKey) -> (r:
    bool)
    ensures
        r == context_is_current(panes@, expected@),
{
    if expected.local_pane >= panes.len() || expected.remote_pane >= panes.len() {
        return false;
    }
    let local: &PaneSummary = &panes[expected.local_pane];
    let remote: &PaneSummary = &panes[expected.remote_pane];
    let connected: bool = match remote.connection {
        Some(id) => id.0 == expected.connection_id.0,
        None => false,
    };
    !local.is_remote && same_path(&local.local_directory, &expected.local_root) && remote.is_remote
        && same_text(remote.remote_directory.as_str(), expected.remote_root.as_str()) && connected
}

/// A context that was just taken from the panes is current.
pub proof fn fresh_contexts_are_current(panes: Seq<PaneSummary>, key: KeyView)
    requires
        panes.len() <= usize::MAX,
        sync_context(panes) == Ok::<_, Seq<char>>(key),
    ensures
        context_is_current(panes, key),
        key.local_pane != key.remote_pane,
{
    lemma_last_of_kind(panes, false);
    lemma_last_of_kind(panes, true);
}

/// A file to hash on both sides.
#[derive(Debug, PartialEq, Eq)]
pub struct ChecksumInput {
    pub relative: String,
    pub local_path: String,
    pub remote_path: String,
}

/// The files that are on both sides with the same size and that no rule excludes.
pub open spec fn common_files(
    local: Seq<(String, SyncFileMetadata)>,
    remote: OrderedMap<SyncFileMetadata>,
    rules: Seq<Seq<char>>,
) -> Seq<Seq<char>>
    decreases local.len(),
{
    if local.len() == 0 {
        Seq::empty()
    } else {
        let before = common_files(local.drop_last(), remote, rules);
        let (path, metadata) = local.last();
        if (remote.spec_get(path@) matches Some(there) && there.bytes == metadata.bytes)
            && !excluded(path@, rules) {
            before.push(path@)
        } else {
            before
        }
    }
}

pub open spec fn input_names(inputs: Seq<ChecksumInput>) -> Seq<Seq<char>> {
    inputs.map_values(|i: ChecksumInput| i.relative@)
}

/// What has to be hashed before a comparison by checksum, within a limit.
#[verifier::loop_isolation(false)]
pub fn checksum_inputs(
    local: &Inventory,
    remote: &Inventory,
    exclusions: &Vec<String>,
    limit: usize,
) -> (r: Result<Vec<ChecksumInput>, String>)
    requires
        local.wf(),
        remote.wf(),
    ensures
        ({
            let common = common_files(
                local.metadata.seq(),
                remote.metadata,
                texts(exclusions@),
            );
            &&& r is Ok <==> common.len() <= limit
            &&& r matches Ok(inputs) ==> input_names(inputs@) == common && forall|i: int|
                0 <= i < inputs@.len() ==> has_paths(#[trigger] inputs@[i], *local, *remote)
            &&& r matches Err(e) ==> e@ == "checksum comparison is limited to "@ + decimal(
                limit as nat,
            ) + " matching files per run"@
        }),
{
    let ghost rules = texts(exclusions@);
    let ghost all = local.metadata.seq();
    let mut inputs: Vec<ChecksumInput> = Vec::new();
    let mut i: usize = 0;
    assert(input_names(inputs@) =~= Seq::<Seq<char>>::empty());
    while i < local.metadata.entries.len()
        invariant
            i <= all.len(),
            input_names(inputs@) == common_files(all.take(i as int), remote.metadata, rules),
            forall|j: int|
                0 <= j < inputs@.len() ==> has_paths(#[trigger] inputs@[j], *local, *remote),
        decreases all.len() - i,
    {
        proof {
            assert(all.take(i + 1).drop_last() =~= all.take(i as int));
            assert(all.take(i + 1).last() == all[i as int]);
            crate::ordered_map::lemma_lookup_found(all, i as int);
        }
        let relative: &str = local.metadata.entries[i].0.as_str();
        let bytes: u64 = local.metadata.entries[i].1.bytes;
        assert(local.metadata.spec_get(relative@) is Some);
        let same_size: bool = match remote.metadata.get(relative) {
            Some(there) => there.bytes == bytes,
            None => false,
        };
        if same_size && !is_excluded(relative, exclusions.as_slice()) {
            assert(remote.metadata.spec_get(relative@) is Some);
            match (local.paths.get(relative), remote.paths.get(relative)) {
                (Some(local_path), Some(remote_path)) => {
                    let ghost before = inputs@;
                    inputs.push(
                        ChecksumInput {
                            relative: relative.to_owned(),
                            local_path: local_path.clone(),
                            remote_path: remote_path.clone(),
                        },
                    );
                    assert(input_names(inputs@) =~= input_names(before).push(relative@));
                },
                _ => {},
            }
        }
        i += 1;
    }
    assert(all.take(all.len() as int) =~= all);
    assert(input_names(inputs@).len() == inputs@.len());
    if inputs.len() > limit {
        let number: String = string_of(&to_decimal(limit as u64));
        return Err(
            plus(
                plus("checksum comparison is limited to ".to_owned(), number.as_str()),
                " matching files per run",
            ),
        );
    }
    Ok(inputs)
}

/// The input names the paths of its file on both sides.
pub open spec fn has_paths(input: ChecksumInput, local: Inventory, remote: Inventory) -> bool {
    &&& local.paths.spec_get(input.relative@) == Some(input.local_path)
    &&& remote.paths.spec_get(input.relative@) == Some(input.remote_path)
}

/// The metadata with a digest.
pub open spec fn digested(metadata: SyncFileMetadata, digest: [u8; 32]) -> SyncFileMetadata {
    SyncFileMetadata { sha256: Some(digest), ..metadata }
}

/// The last digest that was given for a name.
pub open spec fn digest_for(
    inputs: Seq<ChecksumInput>,
    digests: Seq<[u8; 32]>,
    name: Seq<char>,
) -> Option<[u8; 32]>
    decreases inputs.len(),
{
    if inputs.len() == 0 {
        None
    } else if inputs.last().relative@ == name {
        Some(digests[inputs.len() - 1])
    } else {
        digest_for(inputs.drop_last(), digests, name)
    }
}

/// The inventory of one side with the digests of the files that were hashed. Nothing else changes.
pub fn with_digests(inventory: Inventory, inputs: &Vec<ChecksumInput>, digests: &Vec<[u8; 32]>) -> (r:
    Inventory)
    requires
        inventory.wf(),
        digests@.len() == inputs@.len(),
    ensures
        r.wf(),
        r.paths == inventory.paths,
        keys_of(r.metadata.seq()) == keys_of(inventory.metadata.seq()),
        forall|k: Seq<char>| #[trigger]
            r.metadata.spec_get(k) == (match (
                inventory.metadata.spec_get(k),
                digest_for(inputs@, digests@, k),
            ) {
                (Some(metadata), Some(digest)) => Some(digested(metadata, digest)),
                (metadata, _) => metadata,
            }),
{
    let mut out: Inventory = inventory;
    let mut i: usize = 0;
    assert(inputs@.take(0) =~= Seq::<ChecksumInput>::empty());
    while i < inputs.len()
        invariant
            i <= inputs@.len(),
            digests@.len() == inputs@.len(),
            inventory.wf(),
            out.wf(),
            out.paths == inventory.paths,
            keys_of(out.metadata.seq()) == keys_of(inventory.metadata.seq()),
            forall|k: Seq<char>| #[trigger]
                out.metadata.spec_get(k) == (match (
                    inventory.metadata.spec_get(k),
                    digest_for(inputs@.take(i as int), digests@, k),
                ) {
                    (Some(metadata), Some(digest)) => Some(digested(metadata, digest)),
                    (metadata, _) => metadata,
                }),
        decreases inputs@.len() - i,
    {
        let name: &str = inputs[i].relative.as_str();
        let found: Option<SyncFileMetadata> = match out.metadata.get(name) {
            Some(metadata) => Some(*metadata),
            None => None,
        };
        proof {
            assert(inputs@.take(i + 1).drop_last() =~= inputs@.take(i as int));
            assert(inputs@.take(i + 1).last() == inputs@[i as int]);
        }
        if let Some(metadata) = found {
            let _ = out.metadata.insert(
                name.to_owned(),
                SyncFileMetadata {
                    bytes: metadata.bytes,
                    modified: metadata.modified,
                    sha256: Some(digests[i]),
                },
            );
        }
        i += 1;
    }
    assert(inputs@.take(inputs@.len() as int) =~= inputs@);
    out
}

/// The digests of the server, in the order of the inputs. One that it left out is an error.
pub fn remote_digests(inputs: &Vec<ChecksumInput>, answers: &Vec<Option<[u8; 32]>>) -> (r: Result<
    Vec<[u8; 32]>,
    String,
>)
    requires
        answers@.len() == inputs@.len(),
    ensures
        r is Ok <==> forall|i: int| 0 <= i < answers@.len() ==> (#[trigger] answers@[i]) is Some,
        r matches Ok(digests) ==> digests@.len() == answers@.len() && forall|i: int|
            0 <= i < answers@.len() ==> answers@[i] == Some(#[trigger] digests@[i]),
        r matches Err(e) ==> exists|i: int|
            0 <= i < answers@.len() && (#[trigger] answers@[i]) is None && e@
                == "server omitted checksum for "@ + inputs@[i].relative@ && forall|j: int|
                0 <= j < i ==> (#[trigger] answers@[j]) is Some,
{
    let mut digests: Vec<[u8; 32]> = Vec::new();
    let mut i: usize = 0;
    while i < answers.len()
        invariant
            i <= answers@.len(),
            answers@.len() == inputs@.len(),
            digests@.len() == i,
            forall|j: int| 0 <= j < i ==> answers@[j] == Some(#[trigger] digests@[j]),
            forall|j: int| 0 <= j < i ==> (#[trigger] answers@[j]) is Some,
        decreases answers@.len() - i,
    {
        match answers[i] {
            Some(digest) => {
                digests.push(digest);
            },
            None => {
                let text: String = plus(
                    "server omitted checksum for ".to_owned(),
                    inputs[i].relative.as_str(),
                );
                assert(answers@[i as int] is None);
                return Err(text);
            },
        }
        i += 1;
    }
    Ok(digests)
}

/// A file that would be copied.
#[derive(Debug, PartialEq, Eq)]
pub struct FolderSyncCandidate {
    pub label: String,
    pub local_path: String,
    pub remote_path: String,
    pub bytes: u64,
    pub included: bool,
}

pub ghost struct CandidateView {
    pub label: Seq<char>,
    pub local_path: Seq<char>,
    pub remote_path: Seq<char>,
    pub bytes: u64,
    pub included: bool,
}

impl View for FolderSyncCandidate {
    type V = CandidateView;

    open spec fn view(&self) -> CandidateView {
        CandidateView {
            label: self.label@,
            local_path: self.local_path@,
            remote_path: self.remote_path@,
            bytes: self.bytes,
            included: self.included,
        }
    }
}

pub open spec fn candidate_views(v: Seq<FolderSyncCandidate>) -> Seq<CandidateView> {
    v.map_values(|c: FolderSyncCandidate| c@)
}

/// A file that would be deleted, and what was known of it when that was decided.
#[derive(Debug, PartialEq, Eq)]
pub struct FolderSyncDeletion {
    pub label: String,
    pub local_path: String,
    pub remote_path: String,
    pub metadata: SyncFileMetadata,
    pub included: bool,
}

pub ghost struct MetadataView {
    pub bytes: u64,
    pub modified: Option<i64>,
    pub sha256: Option<Seq<u8>>,
}

pub open spec fn metadata_view(m: SyncFileMetadata) -> MetadataView {
    MetadataView {
        bytes: m.bytes,
        modified: m.modified,
        sha256: match m.sha256 {
            Some(digest) => Some(digest@),
            None => None,
        },
    }
}

pub ghost struct DeletionView {
    pub label: Seq<char>,
    pub local_path: Seq<char>,
    pub remote_path: Seq<char>,
    pub metadata: MetadataView,
    pub included: bool,
}

impl View for FolderSyncDeletion {
    type V = DeletionView;

    open spec fn view(&self) -> DeletionView {
        DeletionView {
            label: self.label@,
            local_path: self.local_path@,
            remote_path: self.remote_path@,
            metadata: metadata_view(self.metadata),
            included: self.included,
        }
    }
}

pub open spec fn deletion_views(v: Seq<FolderSyncDeletion>) -> Seq<DeletionView> {
    v.map_values(|d: FolderSyncDeletion| d@)
}

/// A dry run: what a synchronization would do.
#[derive(Debug, PartialEq, Eq)]
pub struct PreparedFolderSync {
    pub key: FolderSyncKey,
    pub direction: TransferDirection,
    pub exclusions: Vec<String>,
    pub options: SyncOptions,
    pub preview: SyncPreview,
    pub candidates: Vec<FolderSyncCandidate>,
    pub deletions: Vec<FolderSyncDeletion>,
}

pub ghost struct PreviewView {
    pub actions: Seq<ActionView>,
    pub deletions: Seq<ActionView>,
    pub unchanged: nat,
    pub target_only: nat,
    pub excluded: nat,
}

pub open spec fn preview_view(p: SyncPreview) -> PreviewView {
    PreviewView {
        actions: action_views(p.actions@),
        deletions: action_views(p.deletions@),
        unchanged: p.unchanged as nat,
        target_only: p.target_only as nat,
        excluded: p.excluded as nat,
    }
}

/// What was synchronized, and how.
pub ghost struct PolicyView {
    pub key: KeyView,
    pub direction: TransferDirection,
    pub exclusions: Seq<Seq<char>>,
    pub options: SyncOptions,
}

pub ghost struct PreparedView {
    pub policy: PolicyView,
    pub preview: PreviewView,
    pub candidates: Seq<CandidateView>,
    pub deletions: Seq<DeletionView>,
}

impl View for PreparedFolderSync {
    type V = PreparedView;

    open spec fn view(&self) -> PreparedView {
        PreparedView {
            policy: PolicyView {
                key: self.key@,
                direction: self.direction,
                exclusions: texts(self.exclusions@),
                options: self.options,
            },
            preview: preview_view(self.preview),
            candidates: candidate_views(self.candidates@),
            deletions: deletion_views(self.deletions@),
        }
    }
}

/// Where a file of the local side goes on the server.
pub open spec fn upload_target(root: Seq<char>, relative: Seq<char>) -> Seq<char> {
    if root.len() == 0 || root.last() == '/' {
        root + relative
    } else {
        root + "/"@ + relative
    }
}

pub fn join_remote(root: &str, relative: &str) -> (r: String)
    ensures
        r@ == upload_target(root@, relative@),
{
    let chars: Vec<char> = chars_of(root);
    let n: usize = chars.len();
    if n == 0 || chars[n - 1] == '/' {
        plus(root.to_owned(), relative)
    } else {
        plus(plus(root.to_owned(), "/"), relative)
    }
}

/// The file that an action would copy. On a download the local target is given.
pub open spec fn candidate_of(
    action: ActionView,
    direction: TransferDirection,
    remote_root: Seq<char>,
    local: Inventory,
    remote: Inventory,
    target: Seq<char>,
) -> CandidateView {
    CandidateView {
        label: action.path,
        local_path: if direction == TransferDirection::Upload {
            local.paths.spec_get(action.path)->0@
        } else {
            target
        },
        remote_path: if direction == TransferDirection::Upload {
            upload_target(remote_root, action.path)
        } else {
            remote.paths.spec_get(action.path)->0@
        },
        bytes: action.bytes,
        included: true,
    }
}

/// The file that a deletion would remove, with what is known of it.
pub open spec fn deletion_of(
    action: ActionView,
    direction: TransferDirection,
    local: Inventory,
    remote: Inventory,
) -> DeletionView {
    DeletionView {
        label: action.path,
        local_path: if direction == TransferDirection::Upload {
            Seq::empty()
        } else {
            local.paths.spec_get(action.path)->0@
        },
        remote_path: if direction == TransferDirection::Upload {
            remote.paths.spec_get(action.path)->0@
        } else {
            Seq::empty()
        },
        metadata: metadata_view(
            if direction == TransferDirection::Upload {
                remote.metadata.spec_get(action.path)->0
            } else {
                local.metadata.spec_get(action.path)->0
            },
        ),
        included: true,
    }
}

/// The side that is followed.
pub open spec fn sync_source(
    direction: TransferDirection,
    local: Inventory,
    remote: Inventory,
) -> Snapshot {
    if direction == TransferDirection::Upload {
        local.metadata
    } else {
        remote.metadata
    }
}

/// The side that follows.
pub open spec fn sync_target(
    direction: TransferDirection,
    local: Inventory,
    remote: Inventory,
) -> Snapshot {
    if direction == TransferDirection::Upload {
        remote.metadata
    } else {
        local.metadata
    }
}

/// The copies that a synchronization of the two sides asks for.
pub open spec fn sync_copies(
    direction: TransferDirection,
    local: Inventory,
    remote: Inventory,
    rules: Seq<Seq<char>>,
    options: SyncOptions,
) -> Seq<ActionView> {
    planned_copies(
        sync_source(direction, local, remote).seq(),
        sync_target(direction, local, remote),
        rules,
        options,
    )
}

pub open spec fn sync_deletions(
    direction: TransferDirection,
    local: Inventory,
    remote: Inventory,
    rules: Seq<Seq<char>>,
    options: SyncOptions,
) -> Seq<ActionView> {
    planned_deletions(
        sync_target(direction, local, remote).seq(),
        sync_source(direction, local, remote),
        rules,
        options,
    )
}

/// The preview of a synchronization of the two sides.
pub fn preview_sync(
    direction: TransferDirection,
    local: &Inventory,
    remote: &Inventory,
    exclusions: &Vec<String>,
    options: SyncOptions,
) -> (r: SyncPreview)
    requires
        local.wf(),
        remote.wf(),
        local.metadata.seq().len() + remote.metadata.seq().len() <= usize::MAX,
    ensures
        previews(
            r,
            sync_source(direction, *local, *remote),
            sync_target(direction, *local, *remote),
            texts(exclusions@),
            options,
        ),
{
    match direction {
        TransferDirection::Upload => build_preview(
            &local.metadata,
            &remote.metadata,
            exclusions.as_slice(),
            options,
        ),
        TransferDirection::Download => build_preview(
            &remote.metadata,
            &local.metadata,
            exclusions.as_slice(),
            options,
        ),
    }
}

/// Everything that a dry run shows. `targets` holds, for a download, where each copy would go on the
/// local side, or why it cannot.
#[verifier::loop_isolation(false)]
pub fn prepare_folder_sync(
    key: FolderSyncKey,
    direction: TransferDirection,
    exclusions: Vec<String>,
    options: SyncOptions,
    local: &Inventory,
    remote: &Inventory,
    preview: SyncPreview,
    targets: &Vec<Result<String, String>>,
) -> (r: Result<PreparedFolderSync, String>)
    requires
        local.wf(),
        remote.wf(),
        action_views(preview.actions@) == sync_copies(
            direction,
            *local,
            *remote,
            texts(exclusions@),
            options,
        ),
        action_views(preview.deletions@) == sync_deletions(
            direction,
            *local,
            *remote,
            texts(exclusions@),
            options,
        ),
        direction == TransferDirection::Download ==> targets@.len() == preview.actions@.len(),
    ensures
        r is Ok <==> (direction == TransferDirection::Download ==> forall|i: int|
            0 <= i < targets@.len() ==> (#[trigger] targets@[i]) is Ok),
        r matches Ok(prepared) ==> {
            &&& prepared@.policy == (PolicyView {
                key: key@,
                direction,
                exclusions: texts(exclusions@),
                options,
            })
            &&& prepared@.preview == preview_view(preview)
            &&& prepared@.candidates.len() == preview.actions@.len()
            &&& forall|i: int|
                0 <= i < preview.actions@.len() ==> #[trigger] prepared@.candidates[i]
                    == candidate_of(
                    preview.actions@[i]@,
                    direction,
                    key.remote_root@,
                    *local,
                    *remote,
                    targets@[i]->Ok_0@,
                )
            &&& prepared@.deletions.len() == preview.deletions@.len()
            &&& forall|i: int|
                0 <= i < preview.deletions@.len() ==> #[trigger] prepared@.deletions[i]
                    == deletion_of(preview.deletions@[i]@, direction, *local, *remote)
        },
        r matches Err(e) ==> exists|i: int|
            0 <= i < targets@.len() && (#[trigger] targets@[i]) is Err && e@
                == targets@[i]->Err_0@ && forall|j: int|
                0 <= j < i ==> (#[trigger] targets@[j]) is Ok,
{
    let ghost rules = texts(exclusions@);
    let mut candidates: Vec<FolderSyncCandidate> = Vec::new();
    let mut i: usize = 0;
    while i < preview.actions.len()
        invariant
            i <= preview.actions@.len(),
            candidates@.len() == i,
            direction == TransferDirection::Download ==> forall|j: int|
                0 <= j < i ==> (#[trigger] targets@[j]) is Ok,
            forall|j: int|
                0 <= j < i ==> (#[trigger] candidates@[j])@ == candidate_of(
                    preview.actions@[j]@,
                    direction,
                    key.remote_root@,
                    *local,
                    *remote,
                    targets@[j]->Ok_0@,
                ),
        decreases preview.actions@.len() - i,
    {
        let action: &SyncAction = &preview.actions[i];
        let relative: &str = action.relative_path.as_str();
        proof {
            assert(action_views(preview.actions@)[i as int] == action@);
            if direction == TransferDirection::Upload {
                copies_name_source_files(
                    local.metadata,
                    remote.metadata,
                    rules,
                    options,
                    i as int,
                );
            } else {
                copies_name_source_files(
                    remote.metadata,
                    local.metadata,
                    rules,
                    options,
                    i as int,
                );
            }
        }
        let (local_path, remote_path): (String, String) = match direction {
            TransferDirection::Upload => {
                assert(local.metadata.spec_get(relative@) is Some);
                match local.paths.get(relative) {
                    Some(path) => (path.clone(), join_remote(key.remote_root.as_str(), relative)),
                    None => (String::new(), String::new()),
                }
            },
            TransferDirection::Download => {
                assert(remote.metadata.spec_get(relative@) is Some);
                let target: String = match &targets[i] {
                    Ok(target) => target.clone(),
                    Err(e) => {
                        assert(targets@[i as int] is Err);
                        return Err(e.clone());
                    },
                };
                match remote.paths.get(relative) {
                    Some(path) => (target, path.clone()),
                    None => (String::new(), String::new()),
                }
            },
        };
        candidates.push(
            FolderSyncCandidate {
                label: action.relative_path.clone(),
                local_path,
                remote_path,
                bytes: action.bytes,
                included: true,
            },
        );
        i += 1;
    }
    let mut deletions: Vec<FolderSyncDeletion> = Vec::new();
    let mut k: usize = 0;
    while k < preview.deletions.len()
        invariant
            k <= preview.deletions@.len(),
            deletions@.len() == k,
            forall|j: int|
                0 <= j < k ==> (#[trigger] deletions@[j])@ == deletion_of(
                    preview.deletions@[j]@,
                    direction,
                    *local,
                    *remote,
                ),
        decreases preview.deletions@.len() - k,
    {
        let action: &SyncAction = &preview.deletions[k];
        let relative: &str = action.relative_path.as_str();
        proof {
            assert(action_views(preview.deletions@)[k as int] == action@);
            if direction == TransferDirection::Upload {
                deletions_name_target_only_files(
                    remote.metadata,
                    local.metadata,
                    rules,
                    options,
                    k as int,
                );
            } else {
                deletions_name_target_only_files(
                    local.metadata,
                    remote.metadata,
                    rules,
                    options,
                    k as int,
                );
            }
        }
        let side: &Inventory = match direction {
            TransferDirection::Upload => remote,
            TransferDirection::Download => local,
        };
        assert(side.metadata.spec_get(relative@) is Some);
        let metadata: SyncFileMetadata = match side.metadata.get(relative) {
            Some(metadata) => *metadata,
            None => SyncFileMetadata::default(),
        };
        let path: String = match side.paths.get(relative) {
            Some(path) => path.clone(),
            None => String::new(),
        };
        let (local_path, remote_path): (String, String) = match direction {
            TransferDirection::Upload => (String::new(), path),
            TransferDirection::Download => (path, String::new()),
        };
        deletions.push(
            FolderSyncDeletion {
                label: action.relative_path.clone(),
                local_path,
                remote_path,
                metadata,
                included: true,
            },
        );
        k += 1;
    }
    let prepared = PreparedFolderSync {
        key,
        direction,
        exclusions,
        options,
        preview,
        candidates,
        deletions,
    };
    Ok(prepared)
}

} // verus!
