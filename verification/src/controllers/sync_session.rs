//! From a dry run to the synchronization: what may be applied, and what the user is told.

use vstd::prelude::*;

use crate::controllers::state::SyncDirection;
use crate::controllers::sync_plan::{
    candidate_views, deletion_views, CandidateView, DeletionView, FolderSyncCandidate,
    FolderSyncDeletion, FolderSyncKey, PreparedFolderSync, PreparedView,
};
use crate::controllers::sync_scan::{parse_folder_sync_options, sync_options};
use crate::folder_sync::{
    action_views, exclusions, parse_exclusions, SyncAction, SyncMode, SyncOptions,
};
use crate::model::TransferDirection;
use crate::numerals::{decimal, to_decimal};
use crate::pieces::texts;
use crate::text::{plus, same_text, string_of};

verus! {

/// The fields of the synchronization window.
#[derive(Debug, PartialEq, Eq)]
pub struct SyncForm {
    pub direction: String,
    pub exclusions: String,
    pub comparison: String,
    pub tolerance: String,
    pub server_clock_offset: String,
    pub mode: String,
    pub mirror_confirmed: bool,
}

/// What the form asks for.
#[derive(Debug, PartialEq, Eq)]
pub struct SyncRequest {
    pub direction: TransferDirection,
    pub options: SyncOptions,
    pub exclusions: Vec<String>,
}

/// A message about why nothing was started: the summary, and the error where there is one.
#[derive(Debug, PartialEq, Eq)]
pub struct SyncRefusal {
    pub summary: String,
    pub error: Option<String>,
}

pub ghost struct RefusalView {
    pub summary: Seq<char>,
    pub error: Option<Seq<char>>,
}

impl View for SyncRefusal {
    type V = RefusalView;

    open spec fn view(&self) -> RefusalView {
        RefusalView {
            summary: self.summary@,
            error: match self.error {
                Some(e) => Some(e@),
                None => None,
            },
        }
    }
}

pub open spec fn direction_named(word: Seq<char>) -> Option<TransferDirection> {
    if word == SyncDirection::Upload.word() {
        Some(TransferDirection::Upload)
    } else if word == SyncDirection::Download.word() {
        Some(TransferDirection::Download)
    } else {
        None
    }
}

/// Why the form asks for nothing that can be done.
pub open spec fn form_refusal(form: SyncForm) -> Option<RefusalView> {
    match direction_named(form.direction@) {
        None => Some(
            RefusalView {
                summary: "unknown synchronization direction"@,
                error: Some("Invalid synchronization direction."@),
            },
        ),
        Some(direction) => match sync_options(
            direction,
            form.comparison@,
            form.tolerance@,
            form.server_clock_offset@,
            form.mode@,
        ) {
            Err(e) => Some(
                RefusalView {
                    summary: "Invalid comparison settings: "@ + e,
                    error: Some("Invalid sync comparison settings: "@ + e),
                },
            ),
            Ok(_) => match exclusions(form.exclusions@) {
                Err(e) => Some(
                    RefusalView {
                        summary: "Invalid exclusions: "@ + e,
                        error: Some("Invalid sync exclusions: "@ + e),
                    },
                ),
                Ok(_) => None,
            },
        },
    }
}

/// Read the form.
pub fn read_form(form: &SyncForm) -> (r: Result<SyncRequest, SyncRefusal>)
    ensures
        r is Ok <==> form_refusal(*form) is None,
        r matches Ok(request) ==> direction_named(form.direction@) == Some(request.direction)
            && sync_options(
            request.direction,
            form.comparison@,
            form.tolerance@,
            form.server_clock_offset@,
            form.mode@,
        ) == Ok::<_, Seq<char>>(request.options) && exclusions(form.exclusions@) == Ok::<
            _,
            Seq<char>,
        >(texts(request.exclusions@)),
        r matches Err(refusal) ==> form_refusal(*form) == Some(refusal@),
{
    proof {
        reveal_strlit("upload");
        reveal_strlit("download");
        assert(SyncDirection::Upload.word() == "upload"@);
        assert(SyncDirection::Download.word() == "download"@);
    }
    let direction: TransferDirection = match SyncDirection::try_from(form.direction.as_str()) {
        Ok(direction) => direction.transfer_direction(),
        Err(e) => {
            return Err(
                SyncRefusal {
                    summary: e.to_owned(),
                    error: Some("Invalid synchronization direction.".to_owned()),
                },
            );
        },
    };
    let options: SyncOptions = match parse_folder_sync_options(
        direction,
        form.comparison.as_str(),
        form.tolerance.as_str(),
        form.server_clock_offset.as_str(),
        form.mode.as_str(),
    ) {
        Ok(options) => options,
        Err(e) => {
            return Err(
                SyncRefusal {
                    summary: plus("Invalid comparison settings: ".to_owned(), e.as_str()),
                    error: Some(
                        plus("Invalid sync comparison settings: ".to_owned(), e.as_str()),
                    ),
                },
            );
        },
    };
    match parse_exclusions(form.exclusions.as_str()) {
        Ok(rules) => Ok(SyncRequest { direction, options, exclusions: rules }),
        Err(e) => Err(
            SyncRefusal {
                summary: plus("Invalid exclusions: ".to_owned(), e.as_str()),
                error: Some(plus("Invalid sync exclusions: ".to_owned(), e.as_str())),
            },
        ),
    }
}

/// Some deletion is selected.
pub open spec fn selects_deletion(deletions: Seq<DeletionView>) -> bool {
    exists|i: int| 0 <= i < deletions.len() && (#[trigger] deletions[i]).included
}

fn any_deletion(deletions: &Vec<FolderSyncDeletion>) -> (r: bool)
    ensures
        r == selects_deletion(deletion_views(deletions@)),
{
    let mut i: usize = 0;
    while i < deletions.len()
        invariant
            i <= deletions@.len(),
            forall|j: int| 0 <= j < i ==> !(#[trigger] deletion_views(deletions@)[j]).included,
        decreases deletions@.len() - i,
    {
        assert(deletion_views(deletions@)[i as int] == deletions@[i as int]@);
        if deletions[i].included {
            return true;
        }
        i += 1;
    }
    false
}

/// Why a scan does not start: applying needs a dry run before it, and selected deletions need their
/// own confirmation; both need the folders and the credential.
pub open spec fn start_refusal(
    request: Result<SyncOptions, RefusalView>,
    context: Option<Seq<char>>,
    expected: Option<PreparedView>,
    mirror_confirmed: bool,
    apply: bool,
    has_credential: bool,
) -> Option<RefusalView> {
    match request {
        Err(refusal) => Some(refusal),
        Ok(options) => if context is Some {
            Some(RefusalView { summary: context->0, error: Some(context->0) })
        } else if apply && expected is None {
            Some(
                RefusalView { summary: "Run a dry-run preview before applying."@, error: None },
            )
        } else if apply && options.mode == SyncMode::Mirror && !mirror_confirmed
            && selects_deletion(expected->0.deletions) {
            Some(
                RefusalView {
                    summary:
                        "Confirm the mirror deletion warning before applying selected deletions."@,
                    error: None,
                },
            )
        } else if !has_credential {
            Some(
                RefusalView {
                    summary: "The server credential is unavailable."@,
                    error: Some("missing credential"@),
                },
            )
        } else {
            None
        },
    }
}

/// Start a scan of both folders, for a dry run or to apply one.
pub fn start_folder_sync_scan(
    form: &SyncForm,
    context: &Result<FolderSyncKey, String>,
    expected: Option<&PreparedFolderSync>,
    apply: bool,
    has_credential: bool,
) -> (r: Result<SyncRequest, SyncRefusal>)
    ensures
        ({
            let options = match form_refusal(*form) {
                Some(refusal) => Err(refusal),
                None => Ok(
                    sync_options(
                        direction_named(form.direction@)->0,
                        form.comparison@,
                        form.tolerance@,
                        form.server_clock_offset@,
                        form.mode@,
                    )->Ok_0,
                ),
            };
            let refusal = start_refusal(
                options,
                match *context {
                    Ok(_) => None,
                    Err(e) => Some(e@),
                },
                match expected {
                    Some(prepared) => Some(prepared@),
                    None => None,
                },
                form.mirror_confirmed,
                apply,
                has_credential,
            );
            &&& r is Ok <==> refusal is None
            &&& r matches Err(e) ==> refusal == Some(e@)
            &&& r matches Ok(request) ==> direction_named(form.direction@) == Some(
                request.direction,
            ) && options == Ok::<_, RefusalView>(request.options) && exclusions(form.exclusions@)
                == Ok::<_, Seq<char>>(texts(request.exclusions@))
        }),
{
    let request: SyncRequest = match read_form(form) {
        Err(refusal) => {
            return Err(refusal);
        },
        Ok(request) => request,
    };
    if let Err(e) = context {
        return Err(SyncRefusal { summary: e.clone(), error: Some(e.clone()) });
    }
    if apply {
        match expected {
            None => {
                return Err(
                    SyncRefusal {
                        summary: "Run a dry-run preview before applying.".to_owned(),
                        error: None,
                    },
                );
            },
            Some(prepared) => {
                if request.options.mode == SyncMode::Mirror && !form.mirror_confirmed
                    && any_deletion(&prepared.deletions) {
                    return Err(
                        SyncRefusal {
                            summary: "Confirm the mirror deletion warning before applying selected deletions.".to_owned(),
                            error: None,
                        },
                    );
                }
            },
        }
    }
    if !has_credential {
        return Err(
            SyncRefusal {
                summary: "The server credential is unavailable.".to_owned(),
                error: Some("missing credential".to_owned()),
            },
        );
    }
    Ok(request)
}

/// What is shown while the folders are scanned.
pub fn scanning_text(apply: bool) -> (r: &'static str)
    ensures
        r@ == (if apply {
            "Rechecking both folders before applying…"@
        } else {
            "Scanning both folders for a dry-run preview…"@
        }),
{
    if apply {
        "Rechecking both folders before applying…"
    } else {
        "Scanning both folders for a dry-run preview…"
    }
}

/// Whether the last of several items with a label is selected.
pub open spec fn copy_selection(items: Seq<CandidateView>, label: Seq<char>) -> Option<bool>
    decreases items.len(),
{
    if items.len() == 0 {
        None
    } else if items.last().label == label {
        Some(items.last().included)
    } else {
        copy_selection(items.drop_last(), label)
    }
}

pub open spec fn deletion_selection(items: Seq<DeletionView>, label: Seq<char>) -> Option<bool>
    decreases items.len(),
{
    if items.len() == 0 {
        None
    } else if items.last().label == label {
        Some(items.last().included)
    } else {
        deletion_selection(items.drop_last(), label)
    }
}

pub open spec fn kept(included: bool, earlier: Option<bool>) -> bool {
    match earlier {
        Some(choice) => choice,
        None => included,
    }
}

/// A dry run with the choices that the user made on an earlier one of the same folders under the
/// same policy.
pub open spec fn with_choices(prepared: PreparedView, expected: PreparedView) -> PreparedView {
    if expected.policy == prepared.policy {
        PreparedView {
            candidates: prepared.candidates.map_values(
                |c: CandidateView|
                    CandidateView {
                        included: kept(c.included, copy_selection(expected.candidates, c.label)),
                        ..c
                    },
            ),
            deletions: prepared.deletions.map_values(
                |d: DeletionView|
                    DeletionView {
                        included: kept(
                            d.included,
                            deletion_selection(expected.deletions, d.label),
                        ),
                        ..d
                    },
            ),
            ..prepared
        }
    } else {
        prepared
    }
}

fn find_copy(items: &Vec<FolderSyncCandidate>, label: &str) -> (r: Option<bool>)
    ensures
        r == copy_selection(candidate_views(items@), label@),
{
    let ghost all = candidate_views(items@);
    let mut i: usize = items.len();
    assert(all.take(i as int) =~= all);
    while i > 0
        invariant
            i <= items@.len(),
            all == candidate_views(items@),
            copy_selection(all.take(i as int), label@) == copy_selection(all, label@),
        decreases i,
    {
        assert(all.take(i as int).drop_last() =~= all.take(i - 1));
        assert(all.take(i as int).last() == items@[i - 1]@);
        if same_text(items[i - 1].label.as_str(), label) {
            return Some(items[i - 1].included);
        }
        i -= 1;
    }
    None
}

fn find_deletion(items: &Vec<FolderSyncDeletion>, label: &str) -> (r: Option<bool>)
    ensures
        r == deletion_selection(deletion_views(items@), label@),
{
    let ghost all = deletion_views(items@);
    let mut i: usize = items.len();
    assert(all.take(i as int) =~= all);
    while i > 0
        invariant
            i <= items@.len(),
            all == deletion_views(items@),
            deletion_selection(all.take(i as int), label@) == deletion_selection(all, label@),
        decreases i,
    {
        assert(all.take(i as int).drop_last() =~= all.take(i - 1));
        assert(all.take(i as int).last() == items@[i - 1]@);
        if same_text(items[i - 1].label.as_str(), label) {
            return Some(items[i - 1].included);
        }
        i -= 1;
    }
    None
}

/// Two lists of rules are the same.
fn same_rules(a: &Vec<String>, b: &Vec<String>) -> (r: bool)
    ensures
        r == (texts(a@) == texts(b@)),
{
    if a.len() != b.len() {
        assert(texts(a@).len() != texts(b@).len());
        return false;
    }
    let mut i: usize = 0;
    while i < a.len()
        invariant
            a@.len() == b@.len(),
            i <= a@.len(),
            forall|j: int| 0 <= j < i ==> (#[trigger] a@[j])@ == b@[j]@,
        decreases a@.len() - i,
    {
        if !same_text(a[i].as_str(), b[i].as_str()) {
            assert(texts(a@)[i as int] != texts(b@)[i as int]);
            return false;
        }
        i += 1;
    }
    assert(texts(a@) =~= texts(b@));
    true
}

fn same_policy(a: &PreparedFolderSync, b: &PreparedFolderSync) -> (r: bool)
    ensures
        r == (a@.policy == b@.policy),
{
    a.key.same(&b.key) && a.direction == b.direction && same_rules(&a.exclusions, &b.exclusions)
        && a.options == b.options
}

/// Carry the user's choices over to a fresh dry run.
pub fn carry_choices(prepared: PreparedFolderSync, expected: &PreparedFolderSync) -> (r:
    PreparedFolderSync)
    ensures
        r@ == with_choices(prepared@, expected@),
{
    let mut out: PreparedFolderSync = prepared;
    if !same_policy(expected, &out) {
        return out;
    }
    let ghost copies = candidate_views(out.candidates@);
    let ghost removals = deletion_views(out.deletions@);
    let mut candidates: Vec<FolderSyncCandidate> = Vec::new();
    let mut i: usize = 0;
    while i < out.candidates.len()
        invariant
            i <= out.candidates@.len(),
            copies == candidate_views(out.candidates@),
            candidates@.len() == i,
            forall|j: int|
                0 <= j < i ==> (#[trigger] candidates@[j])@ == (CandidateView {
                    included: kept(
                        copies[j].included,
                        copy_selection(candidate_views(expected.candidates@), copies[j].label),
                    ),
                    ..copies[j]
                }),
        decreases out.candidates@.len() - i,
    {
        let c: &FolderSyncCandidate = &out.candidates[i];
        assert(copies[i as int] == c@);
        let included: bool = match find_copy(&expected.candidates, c.label.as_str()) {
            Some(choice) => choice,
            None => c.included,
        };
        candidates.push(
            FolderSyncCandidate {
                label: c.label.clone(),
                local_path: c.local_path.clone(),
                remote_path: c.remote_path.clone(),
                bytes: c.bytes,
                included,
            },
        );
        i += 1;
    }
    let mut deletions: Vec<FolderSyncDeletion> = Vec::new();
    let mut k: usize = 0;
    while k < out.deletions.len()
        invariant
            k <= out.deletions@.len(),
            removals == deletion_views(out.deletions@),
            deletions@.len() == k,
            forall|j: int|
                0 <= j < k ==> (#[trigger] deletions@[j])@ == (DeletionView {
                    included: kept(
                        removals[j].included,
                        deletion_selection(deletion_views(expected.deletions@), removals[j].label),
                    ),
                    ..removals[j]
                }),
        decreases out.deletions@.len() - k,
    {
        let d: &FolderSyncDeletion = &out.deletions[k];
        assert(removals[k as int] == d@);
        let included: bool = match find_deletion(&expected.deletions, d.label.as_str()) {
            Some(choice) => choice,
            None => d.included,
        };
        deletions.push(
            FolderSyncDeletion {
                label: d.label.clone(),
                local_path: d.local_path.clone(),
                remote_path: d.remote_path.clone(),
                metadata: d.metadata,
                included,
            },
        );
        k += 1;
    }
    proof {
        let wanted = with_choices(prepared@, expected@);
        assert(candidate_views(candidates@) =~= wanted.candidates);
        assert(deletion_views(deletions@) =~= wanted.deletions);
    }
    out.candidates = candidates;
    out.deletions = deletions;
    out
}

fn same_candidate(a: &FolderSyncCandidate, b: &FolderSyncCandidate) -> (r: bool)
    ensures
        r == (a@ == b@),
{
    same_text(a.label.as_str(), b.label.as_str()) && same_text(
        a.local_path.as_str(),
        b.local_path.as_str(),
    ) && same_text(a.remote_path.as_str(), b.remote_path.as_str()) && a.bytes == b.bytes
        && a.included == b.included
}

fn same_digest(a: &Option<[u8; 32]>, b: &Option<[u8; 32]>) -> (r: bool)
    ensures
        r == (match (*a, *b) {
            (Some(x), Some(y)) => x@ == y@,
            (None, None) => true,
            _ => false,
        }),
{
    match (a, b) {
        (Some(x), Some(y)) => crate::net::safe::same_bytes(x.as_slice(), y.as_slice()),
        (None, None) => true,
        _ => false,
    }
}

fn same_time(a: Option<i64>, b: Option<i64>) -> (r: bool)
    ensures
        r == (a == b),
{
    match (a, b) {
        (Some(x), Some(y)) => x == y,
        (None, None) => true,
        _ => false,
    }
}

fn same_deletion(a: &FolderSyncDeletion, b: &FolderSyncDeletion) -> (r: bool)
    ensures
        r == (a@ == b@),
{
    same_text(a.label.as_str(), b.label.as_str()) && same_text(
        a.local_path.as_str(),
        b.local_path.as_str(),
    ) && same_text(a.remote_path.as_str(), b.remote_path.as_str()) && a.metadata.bytes
        == b.metadata.bytes && same_time(a.metadata.modified, b.metadata.modified) && same_digest(
        &a.metadata.sha256,
        &b.metadata.sha256,
    ) && a.included == b.included
}

fn same_actions(a: &Vec<SyncAction>, b: &Vec<SyncAction>) -> (r: bool)
    ensures
        r == (action_views(a@) == action_views(b@)),
{
    if a.len() != b.len() {
        assert(action_views(a@).len() != action_views(b@).len());
        return false;
    }
    let mut i: usize = 0;
    while i < a.len()
        invariant
            a@.len() == b@.len(),
            i <= a@.len(),
            forall|j: int| 0 <= j < i ==> (#[trigger] a@[j])@ == b@[j]@,
        decreases a@.len() - i,
    {
        let same: bool = same_text(a[i].relative_path.as_str(), b[i].relative_path.as_str())
            && a[i].bytes == b[i].bytes && a[i].reason == b[i].reason;
        if !same {
            assert(action_views(a@)[i as int] != action_views(b@)[i as int]);
            return false;
        }
        i += 1;
    }
    assert(action_views(a@) =~= action_views(b@));
    true
}

fn same_candidates(a: &Vec<FolderSyncCandidate>, b: &Vec<FolderSyncCandidate>) -> (r: bool)
    ensures
        r == (candidate_views(a@) == candidate_views(b@)),
{
    if a.len() != b.len() {
        assert(candidate_views(a@).len() != candidate_views(b@).len());
        return false;
    }
    let mut i: usize = 0;
    while i < a.len()
        invariant
            a@.len() == b@.len(),
            i <= a@.len(),
            forall|j: int| 0 <= j < i ==> (#[trigger] a@[j])@ == b@[j]@,
        decreases a@.len() - i,
    {
        if !same_candidate(&a[i], &b[i]) {
            assert(candidate_views(a@)[i as int] != candidate_views(b@)[i as int]);
            return false;
        }
        i += 1;
    }
    assert(candidate_views(a@) =~= candidate_views(b@));
    true
}

fn same_deletions(a: &Vec<FolderSyncDeletion>, b: &Vec<FolderSyncDeletion>) -> (r: bool)
    ensures
        r == (deletion_views(a@) == deletion_views(b@)),
{
    if a.len() != b.len() {
        assert(deletion_views(a@).len() != deletion_views(b@).len());
        return false;
    }
    let mut i: usize = 0;
    while i < a.len()
        invariant
            a@.len() == b@.len(),
            i <= a@.len(),
            forall|j: int| 0 <= j < i ==> (#[trigger] a@[j])@ == b@[j]@,
        decreases a@.len() - i,
    {
        if !same_deletion(&a[i], &b[i]) {
            assert(deletion_views(a@)[i as int] != deletion_views(b@)[i as int]);
            return false;
        }
        i += 1;
    }
    assert(deletion_views(a@) =~= deletion_views(b@));
    true
}

/// Two dry runs agree in everything, the user's choices included.
pub fn same_dry_run(a: &PreparedFolderSync, b: &PreparedFolderSync) -> (r: bool)
    ensures
        r == (a@ == b@),
{
    same_policy(a, b) && same_actions(&a.preview.actions, &b.preview.actions) && same_actions(
        &a.preview.deletions,
        &b.preview.deletions,
    ) && a.preview.unchanged == b.preview.unchanged && a.preview.target_only
        == b.preview.target_only && a.preview.excluded == b.preview.excluded && same_candidates(
        &a.candidates,
        &b.candidates,
    ) && same_deletions(&a.deletions, &b.deletions)
}

/// Something is selected to be copied.
pub open spec fn selects_copy(candidates: Seq<CandidateView>) -> bool {
    exists|i: int| 0 <= i < candidates.len() && (#[trigger] candidates[i]).included
}

fn any_copy(candidates: &Vec<FolderSyncCandidate>) -> (r: bool)
    ensures
        r == selects_copy(candidate_views(candidates@)),
{
    let mut i: usize = 0;
    while i < candidates.len()
        invariant
            i <= candidates@.len(),
            forall|j: int| 0 <= j < i ==> !(#[trigger] candidate_views(candidates@)[j]).included,
        decreases candidates@.len() - i,
    {
        assert(candidate_views(candidates@)[i as int] == candidates@[i as int]@);
        if candidates[i].included {
            return true;
        }
        i += 1;
    }
    false
}

/// What follows a scan.
#[derive(Debug, PartialEq, Eq)]
pub enum ScanOutcome {
    /// A later scan has taken the place of this one.
    Superseded,
    /// Show this. A scan that has failed is an error; that a pane has changed is not.
    Failed(SyncRefusal),
    /// Keep the dry run and show it; the flag says that it differs from the one to be applied.
    Preview { prepared: PreparedFolderSync, changed: bool },
    /// Nothing is selected.
    NothingSelected,
    /// Carry the dry run out.
    Apply(PreparedFolderSync),
}

pub ghost enum OutcomeView {
    Superseded,
    Failed(RefusalView),
    Preview { prepared: PreparedView, changed: bool },
    NothingSelected,
    Apply(PreparedView),
}

impl View for ScanOutcome {
    type V = OutcomeView;

    open spec fn view(&self) -> OutcomeView {
        match *self {
            ScanOutcome::Superseded => OutcomeView::Superseded,
            ScanOutcome::Failed(refusal) => OutcomeView::Failed(refusal@),
            ScanOutcome::Preview { prepared, changed } => OutcomeView::Preview {
                prepared: prepared@,
                changed,
            },
            ScanOutcome::NothingSelected => OutcomeView::NothingSelected,
            ScanOutcome::Apply(prepared) => OutcomeView::Apply(prepared@),
        }
    }
}

/// What follows a scan. Only a dry run that is exactly the one shown to the user is carried out;
/// one that differs is shown again.
pub open spec fn scan_outcome(
    latest: bool,
    prepared: Result<PreparedView, Seq<char>>,
    context_current: bool,
    expected: Option<PreparedView>,
    apply: bool,
) -> OutcomeView {
    if !latest {
        OutcomeView::Superseded
    } else {
        match prepared {
            Err(e) => OutcomeView::Failed(
                RefusalView {
                    summary: "Sync preview failed: "@ + e,
                    error: Some("Sync preview failed: "@ + e),
                },
            ),
            Ok(fresh) => if !context_current {
                OutcomeView::Failed(
                    RefusalView {
                        summary: "A pane changed during the scan; run the preview again."@,
                        error: None,
                    },
                )
            } else {
                match expected {
                    None => OutcomeView::Preview { prepared: fresh, changed: false },
                    Some(shown) => {
                        let chosen = with_choices(fresh, shown);
                        if !apply {
                            OutcomeView::Preview { prepared: chosen, changed: false }
                        } else if shown != chosen {
                            OutcomeView::Preview { prepared: chosen, changed: true }
                        } else if !selects_copy(chosen.candidates) && !selects_deletion(
                            chosen.deletions,
                        ) {
                            OutcomeView::NothingSelected
                        } else {
                            OutcomeView::Apply(chosen)
                        }
                    },
                }
            },
        }
    }
}

/// Decide what follows a scan. `expected` is the dry run that was shown, where one is to be applied.
pub fn after_scan(
    latest: bool,
    prepared: Result<PreparedFolderSync, String>,
    context_current: bool,
    expected: Option<&PreparedFolderSync>,
    apply: bool,
) -> (r: ScanOutcome)
    ensures
        r@ == scan_outcome(
            latest,
            match prepared {
                Ok(p) => Ok(p@),
                Err(e) => Err(e@),
            },
            context_current,
            match expected {
                Some(p) => Some(p@),
                None => None,
            },
            apply,
        ),
{
    if !latest {
        return ScanOutcome::Superseded;
    }
    let fresh: PreparedFolderSync = match prepared {
        Err(e) => {
            let text: String = plus("Sync preview failed: ".to_owned(), e.as_str());
            return ScanOutcome::Failed(SyncRefusal { summary: text.clone(), error: Some(text) });
        },
        Ok(fresh) => fresh,
    };
    if !context_current {
        return ScanOutcome::Failed(
            SyncRefusal {
                summary: "A pane changed during the scan; run the preview again.".to_owned(),
                error: None,
            },
        );
    }
    match expected {
        None => ScanOutcome::Preview { prepared: fresh, changed: false },
        Some(shown) => {
            let chosen: PreparedFolderSync = carry_choices(fresh, shown);
            if !apply {
                ScanOutcome::Preview { prepared: chosen, changed: false }
            } else if !same_dry_run(shown, &chosen) {
                ScanOutcome::Preview { prepared: chosen, changed: true }
            } else if !any_copy(&chosen.candidates) && !any_deletion(&chosen.deletions) {
                ScanOutcome::NothingSelected
            } else {
                ScanOutcome::Apply(chosen)
            }
        },
    }
}

/// Nothing is carried out that the user has not seen: the run that is applied agrees in every file,
/// reason and choice with the dry run that was shown, the folders are still the ones shown, and no
/// other scan has been started since.
pub proof fn only_what_was_shown_is_applied(
    latest: bool,
    prepared: Result<PreparedView, Seq<char>>,
    context_current: bool,
    expected: Option<PreparedView>,
    apply: bool,
    run: PreparedView,
)
    requires
        scan_outcome(latest, prepared, context_current, expected, apply) == OutcomeView::Apply(run),
    ensures
        apply,
        latest,
        context_current,
        expected == Some(run),
        selects_copy(run.candidates) || selects_deletion(run.deletions),
{
}

/// A dry run alone never leads to a synchronization.
pub proof fn previews_apply_nothing(
    latest: bool,
    prepared: Result<PreparedView, Seq<char>>,
    context_current: bool,
    expected: Option<PreparedView>,
)
    ensures
        !(scan_outcome(latest, prepared, context_current, expected, false) is Apply),
{
}

/// Selected deletions of a mirror are never applied without their own confirmation.
pub proof fn deletions_need_confirmation(
    request: Result<SyncOptions, RefusalView>,
    context: Option<Seq<char>>,
    expected: PreparedView,
    has_credential: bool,
)
    requires
        request matches Ok(options) && options.mode == SyncMode::Mirror,
        selects_deletion(expected.deletions),
    ensures
        start_refusal(request, context, Some(expected), false, true, has_credential) is Some,
{
}

/// The selected ones, in order.
pub open spec fn selected_copies(candidates: Seq<CandidateView>) -> Seq<CandidateView>
    decreases candidates.len(),
{
    if candidates.len() == 0 {
        Seq::empty()
    } else if candidates.last().included {
        selected_copies(candidates.drop_last()).push(candidates.last())
    } else {
        selected_copies(candidates.drop_last())
    }
}

pub open spec fn selected_deletions(deletions: Seq<DeletionView>) -> Seq<DeletionView>
    decreases deletions.len(),
{
    if deletions.len() == 0 {
        Seq::empty()
    } else if deletions.last().included {
        selected_deletions(deletions.drop_last()).push(deletions.last())
    } else {
        selected_deletions(deletions.drop_last())
    }
}

pub fn copies_to_queue(candidates: &Vec<FolderSyncCandidate>) -> (r: Vec<FolderSyncCandidate>)
    ensures
        candidate_views(r@) == selected_copies(candidate_views(candidates@)),
{
    let ghost all = candidate_views(candidates@);
    let mut out: Vec<FolderSyncCandidate> = Vec::new();
    let mut i: usize = 0;
    assert(candidate_views(out@) =~= Seq::<CandidateView>::empty());
    while i < candidates.len()
        invariant
            i <= candidates@.len(),
            all == candidate_views(candidates@),
            candidate_views(out@) == selected_copies(all.take(i as int)),
        decreases candidates@.len() - i,
    {
        assert(all.take(i + 1).drop_last() =~= all.take(i as int));
        assert(all.take(i + 1).last() == candidates@[i as int]@);
        let c: &FolderSyncCandidate = &candidates[i];
        if c.included {
            let ghost before = out@;
            out.push(
                FolderSyncCandidate {
                    label: c.label.clone(),
                    local_path: c.local_path.clone(),
                    remote_path: c.remote_path.clone(),
                    bytes: c.bytes,
                    included: true,
                },
            );
            assert(candidate_views(out@) =~= candidate_views(before).push(c@));
        }
        i += 1;
    }
    assert(all.take(all.len() as int) =~= all);
    out
}

pub fn deletions_to_run(deletions: &Vec<FolderSyncDeletion>) -> (r: Vec<FolderSyncDeletion>)
    ensures
        deletion_views(r@) == selected_deletions(deletion_views(deletions@)),
{
    let ghost all = deletion_views(deletions@);
    let mut out: Vec<FolderSyncDeletion> = Vec::new();
    let mut i: usize = 0;
    assert(deletion_views(out@) =~= Seq::<DeletionView>::empty());
    while i < deletions.len()
        invariant
            i <= deletions@.len(),
            all == deletion_views(deletions@),
            deletion_views(out@) == selected_deletions(all.take(i as int)),
        decreases deletions@.len() - i,
    {
        assert(all.take(i + 1).drop_last() =~= all.take(i as int));
        assert(all.take(i + 1).last() == deletions@[i as int]@);
        let d: &FolderSyncDeletion = &deletions[i];
        if d.included {
            let ghost before = out@;
            out.push(
                FolderSyncDeletion {
                    label: d.label.clone(),
                    local_path: d.local_path.clone(),
                    remote_path: d.remote_path.clone(),
                    metadata: d.metadata,
                    included: true,
                },
            );
            assert(deletion_views(out@) =~= deletion_views(before).push(d@));
        }
        i += 1;
    }
    assert(all.take(all.len() as int) =~= all);
    out
}

/// What the status line says once a synchronization has been started.
pub open spec fn queued_text(count: nat, has_deletions: bool) -> Seq<char> {
    if count == 0 && has_deletions {
        "rechecking selected mirror deletions…"@
    } else if has_deletions {
        "queued "@ + decimal(count) + " synchronized file(s); deletions wait for every copy…"@
    } else {
        "queued "@ + decimal(count) + " synchronized file(s)…"@
    }
}

pub fn queued_status(count: usize, has_deletions: bool) -> (r: String)
    ensures
        r@ == queued_text(count as nat, has_deletions),
{
    if count == 0 && has_deletions {
        return "rechecking selected mirror deletions…".to_owned();
    }
    let number: String = string_of(&to_decimal(count as u64));
    let start: String = plus("queued ".to_owned(), number.as_str());
    if has_deletions {
        plus(start, " synchronized file(s); deletions wait for every copy…")
    } else {
        plus(start, " synchronized file(s)…")
    }
}

/// Turn the choice of one row over. The copies come first, then the deletions.
pub open spec fn toggled(prepared: PreparedView, row: int) -> PreparedView {
    let n = prepared.candidates.len();
    if 0 <= row < n {
        PreparedView {
            candidates: prepared.candidates.update(
                row,
                CandidateView {
                    included: !prepared.candidates[row].included,
                    ..prepared.candidates[row]
                },
            ),
            ..prepared
        }
    } else if n <= row < n + prepared.deletions.len() {
        PreparedView {
            deletions: prepared.deletions.update(
                row - n,
                DeletionView {
                    included: !prepared.deletions[row - n].included,
                    ..prepared.deletions[row - n]
                },
            ),
            ..prepared
        }
    } else {
        prepared
    }
}

/// Turn the choice of one row over, unless there is no such row.
pub fn toggle_sync_row(prepared: &mut PreparedFolderSync, row: usize) -> (r: bool)
    ensures
        final(prepared)@ == toggled(old(prepared)@, row as int),
        r == (row < old(prepared)@.candidates.len() + old(prepared)@.deletions.len()),
{
    let n: usize = prepared.candidates.len();
    if row < n {
        let ghost before = prepared.candidates@;
        let c: &FolderSyncCandidate = &prepared.candidates[row];
        let turned = FolderSyncCandidate {
            label: c.label.clone(),
            local_path: c.local_path.clone(),
            remote_path: c.remote_path.clone(),
            bytes: c.bytes,
            included: !c.included,
        };
        let ghost view = turned@;
        prepared.candidates.set(row, turned);
        assert(candidate_views(prepared.candidates@) =~= candidate_views(before).update(
            row as int,
            view,
        ));
        true
    } else if row - n < prepared.deletions.len() {
        let k: usize = row - n;
        let ghost before = prepared.deletions@;
        let d: &FolderSyncDeletion = &prepared.deletions[k];
        let turned = FolderSyncDeletion {
            label: d.label.clone(),
            local_path: d.local_path.clone(),
            remote_path: d.remote_path.clone(),
            metadata: d.metadata,
            included: !d.included,
        };
        let ghost view = turned@;
        prepared.deletions.set(k, turned);
        assert(deletion_views(prepared.deletions@) =~= deletion_views(before).update(
            k as int,
            view,
        ));
        true
    } else {
        false
    }
}

/// Turning a row over twice leaves the dry run as it was.
pub proof fn toggling_twice_changes_nothing(prepared: PreparedView, row: int)
    ensures
        toggled(toggled(prepared, row), row) == prepared,
{
    let once = toggled(prepared, row);
    let twice = toggled(once, row);
    assert(twice.candidates =~= prepared.candidates);
    assert(twice.deletions =~= prepared.deletions);
}

} // verus!
