//! Saving and deleting connections together with their credentials.
//!
//! The list of connections and the credentials live in two stores, and either can fail. A save
//! therefore goes step by step: nothing that is shown changes before the list is durable, a password
//! that was written for a list that could not be saved is taken back, and a credential is removed
//! only when no saved connection needs it any more.

use vstd::prelude::*;

use crate::controllers::editor::{
    describes, draft_password, draft_refusal, editor_connection_draft, EditorForm, EditorLimits,
};
use crate::model::connection::{ConnectionId, ConnectionSpec, SftpAuth};
use crate::model::protocol::Protocol;
use crate::text::{plus, same_text};

verus! {

/// The key under which the credential of an endpoint is kept.
#[derive(Debug, PartialEq, Eq)]
pub struct CredentialKey {
    /// A text that is the same for the same protocol, host, port and user, and for no others.
    pub endpoint: String,
    pub host: String,
    pub user: String,
}

pub ghost struct KeyView {
    pub endpoint: Seq<char>,
    pub host: Seq<char>,
    pub user: Seq<char>,
}

impl View for CredentialKey {
    type V = KeyView;

    open spec fn view(&self) -> KeyView {
        KeyView { endpoint: self.endpoint@, host: self.host@, user: self.user@ }
    }
}

impl Clone for CredentialKey {
    fn clone(&self) -> (r: Self)
        ensures
            r == *self,
    {
        CredentialKey {
            endpoint: self.endpoint.clone(),
            host: self.host.clone(),
            user: self.user.clone(),
        }
    }
}

pub fn same_key(a: &CredentialKey, b: &CredentialKey) -> (r: bool)
    ensures
        r == (a@ == b@),
{
    same_text(a.endpoint.as_str(), b.endpoint.as_str()) && same_text(
        a.host.as_str(),
        b.host.as_str(),
    ) && same_text(a.user.as_str(), b.user.as_str())
}

/// What one row of the list means for the credentials.
#[derive(Debug, PartialEq, Eq)]
pub struct CredentialUse {
    /// The key of its endpoint, if it has one.
    pub key: Option<CredentialKey>,
    /// Whether it logs in with a saved secret.
    pub needs_secret: bool,
}

pub ghost struct UseView {
    pub key: Option<KeyView>,
    pub needs_secret: bool,
}

impl View for CredentialUse {
    type V = UseView;

    open spec fn view(&self) -> UseView {
        UseView {
            key: match self.key {
                Some(k) => Some(k@),
                None => None,
            },
            needs_secret: self.needs_secret,
        }
    }
}

pub open spec fn use_views(rows: Seq<CredentialUse>) -> Seq<UseView> {
    rows.map_values(|u: CredentialUse| u@)
}

/// Whether a connection logs in with a saved secret.
pub open spec fn secret_needed(spec: ConnectionSpec) -> bool {
    !(spec.protocol == Protocol::Sftp && (spec.sftp_auth == SftpAuth::Agent || spec.sftp_auth
        == SftpAuth::KeyboardInteractive))
}

pub fn needs_secret(spec: &ConnectionSpec) -> (r: bool)
    ensures
        r == secret_needed(*spec),
{
    !(spec.protocol == Protocol::Sftp && (spec.sftp_auth == SftpAuth::Agent || spec.sftp_auth
        == SftpAuth::KeyboardInteractive))
}

/// Some row has the key.
pub open spec fn key_listed(rows: Seq<UseView>, key: KeyView) -> bool {
    exists|i: int| 0 <= i < rows.len() && (#[trigger] rows[i]).key == Some(key)
}

/// Some row that logs in with a secret has the key.
pub open spec fn secret_listed(rows: Seq<UseView>, key: KeyView) -> bool {
    exists|i: int|
        0 <= i < rows.len() && (#[trigger] rows[i]).key == Some(key) && rows[i].needs_secret
}

pub open spec fn same_login(a: Option<KeyView>, b: KeyView) -> bool {
    a matches Some(k) && k.host == b.host && k.user == b.user
}

/// Some row has the host and the user of the key, at whatever port and protocol.
pub open spec fn login_listed(rows: Seq<UseView>, key: KeyView) -> bool {
    exists|i: int| 0 <= i < rows.len() && same_login((#[trigger] rows[i]).key, key)
}

fn lists_key(rows: &Vec<CredentialUse>, key: &CredentialKey) -> (r: bool)
    ensures
        r == key_listed(use_views(rows@), key@),
{
    let mut i: usize = 0;
    while i < rows.len()
        invariant
            i <= rows@.len(),
            forall|j: int| 0 <= j < i ==> (#[trigger] use_views(rows@)[j]).key != Some(key@),
        decreases rows@.len() - i,
    {
        assert(use_views(rows@)[i as int] == rows@[i as int]@);
        let found: bool = match &rows[i].key {
            Some(k) => same_key(k, key),
            None => false,
        };
        if found {
            return true;
        }
        i += 1;
    }
    false
}

fn lists_secret(rows: &Vec<CredentialUse>, key: &CredentialKey) -> (r: bool)
    ensures
        r == secret_listed(use_views(rows@), key@),
{
    let mut i: usize = 0;
    while i < rows.len()
        invariant
            i <= rows@.len(),
            forall|j: int|
                0 <= j < i ==> !((#[trigger] use_views(rows@)[j]).key == Some(key@) && use_views(
                    rows@,
                )[j].needs_secret),
        decreases rows@.len() - i,
    {
        assert(use_views(rows@)[i as int] == rows@[i as int]@);
        let found: bool = match &rows[i].key {
            Some(k) => rows[i].needs_secret && same_key(k, key),
            None => false,
        };
        if found {
            return true;
        }
        i += 1;
    }
    false
}

fn lists_login(rows: &Vec<CredentialUse>, key: &CredentialKey) -> (r: bool)
    ensures
        r == login_listed(use_views(rows@), key@),
{
    let mut i: usize = 0;
    while i < rows.len()
        invariant
            i <= rows@.len(),
            forall|j: int| 0 <= j < i ==> !same_login((#[trigger] use_views(rows@)[j]).key, key@),
        decreases rows@.len() - i,
    {
        assert(use_views(rows@)[i as int] == rows@[i as int]@);
        let found: bool = match &rows[i].key {
            Some(k) => same_text(k.host.as_str(), key.host.as_str()) && same_text(
                k.user.as_str(),
                key.user.as_str(),
            ),
            None => false,
        };
        if found {
            return true;
        }
        i += 1;
    }
    false
}

// --- the list with the edited connection -------------------------------------------------------

/// The first connection that a row of the manager stands for.
pub open spec fn connection_at(list: Seq<ConnectionSpec>, id: i32, from: int) -> Option<int>
    decreases list.len() - from,
{
    if from < 0 || from >= list.len() {
        None
    } else if list[from].id.0 as i32 == id {
        Some(from)
    } else {
        connection_at(list, id, from + 1)
    }
}

pub fn find_connection(list: &Vec<ConnectionSpec>, id: i32) -> (r: Option<usize>)
    ensures
        match connection_at(list@, id, 0) {
            Some(i) => r == Some(i as usize) && 0 <= i < list@.len(),
            None => r is None,
        },
{
    let mut i: usize = 0;
    while i < list.len()
        invariant
            i <= list@.len(),
            connection_at(list@, id, i as int) == connection_at(list@, id, 0),
        decreases list@.len() - i,
    {
        if list[i].id.0 as i32 == id {
            return Some(i);
        }
        i += 1;
    }
    None
}

/// An edited connection, ready to be saved.
#[derive(Debug, PartialEq, Eq)]
pub struct SaveDraft {
    /// The whole list as it will be.
    pub candidate: Vec<ConnectionSpec>,
    /// Where the connection stands in it.
    pub position: usize,
    pub password: String,
}

/// The identity of the connection that is saved: its own, or the next free one.
pub open spec fn saved_id(id: i32, next_id: usize) -> ConnectionId {
    if id < 0 {
        ConnectionId(next_id)
    } else {
        ConnectionId(id as usize)
    }
}

/// Put the edited connection into the list; a negative `id` adds a new one.
pub fn begin_save(
    current: Vec<ConnectionSpec>,
    id: i32,
    form: &EditorForm,
    limits: &EditorLimits,
    next_id: usize,
) -> (r: Result<SaveDraft, String>)
    ensures
        match r {
            Ok(draft) => {
                let at = connection_at(current@, id, 0);
                let spec = draft.candidate@[draft.position as int];
                &&& draft_refusal(*form, *limits) is None
                &&& describes(*form, *limits, saved_id(id, next_id), spec)
                &&& draft.password@ == draft_password(*form)
                &&& id < 0 ==> draft.position == current@.len() && draft.candidate@
                    == current@.push(spec)
                &&& id >= 0 ==> at == Some(draft.position as int) && draft.candidate@
                    == current@.update(draft.position as int, spec)
            },
            Err(e) => if id >= 0 && connection_at(current@, id, 0) is None {
                e@ == "connection no longer exists"@
            } else {
                draft_refusal(*form, *limits) == Some(e@)
            },
        },
{
    let mut position: usize = current.len();
    if id >= 0 {
        match find_connection(&current, id) {
            Some(i) => {
                position = i;
            },
            None => {
                return Err("connection no longer exists".to_owned());
            },
        }
    }
    let connection_id: ConnectionId = if id < 0 {
        ConnectionId(next_id)
    } else {
        ConnectionId(id as usize)
    };
    let (spec, password) = match editor_connection_draft(form, connection_id, limits) {
        Ok(draft) => draft,
        Err(error) => {
            return Err(error);
        },
    };
    let mut candidate: Vec<ConnectionSpec> = current;
    if id < 0 {
        candidate.push(spec);
    } else {
        candidate.set(position, spec);
    }
    Ok(SaveDraft { candidate, position, password })
}

// --- saving ------------------------------------------------------------------------------------

/// How a save ends.
#[derive(Debug, PartialEq, Eq)]
pub enum SaveEnd {
    /// Nothing was saved; the form stays open.
    Refused(String),
    /// The list is saved and the form closes. Its secrets are wiped unless the old credential could
    /// not even be identified.
    Saved { message: String, wiped: bool },
}

pub ghost enum SaveEndView {
    Refused(Seq<char>),
    Saved { message: Seq<char>, wiped: bool },
}

impl View for SaveEnd {
    type V = SaveEndView;

    open spec fn view(&self) -> SaveEndView {
        match *self {
            SaveEnd::Refused(e) => SaveEndView::Refused(e@),
            SaveEnd::Saved { message, wiped } => SaveEndView::Saved { message: message@, wiped },
        }
    }
}

#[derive(Debug, PartialEq, Eq)]
pub enum SavePhase {
    /// Read the credential that the password will replace.
    ReadPrior,
    WritePassword,
    SaveList,
    /// The list could not be saved; take the password back.
    Rollback(String),
    /// The list is durable; show it.
    Commit,
    /// Remove the credential of the endpoint, which no row logs in with.
    RemoveUnused,
    /// Remove the credential of the endpoint that the connection had before.
    RemoveOld,
    /// Remove what was kept for the host and the user alone.
    RemoveLegacy,
    Over(SaveEnd),
}

pub ghost enum SavePhaseView {
    ReadPrior,
    WritePassword,
    SaveList,
    Rollback(Seq<char>),
    Commit,
    RemoveUnused,
    RemoveOld,
    RemoveLegacy,
    Over(SaveEndView),
}

impl View for SavePhase {
    type V = SavePhaseView;

    open spec fn view(&self) -> SavePhaseView {
        match *self {
            SavePhase::ReadPrior => SavePhaseView::ReadPrior,
            SavePhase::WritePassword => SavePhaseView::WritePassword,
            SavePhase::SaveList => SavePhaseView::SaveList,
            SavePhase::Rollback(e) => SavePhaseView::Rollback(e@),
            SavePhase::Commit => SavePhaseView::Commit,
            SavePhase::RemoveUnused => SavePhaseView::RemoveUnused,
            SavePhase::RemoveOld => SavePhaseView::RemoveOld,
            SavePhase::RemoveLegacy => SavePhaseView::RemoveLegacy,
            SavePhase::Over(end) => SavePhaseView::Over(end@),
        }
    }
}

/// What a store answered.
#[derive(Debug, PartialEq, Eq)]
pub enum StoreAnswer {
    /// The credential is there.
    Found,
    /// There is no such credential.
    Missing,
    /// What was asked for is done.
    Succeeded,
    Failed(String),
}

pub ghost enum AnswerView {
    Found,
    Missing,
    Succeeded,
    Failed(Seq<char>),
}

impl View for StoreAnswer {
    type V = AnswerView;

    open spec fn view(&self) -> AnswerView {
        match *self {
            StoreAnswer::Found => AnswerView::Found,
            StoreAnswer::Missing => AnswerView::Missing,
            StoreAnswer::Succeeded => AnswerView::Succeeded,
            StoreAnswer::Failed(e) => AnswerView::Failed(e@),
        }
    }
}

/// What a run asks the stores to do.
#[derive(Debug, PartialEq, Eq)]
pub enum StoreRequest {
    Read(CredentialKey),
    /// Write the password.
    Write(CredentialKey),
    /// Write back what was read.
    Restore(CredentialKey),
    /// Remove the credential, and forget it where it is remembered.
    Remove(CredentialKey),
    RemoveLegacy { host: String, user: String },
    SaveList,
    /// Show the new list; remember the password under the key, if there is one.
    Commit(Option<CredentialKey>),
    Nothing,
}

pub ghost enum RequestView {
    Read(KeyView),
    Write(KeyView),
    Restore(KeyView),
    Remove(KeyView),
    RemoveLegacy { host: Seq<char>, user: Seq<char> },
    SaveList,
    Commit(Option<KeyView>),
    Nothing,
}

impl View for StoreRequest {
    type V = RequestView;

    open spec fn view(&self) -> RequestView {
        match *self {
            StoreRequest::Read(k) => RequestView::Read(k@),
            StoreRequest::Write(k) => RequestView::Write(k@),
            StoreRequest::Restore(k) => RequestView::Restore(k@),
            StoreRequest::Remove(k) => RequestView::Remove(k@),
            StoreRequest::RemoveLegacy { host, user } => RequestView::RemoveLegacy {
                host: host@,
                user: user@,
            },
            StoreRequest::SaveList => RequestView::SaveList,
            StoreRequest::Commit(k) => RequestView::Commit(
                match k {
                    Some(key) => Some(key@),
                    None => None,
                },
            ),
            StoreRequest::Nothing => RequestView::Nothing,
        }
    }
}

pub ghost struct SaveView {
    pub name: Seq<char>,
    pub is_new: bool,
    pub has_password: bool,
    pub new_key: KeyView,
    /// The key that the edited connection had, or why it has none.
    pub old_key: Option<Result<KeyView, Seq<char>>>,
    /// The rows of the new list.
    pub rows: Seq<UseView>,
    pub had_prior: bool,
    pub cleanup_error: Option<Seq<char>>,
    pub phase: SavePhaseView,
}

impl SaveView {
    pub open spec fn request(self) -> RequestView {
        match self.phase {
            SavePhaseView::ReadPrior => RequestView::Read(self.new_key),
            SavePhaseView::WritePassword => RequestView::Write(self.new_key),
            SavePhaseView::SaveList => RequestView::SaveList,
            SavePhaseView::Rollback(_) => if self.had_prior {
                RequestView::Restore(self.new_key)
            } else {
                RequestView::Remove(self.new_key)
            },
            SavePhaseView::Commit => RequestView::Commit(
                if self.has_password {
                    Some(self.new_key)
                } else {
                    None
                },
            ),
            SavePhaseView::RemoveUnused => RequestView::Remove(self.new_key),
            SavePhaseView::RemoveOld => RequestView::Remove(self.old_key->0->Ok_0),
            SavePhaseView::RemoveLegacy => RequestView::RemoveLegacy {
                host: self.old_key->0->Ok_0.host,
                user: self.old_key->0->Ok_0.user,
            },
            SavePhaseView::Over(_) => RequestView::Nothing,
        }
    }

    pub open spec fn at(self, phase: SavePhaseView) -> SaveView {
        SaveView { phase, ..self }
    }

    pub open spec fn refused(self, text: Seq<char>) -> SaveView {
        self.at(SavePhaseView::Over(SaveEndView::Refused(text)))
    }

    /// The text about a save that went through.
    pub open spec fn closing_text(self) -> Seq<char> {
        match self.cleanup_error {
            Some(e) => "saved “"@ + self.name + "”, but could not remove the old credential: "@
                + e,
            None => if self.is_new {
                "added “"@ + self.name + "”"@
            } else {
                "saved “"@ + self.name + "”"@
            },
        }
    }

    pub open spec fn closed(self) -> SaveView {
        self.at(
            SavePhaseView::Over(SaveEndView::Saved { message: self.closing_text(), wiped: true }),
        )
    }

    /// The endpoint changed.
    pub open spec fn moved(self) -> bool {
        self.old_key matches Some(Ok(old)) && old != self.new_key
    }

    pub open spec fn to_legacy(self) -> SaveView {
        if self.moved() && !login_listed(self.rows, self.old_key->0->Ok_0) {
            self.at(SavePhaseView::RemoveLegacy)
        } else {
            self.closed()
        }
    }

    pub open spec fn to_old(self) -> SaveView {
        match self.old_key {
            Some(Err(e)) => self.at(
                SavePhaseView::Over(
                    SaveEndView::Saved {
                        message: "saved “"@ + self.name
                            + "”, but could not identify the old credential: "@ + e,
                        wiped: false,
                    },
                ),
            ),
            _ => if self.moved() && !key_listed(self.rows, self.old_key->0->Ok_0) {
                self.at(SavePhaseView::RemoveOld)
            } else {
                self.to_legacy()
            },
        }
    }

    pub open spec fn to_unused(self) -> SaveView {
        if secret_listed(self.rows, self.new_key) {
            self.to_old()
        } else {
            self.at(SavePhaseView::RemoveUnused)
        }
    }

    pub open spec fn failing(self, text: Seq<char>) -> SaveView {
        SaveView { cleanup_error: Some(text), ..self }
    }

    /// The state after an answer; one that the phase does not wait for changes nothing.
    pub open spec fn next(self, answer: AnswerView) -> SaveView {
        match self.phase {
            SavePhaseView::ReadPrior => match answer {
                AnswerView::Found => (SaveView { had_prior: true, ..self }).at(
                    SavePhaseView::WritePassword,
                ),
                AnswerView::Missing => (SaveView { had_prior: false, ..self }).at(
                    SavePhaseView::WritePassword,
                ),
                AnswerView::Failed(e) => self.refused("could not safely update credential: "@ + e),
                AnswerView::Succeeded => self,
            },
            SavePhaseView::WritePassword => match answer {
                AnswerView::Succeeded => self.at(SavePhaseView::SaveList),
                AnswerView::Failed(e) => self.refused("credential error: "@ + e),
                _ => self,
            },
            SavePhaseView::SaveList => match answer {
                AnswerView::Succeeded => self.at(SavePhaseView::Commit),
                AnswerView::Failed(e) => if self.has_password {
                    self.at(SavePhaseView::Rollback(e))
                } else {
                    self.refused("could not save connection metadata: "@ + e)
                },
                _ => self,
            },
            SavePhaseView::Rollback(failure) => match answer {
                AnswerView::Succeeded => self.refused(
                    "could not save connection metadata: "@ + failure,
                ),
                AnswerView::Failed(e) => self.refused(
                    "could not save connection metadata: "@ + failure
                        + "; credential rollback also failed: "@ + e,
                ),
                _ => self,
            },
            SavePhaseView::Commit => match answer {
                AnswerView::Succeeded => self.to_unused(),
                _ => self,
            },
            SavePhaseView::RemoveUnused => match answer {
                AnswerView::Succeeded => self.to_old(),
                AnswerView::Failed(e) => self.failing(
                    "unused credential cleanup failed: "@ + e,
                ).to_old(),
                _ => self,
            },
            SavePhaseView::RemoveOld => match answer {
                AnswerView::Succeeded => self.to_legacy(),
                AnswerView::Failed(e) => self.failing(e).to_legacy(),
                _ => self,
            },
            SavePhaseView::RemoveLegacy => match answer {
                AnswerView::Succeeded => self.closed(),
                AnswerView::Failed(e) => self.failing(
                    "legacy credential cleanup failed: "@ + e,
                ).closed(),
                _ => self,
            },
            SavePhaseView::Over(_) => self,
        }
    }
}

/// One save under way.
#[derive(Debug, PartialEq, Eq)]
pub struct SaveRun {
    pub name: String,
    pub is_new: bool,
    pub has_password: bool,
    pub new_key: CredentialKey,
    pub old_key: Option<Result<CredentialKey, String>>,
    pub rows: Vec<CredentialUse>,
    pub had_prior: bool,
    pub cleanup_error: Option<String>,
    pub phase: SavePhase,
}

pub open spec fn old_key_view(old: Option<Result<CredentialKey, String>>) -> Option<
    Result<KeyView, Seq<char>>,
> {
    match old {
        Some(Ok(k)) => Some(Ok(k@)),
        Some(Err(e)) => Some(Err(e@)),
        None => None,
    }
}

impl View for SaveRun {
    type V = SaveView;

    open spec fn view(&self) -> SaveView {
        SaveView {
            name: self.name@,
            is_new: self.is_new,
            has_password: self.has_password,
            new_key: self.new_key@,
            old_key: old_key_view(self.old_key),
            rows: use_views(self.rows@),
            had_prior: self.had_prior,
            cleanup_error: crate::text::text_of(self.cleanup_error),
            phase: self.phase@,
        }
    }
}

impl SaveRun {
    /// In the phases that remove what the connection had before there is an old key.
    pub open spec fn wf(&self) -> bool {
        (self.phase is RemoveOld || self.phase is RemoveLegacy) ==> self.old_key matches Some(Ok(_))
    }

    /// Start to save. Without a password the credential stays as it is and the list is saved at
    /// once; `new_key` says where the credential belongs, or why the endpoint has no key.
    pub fn new(
        name: String,
        is_new: bool,
        has_password: bool,
        new_key: Result<CredentialKey, String>,
        old_key: Option<Result<CredentialKey, String>>,
        rows: Vec<CredentialUse>,
    ) -> (r: Result<SaveRun, String>)
        ensures
            match r {
                Ok(run) => run.wf() && new_key is Ok && run@ == (SaveView {
                    name: name@,
                    is_new,
                    has_password,
                    new_key: new_key->Ok_0@,
                    old_key: old_key_view(old_key),
                    rows: use_views(rows@),
                    had_prior: false,
                    cleanup_error: None,
                    phase: if has_password {
                        SavePhaseView::ReadPrior
                    } else {
                        SavePhaseView::SaveList
                    },
                }),
                Err(text) => new_key is Err && text@ == "invalid connection endpoint: "@
                    + new_key->Err_0@,
            },
    {
        let new_key: CredentialKey = match new_key {
            Ok(key) => key,
            Err(e) => {
                return Err(plus("invalid connection endpoint: ".to_owned(), e.as_str()));
            },
        };
        let phase: SavePhase = if has_password {
            SavePhase::ReadPrior
        } else {
            SavePhase::SaveList
        };
        Ok(
            SaveRun {
                name,
                is_new,
                has_password,
                new_key,
                old_key,
                rows,
                had_prior: false,
                cleanup_error: None,
                phase,
            },
        )
    }

    /// What is to be done next.
    pub fn request(&self) -> (r: StoreRequest)
        requires
            self.wf(),
        ensures
            r@ == self@.request(),
    {
        match &self.phase {
            SavePhase::ReadPrior => StoreRequest::Read(self.new_key.clone()),
            SavePhase::WritePassword => StoreRequest::Write(self.new_key.clone()),
            SavePhase::SaveList => StoreRequest::SaveList,
            SavePhase::Rollback(_) => if self.had_prior {
                StoreRequest::Restore(self.new_key.clone())
            } else {
                StoreRequest::Remove(self.new_key.clone())
            },
            SavePhase::Commit => StoreRequest::Commit(
                if self.has_password {
                    Some(self.new_key.clone())
                } else {
                    None
                },
            ),
            SavePhase::RemoveUnused => StoreRequest::Remove(self.new_key.clone()),
            SavePhase::RemoveOld => match &self.old_key {
                Some(Ok(old)) => StoreRequest::Remove(old.clone()),
                _ => StoreRequest::Nothing,
            },
            SavePhase::RemoveLegacy => match &self.old_key {
                Some(Ok(old)) => StoreRequest::RemoveLegacy {
                    host: old.host.clone(),
                    user: old.user.clone(),
                },
                _ => StoreRequest::Nothing,
            },
            SavePhase::Over(_) => StoreRequest::Nothing,
        }
    }

    fn closing_text(&self) -> (r: String)
        ensures
            r@ == self@.closing_text(),
    {
        let start: &str = if self.is_new && self.cleanup_error.is_none() {
            "added “"
        } else {
            "saved “"
        };
        let named: String = plus(start.to_owned(), self.name.as_str());
        match &self.cleanup_error {
            Some(e) => plus(
                plus(named, "”, but could not remove the old credential: "),
                e.as_str(),
            ),
            None => plus(named, "”"),
        }
    }

    fn close(&mut self)
        ensures
            final(self)@ == old(self)@.closed(),
            final(self).wf(),
    {
        let message: String = self.closing_text();
        self.phase = SavePhase::Over(SaveEnd::Saved { message, wiped: true });
    }

    fn to_legacy(&mut self)
        ensures
            final(self)@ == old(self)@.to_legacy(),
            final(self).wf(),
    {
        let due: bool = match &self.old_key {
            Some(Ok(old_key)) => !same_key(old_key, &self.new_key) && !lists_login(
                &self.rows,
                old_key,
            ),
            _ => false,
        };
        if due {
            self.phase = SavePhase::RemoveLegacy;
        } else {
            self.close();
        }
    }

    fn to_old(&mut self)
        ensures
            final(self)@ == old(self)@.to_old(),
            final(self).wf(),
    {
        let unknown: Option<String> = match &self.old_key {
            Some(Err(e)) => Some(e.clone()),
            _ => None,
        };
        match unknown {
            Some(e) => {
                let named: String = plus("saved “".to_owned(), self.name.as_str());
                let message: String = plus(
                    plus(named, "”, but could not identify the old credential: "),
                    e.as_str(),
                );
                self.phase = SavePhase::Over(SaveEnd::Saved { message, wiped: false });
                return ;
            },
            None => {},
        }
        let due: bool = match &self.old_key {
            Some(Ok(old_key)) => !same_key(old_key, &self.new_key) && !lists_key(
                &self.rows,
                old_key,
            ),
            _ => false,
        };
        if due {
            self.phase = SavePhase::RemoveOld;
        } else {
            self.to_legacy();
        }
    }

    fn refuse(&mut self, text: String)
        ensures
            final(self)@ == old(self)@.refused(text@),
            final(self).wf(),
    {
        self.phase = SavePhase::Over(SaveEnd::Refused(text));
    }

    /// Take an answer and go on.
    pub fn handle(&mut self, answer: StoreAnswer)
        requires
            old(self).wf(),
        ensures
            final(self)@ == old(self)@.next(answer@),
            final(self).wf(),
    {
        let rollback: Option<String> = match &self.phase {
            SavePhase::Rollback(failure) => Some(failure.clone()),
            _ => None,
        };
        match rollback {
            Some(failure) => {
                let text: String = plus(
                    "could not save connection metadata: ".to_owned(),
                    failure.as_str(),
                );
                match answer {
                    StoreAnswer::Succeeded => {
                        self.refuse(text);
                    },
                    StoreAnswer::Failed(e) => {
                        self.refuse(
                            plus(plus(text, "; credential rollback also failed: "), e.as_str()),
                        );
                    },
                    _ => {},
                }
                return ;
            },
            None => {},
        }
        match self.phase {
            SavePhase::ReadPrior => match answer {
                StoreAnswer::Found => {
                    self.had_prior = true;
                    self.phase = SavePhase::WritePassword;
                },
                StoreAnswer::Missing => {
                    self.had_prior = false;
                    self.phase = SavePhase::WritePassword;
                },
                StoreAnswer::Failed(e) => {
                    self.refuse(
                        plus("could not safely update credential: ".to_owned(), e.as_str()),
                    );
                },
                StoreAnswer::Succeeded => {},
            },
            SavePhase::WritePassword => match answer {
                StoreAnswer::Succeeded => {
                    self.phase = SavePhase::SaveList;
                },
                StoreAnswer::Failed(e) => {
                    self.refuse(plus("credential error: ".to_owned(), e.as_str()));
                },
                _ => {},
            },
            SavePhase::SaveList => match answer {
                StoreAnswer::Succeeded => {
                    self.phase = SavePhase::Commit;
                },
                StoreAnswer::Failed(e) => {
                    if self.has_password {
                        self.phase = SavePhase::Rollback(e);
                    } else {
                        self.refuse(
                            plus("could not save connection metadata: ".to_owned(), e.as_str()),
                        );
                    }
                },
                _ => {},
            },
            SavePhase::Commit => match answer {
                StoreAnswer::Succeeded => {
                    if lists_secret(&self.rows, &self.new_key) {
                        self.to_old();
                    } else {
                        self.phase = SavePhase::RemoveUnused;
                    }
                },
                _ => {},
            },
            SavePhase::RemoveUnused => match answer {
                StoreAnswer::Succeeded => {
                    self.to_old();
                },
                StoreAnswer::Failed(e) => {
                    self.cleanup_error = Some(
                        plus("unused credential cleanup failed: ".to_owned(), e.as_str()),
                    );
                    self.to_old();
                },
                _ => {},
            },
            SavePhase::RemoveOld => match answer {
                StoreAnswer::Succeeded => {
                    self.to_legacy();
                },
                StoreAnswer::Failed(e) => {
                    self.cleanup_error = Some(e);
                    self.to_legacy();
                },
                _ => {},
            },
            SavePhase::RemoveLegacy => match answer {
                StoreAnswer::Succeeded => {
                    self.close();
                },
                StoreAnswer::Failed(e) => {
                    self.cleanup_error = Some(
                        plus("legacy credential cleanup failed: ".to_owned(), e.as_str()),
                    );
                    self.close();
                },
                _ => {},
            },
            SavePhase::Rollback(_) => {},
            SavePhase::Over(_) => {},
        }
    }
}

// --- deleting ----------------------------------------------------------------------------------

/// Take a connection out of the list; the connection, if there is one.
pub fn begin_delete(list: &mut Vec<ConnectionSpec>, id: i32) -> (r: Option<ConnectionSpec>)
    ensures
        match connection_at(old(list)@, id, 0) {
            Some(i) => r == Some(old(list)@[i]) && final(list)@ == old(list)@.remove(i),
            None => r is None && final(list)@ == old(list)@,
        },
{
    match find_connection(list, id) {
        Some(i) => Some(list.remove(i)),
        None => None,
    }
}

#[derive(Debug, PartialEq, Eq)]
pub enum DeletePhase {
    SaveList,
    /// The list is durable; show it.
    Commit,
    RemoveCredential,
    RemoveLegacy,
    Over(String),
}

pub ghost enum DeletePhaseView {
    SaveList,
    Commit,
    RemoveCredential,
    RemoveLegacy,
    Over(Seq<char>),
}

impl View for DeletePhase {
    type V = DeletePhaseView;

    open spec fn view(&self) -> DeletePhaseView {
        match *self {
            DeletePhase::SaveList => DeletePhaseView::SaveList,
            DeletePhase::Commit => DeletePhaseView::Commit,
            DeletePhase::RemoveCredential => DeletePhaseView::RemoveCredential,
            DeletePhase::RemoveLegacy => DeletePhaseView::RemoveLegacy,
            DeletePhase::Over(text) => DeletePhaseView::Over(text@),
        }
    }
}

pub ghost struct DeleteView {
    pub name: Seq<char>,
    pub key: KeyView,
    /// The rows that stay.
    pub rows: Seq<UseView>,
    pub phase: DeletePhaseView,
}

impl DeleteView {
    pub open spec fn request(self) -> RequestView {
        match self.phase {
            DeletePhaseView::SaveList => RequestView::SaveList,
            DeletePhaseView::Commit => RequestView::Commit(None),
            DeletePhaseView::RemoveCredential => RequestView::Remove(self.key),
            DeletePhaseView::RemoveLegacy => RequestView::RemoveLegacy {
                host: self.key.host,
                user: self.key.user,
            },
            DeletePhaseView::Over(_) => RequestView::Nothing,
        }
    }

    pub open spec fn at(self, phase: DeletePhaseView) -> DeleteView {
        DeleteView { phase, ..self }
    }

    pub open spec fn over(self, text: Seq<char>) -> DeleteView {
        self.at(DeletePhaseView::Over(text))
    }

    pub open spec fn to_legacy(self) -> DeleteView {
        if login_listed(self.rows, self.key) {
            self.over("deleted “"@ + self.name + "”"@)
        } else {
            self.at(DeletePhaseView::RemoveLegacy)
        }
    }

    /// The state after an answer; one that the phase does not wait for changes nothing.
    pub open spec fn next(self, answer: AnswerView) -> DeleteView {
        match self.phase {
            DeletePhaseView::SaveList => match answer {
                AnswerView::Succeeded => self.at(DeletePhaseView::Commit),
                AnswerView::Failed(e) => self.over("could not delete “"@ + self.name + "”: "@ + e),
                _ => self,
            },
            DeletePhaseView::Commit => match answer {
                AnswerView::Succeeded => if key_listed(self.rows, self.key) {
                    self.to_legacy()
                } else {
                    self.at(DeletePhaseView::RemoveCredential)
                },
                _ => self,
            },
            DeletePhaseView::RemoveCredential => match answer {
                AnswerView::Succeeded => self.to_legacy(),
                AnswerView::Failed(e) => self.over(
                    "deleted “"@ + self.name
                        + "” from the list, but could not remove its saved credential: "@ + e,
                ),
                _ => self,
            },
            DeletePhaseView::RemoveLegacy => match answer {
                AnswerView::Succeeded => self.over("deleted “"@ + self.name + "”"@),
                AnswerView::Failed(e) => self.over(
                    "deleted “"@ + self.name + "”, but could not remove its legacy credential: "@
                        + e,
                ),
                _ => self,
            },
            DeletePhaseView::Over(_) => self,
        }
    }
}

/// One deletion under way. The new list is durable before anything is shown or any secret is
/// removed, so that a failed write can be recovered from.
#[derive(Debug, PartialEq, Eq)]
pub struct DeleteRun {
    pub name: String,
    pub key: CredentialKey,
    pub rows: Vec<CredentialUse>,
    pub phase: DeletePhase,
}

impl View for DeleteRun {
    type V = DeleteView;

    open spec fn view(&self) -> DeleteView {
        DeleteView {
            name: self.name@,
            key: self.key@,
            rows: use_views(self.rows@),
            phase: self.phase@,
        }
    }
}

impl DeleteRun {
    pub fn new(name: String, key: Result<CredentialKey, String>, rows: Vec<CredentialUse>) -> (r:
        Result<DeleteRun, String>)
        ensures
            match r {
                Ok(run) => key is Ok && run@ == (DeleteView {
                    name: name@,
                    key: key->Ok_0@,
                    rows: use_views(rows@),
                    phase: DeletePhaseView::SaveList,
                }),
                Err(text) => key is Err && text@ == "invalid saved connection: "@ + key->Err_0@,
            },
    {
        match key {
            Ok(key) => Ok(DeleteRun { name, key, rows, phase: DeletePhase::SaveList }),
            Err(e) => Err(plus("invalid saved connection: ".to_owned(), e.as_str())),
        }
    }

    /// What is to be done next.
    pub fn request(&self) -> (r: StoreRequest)
        ensures
            r@ == self@.request(),
    {
        match &self.phase {
            DeletePhase::SaveList => StoreRequest::SaveList,
            DeletePhase::Commit => StoreRequest::Commit(None),
            DeletePhase::RemoveCredential => StoreRequest::Remove(self.key.clone()),
            DeletePhase::RemoveLegacy => StoreRequest::RemoveLegacy {
                host: self.key.host.clone(),
                user: self.key.user.clone(),
            },
            DeletePhase::Over(_) => StoreRequest::Nothing,
        }
    }

    fn over(&mut self, start: &str, end: &str, detail: &str)
        ensures
            final(self)@ == old(self)@.over(start@ + old(self)@.name + end@ + detail@),
    {
        let text: String = plus(
            plus(plus(start.to_owned(), self.name.as_str()), end),
            detail,
        );
        self.phase = DeletePhase::Over(text);
    }

    fn done(&mut self)
        ensures
            final(self)@ == old(self)@.over("deleted “"@ + old(self)@.name + "”"@),
    {
        let text: String = plus(plus("deleted “".to_owned(), self.name.as_str()), "”");
        self.phase = DeletePhase::Over(text);
    }

    fn to_legacy(&mut self)
        ensures
            final(self)@ == old(self)@.to_legacy(),
    {
        if lists_login(&self.rows, &self.key) {
            self.done();
        } else {
            self.phase = DeletePhase::RemoveLegacy;
        }
    }

    /// Take an answer and go on.
    pub fn handle(&mut self, answer: StoreAnswer)
        ensures
            final(self)@ == old(self)@.next(answer@),
    {
        match self.phase {
            DeletePhase::SaveList => match answer {
                StoreAnswer::Succeeded => {
                    self.phase = DeletePhase::Commit;
                },
                StoreAnswer::Failed(e) => {
                    self.over("could not delete “", "”: ", e.as_str());
                },
                _ => {},
            },
            DeletePhase::Commit => match answer {
                StoreAnswer::Succeeded => {
                    if lists_key(&self.rows, &self.key) {
                        self.to_legacy();
                    } else {
                        self.phase = DeletePhase::RemoveCredential;
                    }
                },
                _ => {},
            },
            DeletePhase::RemoveCredential => match answer {
                StoreAnswer::Succeeded => {
                    self.to_legacy();
                },
                StoreAnswer::Failed(e) => {
                    self.over(
                        "deleted “",
                        "” from the list, but could not remove its saved credential: ",
                        e.as_str(),
                    );
                },
                _ => {},
            },
            DeletePhase::RemoveLegacy => match answer {
                StoreAnswer::Succeeded => {
                    self.done();
                },
                StoreAnswer::Failed(e) => {
                    self.over(
                        "deleted “",
                        "”, but could not remove its legacy credential: ",
                        e.as_str(),
                    );
                },
                _ => {},
            },
            DeletePhase::Over(_) => {},
        }
    }
}

// --- laws --------------------------------------------------------------------------------------

/// The state of a save after a row of answers.
pub open spec fn saved_after(run: SaveView, answers: Seq<AnswerView>) -> SaveView
    decreases answers.len(),
{
    if answers.len() == 0 {
        run
    } else {
        saved_after(run, answers.drop_last()).next(answers.last())
    }
}

/// How a save begins.
pub open spec fn is_fresh_save(run: SaveView) -> bool {
    &&& run.cleanup_error is None
    &&& !run.had_prior
    &&& run.phase == if run.has_password {
        SavePhaseView::ReadPrior
    } else {
        SavePhaseView::SaveList
    }
}

/// The list is durable in this phase.
pub open spec fn list_is_durable(phase: SavePhaseView) -> bool {
    phase is Commit || phase is RemoveUnused || phase is RemoveOld || phase is RemoveLegacy || (
    phase matches SavePhaseView::Over(end) && end is Saved)
}

/// What every state of a save satisfies.
pub open spec fn save_invariant(start: SaveView, run: SaveView) -> bool {
    &&& run.name == start.name
    &&& run.has_password == start.has_password
    &&& run.new_key == start.new_key
    &&& run.old_key == start.old_key
    &&& run.rows == start.rows
    &&& run.phase is RemoveUnused ==> !secret_listed(run.rows, run.new_key)
    &&& run.phase is RemoveOld ==> run.moved() && !key_listed(run.rows, run.old_key->0->Ok_0)
    &&& run.phase is RemoveLegacy ==> run.moved() && !login_listed(
        run.rows,
        run.old_key->0->Ok_0,
    )
    &&& run.phase is ReadPrior || run.phase is WritePassword || run.phase is Rollback
        ==> run.has_password
}

proof fn lemma_save_invariant(start: SaveView, answers: Seq<AnswerView>)
    requires
        is_fresh_save(start),
    ensures
        save_invariant(start, saved_after(start, answers)),
        list_is_durable(saved_after(start, answers).phase) ==> exists|i: int|
            0 <= i < answers.len() && #[trigger] answers[i] == AnswerView::Succeeded && saved_after(
                start,
                answers.take(i),
            ).phase == SavePhaseView::SaveList,
    decreases answers.len(),
{
    if answers.len() > 0 {
        let front = answers.drop_last();
        let before = saved_after(start, front);
        lemma_save_invariant(start, front);
        if list_is_durable(saved_after(start, answers).phase) {
            if list_is_durable(before.phase) {
                let i = choose|i: int|
                    0 <= i < front.len() && #[trigger] front[i] == AnswerView::Succeeded
                        && saved_after(start, front.take(i)).phase == SavePhaseView::SaveList;
                assert(answers[i] == front[i]);
                assert(front.take(i) =~= answers.take(i));
            } else {
                let i = answers.len() - 1;
                assert(answers[i] == answers.last());
                assert(answers.take(i) =~= front);
            }
        }
    }
}

/// Nothing is shown, and no credential is removed for good, before the list has been saved: only a
/// rollback, which follows a failure, acts earlier.
pub proof fn nothing_is_removed_before_the_list_is_saved(
    start: SaveView,
    answers: Seq<AnswerView>,
)
    requires
        is_fresh_save(start),
    ensures
        ({
            let run = saved_after(start, answers);
            (run.request() is Commit || run.request() is RemoveLegacy || (run.request() is Remove
                && !(run.phase is Rollback))) ==> exists|i: int|
                0 <= i < answers.len() && #[trigger] answers[i] == AnswerView::Succeeded
                    && saved_after(start, answers.take(i)).request() == RequestView::SaveList
        }),
{
    lemma_save_invariant(start, answers);
    let run = saved_after(start, answers);
    if run.request() is Commit || run.request() is RemoveLegacy || (run.request() is Remove && !(
    run.phase is Rollback)) {
        let i = choose|i: int|
            0 <= i < answers.len() && #[trigger] answers[i] == AnswerView::Succeeded && saved_after(
                start,
                answers.take(i),
            ).phase == SavePhaseView::SaveList;
        assert(answers[i] == AnswerView::Succeeded);
        assert(saved_after(start, answers.take(i)).request() == RequestView::SaveList);
    }
}

/// A credential that a saved connection logs in with is never removed, whatever the stores answer;
/// neither is one that is kept for a host and a user that some connection has.
pub proof fn needed_credentials_are_kept(start: SaveView, answers: Seq<AnswerView>)
    requires
        is_fresh_save(start),
    ensures
        ({
            let run = saved_after(start, answers);
            &&& run.request() matches RequestView::Remove(key) ==> run.phase is Rollback
                || !secret_listed(start.rows, key)
            &&& run.request() matches RequestView::RemoveLegacy { host, user } ==> forall|i: int|
                0 <= i < start.rows.len() ==> !((#[trigger] start.rows[i]).key matches Some(k)
                    && k.host == host && k.user == user)
        }),
{
    lemma_save_invariant(start, answers);
    let run = saved_after(start, answers);
    if run.phase is RemoveOld {
        let key = run.old_key->0->Ok_0;
        if secret_listed(start.rows, key) {
            let i = choose|i: int|
                0 <= i < start.rows.len() && (#[trigger] start.rows[i]).key == Some(key)
                    && start.rows[i].needs_secret;
            assert(start.rows[i].key == Some(key));
        }
    }
    if run.phase is RemoveLegacy {
        let key = run.old_key->0->Ok_0;
        assert forall|i: int| 0 <= i < start.rows.len() implies !((#[trigger] start.rows[i]).key matches Some(
            k,
        ) && k.host == key.host && k.user == key.user) by {
            assert(!same_login(start.rows[i].key, key));
        }
    }
}

/// The secrets after a request has succeeded; `password` is what the form holds and `prior` what was
/// read before.
pub open spec fn secrets_after(
    secrets: Map<KeyView, Seq<u8>>,
    request: RequestView,
    password: Seq<u8>,
    prior: Map<KeyView, Seq<u8>>,
) -> Map<KeyView, Seq<u8>> {
    match request {
        RequestView::Write(key) => secrets.insert(key, password),
        RequestView::Restore(key) => secrets.insert(key, prior[key]),
        RequestView::Remove(key) => secrets.remove(key),
        _ => secrets,
    }
}

/// A password that was written for a list that could not be saved is taken back: after the rollback
/// the credentials are exactly what they were, and the save is refused.
pub proof fn failed_saves_leave_the_credentials_alone(
    start: SaveView,
    secrets: Map<KeyView, Seq<u8>>,
    password: Seq<u8>,
    failure: Seq<char>,
)
    requires
        is_fresh_save(start),
        start.has_password,
    ensures
        ({
            let found = if secrets.contains_key(start.new_key) {
                AnswerView::Found
            } else {
                AnswerView::Missing
            };
            let read = start.next(found);
            let written = secrets_after(secrets, read.request(), password, secrets);
            let saving = read.next(AnswerView::Succeeded);
            let failed = saving.next(AnswerView::Failed(failure));
            let restored = secrets_after(written, failed.request(), password, secrets);
            &&& start.request() == RequestView::Read(start.new_key)
            &&& saving.request() == RequestView::SaveList
            &&& restored == secrets
            &&& failed.next(AnswerView::Succeeded).phase == SavePhaseView::Over(
                SaveEndView::Refused("could not save connection metadata: "@ + failure),
            )
        }),
{
    let key = start.new_key;
    if secrets.contains_key(key) {
        assert(secrets.insert(key, password).insert(key, secrets[key]) =~= secrets);
    } else {
        assert(secrets.insert(key, password).remove(key) =~= secrets);
    }
}

/// The state of a deletion after a row of answers.
pub open spec fn deleted_after(run: DeleteView, answers: Seq<AnswerView>) -> DeleteView
    decreases answers.len(),
{
    if answers.len() == 0 {
        run
    } else {
        deleted_after(run, answers.drop_last()).next(answers.last())
    }
}

/// A deletion removes a credential only after the shorter list has been saved, and only when none of
/// the rows that stay has its key; what is kept for the host and the user alone goes only when none
/// of them has both.
pub proof fn deletions_keep_shared_credentials(start: DeleteView, answers: Seq<AnswerView>)
    requires
        start.phase == DeletePhaseView::SaveList,
    ensures
        ({
            let run = deleted_after(start, answers);
            &&& run.key == start.key && run.rows == start.rows && run.name == start.name
            &&& run.phase is Commit || run.phase is RemoveCredential || run.phase is RemoveLegacy
                ==> exists|i: int|
                0 <= i < answers.len() && #[trigger] answers[i] == AnswerView::Succeeded
                    && deleted_after(start, answers.take(i)).phase == DeletePhaseView::SaveList
            &&& run.request() matches RequestView::Remove(key) ==> key == start.key && !key_listed(
                start.rows,
                key,
            )
            &&& run.request() is RemoveLegacy ==> !login_listed(start.rows, start.key)
        }),
    decreases answers.len(),
{
    if answers.len() > 0 {
        let front = answers.drop_last();
        deletions_keep_shared_credentials(start, front);
        let before = deleted_after(start, front);
        let run = deleted_after(start, answers);
        if run.phase is Commit || run.phase is RemoveCredential || run.phase is RemoveLegacy {
            if before.phase is SaveList {
                let i = answers.len() - 1;
                assert(answers[i] == answers.last());
                assert(answers.take(i) =~= front);
            } else {
                let i = choose|i: int|
                    0 <= i < front.len() && #[trigger] front[i] == AnswerView::Succeeded
                        && deleted_after(start, front.take(i)).phase == DeletePhaseView::SaveList;
                assert(answers[i] == front[i]);
                assert(front.take(i) =~= answers.take(i));
            }
        }
    }
}

} // verus!
