//! What is shown of the connections, what is imported, and what becomes of their credentials.

use vstd::prelude::*;

use crate::controllers::connections::{
    apply_server_filter, conn_row_matches, connection_row, import_format, import_message, key_of,
    merge_new, merged, refresh_connections_model, test_message, ConnRow, ImportEnd, ImportFormat,
    ImportedConnection, SavedConnection,
};
use crate::controllers::credentials::{
    begin_delete, begin_save, connection_at, find_connection, needs_secret, AnswerView,
    DeletePhaseView, DeleteRun, DeleteView, KeyView, RequestView, SaveDraft, SaveEndView,
    SavePhaseView, SaveRun, SaveView, StoreAnswer, UseView,
};
use crate::controllers::editor::{EditorForm, EditorLimits};
use crate::model::connection::{ConnectionId, ConnectionSpec, SftpAuth};
use crate::model::Protocol;
use crate::net::error::NetError;
use crate::numerals::decimal;
use crate::pieces::{contains_text, drop_while, joined, texts, trimmed, white};
use crate::text::{ascii_lowercase, is_white_space, lowercase};

verus! {

// --- showing -----------------------------------------------------------------------------------

/// A row shows the name of its connection, and below it who logs in where, the group and the tags;
/// a demonstration leaves the user out.
pub proof fn rows_show_their_connection(spec: &ConnectionSpec, active: i32, demo: bool, r: ConnRow)
    requires
        call_ensures(connection_row, (spec, active, demo), r),
    ensures
        r.label@ == spec.name@,
        r.id == spec.id.0 as i32,
        r.connected <==> r.id == active,
        !demo && spec.protocol == Protocol::Ftp ==> r.protocol@ == "FTP"@,
        !demo && spec.protocol == Protocol::Sftp ==> r.protocol@ == "SFTP"@,
        !demo && spec.group@.len() == 0 && spec.tags@.len() == 0 ==> r.sub@ == spec.user@ + "@"@
            + spec.host@ + ":"@ + decimal(spec.port as nat),
        !demo && spec.group@.len() > 0 && spec.tags@.len() == 0 ==> r.sub@ == spec.user@ + "@"@
            + spec.host@ + ":"@ + decimal(spec.port as nat) + (" · "@ + spec.group@),
        !demo && spec.group@.len() == 0 && spec.tags@.len() > 0 ==> r.sub@ == spec.user@ + "@"@
            + spec.host@ + ":"@ + decimal(spec.port as nat) + (" · #"@ + joined(
            texts(spec.tags@),
            " #"@,
        )),
        demo && spec.group@.len() == 0 && spec.tags@.len() == 0 ==> r.sub@ == spec.host@ + ":"@
            + decimal(spec.port as nat),
{
    let base = spec.user@ + "@"@ + spec.host@ + ":"@ + decimal(spec.port as nat);
    let none = Seq::<char>::empty();
    assert(base + none + none =~= base);
    assert(base + (" · "@ + spec.group@) + none =~= base + (" · "@ + spec.group@));
    assert(base + none =~= base);
    assert(none + spec.host@ =~= spec.host@);
    let shown = spec.host@ + ":"@ + decimal(spec.port as nat);
    assert(shown + none + none =~= shown);
}

/// There is one row for each connection, in the order of the list.
pub proof fn every_connection_has_its_row(
    list: &Vec<ConnectionSpec>,
    active: i32,
    demo: bool,
    r: Vec<ConnRow>,
)
    requires
        call_ensures(refresh_connections_model, (list, active, demo), r),
    ensures
        r@.len() == list@.len(),
        forall|i: int|
            0 <= i < list@.len() ==> (#[trigger] r@[i]).label@ == list@[i].name@ && r@[i].id
                == list@[i].id.0 as i32 && (r@[i].connected <==> r@[i].id == active),
{
}

/// A row is found by any text that occurs in it, whatever the case of either and white space around
/// the text aside, and an empty text finds every row.
pub proof fn rows_are_found_by_what_they_show(row: &ConnRow, query: &str, r: bool)
    requires
        call_ensures(conn_row_matches, (row, query), r),
    ensures
        trimmed(query@).len() > 0 && lowercase(trimmed(query@)).len() > 0 ==> (r <==> contains_text(
            lowercase(row.label@),
            lowercase(trimmed(query@)),
        ) || contains_text(lowercase(row.sub@), lowercase(trimmed(query@))) || contains_text(
            lowercase(row.protocol@),
            lowercase(trimmed(query@)),
        )),
        lowercase(trimmed(query@)).len() == 0 ==> r,
{
}

/// A filter leaves exactly the rows that are found, in their order.
pub proof fn filters_leave_what_is_found(rows: &Vec<ConnRow>, query: &str, r: Vec<ConnRow>, i: int)
    requires
        call_ensures(apply_server_filter, (rows, query), r),
        0 <= i < rows@.len(),
    ensures
        r@.len() <= rows@.len(),
        r@.contains(rows@[i]) <==> (lowercase(trimmed(query@)).len() == 0 || contains_text(
            lowercase(rows@[i].label@),
            lowercase(trimmed(query@)),
        ) || contains_text(lowercase(rows@[i].sub@), lowercase(trimmed(query@))) || contains_text(
            lowercase(rows@[i].protocol@),
            lowercase(trimmed(query@)),
        )),
{
    let found = |row: ConnRow| crate::controllers::connections::row_found(row, query@);
    broadcast use vstd::seq_lib::group_filter_ensures;

    rows@.lemma_filter_len(found);
    if found(rows@[i]) {
        assert(rows@.filter(found).contains(rows@[i]));
    } else if r@.contains(rows@[i]) {
        let k = choose|k: int| 0 <= k < r@.len() && r@[k] == rows@[i];
        assert(found(r@[k]));
    }
}

// --- importing ---------------------------------------------------------------------------------

/// A further connection of a file is added behind the others under the next identity, with
/// everything else as it was read, unless its endpoint is there already; one without an endpoint
/// refuses the file.
pub proof fn new_endpoints_are_added_last(
    list: Seq<SavedConnection>,
    incoming: Seq<ImportedConnection>,
    more: ImportedConnection,
    next: nat,
)
    requires
        merged(list, incoming, next) is Ok,
        next + incoming.len() <= usize::MAX,
    ensures
        ({
            let before = merged(list, incoming, next)->Ok_0;
            let after = merged(list, incoming.push(more), next);
            &&& more.key is Err ==> after is Err
            &&& more.key matches Ok(key) ==> ((exists|i: int|
                0 <= i < before.len() && key_of(#[trigger] before[i]) == Some(key@)) ==> after == Ok::<
                Seq<SavedConnection>,
                Seq<char>,
            >(before))
            &&& more.key matches Ok(key) ==> ((forall|i: int|
                0 <= i < before.len() ==> key_of(#[trigger] before[i]) != Some(key@)) ==> (after
                matches Ok(grown) && grown.len() == before.len() + 1 && grown.take(before.len() as int)
                == before && grown[before.len() as int].key == Some(key)
                && grown[before.len() as int].spec == (ConnectionSpec {
                id: ConnectionId((next + (before.len() - list.len())) as usize),
                ..more.spec
            })))
        }),
        merged(list, incoming, next)->Ok_0.len() >= list.len(),
    decreases incoming.len(),
{
    if incoming.len() == 0 {
        assert(incoming.push(more).skip(1) =~= Seq::<ImportedConnection>::empty());
        reveal_with_fuel(merged, 2);
        if let Ok(key) = more.key {
            let added = SavedConnection {
                spec: crate::controllers::connections::renumbered(more.spec, next),
                key: Some(key),
            };
            assert(list.push(added).take(list.len() as int) =~= list);
        }
    } else {
        assert(incoming.push(more)[0] == incoming[0]);
        assert(incoming.push(more).skip(1) =~= incoming.skip(1).push(more));
        let key = incoming[0].key->Ok_0;
        if crate::controllers::connections::endpoint_listed(list, key@) {
            new_endpoints_are_added_last(list, incoming.skip(1), more, next);
        } else {
            let added = SavedConnection {
                spec: crate::controllers::connections::renumbered(incoming[0].spec, next),
                key: Some(key),
            };
            new_endpoints_are_added_last(list.push(added), incoming.skip(1), more, next + 1);
        }
    }
}

/// An import says how many connections it has added.
pub proof fn imports_count_what_was_added(
    list: Vec<SavedConnection>,
    incoming: Vec<ImportedConnection>,
    next_id: usize,
    r: Result<(Vec<SavedConnection>, usize), String>,
)
    requires
        call_ensures(merge_new, (list, incoming, next_id), r),
        next_id + incoming@.len() <= usize::MAX,
    ensures
        r matches Ok(after) ==> after.0@.len() == list@.len() + after.1,
        incoming@.len() == 0 ==> (r matches Ok(after) && after.0@ == list@ && after.1 == 0),
{
}

/// The extension of a file says its format whatever its case, and without one the first mark of its
/// text does.
pub proof fn formats_are_recognized(extension: Option<&str>, text: &str, r: Option<ImportFormat>)
    requires
        call_ensures(import_format, (extension, text), r),
    ensures
        extension matches Some(e) ==> (ascii_lowercase(e@) == "json"@ ==> r == Some(
            ImportFormat::Json,
        )),
        extension matches Some(e) ==> (ascii_lowercase(e@) == "xml"@ ==> r == Some(
            ImportFormat::FileZilla,
        )),
        extension is None && text@.len() > 0 && text@[0] == '<' ==> r == Some(ImportFormat::FileZilla),
        extension is None && text@.len() > 0 && (text@[0] == '{' || text@[0] == '[') ==> r == Some(
            ImportFormat::Json,
        ),
        extension is None && text@.len() > 0 && !is_white_space(text@[0]) && text@[0] != '<' && text@[0]
            != '{' && text@[0] != '[' ==> r is None,
{
    reveal_strlit("json");
    reveal_strlit("xml");
    assert("json"@.len() == 4);
    assert("xml"@.len() == 3);
    if text@.len() > 0 && !is_white_space(text@[0]) {
        assert(!white()(text@[0]));
        assert(drop_while(text@, white()) == text@);
    }
}

/// The line about an import says how it went and with which file.
pub proof fn imports_are_told(label: &str, end: &ImportEnd, r: String)
    requires
        call_ensures(import_message, (label, end), r),
    ensures
        end matches ImportEnd::Imported(n) ==> (*n > 0 ==> r@ == "imported "@ + decimal(*n as nat)
            + " connection(s) from "@ + label@),
        end matches ImportEnd::Imported(n) ==> (*n == 0 ==> r@ == "no new connections from "@ + label@
            + " (all already present)"@),
        end matches ImportEnd::Failed(e) ==> r@ == "import failed ("@ + label@ + "): "@ + e@,
        end matches ImportEnd::NotSaved(e) ==> r@ == "import failed ("@ + label@
            + "): could not save metadata: "@ + e@,
{
}

/// A test of a connection says what was listed and whether in plaintext, which fingerprint is to be
/// verified, or why it failed.
pub proof fn tests_are_told(result: &Result<(usize, bool), NetError>, r: String)
    requires
        call_ensures(test_message, (result,), r),
    ensures
        result matches Ok(found) ==> (found.1 ==> r@ == "Connection successful — listed "@ + decimal(
            found.0 as nat,
        ) + " item(s), but the session is plaintext FTP."@),
        result matches Ok(found) ==> (!found.1 ==> r@
            == "Connection successful — authentication and listing completed ("@ + decimal(
            found.0 as nat,
        ) + " item(s))."@),
        result matches Err(NetError::HostKeyTrustRequired(c)) ==> r@
            == "Server reached. Verify SSH fingerprint "@ + c.fingerprint_text@
            + " independently, then Save and Connect to approve it."@,
        result matches Err(NetError::TlsCertificateTrustRequired(c)) ==> r@
            == "Server reached. Verify TLS fingerprint "@ + c.fingerprint_text@
            + " independently, then Save and Connect to pin it."@,
        result matches Err(NetError::Cancelled) ==> r@ == "Connection test failed: "@
            + "transfer cancelled"@,
{
}

// --- saving and deleting -----------------------------------------------------------------------

/// A connection logs in with a saved secret unless an agent or an interactive login takes its place.
pub proof fn secrets_are_needed_for_logins_of_their_own(spec: &ConnectionSpec, r: bool)
    requires
        call_ensures(needs_secret, (spec,), r),
    ensures
        spec.protocol == Protocol::Ftp ==> r,
        spec.protocol == Protocol::Sftp ==> (r <==> spec.sftp_auth == SftpAuth::Password
            || spec.sftp_auth == SftpAuth::PrivateKey),
{
}

proof fn lemma_connection_at(list: Seq<ConnectionSpec>, id: i32, from: int)
    requires
        0 <= from <= list.len(),
    ensures
        match connection_at(list, id, from) {
            Some(i) => from <= i < list.len() && list[i].id.0 as i32 == id && forall|j: int|
                from <= j < i ==> (#[trigger] list[j]).id.0 as i32 != id,
            None => forall|j: int| from <= j < list.len() ==> (#[trigger] list[j]).id.0 as i32 != id,
        },
    decreases list.len() - from,
{
    if from < list.len() && list[from].id.0 as i32 != id {
        lemma_connection_at(list, id, from + 1);
    }
}

/// A connection is found by its identity: the first that has it.
pub proof fn connections_are_found_by_identity(
    list: &Vec<ConnectionSpec>,
    id: i32,
    r: Option<usize>,
)
    requires
        call_ensures(find_connection, (list, id), r),
    ensures
        r matches Some(i) ==> i < list@.len() && list@[i as int].id.0 as i32 == id && forall|j: int|
            0 <= j < i ==> (#[trigger] list@[j]).id.0 as i32 != id,
        r is None ==> forall|j: int| 0 <= j < list@.len() ==> (#[trigger] list@[j]).id.0 as i32 != id,
{
    lemma_connection_at(list@, id, 0);
    assert(list@.len() == list.len());
}

/// A new connection is added at the end under the next identity, and an edited one takes the place of
/// the one with its identity; every other connection stays where and as it was.
pub proof fn saves_change_one_connection(
    current: Vec<ConnectionSpec>,
    id: i32,
    form: &EditorForm,
    limits: &EditorLimits,
    next_id: usize,
    draft: SaveDraft,
)
    requires
        call_ensures(
            begin_save,
            (current, id, form, limits, next_id),
            Ok::<SaveDraft, String>(draft),
        ),
    ensures
        id < 0 ==> draft.position == current@.len() && draft.candidate@.len() == current@.len() + 1
            && draft.candidate@[draft.position as int].id == ConnectionId(next_id),
        id >= 0 ==> draft.position < current@.len() && draft.candidate@.len() == current@.len()
            && current@[draft.position as int].id.0 as i32 == id
            && draft.candidate@[draft.position as int].id == ConnectionId(id as usize),
        forall|i: int|
            0 <= i < current@.len() && i != draft.position ==> #[trigger] draft.candidate@[i]
                == current@[i],
        draft.candidate@[draft.position as int].host@ == trimmed(form.host@),
        draft.candidate@[draft.position as int].user@ == trimmed(form.user@),
        draft.candidate@[draft.position as int].name@ == trimmed(form.name@),
{
    lemma_connection_at(current@, id, 0);
}

/// A deletion takes out the connection with the identity, and nothing else.
pub proof fn deletions_take_out_one_connection(
    list: &mut Vec<ConnectionSpec>,
    id: i32,
    r: Option<ConnectionSpec>,
)
    requires
        call_ensures(begin_delete, (list, id), r),
    ensures
        r matches Some(taken) ==> taken.id.0 as i32 == id && final(list)@.len() == old(list)@.len() - 1,
        r matches Some(taken) ==> exists|i: int|
            0 <= i < old(list)@.len() && #[trigger] old(list)@[i] == taken && final(list)@
                == old(list)@.remove(i),
        r is None ==> final(list)@ == old(list)@ && forall|j: int|
            0 <= j < old(list)@.len() ==> (#[trigger] old(list)@[j]).id.0 as i32 != id,
{
    lemma_connection_at(old(list)@, id, 0);
}

/// A save with a password first reads what the password replaces, then writes it under the key of the
/// endpoint, then saves the list, then shows it; without a password the list is saved at once.
pub proof fn saves_go_step_by_step(start: SaveView)
    ensures
        start.phase is ReadPrior ==> start.request() == RequestView::Read(start.new_key)
            && start.next(AnswerView::Found).request() == RequestView::Write(start.new_key)
            && start.next(AnswerView::Missing).request() == RequestView::Write(start.new_key),
        start.phase is WritePassword ==> start.request() == RequestView::Write(start.new_key)
            && start.next(AnswerView::Succeeded).request() == RequestView::SaveList,
        start.phase is SaveList ==> start.next(AnswerView::Succeeded).request()
            == RequestView::Commit(
            if start.has_password {
                Some(start.new_key)
            } else {
                None
            },
        ),
        start.phase is ReadPrior || start.phase is WritePassword ==> forall|e: Seq<char>|
            (#[trigger] start.next(AnswerView::Failed(e))).phase matches SavePhaseView::Over(end) && end
                is Refused,
        start.phase is SaveList && !start.has_password ==> forall|e: Seq<char>|
            (#[trigger] start.next(AnswerView::Failed(e))).phase matches SavePhaseView::Over(end) && end
                is Refused,
        start.phase is SaveList && start.has_password ==> forall|e: Seq<char>|
            (#[trigger] start.next(AnswerView::Failed(e))).request() == if start.had_prior {
                RequestView::Restore(start.new_key)
            } else {
                RequestView::Remove(start.new_key)
            },
{
}

/// The row logs in at the key with a saved secret.
pub open spec fn logs_in(row: UseView, key: KeyView) -> bool {
    row.key == Some(key) && row.needs_secret
}

/// What no connection needs any more is removed once the list is shown: the secret of the endpoint
/// where no row logs in with it, that of the old endpoint where no row has it, and what was kept for
/// its host and user alone where no row has those. Then the save is over.
pub proof fn what_is_not_needed_is_removed(shown: SaveView)
    requires
        shown.phase is Commit,
    ensures
        (forall|i: int| 0 <= i < shown.rows.len() ==> !logs_in(#[trigger] shown.rows[i], shown.new_key))
            ==> shown.next(AnswerView::Succeeded).request() == RequestView::Remove(shown.new_key),
        (exists|i: int| 0 <= i < shown.rows.len() && logs_in(#[trigger] shown.rows[i], shown.new_key))
            && (shown.old_key matches Some(Ok(old)) && old != shown.new_key && forall|i: int|
            0 <= i < shown.rows.len() ==> (#[trigger] shown.rows[i]).key != Some(old)) ==> shown.next(
            AnswerView::Succeeded,
        ).request() == RequestView::Remove(shown.old_key->0->Ok_0),
        (exists|i: int| 0 <= i < shown.rows.len() && logs_in(#[trigger] shown.rows[i], shown.new_key))
            && (shown.old_key is None || (shown.old_key matches Some(Ok(old)) && old == shown.new_key))
            ==> (shown.next(AnswerView::Succeeded).phase matches SavePhaseView::Over(
            SaveEndView::Saved { message, wiped },
        ) && wiped),
{
    let next = shown.next(AnswerView::Succeeded);
    if exists|i: int| 0 <= i < shown.rows.len() && logs_in(#[trigger] shown.rows[i], shown.new_key) {
        let i = choose|i: int|
            0 <= i < shown.rows.len() && logs_in(#[trigger] shown.rows[i], shown.new_key);
        assert(shown.rows[i].key == Some(shown.new_key) && shown.rows[i].needs_secret);
        assert(crate::controllers::credentials::secret_listed(shown.rows, shown.new_key));
    }
    if forall|i: int| 0 <= i < shown.rows.len() ==> !logs_in(#[trigger] shown.rows[i], shown.new_key) {
        assert(!crate::controllers::credentials::secret_listed(shown.rows, shown.new_key)) by {
            if crate::controllers::credentials::secret_listed(shown.rows, shown.new_key) {
                let i = choose|i: int|
                    0 <= i < shown.rows.len() && (#[trigger] shown.rows[i]).key == Some(shown.new_key)
                        && shown.rows[i].needs_secret;
                assert(logs_in(shown.rows[i], shown.new_key));
            }
        }
    }
}

/// A save takes each answer as its state says, and a new one starts with its own endpoint.
pub proof fn saves_follow_the_answers(run: &mut SaveRun, answer: StoreAnswer)
    requires
        old(run).wf(),
        call_ensures(SaveRun::handle, (run, answer), ()),
    ensures
        final(run)@ == old(run)@.next(answer@),
        final(run)@.new_key == old(run)@.new_key,
        final(run)@.rows == old(run)@.rows,
        final(run)@.name == old(run)@.name,
{
}

/// A deletion saves the list before it is shown, and only then removes the secret that no other row
/// has, and what is kept for a host and a user that no other row has.
pub proof fn deletions_go_step_by_step(run: DeleteView)
    ensures
        run.phase is SaveList ==> run.request() == RequestView::SaveList && run.next(
            AnswerView::Succeeded,
        ).request() == RequestView::Commit(None),
        run.phase is SaveList ==> forall|e: Seq<char>|
            (#[trigger] run.next(AnswerView::Failed(e))).phase is Over,
        run.phase is Commit && (forall|i: int|
            0 <= i < run.rows.len() ==> (#[trigger] run.rows[i]).key != Some(run.key)) ==> run.next(
            AnswerView::Succeeded,
        ).request() == RequestView::Remove(run.key),
        run.phase is RemoveCredential && (forall|i: int|
            0 <= i < run.rows.len() ==> !((#[trigger] run.rows[i]).key matches Some(k) && k.host
                == run.key.host && k.user == run.key.user)) ==> run.next(AnswerView::Succeeded).request()
            == (RequestView::RemoveLegacy { host: run.key.host, user: run.key.user }),
        run.phase is RemoveCredential && (exists|i: int|
            0 <= i < run.rows.len() && ((#[trigger] run.rows[i]).key matches Some(k) && k.host
                == run.key.host && k.user == run.key.user)) ==> run.next(AnswerView::Succeeded).phase
            == DeletePhaseView::Over("deleted “"@ + run.name + "”"@),
        run.phase is RemoveLegacy ==> run.next(AnswerView::Succeeded).phase == DeletePhaseView::Over(
            "deleted “"@ + run.name + "”"@,
        ),
{
    if run.phase is RemoveCredential && exists|i: int|
        0 <= i < run.rows.len() && ((#[trigger] run.rows[i]).key matches Some(k) && k.host
            == run.key.host && k.user == run.key.user) {
        let i = choose|i: int|
            0 <= i < run.rows.len() && ((#[trigger] run.rows[i]).key matches Some(k) && k.host
                == run.key.host && k.user == run.key.user);
        assert(crate::controllers::credentials::same_login(run.rows[i].key, run.key));
    }
}

/// A deletion takes each answer as its state says.
pub proof fn deletions_follow_the_answers(run: &mut DeleteRun, answer: StoreAnswer)
    requires
        call_ensures(DeleteRun::handle, (run, answer), ()),
    ensures
        final(run)@ == old(run)@.next(answer@),
        final(run)@.key == old(run)@.key,
        final(run)@.rows == old(run)@.rows,
{
}

} // verus!
