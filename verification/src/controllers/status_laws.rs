//! What the lines, titles and labels around the transfers and synchronizations say.

use vstd::prelude::*;

use crate::controllers::appearance::system_prefers_polish;
use crate::controllers::connections::demo_protocol_label;
use crate::controllers::credentials::{same_key, CredentialKey};
use crate::controllers::editor::{auth_text, data_mode_text, encoding_text, tls_mode_text};
use crate::controllers::editor_form::reads_password;
use crate::controllers::menu::{pull_text, refresh_sync_title, sync_title};
use crate::controllers::settings::not_saved_text;
use crate::controllers::settings_files::backup_format;
use crate::controllers::sync_mirror::{sync_metadata_matches, MirrorDeletionReport};
use crate::controllers::sync_plan::join_remote;
use crate::controllers::sync_profiles::refresh_sync_profile_model;
use crate::controllers::sync_report::sync_reason_name;
use crate::controllers::sync_session::queued_status;
use crate::controllers::transfer_report::check_report_size;
use crate::controllers::updates::checks_automatically;
use crate::folder_sync::{
    comparison_reason, SyncComparison, SyncFileMetadata, SyncOptions, SyncReason,
};
use crate::model::connection::{
    ConnectionSpec, FtpDataMode, FtpFilenameEncoding, FtpTlsMode, SftpAuth,
};
use crate::model::transfer::TransferPriority;
use crate::model::Protocol;
use crate::numerals::decimal;
use crate::pieces::has_prefix;
use crate::text::ascii_lowercase;

verus! {

/// The first preferred language of the system decides whether it is used in Polish, whatever the case
/// of its tag.
pub proof fn the_first_language_decides(tag: &str, locales: &Vec<String>, r: bool)
    requires
        call_ensures(system_prefers_polish, (Some(tag), locales), r),
    ensures
        r <==> has_prefix(ascii_lowercase(tag@), "pl"@),
{
}

/// A label names the protocol of its connection, and its host.
pub proof fn labels_name_host_and_protocol(
    spec: &ConnectionSpec,
    label: String,
    word: &'static str,
    shown: String,
)
    requires
        call_ensures(ConnectionSpec::display_label, (spec,), label),
        call_ensures(ConnectionSpec::protocol_label, (spec,), word),
        call_ensures(demo_protocol_label, (spec, false), shown),
    ensures
        spec.protocol == Protocol::Ftp ==> word@ == "FTP"@ && label@ == spec.host@ + " ("@ + "FTP"@ + ")"@,
        spec.protocol == Protocol::Sftp ==> word@ == "SFTP"@ && label@ == spec.host@ + " ("@ + "SFTP"@
            + ")"@,
        shown@ == word@,
{
}

/// Two keys are the same exactly if endpoint, host and user are.
pub proof fn keys_are_compared_whole(a: &CredentialKey, b: &CredentialKey, r: bool)
    requires
        call_ensures(same_key, (a, b), r),
    ensures
        r <==> a.endpoint@ == b.endpoint@ && a.host@ == b.host@ && a.user@ == b.user@,
{
}

/// A saved password is looked up for the logins that have one.
pub proof fn passwords_are_looked_up_where_there_are_some(spec: &ConnectionSpec, r: bool)
    requires
        call_ensures(reads_password, (spec,), r),
    ensures
        r <==> spec.sftp_auth == SftpAuth::Password || spec.sftp_auth == SftpAuth::PrivateKey,
{
}

/// The words that the form writes for the choices of a connection.
pub proof fn choices_are_written_in_words(
    auth: SftpAuth,
    mode: FtpDataMode,
    encoding: FtpFilenameEncoding,
    tls: FtpTlsMode,
    a: &'static str,
    m: &'static str,
    e: &'static str,
    t: &'static str,
)
    requires
        call_ensures(auth_text, (auth,), a),
        call_ensures(data_mode_text, (mode,), m),
        call_ensures(encoding_text, (encoding,), e),
        call_ensures(tls_mode_text, (tls,), t),
    ensures
        auth == SftpAuth::Password ==> a@ == "password"@,
        auth == SftpAuth::PrivateKey ==> a@ == "private_key"@,
        auth == SftpAuth::Agent ==> a@ == "agent"@,
        auth == SftpAuth::KeyboardInteractive ==> a@ == "keyboard_interactive"@,
        mode == FtpDataMode::Passive ==> m@ == "passive"@,
        mode == FtpDataMode::Active ==> m@ == "active"@,
        encoding == FtpFilenameEncoding::Auto ==> e@ == "auto"@,
        encoding == FtpFilenameEncoding::Utf8 ==> e@ == "utf8"@,
        tls == FtpTlsMode::Explicit ==> t@ == "explicit"@,
        tls == FtpTlsMode::Implicit ==> t@ == "implicit"@,
{
}

/// The menu says whether synchronization is on, and what was pulled.
pub proof fn the_menu_says_what_is_on(
    enabled: bool,
    installed: bool,
    title: &'static str,
    refreshed: Option<&'static str>,
    applied: bool,
    when: &str,
    pulled: String,
    nothing: String,
)
    requires
        call_ensures(sync_title, (enabled,), title),
        call_ensures(refresh_sync_title, (installed, enabled), refreshed),
        call_ensures(pull_text, (applied, Some(when)), pulled),
        call_ensures(pull_text, (applied, None::<&str>), nothing),
    ensures
        enabled ==> title@ == "iCloud Sync: ON  (click to turn off)"@,
        !enabled ==> title@ == "iCloud Sync: OFF  (click to turn on)"@,
        refreshed is Some <==> installed,
        refreshed matches Some(t) ==> t@ == title@,
        applied ==> pulled@ == "Pulled servers from iCloud ("@ + when@
            + ") — restart to see all changes."@,
        !applied ==> pulled@ == "Already up to date (iCloud: "@ + when@ + ")."@,
        nothing@ == "Nothing in iCloud yet. Turn on iCloud Sync and Send from your other Mac first."@,
{
}

/// A failed save of the settings is told with its error, and a backup says what it is.
pub proof fn settings_files_say_what_they_are(error: &str, r: String, format: &'static str)
    requires
        call_ensures(not_saved_text, (error,), r),
        call_ensures(backup_format, (), format),
    ensures
        r@ == "Could not save settings: "@ + error@,
        format@ == "gmacftp-settings"@,
{
}

/// A file is as it was exactly if its size and its time are.
pub proof fn sizes_and_times_tell_changes(
    expected: &SyncFileMetadata,
    bytes: u64,
    modified: Option<i64>,
    r: bool,
)
    requires
        call_ensures(sync_metadata_matches, (expected, bytes, modified), r),
    ensures
        r <==> bytes == expected.bytes && modified == expected.modified,
{
}

/// A failed deletion is counted, and the first problem is the one that is told.
pub proof fn the_first_problem_is_told(
    report: &mut MirrorDeletionReport,
    problem: String,
    text: String,
)
    requires
        old(report).failed < usize::MAX,
        call_ensures(MirrorDeletionReport::fail, (report, problem), ()),
    ensures
        final(report).failed == old(report).failed + 1,
        final(report).skipped == old(report).skipped,
        old(report).first_problem is None ==> final(report).first_problem == Some(problem),
        old(report).first_problem is Some ==> final(report).first_problem == old(report).first_problem,
{
}

/// What is skipped together is counted together.
pub proof fn skipped_deletions_are_counted(
    report: &mut MirrorDeletionReport,
    count: usize,
    problem: String,
)
    requires
        call_ensures(MirrorDeletionReport::skip_many, (report, count, problem), ()),
    ensures
        old(report).skipped + count <= usize::MAX ==> final(report).skipped == old(report).skipped
            + count,
        final(report).failed == old(report).failed,
        old(report).first_problem is None ==> final(report).first_problem == Some(problem),
        old(report).first_problem is Some ==> final(report).first_problem == old(report).first_problem,
{
}

/// The line about a mirror is its first problem.
pub proof fn problems_are_told(report: &MirrorDeletionReport, r: String)
    requires
        call_ensures(MirrorDeletionReport::error_text, (report,), r),
    ensures
        report.first_problem matches Some(p) ==> r@ == "Mirror safety: "@ + p@,
        report.first_problem is None ==> r@.len() == 0,
{
}

/// A file goes below the folder on the server, with one slash between.
pub proof fn uploads_go_below_their_folder(root: &str, relative: &str, r: String)
    requires
        call_ensures(join_remote, (root, relative), r),
        root@.len() > 0,
    ensures
        root@[root@.len() - 1] != '/' ==> r@ == root@ + "/"@ + relative@,
        root@[root@.len() - 1] == '/' ==> r@ == root@ + relative@,
{
}

/// The selected row of the profiles is the one that is selected, where there is one.
pub proof fn the_selected_profile_is_shown(count: usize, selected: Option<usize>, r: i32)
    requires
        call_ensures(refresh_sync_profile_model, (count, selected), r),
    ensures
        selected is None ==> r == -1,
        selected matches Some(i) ==> (i < count && i <= i32::MAX ==> r == i),
        selected matches Some(i) ==> (i >= count ==> r == -1),
{
}

/// A report names the reason of each copy.
pub proof fn reasons_are_named(reason: SyncReason, r: &'static str)
    requires
        call_ensures(sync_reason_name, (reason,), r),
    ensures
        reason == SyncReason::Missing ==> r@ == "missing"@,
        reason == SyncReason::DifferentSize ==> r@ == "different_size"@,
        reason == SyncReason::DifferentModificationTime ==> r@ == "different_modification_time"@,
        reason == SyncReason::ModificationTimeUnavailable ==> r@ == "modification_time_unavailable"@,
        reason == SyncReason::DifferentChecksum ==> r@ == "different_checksum"@,
        reason == SyncReason::ChecksumUnavailable ==> r@ == "checksum_unavailable"@,
        reason == SyncReason::TargetOnly ==> r@ == "target_only"@,
{
}

/// The line about a started synchronization counts its files, and says where deletions wait.
pub proof fn started_synchronizations_are_told(count: usize, deletions: bool, r: String)
    requires
        call_ensures(queued_status, (count, deletions), r),
    ensures
        !deletions ==> r@ == "queued "@ + decimal(count as nat) + " synchronized file(s)…"@,
        deletions && count > 0 ==> r@ == "queued "@ + decimal(count as nat)
            + " synchronized file(s); deletions wait for every copy…"@,
        deletions && count == 0 ==> r@ == "rechecking selected mirror deletions…"@,
{
}

/// Files of one size are compared as was asked for: not at all, by their times within the tolerance,
/// or by their digests; where these are unknown, the file is copied.
pub proof fn files_of_one_size_are_compared_as_asked(
    source: &SyncFileMetadata,
    target: &SyncFileMetadata,
    options: SyncOptions,
    r: Option<SyncReason>,
)
    requires
        call_ensures(comparison_reason, (source, target, options), r),
    ensures
        options.comparison == SyncComparison::SizeOnly ==> r is None,
        options.comparison == SyncComparison::Checksum && source.sha256 is Some && target.sha256 is Some
            ==> (r is None <==> source.sha256->0@ == target.sha256->0@),
        options.comparison == SyncComparison::Checksum && (source.sha256 is None || target.sha256 is None)
            ==> r == Some(SyncReason::ChecksumUnavailable),
        options.comparison == SyncComparison::SizeAndModificationTime && (source.modified is None
            || target.modified is None) ==> r == Some(SyncReason::ModificationTimeUnavailable),
        options.comparison == SyncComparison::SizeAndModificationTime
            && options.source_time_adjustment_seconds == 0 && options.target_time_adjustment_seconds
            == 0 ==> (source.modified matches Some(s) ==> (target.modified matches Some(t) ==> (r
            is Some <==> s - t > options.mtime_tolerance_seconds))),
{
}

/// Jobs of a higher priority are scheduled first.
pub proof fn higher_priorities_come_first(p: TransferPriority, q: TransferPriority, a: u8, b: u8)
    requires
        call_ensures(TransferPriority::scheduling_rank, (p,), a),
        call_ensures(TransferPriority::scheduling_rank, (q,), b),
    ensures
        p == TransferPriority::High && q == TransferPriority::Normal ==> a < b,
        p == TransferPriority::Normal && q == TransferPriority::Low ==> a < b,
        p == q ==> a == b,
{
}

/// The program looks for updates by itself where it may, wants to and can; a report that is too long
/// is not handed out.
pub proof fn limits_and_wishes_are_kept(
    enabled: bool,
    background: bool,
    supported: bool,
    r: bool,
    bytes: usize,
    c: Result<(), String>,
)
    requires
        call_ensures(checks_automatically, (enabled, background, supported), r),
        call_ensures(check_report_size, (bytes,), c),
    ensures
        r <==> enabled && background && supported,
        c is Ok <==> bytes <= 2097152,
{
}

} // verus!
