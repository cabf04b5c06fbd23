//! What the settings form means, what a backup brings, and what diagnostics count.

use vstd::prelude::*;

use crate::controllers::settings::{
    folder_to_look_up, load_settings_form, read_settings_form, settings_effects, FolderLookup,
    FormLookups, PaneRefresh, Settings, SettingsEffects, SettingsForm,
};
use crate::controllers::settings_files::{
    all_traits, check_backup_document, check_backup_size, check_import_size, check_opened_file,
    check_read_bytes, check_selected_file, choose_sync_folder, clear_sync_folder, imported_settings,
    read_limit, redacted_diagnostics, summarize_connections, Build, ConnectionSummary, Diagnostics,
    FileFacts,
};
use crate::controllers::storage::StorageStats;
use crate::model::connection::{ConnectionSpec, FtpTlsMode};
use crate::model::Protocol;
use crate::numerals::{decimal, signed_decimal, signed_value, unsigned_value};
use crate::pieces::trimmed;
use crate::text::text_of;

verus! {

/// Every field of the form sets its own setting.
pub proof fn settings_are_what_the_form_says(
    form: &SettingsForm,
    lookups: &FormLookups,
    previous: Settings,
    s: Settings,
)
    requires
        call_ensures(read_settings_form, (form, lookups, previous), Ok::<Settings, String>(s)),
    ensures
        s.theme@ == form.theme@,
        s.locale@ == form.locale@,
        s.show_hidden_files == form.show_hidden,
        s.show_advanced_columns == form.show_advanced_columns,
        s.background_folder_metadata == form.background_metadata,
        s.confirm_deletes == form.confirm_deletes,
        s.remote_quarantine_deletes == form.remote_quarantine_deletes,
        s.restore_workspace == form.restore_workspace,
        s.open_connection_manager_on_launch == form.open_manager_on_launch,
        s.check_updates_automatically == form.check_updates_automatically,
        s.existing_file_policy@ == form.existing_file_policy@,
        s.batch_error_policy@ == form.batch_error_policy@,
        s.queue_recovery_policy@ == form.queue_recovery_policy@,
        s.notify_transfer_completion == form.notify_transfer_completion,
        s.notify_transfer_failure == form.notify_transfer_failure,
        s.preserve_transfer_timestamps == form.preserve_transfer_timestamps,
        s.preserve_transfer_permissions == form.preserve_transfer_permissions,
        s.sync_comparison@ == form.sync_comparison@,
        s.sync_exclusions@ == form.sync_exclusions@,
        s.editor_auto_upload == form.editor_auto_upload,
        s.editor_conflict_action@ == form.editor_conflict_action@,
        s.editor_temp_retention@ == form.editor_temp_retention@,
        s.editor_retain_on_error <==> form.editor_temp_retention@ != "cleanup"@,
        lookups.mappings matches Ok(m) && s.editor_mappings@ == m@,
{
}

/// The numbers of the form are those that stand in it, and a negative count is none.
pub proof fn numbers_are_what_the_form_says(
    form: &SettingsForm,
    lookups: &FormLookups,
    previous: Settings,
    s: Settings,
)
    requires
        call_ensures(read_settings_form, (form, lookups, previous), Ok::<Settings, String>(s)),
    ensures
        unsigned_value(trimmed(form.pane_split@), u32::MAX as nat) == Some(s.pane_split_px as nat),
        unsigned_value(trimmed(form.window_width@), u32::MAX as nat) == Some(s.window_width_px as nat),
        unsigned_value(trimmed(form.window_height@), u32::MAX as nat) == Some(s.window_height_px as nat),
        unsigned_value(trimmed(form.retry_count@), usize::MAX as nat) == Some(
            s.transfer_retry_count as nat,
        ),
        unsigned_value(trimmed(form.retry_backoff@), u64::MAX as nat) == Some(
            s.transfer_retry_backoff_ms as nat,
        ),
        unsigned_value(trimmed(form.bandwidth_limit@), u64::MAX as nat) == Some(
            s.transfer_bandwidth_limit_kib as nat,
        ),
        unsigned_value(trimmed(form.editor_max_mib@), usize::MAX as nat) == Some(
            s.editor_max_download_mib as nat,
        ),
        signed_value(trimmed(form.sync_tolerance@)) == Some(s.sync_mtime_tolerance_secs as int),
        s.sync_mtime_tolerance_secs >= 0,
        form.transfer_concurrency >= 0 ==> s.transfer_concurrency == form.transfer_concurrency,
        form.transfer_concurrency < 0 ==> s.transfer_concurrency == 0,
        form.server_concurrency >= 0 ==> s.per_server_transfer_concurrency == form.server_concurrency,
        form.server_concurrency < 0 ==> s.per_server_transfer_concurrency == 0,
{
}

/// A pane begins in the folder that was found where its field points to; an empty field means none.
/// Left and right are not mixed up, and what the form does not show stays.
pub proof fn panes_begin_where_the_form_says(
    form: &SettingsForm,
    lookups: &FormLookups,
    previous: Settings,
    s: Settings,
)
    requires
        call_ensures(read_settings_form, (form, lookups, previous), Ok::<Settings, String>(s)),
    ensures
        trimmed(form.left_path@).len() == 0 ==> s.last_left_local_path is None,
        trimmed(form.right_path@).len() == 0 ==> s.last_right_local_path is None,
        trimmed(form.left_path@).len() > 0 ==> (lookups.left matches FolderLookup::Folder(path)
            && s.last_left_local_path is Some && s.last_left_local_path->0@ == path@),
        trimmed(form.right_path@).len() > 0 ==> (lookups.right matches FolderLookup::Folder(path)
            && s.last_right_local_path is Some && s.last_right_local_path->0@ == path@),
        s.window_x_px == previous.window_x_px,
        s.window_y_px == previous.window_y_px,
        s.sync_profiles == previous.sync_profiles,
        s.sync_via_icloud == previous.sync_via_icloud,
        text_of(s.sync_folder) == text_of(previous.sync_folder),
        s.sync_passphrase_set == previous.sync_passphrase_set,
        s.keychain_migrated_v2 == previous.keychain_migrated_v2,
        s.endpoint_credentials_migrated_v2 == previous.endpoint_credentials_migrated_v2,
{
    assert(text_of(s.last_left_local_path) is Some <==> s.last_left_local_path is Some);
    assert(text_of(s.last_right_local_path) is Some <==> s.last_right_local_path is Some);
}

/// A number that is none, a folder that is none, and mappings that cannot be read refuse the form.
pub proof fn odd_settings_are_refused(
    form: &SettingsForm,
    lookups: &FormLookups,
    previous: Settings,
    r: Result<Settings, String>,
)
    requires
        call_ensures(read_settings_form, (form, lookups, previous), r),
    ensures
        unsigned_value(trimmed(form.retry_count@), usize::MAX as nat) is None ==> (r matches Err(e)
            && e@ == "Retries"@ + " must be a whole non-negative number."@),
        unsigned_value(trimmed(form.retry_backoff@), u64::MAX as nat) is None ==> r is Err,
        unsigned_value(trimmed(form.bandwidth_limit@), u64::MAX as nat) is None ==> r is Err,
        unsigned_value(trimmed(form.editor_max_mib@), usize::MAX as nat) is None ==> r is Err,
        unsigned_value(trimmed(form.pane_split@), u32::MAX as nat) is None ==> r is Err,
        unsigned_value(trimmed(form.window_width@), u32::MAX as nat) is None ==> r is Err,
        unsigned_value(trimmed(form.window_height@), u32::MAX as nat) is None ==> r is Err,
        signed_value(trimmed(form.sync_tolerance@)) is None ==> r is Err,
        signed_value(trimmed(form.sync_tolerance@)) matches Some(n) ==> (n < 0 ==> r is Err),
        lookups.mappings is Err ==> r is Err,
        trimmed(form.left_path@).len() > 0 && !(lookups.left is Folder) ==> r is Err,
        trimmed(form.right_path@).len() > 0 && !(lookups.right is Folder) ==> r is Err,
{
}

/// A tilde stands for the home folder, alone and before a slash; any other path must be absolute.
pub proof fn a_tilde_is_the_home_folder(raw: &str, home: &str, r: Option<String>)
    requires
        call_ensures(folder_to_look_up, (raw, home), r),
        home@.len() > 0,
        home@[0] == '/',
    ensures
        trimmed(raw@) == seq!['~'] ==> (r matches Some(p) && p@ == home@),
        trimmed(raw@).len() > 0 && trimmed(raw@)[0] == '/' ==> (r matches Some(p) && p@ == trimmed(
            raw@,
        )),
        trimmed(raw@).len() > 0 && trimmed(raw@)[0] != '/' && trimmed(raw@)[0] != '~' ==> r is None,
        trimmed(raw@).len() == 0 ==> r is None,
{
    let path = trimmed(raw@);
    if path.len() > 0 && path[0] != '~' {
        assert(path != seq!['~']);
        if crate::pieces::has_prefix(path, seq!['~', '/']) {
            assert(path.take(2)[0] == '~');
        }
    }
}

/// The form shows the settings that are in force, each in its own field.
pub proof fn the_form_shows_the_settings(s: &Settings, mappings: String, form: SettingsForm)
    requires
        call_ensures(load_settings_form, (s, mappings), form),
    ensures
        form.theme@ == s.theme@,
        form.locale@ == s.locale@,
        form.show_hidden == s.show_hidden_files,
        form.show_advanced_columns == s.show_advanced_columns,
        form.background_metadata == s.background_folder_metadata,
        form.confirm_deletes == s.confirm_deletes,
        form.remote_quarantine_deletes == s.remote_quarantine_deletes,
        form.restore_workspace == s.restore_workspace,
        form.open_manager_on_launch == s.open_connection_manager_on_launch,
        form.check_updates_automatically == s.check_updates_automatically,
        s.last_left_local_path matches Some(p) ==> form.left_path@ == p@,
        s.last_left_local_path is None ==> form.left_path@.len() == 0,
        s.last_right_local_path matches Some(p) ==> form.right_path@ == p@,
        s.last_right_local_path is None ==> form.right_path@.len() == 0,
        form.pane_split@ == decimal(s.pane_split_px as nat),
        form.window_width@ == decimal(s.window_width_px as nat),
        form.window_height@ == decimal(s.window_height_px as nat),
        form.retry_count@ == decimal(s.transfer_retry_count as nat),
        form.retry_backoff@ == decimal(s.transfer_retry_backoff_ms as nat),
        form.bandwidth_limit@ == decimal(s.transfer_bandwidth_limit_kib as nat),
        form.editor_max_mib@ == decimal(s.editor_max_download_mib as nat),
        form.sync_tolerance@ == signed_decimal(s.sync_mtime_tolerance_secs as int),
        s.transfer_concurrency <= i32::MAX ==> form.transfer_concurrency == s.transfer_concurrency,
        s.per_server_transfer_concurrency <= i32::MAX ==> form.server_concurrency
            == s.per_server_transfer_concurrency,
        form.existing_file_policy@ == s.existing_file_policy@,
        form.batch_error_policy@ == s.batch_error_policy@,
        form.queue_recovery_policy@ == s.queue_recovery_policy@,
        form.notify_transfer_completion == s.notify_transfer_completion,
        form.notify_transfer_failure == s.notify_transfer_failure,
        form.preserve_transfer_timestamps == s.preserve_transfer_timestamps,
        form.preserve_transfer_permissions == s.preserve_transfer_permissions,
        form.sync_comparison@ == s.sync_comparison@,
        form.sync_exclusions@ == s.sync_exclusions@,
        form.editor_auto_upload == s.editor_auto_upload,
        form.editor_retain_on_error == s.editor_retain_on_error,
        form.editor_mappings@ == mappings@,
        form.editor_conflict_action@ == s.editor_conflict_action@,
        form.editor_temp_retention@ == s.editor_temp_retention@,
        s.sync_folder matches Some(p) ==> form.sync_folder@ == p@,
{
}

/// After a save the panes do what the change needs: they read their folders again where folder
/// metadata was switched, show them anew where hidden files were, and else do nothing. The system is
/// asked about notifications when the first of them is switched on.
pub proof fn saves_change_what_they_must(
    previous: &Settings,
    s: &Settings,
    fullscreen: bool,
    maximized: bool,
    r: SettingsEffects,
)
    requires
        call_ensures(settings_effects, (previous, s, fullscreen, maximized), r),
    ensures
        previous.background_folder_metadata != s.background_folder_metadata ==> r.panes
            == PaneRefresh::Reload,
        previous.background_folder_metadata == s.background_folder_metadata
            && previous.show_hidden_files != s.show_hidden_files ==> r.panes == PaneRefresh::Reapply,
        previous.background_folder_metadata == s.background_folder_metadata
            && previous.show_hidden_files == s.show_hidden_files ==> r.panes == PaneRefresh::Nothing,
        r.request_notifications <==> (s.notify_transfer_completion || s.notify_transfer_failure)
            && !(previous.notify_transfer_completion || previous.notify_transfer_failure),
        r.resize_window <==> !(fullscreen || maximized),
{
}

/// An import of settings takes every preference of the backup, and nothing of what this machine keeps
/// to itself.
pub proof fn imports_take_the_preferences(imported: Settings, current: &Settings, r: Settings)
    requires
        call_ensures(imported_settings, (imported, current), r),
    ensures
        r.theme == imported.theme,
        r.locale == imported.locale,
        r.show_hidden_files == imported.show_hidden_files,
        r.confirm_deletes == imported.confirm_deletes,
        r.transfer_concurrency == imported.transfer_concurrency,
        r.per_server_transfer_concurrency == imported.per_server_transfer_concurrency,
        r.transfer_retry_count == imported.transfer_retry_count,
        r.transfer_bandwidth_limit_kib == imported.transfer_bandwidth_limit_kib,
        r.existing_file_policy == imported.existing_file_policy,
        r.batch_error_policy == imported.batch_error_policy,
        r.queue_recovery_policy == imported.queue_recovery_policy,
        r.sync_comparison == imported.sync_comparison,
        r.sync_exclusions == imported.sync_exclusions,
        r.sync_profiles == imported.sync_profiles,
        r.editor_mappings == imported.editor_mappings,
        r.last_left_local_path == imported.last_left_local_path,
        r.last_right_local_path == imported.last_right_local_path,
        r.sync_via_icloud == current.sync_via_icloud,
        text_of(r.sync_folder) == text_of(current.sync_folder),
        r.sync_passphrase_set == current.sync_passphrase_set,
        r.keychain_migrated_v2 == current.keychain_migrated_v2,
        r.endpoint_credentials_migrated_v2 == current.endpoint_credentials_migrated_v2,
{
}

/// A selected file is read only if it is a regular one within its limit, the same before and after it
/// was opened, and still within the limit when it was read.
pub proof fn selected_files_are_bounded(
    before: &FileFacts,
    opened: &FileFacts,
    max: usize,
    read: usize,
    a: Result<(), String>,
    b: Result<(), String>,
    c: Result<(), String>,
    limit: usize,
)
    requires
        call_ensures(check_selected_file, (before, max), a),
        call_ensures(check_opened_file, (before, opened, max), b),
        call_ensures(check_read_bytes, (read, max), c),
        call_ensures(read_limit, (max,), limit),
    ensures
        a is Ok <==> before.is_file && !before.is_symlink && before.len <= max,
        b is Ok <==> before.device == opened.device && before.inode == opened.inode && opened.is_file
            && opened.len <= max,
        c is Ok <==> read <= max,
        max < usize::MAX ==> limit == max + 1,
{
}

/// Only a document of the right kind, version and size is taken for a backup.
pub proof fn backups_are_checked(
    format: &str,
    version: u32,
    bytes: usize,
    limit: usize,
    d: Result<(), String>,
    e: Result<(), String>,
    i: Result<(), String>,
)
    requires
        call_ensures(check_backup_document, (format, version), d),
        call_ensures(check_backup_size, (bytes, limit), e),
        call_ensures(check_import_size, (bytes, limit), i),
    ensures
        d is Ok <==> format@ == "gmacftp-settings"@ && version == 1,
        e is Ok <==> bytes <= limit,
        i is Ok <==> bytes <= limit,
{
}

/// The folder to synchronize to is set where it is a real directory, and nothing else is changed; the
/// state is pushed there where synchronization is on.
pub proof fn only_real_folders_are_synchronized_to(
    settings: &mut Settings,
    path: String,
    is_dir: bool,
    is_symlink: bool,
    r: Result<bool, String>,
)
    requires
        call_ensures(choose_sync_folder, (settings, path, is_dir, is_symlink), r),
    ensures
        r is Ok <==> is_dir && !is_symlink,
        r is Err ==> *final(settings) == *old(settings),
        r matches Ok(push) ==> push == old(settings).sync_via_icloud && final(settings).sync_folder
            == Some(path) && *final(settings) == (Settings {
            sync_folder: Some(path),
            ..*old(settings)
        }),
{
}

/// Without a folder of its own, synchronization goes to the default.
pub proof fn the_default_folder_is_no_folder(settings: &mut Settings, r: bool)
    requires
        call_ensures(clear_sync_folder, (settings,), r),
    ensures
        final(settings).sync_folder is None,
        *final(settings) == (Settings { sync_folder: None, ..*old(settings) }),
        r == old(settings).sync_via_icloud,
{
}

/// One, if something holds.
pub open spec fn one_if(b: bool) -> int {
    if b {
        1
    } else {
        0
    }
}

/// A further connection is counted once in the total and once for everything that it has.
pub proof fn connections_are_counted_by_what_they_have(
    list: &Vec<ConnectionSpec>,
    more: &Vec<ConnectionSpec>,
    c: ConnectionSpec,
    before: ConnectionSummary,
    after: ConnectionSummary,
)
    requires
        call_ensures(summarize_connections, (list,), before),
        call_ensures(summarize_connections, (more,), after),
        more@ == list@.push(c),
    ensures
        after.total == before.total + 1,
        after.ftp == before.ftp + one_if(c.protocol == Protocol::Ftp),
        after.sftp == before.sftp + one_if(c.protocol == Protocol::Sftp),
        after.plaintext_ftp_opt_ins == before.plaintext_ftp_opt_ins + one_if(c.allow_plaintext_ftp),
        after.legacy_tls_exceptions == before.legacy_tls_exceptions + one_if(c.accept_invalid_tls),
        after.pinned_tls_endpoints == before.pinned_tls_endpoints + one_if(
            c.tls_pinned_sha256 is Some,
        ),
        after.implicit_ftps_endpoints == before.implicit_ftps_endpoints + one_if(
            c.protocol == Protocol::Ftp && c.ftp_tls_mode == FtpTlsMode::Implicit,
        ),
        after.tls_client_identity_endpoints == before.tls_client_identity_endpoints + one_if(
            c.tls_client_cert is Some && c.tls_client_key is Some,
        ),
        after.proxy_endpoints == before.proxy_endpoints + one_if(c.proxy_url is Some),
        after.ssh_config_endpoints == before.ssh_config_endpoints + one_if(c.use_ssh_config),
{
    let a = all_traits(list@);
    let b = all_traits(more@);
    assert(b.drop_last() =~= a);
    assert(b.last() == crate::controllers::settings_files::traits_of(c));
}

/// Without connections there is nothing to count.
pub proof fn no_connections_count_nothing(list: &Vec<ConnectionSpec>, r: ConnectionSummary)
    requires
        call_ensures(summarize_connections, (list,), r),
        list@.len() == 0,
    ensures
        r.total == 0,
        r.ftp == 0,
        r.sftp == 0,
        r.plaintext_ftp_opt_ins == 0,
        r.legacy_tls_exceptions == 0,
        r.pinned_tls_endpoints == 0,
        r.implicit_ftps_endpoints == 0,
        r.tls_client_identity_endpoints == 0,
        r.proxy_endpoints == 0,
        r.ssh_config_endpoints == 0,
{
}

/// Diagnostics say of the settings what is set.
pub proof fn diagnostics_say_what_is_set(
    s: &Settings,
    connections: &Vec<ConnectionSpec>,
    storage: StorageStats,
    recoverable: usize,
    build: Build,
    d: Diagnostics,
)
    requires
        call_ensures(redacted_diagnostics, (s, connections, storage, recoverable, build), d),
    ensures
        d.background_folder_metadata == s.background_folder_metadata,
        d.transfer_concurrency == s.transfer_concurrency,
        d.per_server_transfer_concurrency == s.per_server_transfer_concurrency,
        d.retry_count == s.transfer_retry_count,
        d.bandwidth_limit_kib == s.transfer_bandwidth_limit_kib,
        d.saved_sync_profiles == s.sync_profiles@.len(),
        d.editor_mappings == s.editor_mappings@.len(),
        d.recoverable_transfers == recoverable,
        d.storage == storage,
        d.app_version == build.app_version,
        d.target_os == build.target_os,
        d.target_arch == build.target_arch,
        d.connections.total == connections@.len(),
        s.locale@ == "en"@ || s.locale@ == "pl"@ || s.locale@ == "system"@ ==> d.locale_mode@
            == s.locale@,
        s.locale@ != "en"@ && s.locale@ != "pl"@ && s.locale@ != "system"@ ==> d.locale_mode@
            == "invalid"@,
        s.theme@ == "light"@ || s.theme@ == "dark"@ || s.theme@ == "system"@ ==> d.theme_mode@
            == s.theme@,
        s.theme@ != "light"@ && s.theme@ != "dark"@ && s.theme@ != "system"@ ==> d.theme_mode@
            == "invalid"@,
{
}

/// A tilde before a slash is the home folder, and what follows lies in it.
pub proof fn folders_may_lie_in_the_home_folder(raw: &str, home: &str, rest: Seq<char>, r: Option<String>)
    requires
        call_ensures(folder_to_look_up, (raw, home), r),
        home@.len() > 0,
        home@[0] == '/',
        home@[home@.len() - 1] != '/',
        rest.len() > 0,
        rest[0] != '/',
        trimmed(raw@) == seq!['~', '/'] + rest,
    ensures
        r matches Some(p) && p@ == home@ + seq!['/'] + rest,
{
    let path = trimmed(raw@);
    assert(path.take(2) =~= seq!['~', '/']);
    assert(path.skip(2) =~= rest);
    assert(path.len() > 1);
}

} // verus!
