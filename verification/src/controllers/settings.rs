//! The settings and the form in which they are changed.

use vstd::prelude::*;
use vstd::slice::slice_subrange;

use crate::controllers::sync_profiles::SyncProfile;
use crate::model::connection::clone_texts;
use crate::net::ssh_resolve::{join_path, path_join};
use crate::numerals::{
    decimal, decimal_reads_back, is_digit, number_text, parse_i64, parse_unsigned, signed_decimal,
    signed_value, to_signed_decimal, unsigned_value,
};
use crate::pieces::{has_prefix, lemma_trimmed_fixed, starts_with, trim, trimmed};
use crate::text::{chars_of, plus, same_text, string_of, text_of};

verus! {

#[derive(Debug, PartialEq, Eq)]
pub struct Settings {
    pub theme: String,
    pub locale: String,
    pub show_hidden_files: bool,
    pub show_advanced_columns: bool,
    pub background_folder_metadata: bool,
    pub confirm_deletes: bool,
    pub remote_quarantine_deletes: bool,
    pub restore_workspace: bool,
    pub open_connection_manager_on_launch: bool,
    pub check_updates_automatically: bool,
    pub last_left_local_path: Option<String>,
    pub last_right_local_path: Option<String>,
    pub pane_split_px: u32,
    pub window_width_px: u32,
    pub window_height_px: u32,
    pub window_x_px: Option<i32>,
    pub window_y_px: Option<i32>,
    pub transfer_concurrency: usize,
    pub per_server_transfer_concurrency: usize,
    pub transfer_retry_count: usize,
    pub transfer_retry_backoff_ms: u64,
    pub transfer_bandwidth_limit_kib: u64,
    pub existing_file_policy: String,
    pub batch_error_policy: String,
    pub queue_recovery_policy: String,
    pub notify_transfer_completion: bool,
    pub notify_transfer_failure: bool,
    pub preserve_transfer_timestamps: bool,
    pub preserve_transfer_permissions: bool,
    pub sync_comparison: String,
    pub sync_mtime_tolerance_secs: i64,
    pub sync_exclusions: String,
    pub sync_profiles: Vec<SyncProfile>,
    pub editor_max_download_mib: usize,
    pub editor_auto_upload: bool,
    /// One line for each kind of file that has an editor of its own.
    pub editor_mappings: Vec<String>,
    pub editor_conflict_action: String,
    pub editor_temp_retention: String,
    pub editor_retain_on_error: bool,
    pub sync_via_icloud: bool,
    pub sync_folder: Option<String>,
    pub sync_passphrase_set: bool,
    pub keychain_migrated_v2: bool,
    pub endpoint_credentials_migrated_v2: bool,
}

/// What stands in the fields of the form.
#[derive(Debug, PartialEq, Eq)]
pub struct SettingsForm {
    pub theme: String,
    pub locale: String,
    pub show_hidden: bool,
    pub show_advanced_columns: bool,
    pub background_metadata: bool,
    pub confirm_deletes: bool,
    pub remote_quarantine_deletes: bool,
    pub restore_workspace: bool,
    pub open_manager_on_launch: bool,
    pub check_updates_automatically: bool,
    pub left_path: String,
    pub right_path: String,
    pub pane_split: String,
    pub window_width: String,
    pub window_height: String,
    pub transfer_concurrency: i32,
    pub server_concurrency: i32,
    pub retry_count: String,
    pub retry_backoff: String,
    pub bandwidth_limit: String,
    pub existing_file_policy: String,
    pub batch_error_policy: String,
    pub queue_recovery_policy: String,
    pub notify_transfer_completion: bool,
    pub notify_transfer_failure: bool,
    pub preserve_transfer_timestamps: bool,
    pub preserve_transfer_permissions: bool,
    pub sync_comparison: String,
    pub sync_tolerance: String,
    pub sync_exclusions: String,
    pub editor_max_mib: String,
    pub editor_auto_upload: bool,
    pub editor_retain_on_error: bool,
    pub editor_mappings: String,
    pub editor_conflict_action: String,
    pub editor_temp_retention: String,
    pub sync_folder: String,
}

// --- the folders that the panes begin in -------------------------------------------------------

/// The folder that a field names; `~` stands for the home folder.
pub open spec fn named_folder(raw: Seq<char>, home: Seq<char>) -> Seq<char> {
    let path = trimmed(raw);
    if path == seq!['~'] {
        home
    } else if has_prefix(path, seq!['~', '/']) {
        path_join(home, path.skip(2))
    } else {
        path
    }
}

pub open spec fn is_absolute(path: Seq<char>) -> bool {
    path.len() > 0 && path[0] == '/'
}

/// The folder that has to be looked up before the field can be read: none for an empty field or one
/// that names no absolute path.
pub fn folder_to_look_up(raw: &str, home: &str) -> (r: Option<String>)
    ensures
        r is Some <==> trimmed(raw@).len() > 0 && is_absolute(named_folder(raw@, home@)),
        r matches Some(path) ==> path@ == named_folder(raw@, home@),
{
    let chars: Vec<char> = chars_of(raw);
    let path: &[char] = trim(&chars);
    if path.len() == 0 {
        return None;
    }
    let tilde: [char; 2] = ['~', '/'];
    assert(tilde@ =~= seq!['~', '/']);
    let home_chars: Vec<char> = chars_of(home);
    let folder: Vec<char> = if path.len() == 1 && path[0] == '~' {
        assert(path@ =~= seq!['~']);
        home_chars
    } else if starts_with(path, tilde.as_slice()) {
        assert(path@ != seq!['~']);
        let rest: &[char] = slice_subrange(path, 2, path.len());
        assert(rest@ =~= path@.skip(2));
        join_path(&home_chars, rest)
    } else {
        assert(path@ != seq!['~']) by {
            if path@ == seq!['~'] {
                assert(path@[0] == '~');
            }
        }
        crate::pieces::copy_chars(path)
    };
    if folder.len() > 0 && folder[0] == '/' {
        Some(string_of(&folder))
    } else {
        None
    }
}

/// What was found where a field points to.
#[derive(Debug, PartialEq, Eq)]
pub enum FolderLookup {
    Unavailable(String),
    NotAFolder,
    /// The folder under its canonical path.
    Folder(String),
}

pub open spec fn folder_setting(
    raw: Seq<char>,
    label: Seq<char>,
    home: Seq<char>,
    found: FolderLookup,
) -> Result<Option<Seq<char>>, Seq<char>> {
    if trimmed(raw).len() == 0 {
        Ok(None)
    } else if !is_absolute(named_folder(raw, home)) {
        Err(label + " must be an absolute local folder path."@)
    } else {
        match found {
            FolderLookup::Unavailable(e) => Err(label + " is unavailable: "@ + e@),
            FolderLookup::NotAFolder => Err(label + " must point to a local folder."@),
            FolderLookup::Folder(path) => Ok(Some(path@)),
        }
    }
}

/// Read a field that names a folder; `found` is what was found at `folder_to_look_up`.
pub fn parse_settings_local_path(raw: &str, label: &str, home: &str, found: &FolderLookup) -> (r:
    Result<Option<String>, String>)
    ensures
        match r {
            Ok(path) => folder_setting(raw@, label@, home@, *found) == Ok::<
                Option<Seq<char>>,
                Seq<char>,
            >(text_of(path)),
            Err(e) => folder_setting(raw@, label@, home@, *found) == Err::<
                Option<Seq<char>>,
                Seq<char>,
            >(e@),
        },
{
    let chars: Vec<char> = chars_of(raw);
    if trim(&chars).len() == 0 {
        return Ok(None);
    }
    if folder_to_look_up(raw, home).is_none() {
        return Err(plus(label.to_owned(), " must be an absolute local folder path."));
    }
    match found {
        FolderLookup::Unavailable(e) => Err(
            plus(plus(label.to_owned(), " is unavailable: "), e.as_str()),
        ),
        FolderLookup::NotAFolder => Err(plus(label.to_owned(), " must point to a local folder.")),
        FolderLookup::Folder(path) => Ok(Some(path.clone())),
    }
}

// --- reading the form --------------------------------------------------------------------------

/// A whole number of at most `max` in a field.
pub open spec fn number_field(raw: Seq<char>, max: u64) -> Option<nat> {
    unsigned_value(trimmed(raw), max as nat)
}

fn read_number(raw: &str, max: u64) -> (r: Option<u64>)
    ensures
        r matches Some(n) ==> number_field(raw@, max) == Some(n as nat) && n <= max,
        r is None ==> number_field(raw@, max) is None,
{
    let chars: Vec<char> = chars_of(raw);
    parse_unsigned(trim(&chars), max)
}

pub open spec fn number_refusal(label: Seq<char>) -> Seq<char> {
    label + " must be a whole non-negative number."@
}

fn refuse_number(label: &str) -> (r: String)
    ensures
        r@ == number_refusal(label@),
{
    plus(label.to_owned(), " must be a whole non-negative number.")
}

/// What is wrong with the numbers that come before the folders.
pub open spec fn first_numbers_refusal(form: SettingsForm) -> Option<Seq<char>> {
    if number_field(form.retry_count@, usize::MAX as u64) is None {
        Some(number_refusal("Retries"@))
    } else if number_field(form.retry_backoff@, u64::MAX) is None {
        Some(number_refusal("Retry backoff"@))
    } else if number_field(form.bandwidth_limit@, u64::MAX) is None {
        Some(number_refusal("Bandwidth limit"@))
    } else if !(signed_value(trimmed(form.sync_tolerance@)) matches Some(n) && n >= 0) {
        Some("Sync tolerance must be a whole non-negative number."@)
    } else if number_field(form.editor_max_mib@, usize::MAX as u64) is None {
        Some(number_refusal("Editor limit"@))
    } else {
        None
    }
}

/// What is wrong with the numbers that come after the folders.
pub open spec fn last_numbers_refusal(form: SettingsForm) -> Option<Seq<char>> {
    if number_field(form.pane_split@, u32::MAX as u64) is None {
        Some(number_refusal("Pane split"@))
    } else if number_field(form.window_width@, u32::MAX as u64) is None {
        Some(number_refusal("Window width"@))
    } else if number_field(form.window_height@, u32::MAX as u64) is None {
        Some(number_refusal("Window height"@))
    } else {
        None
    }
}

/// What else was read on behalf of the form.
#[derive(Debug, PartialEq, Eq)]
pub struct FormLookups {
    pub home: String,
    /// The editor mappings that the form holds, or what is wrong with them.
    pub mappings: Result<Vec<String>, String>,
    pub left: FolderLookup,
    pub right: FolderLookup,
}

pub open spec fn left_setting(form: SettingsForm, lookups: FormLookups) -> Result<
    Option<Seq<char>>,
    Seq<char>,
> {
    folder_setting(form.left_path@, "Left pane path"@, lookups.home@, lookups.left)
}

pub open spec fn right_setting(form: SettingsForm, lookups: FormLookups) -> Result<
    Option<Seq<char>>,
    Seq<char>,
> {
    folder_setting(form.right_path@, "Right pane path"@, lookups.home@, lookups.right)
}

/// Why the form is not accepted: the first thing that is wrong with it.
pub open spec fn settings_refusal(form: SettingsForm, lookups: FormLookups) -> Option<Seq<char>> {
    if first_numbers_refusal(form) is Some {
        first_numbers_refusal(form)
    } else if lookups.mappings is Err {
        Some("Editor mappings: "@ + lookups.mappings->Err_0@)
    } else if left_setting(form, lookups) is Err {
        Some(left_setting(form, lookups)->Err_0)
    } else if right_setting(form, lookups) is Err {
        Some(right_setting(form, lookups)->Err_0)
    } else {
        last_numbers_refusal(form)
    }
}

pub open spec fn at_least_zero(n: i32) -> usize {
    if n < 0 {
        0
    } else {
        n as usize
    }
}

/// `settings` holds what the form says, and what the form does not show is as it was.
pub open spec fn settings_follow(
    form: SettingsForm,
    lookups: FormLookups,
    previous: Settings,
    settings: Settings,
) -> bool {
    &&& settings.theme@ == form.theme@
    &&& settings.locale@ == form.locale@
    &&& settings.show_hidden_files == form.show_hidden
    &&& settings.show_advanced_columns == form.show_advanced_columns
    &&& settings.background_folder_metadata == form.background_metadata
    &&& settings.confirm_deletes == form.confirm_deletes
    &&& settings.remote_quarantine_deletes == form.remote_quarantine_deletes
    &&& settings.restore_workspace == form.restore_workspace
    &&& settings.open_connection_manager_on_launch == form.open_manager_on_launch
    &&& settings.check_updates_automatically == form.check_updates_automatically
    &&& left_setting(form, lookups) == Ok::<Option<Seq<char>>, Seq<char>>(
        text_of(settings.last_left_local_path),
    )
    &&& right_setting(form, lookups) == Ok::<Option<Seq<char>>, Seq<char>>(
        text_of(settings.last_right_local_path),
    )
    &&& number_field(form.pane_split@, u32::MAX as u64) == Some(settings.pane_split_px as nat)
    &&& number_field(form.window_width@, u32::MAX as u64) == Some(settings.window_width_px as nat)
    &&& number_field(form.window_height@, u32::MAX as u64) == Some(
        settings.window_height_px as nat,
    )
    &&& settings.transfer_concurrency == at_least_zero(form.transfer_concurrency)
    &&& settings.per_server_transfer_concurrency == at_least_zero(form.server_concurrency)
    &&& number_field(form.retry_count@, usize::MAX as u64) == Some(
        settings.transfer_retry_count as nat,
    )
    &&& number_field(form.retry_backoff@, u64::MAX) == Some(
        settings.transfer_retry_backoff_ms as nat,
    )
    &&& number_field(form.bandwidth_limit@, u64::MAX) == Some(
        settings.transfer_bandwidth_limit_kib as nat,
    )
    &&& settings.existing_file_policy@ == form.existing_file_policy@
    &&& settings.batch_error_policy@ == form.batch_error_policy@
    &&& settings.queue_recovery_policy@ == form.queue_recovery_policy@
    &&& settings.notify_transfer_completion == form.notify_transfer_completion
    &&& settings.notify_transfer_failure == form.notify_transfer_failure
    &&& settings.preserve_transfer_timestamps == form.preserve_transfer_timestamps
    &&& settings.preserve_transfer_permissions == form.preserve_transfer_permissions
    &&& settings.sync_comparison@ == form.sync_comparison@
    &&& signed_value(trimmed(form.sync_tolerance@)) == Some(
        settings.sync_mtime_tolerance_secs as int,
    )
    &&& settings.sync_exclusions@ == form.sync_exclusions@
    &&& number_field(form.editor_max_mib@, usize::MAX as u64) == Some(
        settings.editor_max_download_mib as nat,
    )
    &&& settings.editor_auto_upload == form.editor_auto_upload
    &&& lookups.mappings matches Ok(mappings)
    &&& settings.editor_mappings@ == mappings@
    &&& settings.editor_conflict_action@ == form.editor_conflict_action@
    &&& settings.editor_temp_retention@ == form.editor_temp_retention@
    &&& settings.editor_retain_on_error == (form.editor_temp_retention@ != "cleanup"@)
    &&& unchanged_by_the_form(previous, settings)
}

/// What the form does not change: where the window is, what is synchronized and how secrets are
/// kept.
pub open spec fn unchanged_by_the_form(previous: Settings, settings: Settings) -> bool {
    &&& settings.window_x_px == previous.window_x_px
    &&& settings.window_y_px == previous.window_y_px
    &&& settings.sync_profiles == previous.sync_profiles
    &&& same_security(previous, settings)
}

/// Two settings agree on what is synchronized to where and on how secrets are kept.
pub open spec fn same_security(a: Settings, b: Settings) -> bool {
    &&& a.sync_via_icloud == b.sync_via_icloud
    &&& text_of(a.sync_folder) == text_of(b.sync_folder)
    &&& a.sync_passphrase_set == b.sync_passphrase_set
    &&& a.keychain_migrated_v2 == b.keychain_migrated_v2
    &&& a.endpoint_credentials_migrated_v2 == b.endpoint_credentials_migrated_v2
}

fn read_first_numbers(form: &SettingsForm) -> (r: Result<(usize, u64, u64, i64, usize), String>)
    ensures
        match r {
            Ok(n) => first_numbers_refusal(*form) is None && number_field(
                form.retry_count@,
                usize::MAX as u64,
            ) == Some(n.0 as nat) && number_field(form.retry_backoff@, u64::MAX) == Some(n.1 as nat)
                && number_field(form.bandwidth_limit@, u64::MAX) == Some(n.2 as nat)
                && signed_value(trimmed(form.sync_tolerance@)) == Some(n.3 as int)
                && number_field(form.editor_max_mib@, usize::MAX as u64) == Some(n.4 as nat),
            Err(e) => first_numbers_refusal(*form) == Some(e@),
        },
{
    let retry_count: usize = match read_number(form.retry_count.as_str(), usize::MAX as u64) {
        Some(n) => n as usize,
        None => {
            return Err(refuse_number("Retries"));
        },
    };
    let retry_backoff: u64 = match read_number(form.retry_backoff.as_str(), u64::MAX) {
        Some(n) => n,
        None => {
            return Err(refuse_number("Retry backoff"));
        },
    };
    let bandwidth_limit: u64 = match read_number(form.bandwidth_limit.as_str(), u64::MAX) {
        Some(n) => n,
        None => {
            return Err(refuse_number("Bandwidth limit"));
        },
    };
    let tolerance: Vec<char> = chars_of(form.sync_tolerance.as_str());
    let sync_tolerance: i64 = match parse_i64(trim(&tolerance)) {
        Some(n) => {
            if n < 0 {
                return Err("Sync tolerance must be a whole non-negative number.".to_owned());
            }
            n
        },
        None => {
            return Err("Sync tolerance must be a whole non-negative number.".to_owned());
        },
    };
    let editor_max: usize = match read_number(form.editor_max_mib.as_str(), usize::MAX as u64) {
        Some(n) => n as usize,
        None => {
            return Err(refuse_number("Editor limit"));
        },
    };
    Ok((retry_count, retry_backoff, bandwidth_limit, sync_tolerance, editor_max))
}

fn read_last_numbers(form: &SettingsForm) -> (r: Result<(u32, u32, u32), String>)
    ensures
        match r {
            Ok(n) => last_numbers_refusal(*form) is None && number_field(
                form.pane_split@,
                u32::MAX as u64,
            ) == Some(n.0 as nat) && number_field(form.window_width@, u32::MAX as u64) == Some(
                n.1 as nat,
            ) && number_field(form.window_height@, u32::MAX as u64) == Some(n.2 as nat),
            Err(e) => last_numbers_refusal(*form) == Some(e@),
        },
{
    let pane_split: u32 = match read_number(form.pane_split.as_str(), u32::MAX as u64) {
        Some(n) => n as u32,
        None => {
            return Err(refuse_number("Pane split"));
        },
    };
    let window_width: u32 = match read_number(form.window_width.as_str(), u32::MAX as u64) {
        Some(n) => n as u32,
        None => {
            return Err(refuse_number("Window width"));
        },
    };
    let window_height: u32 = match read_number(form.window_height.as_str(), u32::MAX as u64) {
        Some(n) => n as u32,
        None => {
            return Err(refuse_number("Window height"));
        },
    };
    Ok((pane_split, window_width, window_height))
}

fn not_negative(n: i32) -> (r: usize)
    ensures
        r == at_least_zero(n),
{
    if n < 0 {
        0
    } else {
        n as usize
    }
}

/// The settings that the form asks for, on top of those that are in force.
pub fn read_settings_form(form: &SettingsForm, lookups: &FormLookups, previous: Settings) -> (r:
    Result<Settings, String>)
    ensures
        match r {
            Ok(settings) => settings_refusal(*form, *lookups) is None && settings_follow(
                *form,
                *lookups,
                previous,
                settings,
            ),
            Err(e) => settings_refusal(*form, *lookups) == Some(e@),
        },
{
    let (retry_count, retry_backoff, bandwidth_limit, sync_tolerance, editor_max) =
        match read_first_numbers(form) {
        Ok(numbers) => numbers,
        Err(error) => {
            return Err(error);
        },
    };
    let editor_mappings: Vec<String> = match &lookups.mappings {
        Ok(mappings) => clone_texts(mappings),
        Err(error) => {
            return Err(plus("Editor mappings: ".to_owned(), error.as_str()));
        },
    };
    let left_path: Option<String> = match parse_settings_local_path(
        form.left_path.as_str(),
        "Left pane path",
        lookups.home.as_str(),
        &lookups.left,
    ) {
        Ok(path) => path,
        Err(error) => {
            return Err(error);
        },
    };
    let right_path: Option<String> = match parse_settings_local_path(
        form.right_path.as_str(),
        "Right pane path",
        lookups.home.as_str(),
        &lookups.right,
    ) {
        Ok(path) => path,
        Err(error) => {
            return Err(error);
        },
    };
    let (pane_split, window_width, window_height) = match read_last_numbers(form) {
        Ok(numbers) => numbers,
        Err(error) => {
            return Err(error);
        },
    };
    let settings = Settings {
        theme: form.theme.clone(),
        locale: form.locale.clone(),
        show_hidden_files: form.show_hidden,
        show_advanced_columns: form.show_advanced_columns,
        background_folder_metadata: form.background_metadata,
        confirm_deletes: form.confirm_deletes,
        remote_quarantine_deletes: form.remote_quarantine_deletes,
        restore_workspace: form.restore_workspace,
        open_connection_manager_on_launch: form.open_manager_on_launch,
        check_updates_automatically: form.check_updates_automatically,
        last_left_local_path: left_path,
        last_right_local_path: right_path,
        pane_split_px: pane_split,
        window_width_px: window_width,
        window_height_px: window_height,
        transfer_concurrency: not_negative(form.transfer_concurrency),
        per_server_transfer_concurrency: not_negative(form.server_concurrency),
        transfer_retry_count: retry_count,
        transfer_retry_backoff_ms: retry_backoff,
        transfer_bandwidth_limit_kib: bandwidth_limit,
        existing_file_policy: form.existing_file_policy.clone(),
        batch_error_policy: form.batch_error_policy.clone(),
        queue_recovery_policy: form.queue_recovery_policy.clone(),
        notify_transfer_completion: form.notify_transfer_completion,
        notify_transfer_failure: form.notify_transfer_failure,
        preserve_transfer_timestamps: form.preserve_transfer_timestamps,
        preserve_transfer_permissions: form.preserve_transfer_permissions,
        sync_comparison: form.sync_comparison.clone(),
        sync_mtime_tolerance_secs: sync_tolerance,
        sync_exclusions: form.sync_exclusions.clone(),
        editor_max_download_mib: editor_max,
        editor_auto_upload: form.editor_auto_upload,
        editor_mappings,
        editor_conflict_action: form.editor_conflict_action.clone(),
        editor_temp_retention: form.editor_temp_retention.clone(),
        editor_retain_on_error: !same_text(form.editor_temp_retention.as_str(), "cleanup"),
        ..previous
    };
    Ok(settings)
}

// --- what follows a save -----------------------------------------------------------------------

/// What the panes do after the settings have changed.
#[derive(Debug, Clone, Copy, PartialEq, Eq, Structural)]
pub enum PaneRefresh {
    /// Read both folders again.
    Reload,
    /// Show what was read with the new filter.
    Reapply,
    Nothing,
}

/// What else follows a save.
#[derive(Debug, Clone, Copy, PartialEq, Eq, Structural)]
pub struct SettingsEffects {
    /// Ask whether notifications may be shown.
    pub request_notifications: bool,
    pub panes: PaneRefresh,
    /// The window takes the size that was saved.
    pub resize_window: bool,
}

/// What follows a save: the system is asked about notifications when the first kind of them is
/// switched on, and the panes do as little as the change needs.
pub fn settings_effects(
    previous: &Settings,
    settings: &Settings,
    fullscreen: bool,
    maximized: bool,
) -> (r: SettingsEffects)
    ensures
        r.request_notifications == (!previous.notify_transfer_completion
            && !previous.notify_transfer_failure && (settings.notify_transfer_completion
            || settings.notify_transfer_failure)),
        r.panes == if previous.background_folder_metadata != settings.background_folder_metadata {
            PaneRefresh::Reload
        } else if previous.show_hidden_files != settings.show_hidden_files {
            PaneRefresh::Reapply
        } else {
            PaneRefresh::Nothing
        },
        r.resize_window == (!fullscreen && !maximized),
{
    let request_notifications: bool = !previous.notify_transfer_completion
        && !previous.notify_transfer_failure && (settings.notify_transfer_completion
        || settings.notify_transfer_failure);
    let panes: PaneRefresh = if previous.background_folder_metadata
        != settings.background_folder_metadata {
        PaneRefresh::Reload
    } else if previous.show_hidden_files != settings.show_hidden_files {
        PaneRefresh::Reapply
    } else {
        PaneRefresh::Nothing
    };
    SettingsEffects { request_notifications, panes, resize_window: !fullscreen && !maximized }
}

pub fn not_saved_text(error: &str) -> (r: String)
    ensures
        r@ == "Could not save settings: "@ + error@,
{
    plus("Could not save settings: ".to_owned(), error)
}

// --- filling the form --------------------------------------------------------------------------

pub open spec fn path_field(path: Option<String>) -> Seq<char> {
    match path {
        Some(p) => p@,
        None => Seq::empty(),
    }
}

fn path_text(path: &Option<String>) -> (r: String)
    ensures
        r@ == path_field(*path),
{
    match path {
        Some(p) => p.clone(),
        None => String::new(),
    }
}

/// The form shows the settings; `mappings` is the text of the editor mappings.
pub open spec fn form_shows(form: SettingsForm, settings: Settings, mappings: Seq<char>) -> bool {
    &&& form.theme@ == settings.theme@
    &&& form.locale@ == settings.locale@
    &&& form.show_hidden == settings.show_hidden_files
    &&& form.show_advanced_columns == settings.show_advanced_columns
    &&& form.background_metadata == settings.background_folder_metadata
    &&& form.confirm_deletes == settings.confirm_deletes
    &&& form.remote_quarantine_deletes == settings.remote_quarantine_deletes
    &&& form.restore_workspace == settings.restore_workspace
    &&& form.open_manager_on_launch == settings.open_connection_manager_on_launch
    &&& form.check_updates_automatically == settings.check_updates_automatically
    &&& form.left_path@ == path_field(settings.last_left_local_path)
    &&& form.right_path@ == path_field(settings.last_right_local_path)
    &&& form.pane_split@ == decimal(settings.pane_split_px as nat)
    &&& form.window_width@ == decimal(settings.window_width_px as nat)
    &&& form.window_height@ == decimal(settings.window_height_px as nat)
    &&& form.transfer_concurrency == settings.transfer_concurrency as i32
    &&& form.server_concurrency == settings.per_server_transfer_concurrency as i32
    &&& form.retry_count@ == decimal(settings.transfer_retry_count as nat)
    &&& form.retry_backoff@ == decimal(settings.transfer_retry_backoff_ms as nat)
    &&& form.bandwidth_limit@ == decimal(settings.transfer_bandwidth_limit_kib as nat)
    &&& form.existing_file_policy@ == settings.existing_file_policy@
    &&& form.batch_error_policy@ == settings.batch_error_policy@
    &&& form.queue_recovery_policy@ == settings.queue_recovery_policy@
    &&& form.notify_transfer_completion == settings.notify_transfer_completion
    &&& form.notify_transfer_failure == settings.notify_transfer_failure
    &&& form.preserve_transfer_timestamps == settings.preserve_transfer_timestamps
    &&& form.preserve_transfer_permissions == settings.preserve_transfer_permissions
    &&& form.sync_comparison@ == settings.sync_comparison@
    &&& form.sync_tolerance@ == signed_decimal(settings.sync_mtime_tolerance_secs as int)
    &&& form.sync_exclusions@ == settings.sync_exclusions@
    &&& form.editor_max_mib@ == decimal(settings.editor_max_download_mib as nat)
    &&& form.editor_auto_upload == settings.editor_auto_upload
    &&& form.editor_retain_on_error == settings.editor_retain_on_error
    &&& form.editor_mappings@ == mappings
    &&& form.editor_conflict_action@ == settings.editor_conflict_action@
    &&& form.editor_temp_retention@ == settings.editor_temp_retention@
    &&& form.sync_folder@ == path_field(settings.sync_folder)
}

/// The form for the settings that are in force.
pub fn load_settings_form(settings: &Settings, mappings: String) -> (r: SettingsForm)
    ensures
        form_shows(r, *settings, mappings@),
{
    SettingsForm {
        theme: settings.theme.clone(),
        locale: settings.locale.clone(),
        show_hidden: settings.show_hidden_files,
        show_advanced_columns: settings.show_advanced_columns,
        background_metadata: settings.background_folder_metadata,
        confirm_deletes: settings.confirm_deletes,
        remote_quarantine_deletes: settings.remote_quarantine_deletes,
        restore_workspace: settings.restore_workspace,
        open_manager_on_launch: settings.open_connection_manager_on_launch,
        check_updates_automatically: settings.check_updates_automatically,
        left_path: path_text(&settings.last_left_local_path),
        right_path: path_text(&settings.last_right_local_path),
        pane_split: number_text(settings.pane_split_px as u64),
        window_width: number_text(settings.window_width_px as u64),
        window_height: number_text(settings.window_height_px as u64),
        transfer_concurrency: settings.transfer_concurrency as i32,
        server_concurrency: settings.per_server_transfer_concurrency as i32,
        retry_count: number_text(settings.transfer_retry_count as u64),
        retry_backoff: number_text(settings.transfer_retry_backoff_ms),
        bandwidth_limit: number_text(settings.transfer_bandwidth_limit_kib),
        existing_file_policy: settings.existing_file_policy.clone(),
        batch_error_policy: settings.batch_error_policy.clone(),
        queue_recovery_policy: settings.queue_recovery_policy.clone(),
        notify_transfer_completion: settings.notify_transfer_completion,
        notify_transfer_failure: settings.notify_transfer_failure,
        preserve_transfer_timestamps: settings.preserve_transfer_timestamps,
        preserve_transfer_permissions: settings.preserve_transfer_permissions,
        sync_comparison: settings.sync_comparison.clone(),
        sync_tolerance: string_of(&to_signed_decimal(settings.sync_mtime_tolerance_secs)),
        sync_exclusions: settings.sync_exclusions.clone(),
        editor_max_mib: number_text(settings.editor_max_download_mib as u64),
        editor_auto_upload: settings.editor_auto_upload,
        editor_retain_on_error: settings.editor_retain_on_error,
        editor_mappings: mappings,
        editor_conflict_action: settings.editor_conflict_action.clone(),
        editor_temp_retention: settings.editor_temp_retention.clone(),
        sync_folder: path_text(&settings.sync_folder),
    }
}

// --- laws --------------------------------------------------------------------------------------

/// Saving the form never touches what is synchronized to where, nor how secrets are kept.
pub proof fn the_form_keeps_security_settings(
    form: SettingsForm,
    lookups: FormLookups,
    previous: Settings,
    settings: Settings,
)
    requires
        settings_follow(form, lookups, previous, settings),
    ensures
        same_security(previous, settings),
        settings.sync_profiles == previous.sync_profiles,
{
}

proof fn lemma_number_field_reads_back(n: nat, max: u64)
    requires
        n <= max,
    ensures
        number_field(decimal(n), max) == Some(n),
        trimmed(decimal(n)) == decimal(n),
{
    decimal_reads_back(n);
    let text = decimal(n);
    assert(is_digit(text[0]));
    assert(is_digit(text.last()));
    lemma_trimmed_fixed(text);
}

/// A folder that was found stays found: its canonical path is what the lookup gives back.
pub open spec fn folder_stands(path: Option<String>, found: FolderLookup) -> bool {
    path matches Some(p) ==> trimmed(p@) == p@ && is_absolute(p@) && found
        == FolderLookup::Folder(p)
}

/// The settings survive the form: where it is opened and saved again with nothing changed, the form
/// is accepted and nothing changes.
pub proof fn settings_survive_the_form(
    form: SettingsForm,
    lookups: FormLookups,
    settings: Settings,
    mappings: Seq<char>,
)
    requires
        form_shows(form, settings, mappings),
        settings.sync_mtime_tolerance_secs >= 0,
        settings.transfer_concurrency <= i32::MAX,
        settings.per_server_transfer_concurrency <= i32::MAX,
        settings.editor_retain_on_error == (settings.editor_temp_retention@ != "cleanup"@),
        folder_stands(settings.last_left_local_path, lookups.left),
        folder_stands(settings.last_right_local_path, lookups.right),
        lookups.mappings == Ok::<Vec<String>, String>(settings.editor_mappings),
    ensures
        settings_refusal(form, lookups) is None,
        settings_follow(form, lookups, settings, settings),
{
    lemma_number_field_reads_back(settings.pane_split_px as nat, u32::MAX as u64);
    lemma_number_field_reads_back(settings.window_width_px as nat, u32::MAX as u64);
    lemma_number_field_reads_back(settings.window_height_px as nat, u32::MAX as u64);
    lemma_number_field_reads_back(settings.transfer_retry_count as nat, usize::MAX as u64);
    lemma_number_field_reads_back(settings.transfer_retry_backoff_ms as nat, u64::MAX);
    lemma_number_field_reads_back(settings.transfer_bandwidth_limit_kib as nat, u64::MAX);
    lemma_number_field_reads_back(settings.editor_max_download_mib as nat, usize::MAX as u64);
    let tolerance = settings.sync_mtime_tolerance_secs as nat;
    lemma_number_field_reads_back(tolerance, i64::MAX as u64);
    crate::numerals::lemma_unsigned_is_signed(decimal(tolerance), i64::MAX as nat);
    lemma_trimmed_fixed(Seq::empty());
    if let Some(p) = settings.last_left_local_path {
        assert(p@[0] == '/');
    }
    if let Some(p) = settings.last_right_local_path {
        assert(p@[0] == '/');
    }
}

} // verus!
