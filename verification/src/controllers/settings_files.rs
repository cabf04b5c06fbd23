//! Settings in files: backups, the folder that they are synchronized to, and diagnostics.

use vstd::prelude::*;

use crate::controllers::settings::{same_security, Settings};
use crate::controllers::storage::StorageStats;
use crate::model::connection::{clone_text, ConnectionSpec, FtpTlsMode};
use crate::model::protocol::Protocol;
use crate::numerals::{decimal, to_decimal};
use crate::text::{plus, same_text, string_of, text_of};

verus! {

// --- reading a selected file -------------------------------------------------------------------

/// What is known of a file before it is opened.
#[derive(Debug, Clone, Copy, PartialEq, Eq, Structural)]
pub struct FileFacts {
    pub is_file: bool,
    pub is_symlink: bool,
    pub len: u64,
    pub device: u64,
    pub inode: u64,
}

/// Only a regular file of bounded size is opened.
pub fn check_selected_file(facts: &FileFacts, max_bytes: usize) -> (r: Result<(), String>)
    ensures
        r is Ok <==> facts.is_file && !facts.is_symlink && facts.len <= max_bytes,
        r matches Err(e) ==> e@ == "selected file is not a bounded regular file"@,
{
    if !facts.is_file || facts.is_symlink || facts.len > max_bytes as u64 {
        return Err("selected file is not a bounded regular file".to_owned());
    }
    Ok(())
}

/// What was opened must be what was looked at.
pub fn check_opened_file(before: &FileFacts, opened: &FileFacts, max_bytes: usize) -> (r: Result<
    (),
    String,
>)
    ensures
        ({
            let same = before.device == opened.device && before.inode == opened.inode;
            &&& r is Ok <==> same && opened.is_file && opened.len <= max_bytes
            &&& r matches Err(e) ==> e@ == if !same {
                "selected file changed while opening"@
            } else {
                "selected file changed type or size"@
            }
        }),
{
    if before.device != opened.device || before.inode != opened.inode {
        return Err("selected file changed while opening".to_owned());
    }
    if !opened.is_file || opened.len > max_bytes as u64 {
        return Err("selected file changed type or size".to_owned());
    }
    Ok(())
}

/// How many bytes are read at most: one more than is accepted, so that a file that grew is noticed.
pub fn read_limit(max_bytes: usize) -> (r: usize)
    ensures
        r == if max_bytes < usize::MAX {
            max_bytes + 1
        } else {
            usize::MAX as int
        },
{
    max_bytes.saturating_add(1)
}

pub fn check_read_bytes(read: usize, max_bytes: usize) -> (r: Result<(), String>)
    ensures
        r is Ok <==> read <= max_bytes,
        r matches Err(e) ==> e@ == "selected file exceeds its safe size limit"@,
{
    if read > max_bytes {
        return Err("selected file exceeds its safe size limit".to_owned());
    }
    Ok(())
}

// --- backups -----------------------------------------------------------------------------------

/// The kind of document that a backup of the settings is.
pub fn backup_format() -> (r: &'static str)
    ensures
        r@ == "gmacftp-settings"@,
{
    "gmacftp-settings"
}

pub const BACKUP_VERSION: u32 = 1;

/// A backup of the settings may be no larger than the limit.
pub fn check_backup_size(bytes: usize, limit: usize) -> (r: Result<(), String>)
    ensures
        r is Ok <==> bytes <= limit,
        r matches Err(e) ==> e@ == "settings export exceeds its safe size limit"@,
{
    if bytes > limit {
        return Err("settings export exceeds its safe size limit".to_owned());
    }
    Ok(())
}

pub fn check_import_size(bytes: usize, limit: usize) -> (r: Result<(), String>)
    ensures
        r is Ok <==> bytes <= limit,
        r matches Err(e) ==> e@ == "decrypted settings exceed their safe size limit"@,
{
    if bytes > limit {
        return Err("decrypted settings exceed their safe size limit".to_owned());
    }
    Ok(())
}

/// Only a document of this kind and version is read.
pub fn check_backup_document(format: &str, version: u32) -> (r: Result<(), String>)
    ensures
        r is Ok <==> format@ == "gmacftp-settings"@ && version == BACKUP_VERSION,
        r matches Err(e) ==> e@ == "unsupported settings backup document"@,
{
    if !same_text(format, backup_format()) || version != BACKUP_VERSION {
        return Err("unsupported settings backup document".to_owned());
    }
    Ok(())
}

/// `merged` is `imported` but for what this machine keeps to itself, which is that of `current`.
pub open spec fn imported_into(imported: Settings, current: Settings, merged: Settings) -> bool {
    &&& merged == (Settings {
        sync_via_icloud: merged.sync_via_icloud,
        sync_folder: merged.sync_folder,
        sync_passphrase_set: merged.sync_passphrase_set,
        keychain_migrated_v2: merged.keychain_migrated_v2,
        endpoint_credentials_migrated_v2: merged.endpoint_credentials_migrated_v2,
        ..imported
    })
    &&& same_security(current, merged)
}

/// A backup of the settings cannot carry the vault key or the passphrase. What this machine keeps to
/// itself stays, so that importing preferences never switches synchronization on or strands secrets.
pub fn imported_settings(imported: Settings, current: &Settings) -> (r: Settings)
    ensures
        imported_into(imported, *current, r),
{
    Settings {
        sync_via_icloud: current.sync_via_icloud,
        sync_folder: clone_text(&current.sync_folder),
        sync_passphrase_set: current.sync_passphrase_set,
        keychain_migrated_v2: current.keychain_migrated_v2,
        endpoint_credentials_migrated_v2: current.endpoint_credentials_migrated_v2,
        ..imported
    }
}

/// Importing preferences never enables synchronization, never moves it elsewhere and never changes
/// how secrets are kept.
pub proof fn imports_never_enable_synchronization(
    imported: Settings,
    current: Settings,
    merged: Settings,
)
    requires
        imported_into(imported, current, merged),
    ensures
        merged.sync_via_icloud == current.sync_via_icloud,
        text_of(merged.sync_folder) == text_of(current.sync_folder),
        merged.sync_passphrase_set == current.sync_passphrase_set,
        merged.keychain_migrated_v2 == current.keychain_migrated_v2,
        merged.endpoint_credentials_migrated_v2 == current.endpoint_credentials_migrated_v2,
        merged.theme == imported.theme,
        merged.transfer_concurrency == imported.transfer_concurrency,
        merged.sync_profiles == imported.sync_profiles,
{
}

// --- the folder that is synchronized to --------------------------------------------------------

/// The settings with another folder to synchronize to, which must be a real local directory. The
/// result says whether the state has to be pushed there.
pub fn choose_sync_folder(settings: &mut Settings, path: String, is_dir: bool, is_symlink: bool) -> (r:
    Result<bool, String>)
    ensures
        match r {
            Ok(push) => is_dir && !is_symlink && *final(settings) == (Settings {
                sync_folder: Some(path),
                ..*old(settings)
            }) && push == old(settings).sync_via_icloud,
            Err(e) => (!is_dir || is_symlink) && *final(settings) == *old(settings) && e@
                == "sync destination must be a real local directory"@,
        },
{
    if !is_dir || is_symlink {
        return Err("sync destination must be a real local directory".to_owned());
    }
    settings.sync_folder = Some(path);
    Ok(settings.sync_via_icloud)
}

/// The settings with the folder that is used by default; whether the state has to be pushed there.
pub fn clear_sync_folder(settings: &mut Settings) -> (r: bool)
    ensures
        *final(settings) == (Settings { sync_folder: None, ..*old(settings) }),
        r == old(settings).sync_via_icloud,
{
    settings.sync_folder = None;
    settings.sync_via_icloud
}

/// The line about temporary directories that were removed.
pub fn removed_directories_text(removed: usize) -> (r: String)
    ensures
        r@ == "Removed "@ + decimal(removed as nat) + " abandoned temporary director"@ + (
        if removed == 1 {
            "y"@
        } else {
            "ies"@
        }) + "; active and retained edits were kept."@,
{
    let number: String = string_of(&to_decimal(removed as u64));
    let ending: &str = if removed == 1 {
        "y"
    } else {
        "ies"
    };
    plus(
        plus(
            plus(plus("Removed ".to_owned(), number.as_str()), " abandoned temporary director"),
            ending,
        ),
        "; active and retained edits were kept.",
    )
}

// --- diagnostics -------------------------------------------------------------------------------

/// What diagnostics say of the saved connections: nothing but numbers.
#[derive(Debug, Clone, Copy, PartialEq, Eq, Structural)]
pub struct ConnectionSummary {
    pub total: usize,
    pub ftp: usize,
    pub sftp: usize,
    pub plaintext_ftp_opt_ins: usize,
    pub legacy_tls_exceptions: usize,
    pub pinned_tls_endpoints: usize,
    pub implicit_ftps_endpoints: usize,
    pub tls_client_identity_endpoints: usize,
    pub proxy_endpoints: usize,
    pub ssh_config_endpoints: usize,
}

/// What the diagnostics look at in one connection.
pub ghost struct Traits {
    pub protocol: Protocol,
    pub plaintext: bool,
    pub exception: bool,
    pub pinned: bool,
    pub implicit: bool,
    pub identity: bool,
    pub proxied: bool,
    pub configured: bool,
}

pub open spec fn traits_of(c: ConnectionSpec) -> Traits {
    Traits {
        protocol: c.protocol,
        plaintext: c.allow_plaintext_ftp,
        exception: c.accept_invalid_tls,
        pinned: c.tls_pinned_sha256 is Some,
        implicit: c.protocol == Protocol::Ftp && c.ftp_tls_mode == FtpTlsMode::Implicit,
        identity: c.tls_client_cert is Some && c.tls_client_key is Some,
        proxied: c.proxy_url is Some,
        configured: c.use_ssh_config,
    }
}

pub open spec fn all_traits(connections: Seq<ConnectionSpec>) -> Seq<Traits> {
    connections.map_values(|c: ConnectionSpec| traits_of(c))
}

/// How many of the connections have something.
pub open spec fn count_of(traits: Seq<Traits>, has: spec_fn(Traits) -> bool) -> nat
    decreases traits.len(),
{
    if traits.len() == 0 {
        0
    } else {
        count_of(traits.drop_last(), has) + if has(traits.last()) {
            1nat
        } else {
            0nat
        }
    }
}

pub open spec fn summarizes(summary: ConnectionSummary, traits: Seq<Traits>) -> bool {
    &&& summary.total == traits.len()
    &&& summary.ftp == count_of(traits, |t: Traits| t.protocol == Protocol::Ftp)
    &&& summary.sftp == count_of(traits, |t: Traits| t.protocol == Protocol::Sftp)
    &&& summary.plaintext_ftp_opt_ins == count_of(traits, |t: Traits| t.plaintext)
    &&& summary.legacy_tls_exceptions == count_of(traits, |t: Traits| t.exception)
    &&& summary.pinned_tls_endpoints == count_of(traits, |t: Traits| t.pinned)
    &&& summary.implicit_ftps_endpoints == count_of(traits, |t: Traits| t.implicit)
    &&& summary.tls_client_identity_endpoints == count_of(traits, |t: Traits| t.identity)
    &&& summary.proxy_endpoints == count_of(traits, |t: Traits| t.proxied)
    &&& summary.ssh_config_endpoints == count_of(traits, |t: Traits| t.configured)
}

fn one_if(b: bool) -> (r: usize)
    ensures
        r == if b {
            1int
        } else {
            0int
        },
{
    if b {
        1
    } else {
        0
    }
}

proof fn lemma_count_bound(traits: Seq<Traits>, has: spec_fn(Traits) -> bool)
    ensures
        count_of(traits, has) <= traits.len(),
    decreases traits.len(),
{
    if traits.len() > 0 {
        lemma_count_bound(traits.drop_last(), has);
    }
}

proof fn lemma_counts_bound(traits: Seq<Traits>)
    ensures
        forall|has: spec_fn(Traits) -> bool| #[trigger] count_of(traits, has) <= traits.len(),
{
    assert forall|has: spec_fn(Traits) -> bool| #[trigger]
        count_of(traits, has) <= traits.len() by {
        lemma_count_bound(traits, has);
    }
}

pub fn summarize_connections(connections: &Vec<ConnectionSpec>) -> (r: ConnectionSummary)
    ensures
        summarizes(r, all_traits(connections@)),
{
    let mut s = ConnectionSummary {
        total: 0,
        ftp: 0,
        sftp: 0,
        plaintext_ftp_opt_ins: 0,
        legacy_tls_exceptions: 0,
        pinned_tls_endpoints: 0,
        implicit_ftps_endpoints: 0,
        tls_client_identity_endpoints: 0,
        proxy_endpoints: 0,
        ssh_config_endpoints: 0,
    };
    let mut i: usize = 0;
    while i < connections.len()
        invariant
            i <= connections@.len(),
            summarizes(s, all_traits(connections@).take(i as int)),
        decreases connections@.len() - i,
    {
        let c: &ConnectionSpec = &connections[i];
        let ghost before = all_traits(connections@).take(i as int);
        let ghost after = all_traits(connections@).take(i + 1);
        proof {
            lemma_counts_bound(before);
            assert(after.drop_last() =~= before);
            assert(after.last() == traits_of(*c));
        }
        s = ConnectionSummary {
            total: s.total + 1,
            ftp: s.ftp + one_if(c.protocol == Protocol::Ftp),
            sftp: s.sftp + one_if(c.protocol == Protocol::Sftp),
            plaintext_ftp_opt_ins: s.plaintext_ftp_opt_ins + one_if(c.allow_plaintext_ftp),
            legacy_tls_exceptions: s.legacy_tls_exceptions + one_if(c.accept_invalid_tls),
            pinned_tls_endpoints: s.pinned_tls_endpoints + one_if(c.tls_pinned_sha256.is_some()),
            implicit_ftps_endpoints: s.implicit_ftps_endpoints + one_if(
                c.protocol == Protocol::Ftp && c.ftp_tls_mode == FtpTlsMode::Implicit,
            ),
            tls_client_identity_endpoints: s.tls_client_identity_endpoints + one_if(
                c.tls_client_cert.is_some() && c.tls_client_key.is_some(),
            ),
            proxy_endpoints: s.proxy_endpoints + one_if(c.proxy_url.is_some()),
            ssh_config_endpoints: s.ssh_config_endpoints + one_if(c.use_ssh_config),
        };
        i += 1;
    }
    assert(all_traits(connections@).take(connections@.len() as int) =~= all_traits(connections@));
    s
}

/// Which program the diagnostics come from.
#[derive(Debug, Clone, Copy, PartialEq, Eq)]
pub struct Build {
    pub app_version: &'static str,
    pub target_os: &'static str,
    pub target_arch: &'static str,
}

/// The diagnostics that can be handed on: aggregate counts and plain choices.
#[derive(Debug, Clone, Copy, PartialEq, Eq)]
pub struct Diagnostics {
    pub format: &'static str,
    pub format_version: u8,
    pub privacy: &'static str,
    pub app_version: &'static str,
    pub target_os: &'static str,
    pub target_arch: &'static str,
    pub locale_mode: &'static str,
    pub theme_mode: &'static str,
    pub background_folder_metadata: bool,
    pub transfer_concurrency: usize,
    pub per_server_transfer_concurrency: usize,
    pub retry_count: usize,
    pub bandwidth_limit_kib: u64,
    pub saved_sync_profiles: usize,
    pub editor_mappings: usize,
    pub recoverable_transfers: usize,
    pub storage: StorageStats,
    pub connections: ConnectionSummary,
}

pub open spec fn locale_mode_of(locale: Seq<char>) -> Seq<char> {
    if locale == "system"@ || locale == "en"@ || locale == "pl"@ {
        locale
    } else {
        "invalid"@
    }
}

pub open spec fn theme_mode_of(theme: Seq<char>) -> Seq<char> {
    if theme == "system"@ || theme == "light"@ || theme == "dark"@ {
        theme
    } else {
        "invalid"@
    }
}

fn locale_mode(locale: &str) -> (r: &'static str)
    ensures
        r@ == locale_mode_of(locale@),
{
    if same_text(locale, "system") {
        "system"
    } else if same_text(locale, "en") {
        "en"
    } else if same_text(locale, "pl") {
        "pl"
    } else {
        "invalid"
    }
}

fn theme_mode(theme: &str) -> (r: &'static str)
    ensures
        r@ == theme_mode_of(theme@),
{
    if same_text(theme, "system") {
        "system"
    } else if same_text(theme, "light") {
        "light"
    } else if same_text(theme, "dark") {
        "dark"
    } else {
        "invalid"
    }
}

/// `d` is what may be told of the settings and of connections with these traits.
pub open spec fn tells(
    d: Diagnostics,
    settings: Settings,
    traits: Seq<Traits>,
    storage: StorageStats,
    recoverable_transfers: usize,
    build: Build,
) -> bool {
    &&& d.format@ == "gmacftp-redacted-diagnostics"@
    &&& d.format_version == 1
    &&& d.privacy@
        == "aggregate counts only; no host, username, credential, file name, or path"@
    &&& d.app_version == build.app_version
    &&& d.target_os == build.target_os
    &&& d.target_arch == build.target_arch
    &&& d.locale_mode@ == locale_mode_of(settings.locale@)
    &&& d.theme_mode@ == theme_mode_of(settings.theme@)
    &&& d.background_folder_metadata == settings.background_folder_metadata
    &&& d.transfer_concurrency == settings.transfer_concurrency
    &&& d.per_server_transfer_concurrency == settings.per_server_transfer_concurrency
    &&& d.retry_count == settings.transfer_retry_count
    &&& d.bandwidth_limit_kib == settings.transfer_bandwidth_limit_kib
    &&& d.saved_sync_profiles == settings.sync_profiles@.len()
    &&& d.editor_mappings == settings.editor_mappings@.len()
    &&& d.recoverable_transfers == recoverable_transfers
    &&& d.storage == storage
    &&& summarizes(d.connections, traits)
}

pub fn redacted_diagnostics(
    settings: &Settings,
    connections: &Vec<ConnectionSpec>,
    storage: StorageStats,
    recoverable_transfers: usize,
    build: Build,
) -> (r: Diagnostics)
    ensures
        tells(r, *settings, all_traits(connections@), storage, recoverable_transfers, build),
{
    Diagnostics {
        format: "gmacftp-redacted-diagnostics",
        format_version: 1,
        privacy: "aggregate counts only; no host, username, credential, file name, or path",
        app_version: build.app_version,
        target_os: build.target_os,
        target_arch: build.target_arch,
        locale_mode: locale_mode(settings.locale.as_str()),
        theme_mode: theme_mode(settings.theme.as_str()),
        background_folder_metadata: settings.background_folder_metadata,
        transfer_concurrency: settings.transfer_concurrency,
        per_server_transfer_concurrency: settings.per_server_transfer_concurrency,
        retry_count: settings.transfer_retry_count,
        bandwidth_limit_kib: settings.transfer_bandwidth_limit_kib,
        saved_sync_profiles: settings.sync_profiles.len(),
        editor_mappings: settings.editor_mappings.len(),
        recoverable_transfers,
        storage,
        connections: summarize_connections(connections),
    }
}

/// Two settings agree in what the diagnostics may tell of them.
pub open spec fn tell_the_same(a: Settings, b: Settings) -> bool {
    &&& locale_mode_of(a.locale@) == locale_mode_of(b.locale@)
    &&& theme_mode_of(a.theme@) == theme_mode_of(b.theme@)
    &&& a.background_folder_metadata == b.background_folder_metadata
    &&& a.transfer_concurrency == b.transfer_concurrency
    &&& a.per_server_transfer_concurrency == b.per_server_transfer_concurrency
    &&& a.transfer_retry_count == b.transfer_retry_count
    &&& a.transfer_bandwidth_limit_kib == b.transfer_bandwidth_limit_kib
    &&& a.sync_profiles@.len() == b.sync_profiles@.len()
    &&& a.editor_mappings@.len() == b.editor_mappings@.len()
}

/// Diagnostics hold no host, user name, credential, file name or path: two lists of connections and
/// two settings that differ in those alone have the same diagnostics, and every word about the
/// settings is one of a few fixed ones.
pub proof fn diagnostics_are_redacted(
    a: Seq<ConnectionSpec>,
    b: Seq<ConnectionSpec>,
    settings_a: Settings,
    settings_b: Settings,
    storage: StorageStats,
    recoverable: usize,
    build: Build,
    d: Diagnostics,
    e: Diagnostics,
)
    requires
        all_traits(a) == all_traits(b),
        tell_the_same(settings_a, settings_b),
        tells(d, settings_a, all_traits(a), storage, recoverable, build),
        tells(e, settings_b, all_traits(b), storage, recoverable, build),
    ensures
        d.format@ == e.format@,
        d.privacy@ == e.privacy@,
        d.locale_mode@ == e.locale_mode@,
        d.theme_mode@ == e.theme_mode@,
        e == (Diagnostics {
            format: e.format,
            privacy: e.privacy,
            locale_mode: e.locale_mode,
            theme_mode: e.theme_mode,
            ..d
        }),
        d.locale_mode@ == "system"@ || d.locale_mode@ == "en"@ || d.locale_mode@ == "pl"@
            || d.locale_mode@ == "invalid"@,
        d.theme_mode@ == "system"@ || d.theme_mode@ == "light"@ || d.theme_mode@ == "dark"@
            || d.theme_mode@ == "invalid"@,
{
}

} // verus!
