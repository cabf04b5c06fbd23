//! Fixed texts that the windows show.

use vstd::prelude::*;

verus! {

/// What there is to say.
#[derive(Debug, Clone, Copy, PartialEq, Eq, Structural)]
pub enum Notice {
    /// The settings were saved.
    SettingsSaved,
    /// The default folder is synchronized to again.
    SyncFolderRestored,
    /// Ask where the encrypted settings go.
    ChooseSettingsExport,
    /// Ask where the encrypted settings come from.
    ChooseSettingsImport,
    /// Ask where the diagnostics go.
    ChooseDiagnostics,
    /// The diagnostics were written.
    DiagnosticsExported,
    /// Ask where the report about a dry run goes.
    ChooseSyncReport,
    /// That report was written.
    SyncReportExported,
    /// It was not.
    SyncReportCancelled,
    /// A dry run was to be applied in which nothing is selected.
    NothingSelected,
    /// The deletions of a mirror could not be held until the copies are done.
    MirrorNotTracked,
    /// A profile could not change the panes.
    PanesNotUpdated,
    /// The editor was told to forget a trusted certificate.
    TlsTrustReset,
}

impl Notice {
    pub open spec fn words(self) -> Seq<char> {
        match self {
            Notice::SettingsSaved => "Settings saved."@,
            Notice::SyncFolderRestored => "Automatic iCloud Drive sync folder restored."@,
            Notice::ChooseSettingsExport => "Choose an encrypted settings export file…"@,
            Notice::ChooseSettingsImport => "Choose an encrypted settings export…"@,
            Notice::ChooseDiagnostics => "Choose where to save redacted diagnostics…"@,
            Notice::DiagnosticsExported => "Redacted diagnostics exported."@,
            Notice::ChooseSyncReport => {
                "Choose where to save the redacted dry-run report (relative paths only)…"@
            },
            Notice::SyncReportExported => "Redacted synchronization report exported."@,
            Notice::SyncReportCancelled => "Sync report export cancelled."@,
            Notice::NothingSelected => {
                "Nothing is selected. Select at least one copy or deletion action."@
            },
            Notice::MirrorNotTracked => {
                "Could not initialize the mirror safety tracker; nothing was queued."@
            },
            Notice::PanesNotUpdated => "Could not update panes for this profile."@,
            Notice::TlsTrustReset => {
                "Saved TLS trust will be removed when this connection is saved."@
            },
        }
    }

    pub fn text(self) -> (r: &'static str)
        ensures
            r@ == self.words(),
    {
        match self {
            Notice::SettingsSaved => "Settings saved.",
            Notice::SyncFolderRestored => "Automatic iCloud Drive sync folder restored.",
            Notice::ChooseSettingsExport => "Choose an encrypted settings export file…",
            Notice::ChooseSettingsImport => "Choose an encrypted settings export…",
            Notice::ChooseDiagnostics => "Choose where to save redacted diagnostics…",
            Notice::DiagnosticsExported => "Redacted diagnostics exported.",
            Notice::ChooseSyncReport => {
                "Choose where to save the redacted dry-run report (relative paths only)…"
            },
            Notice::SyncReportExported => "Redacted synchronization report exported.",
            Notice::SyncReportCancelled => "Sync report export cancelled.",
            Notice::NothingSelected => {
                "Nothing is selected. Select at least one copy or deletion action."
            },
            Notice::MirrorNotTracked => {
                "Could not initialize the mirror safety tracker; nothing was queued."
            },
            Notice::PanesNotUpdated => "Could not update panes for this profile.",
            Notice::TlsTrustReset => {
                "Saved TLS trust will be removed when this connection is saved."
            },
        }
    }
}

} // verus!
