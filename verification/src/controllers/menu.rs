//! The menu bar, and what the icon of the program shows.

use vstd::prelude::*;

use crate::numerals::{decimal, to_decimal};
use crate::text::{plus, string_of};

verus! {

/// The title of the menu item that switches synchronization: the current state, and what a click
/// does.
pub fn sync_title(enabled: bool) -> (r: &'static str)
    ensures
        r@ == if enabled {
            "iCloud Sync: ON  (click to turn off)"@
        } else {
            "iCloud Sync: OFF  (click to turn on)"@
        },
{
    if enabled {
        "iCloud Sync: ON  (click to turn off)"
    } else {
        "iCloud Sync: OFF  (click to turn on)"
    }
}

/// The title that the menu item gets after synchronization was switched elsewhere; none before the
/// menu has been installed.
pub fn refresh_sync_title(installed: bool, enabled: bool) -> (r: Option<&'static str>)
    ensures
        r is Some <==> installed,
        r matches Some(title) ==> title@ == if enabled {
            "iCloud Sync: ON  (click to turn off)"@
        } else {
            "iCloud Sync: OFF  (click to turn on)"@
        },
{
    if installed {
        Some(sync_title(enabled))
    } else {
        None
    }
}

/// What a click on the menu item does.
#[derive(Debug, Clone, Copy, PartialEq, Eq, Structural)]
pub enum SyncToggle {
    /// Ask for a passphrase first; it is what makes the vault readable on another machine.
    AskForPassphrase,
    Switch { on: bool },
}

/// Synchronization is never switched on without a passphrase.
pub fn toggle_sync(enabled: bool, passphrase_set: bool) -> (r: SyncToggle)
    ensures
        r == if !enabled && !passphrase_set {
            SyncToggle::AskForPassphrase
        } else {
            SyncToggle::Switch { on: !enabled }
        },
{
    if !enabled && !passphrase_set {
        SyncToggle::AskForPassphrase
    } else {
        SyncToggle::Switch { on: !enabled }
    }
}

/// The line after the servers were pulled; `remote` says of when they are, if there are any.
pub fn pull_text(applied: bool, remote: Option<&str>) -> (r: String)
    ensures
        r@ == (match remote {
            Some(when) => if applied {
                "Pulled servers from iCloud ("@ + when@ + ") — restart to see all changes."@
            } else {
                "Already up to date (iCloud: "@ + when@ + ")."@
            },
            None =>
                "Nothing in iCloud yet. Turn on iCloud Sync and Send from your other Mac first."@,
        }),
{
    match remote {
        Some(when) => if applied {
            plus(
                plus("Pulled servers from iCloud (".to_owned(), when),
                ") — restart to see all changes.",
            )
        } else {
            plus(plus("Already up to date (iCloud: ".to_owned(), when), ").")
        },
        None =>
            "Nothing in iCloud yet. Turn on iCloud Sync and Send from your other Mac first.".to_owned(),
    }
}

/// The number on the icon of the program; none where nothing is to come, and no more than 999.
pub fn dock_badge(pending: usize) -> (r: Option<String>)
    ensures
        pending == 0 ==> r is None,
        pending > 0 ==> (r matches Some(t) && t@ == decimal(
            if pending < 999 {
                pending as nat
            } else {
                999
            },
        )),
{
    if pending == 0 {
        return None;
    }
    let shown: usize = if pending < 999 {
        pending
    } else {
        999
    };
    Some(string_of(&to_decimal(shown as u64)))
}

} // verus!
