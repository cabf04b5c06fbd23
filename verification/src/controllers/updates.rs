//! Opt-in discovery of updates and their download.

use vstd::prelude::*;

use crate::text::plus;

verus! {

/// Who asked for a check.
#[derive(Debug, Clone, Copy, PartialEq, Eq, Structural)]
pub enum CheckOrigin {
    Manual,
    Automatic,
}

/// A release that is newer than this program.
#[derive(Debug, PartialEq, Eq)]
pub struct LatestUpdate {
    pub version: String,
    pub notes: String,
    pub dmg_url: String,
    pub sha256: String,
    pub size: u64,
}

impl Clone for LatestUpdate {
    fn clone(&self) -> (r: Self)
        ensures
            r == *self,
    {
        LatestUpdate {
            version: self.version.clone(),
            notes: self.notes.clone(),
            dmg_url: self.dmg_url.clone(),
            sha256: self.sha256.clone(),
            size: self.size,
        }
    }
}

/// What is going on with updates.
#[derive(Debug, PartialEq, Eq)]
pub struct UpdateState {
    /// The update that the user is asked about.
    pub pending: Option<LatestUpdate>,
    pub checking: bool,
    pub downloading: bool,
    pub attempted_this_launch: bool,
}

/// What follows the wish for a check.
#[derive(Debug, Clone, Copy, PartialEq, Eq, Structural)]
pub enum CheckStep {
    Nothing,
    /// The build has no update checks; say so.
    Unsupported,
    /// A check is running already; say so.
    AlreadyRunning,
    /// Ask the server; say so where the user wants to know.
    Check { announced: bool },
}

/// What a check came to.
#[derive(Debug, PartialEq, Eq)]
pub enum CheckResult {
    Newer(LatestUpdate),
    UpToDate,
    Failed(String),
}

/// What is shown after a check or a download.
#[derive(Debug, PartialEq, Eq)]
pub enum UpdateNotice {
    Nothing,
    /// Ask the user about the update.
    Offer { version: String, notes: String },
    Status(String),
    Error(String),
    /// In the window that asks about the update.
    Message(String),
}

pub ghost enum NoticeView {
    Nothing,
    Offer { version: Seq<char>, notes: Seq<char> },
    Status(Seq<char>),
    Error(Seq<char>),
    Message(Seq<char>),
}

impl View for UpdateNotice {
    type V = NoticeView;

    open spec fn view(&self) -> NoticeView {
        match *self {
            UpdateNotice::Nothing => NoticeView::Nothing,
            UpdateNotice::Offer { version, notes } => NoticeView::Offer {
                version: version@,
                notes: notes@,
            },
            UpdateNotice::Status(t) => NoticeView::Status(t@),
            UpdateNotice::Error(t) => NoticeView::Error(t@),
            UpdateNotice::Message(t) => NoticeView::Message(t@),
        }
    }
}

/// What follows the wish for a check in a state, and the state after it.
pub open spec fn check_begun(state: UpdateState, origin: CheckOrigin, supported: bool) -> (
    UpdateState,
    CheckStep,
) {
    let attempted = UpdateState { attempted_this_launch: true, ..state };
    if origin == CheckOrigin::Automatic && state.attempted_this_launch {
        (state, CheckStep::Nothing)
    } else if !supported {
        (
            attempted,
            if origin == CheckOrigin::Manual {
                CheckStep::Unsupported
            } else {
                CheckStep::Nothing
            },
        )
    } else if state.checking {
        (
            attempted,
            if origin == CheckOrigin::Manual {
                CheckStep::AlreadyRunning
            } else {
                CheckStep::Nothing
            },
        )
    } else {
        (
            UpdateState { checking: true, ..attempted },
            CheckStep::Check { announced: origin == CheckOrigin::Manual },
        )
    }
}

impl UpdateState {
    pub fn new() -> (r: UpdateState)
        ensures
            r.pending is None,
            !r.checking,
            !r.downloading,
            !r.attempted_this_launch,
    {
        UpdateState {
            pending: None,
            checking: false,
            downloading: false,
            attempted_this_launch: false,
        }
    }

    /// Somebody wants a check. One that nobody asked for happens once per launch and says nothing.
    pub fn start_update_check(&mut self, origin: CheckOrigin, supported: bool) -> (r: CheckStep)
        ensures
            (*final(self), r) == check_begun(*old(self), origin, supported),
    {
        if origin == CheckOrigin::Automatic && self.attempted_this_launch {
            return CheckStep::Nothing;
        }
        self.attempted_this_launch = true;
        if !supported {
            return if origin == CheckOrigin::Manual {
                CheckStep::Unsupported
            } else {
                CheckStep::Nothing
            };
        }
        if self.checking {
            return if origin == CheckOrigin::Manual {
                CheckStep::AlreadyRunning
            } else {
                CheckStep::Nothing
            };
        }
        self.checking = true;
        CheckStep::Check { announced: origin == CheckOrigin::Manual }
    }

    /// The check is over; `current` is the version of this program.
    pub fn checked(&mut self, origin: CheckOrigin, result: CheckResult, current: &str) -> (r:
        UpdateNotice)
        ensures
            !final(self).checking,
            final(self).downloading == old(self).downloading,
            final(self).attempted_this_launch == old(self).attempted_this_launch,
            match result {
                CheckResult::Newer(update) => final(self).pending == Some(update) && r@
                    == (NoticeView::Offer { version: update.version@, notes: update.notes@ }),
                CheckResult::UpToDate => final(self).pending == old(self).pending && r@ == (
                if origin == CheckOrigin::Manual {
                    NoticeView::Status("gmacFTP is up to date (v"@ + current@ + ")."@)
                } else {
                    NoticeView::Nothing
                }),
                CheckResult::Failed(e) => final(self).pending == old(self).pending && r@ == (
                if origin == CheckOrigin::Manual {
                    NoticeView::Error("Update check failed: "@ + e@)
                } else {
                    NoticeView::Nothing
                }),
            },
    {
        self.checking = false;
        match result {
            CheckResult::Newer(update) => {
                let version: String = update.version.clone();
                let notes: String = update.notes.clone();
                self.pending = Some(update);
                UpdateNotice::Offer { version, notes }
            },
            CheckResult::UpToDate => if origin == CheckOrigin::Manual {
                UpdateNotice::Status(
                    plus(plus("gmacFTP is up to date (v".to_owned(), current), ")."),
                )
            } else {
                UpdateNotice::Nothing
            },
            CheckResult::Failed(e) => if origin == CheckOrigin::Manual {
                UpdateNotice::Error(plus("Update check failed: ".to_owned(), e.as_str()))
            } else {
                UpdateNotice::Nothing
            },
        }
    }

    /// The user wants the update: what to download, or a message where there is none. While a
    /// download runs nothing else begins.
    pub fn start_update_download(&mut self) -> (r: Result<Option<LatestUpdate>, String>)
        ensures
            ({
                let before = *old(self);
                if before.downloading {
                    r == Ok::<Option<LatestUpdate>, String>(None) && *final(self) == before
                } else if before.pending is None {
                    (r matches Err(e) && e@
                        == "The selected update is no longer available; check again."@)
                        && *final(self) == before
                } else {
                    r == Ok::<Option<LatestUpdate>, String>(before.pending) && *final(self) == (
                    UpdateState { downloading: true, ..before })
                }
            }),
    {
        if self.downloading {
            return Ok(None);
        }
        match &self.pending {
            None => Err("The selected update is no longer available; check again.".to_owned()),
            Some(update) => {
                let wanted: LatestUpdate = update.clone();
                self.downloading = true;
                Ok(Some(wanted))
            },
        }
    }

    /// The download is over.
    pub fn downloaded(&mut self, version: &str, result: Result<(), String>) -> (r: UpdateNotice)
        ensures
            !final(self).downloading,
            final(self).checking == old(self).checking,
            final(self).attempted_this_launch == old(self).attempted_this_launch,
            match result {
                Ok(_) => final(self).pending is None && r@ == NoticeView::Status(
                    "Verified update "@ + version@
                        + " opened — drag gmacFTP to Applications, then relaunch."@,
                ),
                Err(e) => final(self).pending == old(self).pending && r@ == NoticeView::Message(
                    "Update download failed: "@ + e@,
                ),
            },
    {
        self.downloading = false;
        match result {
            Ok(()) => {
                self.pending = None;
                UpdateNotice::Status(
                    plus(
                        plus("Verified update ".to_owned(), version),
                        " opened — drag gmacFTP to Applications, then relaunch.",
                    ),
                )
            },
            Err(e) => UpdateNotice::Message(
                plus("Update download failed: ".to_owned(), e.as_str()),
            ),
        }
    }

    /// The user does not want the update; whether the window closes. While it is downloaded it does
    /// not.
    pub fn dismiss(&mut self) -> (r: bool)
        ensures
            r == !old(self).downloading,
            old(self).downloading ==> *final(self) == *old(self),
            !old(self).downloading ==> *final(self) == (UpdateState { pending: None, ..*old(self) }),
    {
        if self.downloading {
            return false;
        }
        self.pending = None;
        true
    }
}

/// Whether the program looks for updates by itself after it has started.
pub fn checks_automatically(enabled: bool, allow_background: bool, supported: bool) -> (r: bool)
    ensures
        r == (enabled && allow_background && supported),
{
    enabled && allow_background && supported
}

/// After any attempt of this launch, no automatic check starts; and while a check runs, no other
/// starts.
pub proof fn checks_do_not_repeat(state: UpdateState, origin: CheckOrigin, supported: bool)
    ensures
        state.attempted_this_launch && origin == CheckOrigin::Automatic ==> check_begun(
            state,
            origin,
            supported,
        ).1 == CheckStep::Nothing,
        state.checking ==> !(check_begun(state, origin, supported).1 is Check),
        check_begun(state, origin, supported).0.attempted_this_launch,
        check_begun(state, origin, supported).1 is Check ==> check_begun(
            state,
            origin,
            supported,
        ).0.checking && supported,
{
}

} // verus!
