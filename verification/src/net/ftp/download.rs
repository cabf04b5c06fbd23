//! Downloading one file.
//!
//! The bytes go to a private sibling of the local destination, which takes the destination's place
//! in one rename once all of them have arrived and are on disk.

use vstd::prelude::*;

use crate::net::error::{IoFailure, NetError};
use crate::net::ftp::transport::{ftp_error, FtpFailure};
use crate::net::safe::{has_low_byte, validate_ftp_path};
use crate::net::staging::refused;

verus! {

/// How far a download has got.
#[derive(Debug, PartialEq, Eq)]
pub enum DownloadPhase {
    /// Ask the server to continue where an earlier attempt stopped.
    Rest,
    /// The server cannot do that; empty the local part.
    Truncate,
    /// Open the data connection.
    Retrieve,
    /// Tell how much has arrived.
    Report,
    /// Receive bytes and write them to the local part.
    Receive,
    /// Close the data connection.
    Close,
    /// Force the local part to disk.
    Sync,
    /// Put the local part in the place of the destination.
    Rename,
    /// Remove the local part; the download has failed.
    Discard(NetError),
    Over(Result<u64, NetError>),
}

/// What a download asks for.
#[derive(Debug, PartialEq, Eq)]
pub enum DownloadRequest {
    Restart(u64),
    TruncatePart,
    Retrieve(String),
    Report(u64),
    /// Receive the next bytes and append them to the local part.
    ReceiveNext,
    Close,
    SyncPart,
    RenamePart,
    RemovePart,
    Finished,
}

pub ghost enum DownloadRequestView {
    Restart(u64),
    TruncatePart,
    Retrieve(Seq<char>),
    Report(u64),
    ReceiveNext,
    Close,
    SyncPart,
    RenamePart,
    RemovePart,
    Finished,
}

impl View for DownloadRequest {
    type V = DownloadRequestView;

    open spec fn view(&self) -> DownloadRequestView {
        match *self {
            DownloadRequest::Restart(n) => DownloadRequestView::Restart(n),
            DownloadRequest::TruncatePart => DownloadRequestView::TruncatePart,
            DownloadRequest::Retrieve(path) => DownloadRequestView::Retrieve(path@),
            DownloadRequest::Report(n) => DownloadRequestView::Report(n),
            DownloadRequest::ReceiveNext => DownloadRequestView::ReceiveNext,
            DownloadRequest::Close => DownloadRequestView::Close,
            DownloadRequest::SyncPart => DownloadRequestView::SyncPart,
            DownloadRequest::RenamePart => DownloadRequestView::RenamePart,
            DownloadRequest::RemovePart => DownloadRequestView::RemovePart,
            DownloadRequest::Finished => DownloadRequestView::Finished,
        }
    }
}

/// The answer to a request.
#[derive(Debug, PartialEq, Eq)]
pub enum DownloadEvent {
    /// To `Restart`, `Retrieve` and `Close`.
    Reply(Result<(), FtpFailure>),
    /// To `TruncatePart`, `SyncPart`, `RenamePart` and `RemovePart`.
    Local(Result<(), IoFailure>),
    /// To `Report`.
    Reported,
    /// To `ReceiveNext`: so many bytes were received and written, at least one.
    Received(u64),
    /// To `ReceiveNext`: the server has sent everything.
    Ended,
    /// To `ReceiveNext`: receiving or writing failed, or the user has cancelled.
    Failed(NetError),
}

/// A download under way.
#[derive(Debug, PartialEq, Eq)]
pub struct Download {
    pub remote_path: String,
    /// Keep the local part after a failure.
    pub keep_on_error: bool,
    pub offset: u64,
    pub done: u64,
    pub phase: DownloadPhase,
}

impl Download {
    /// The phase after a failure.
    pub open spec fn failed_phase(&self, error: NetError) -> DownloadPhase {
        if self.keep_on_error {
            DownloadPhase::Over(Err(error))
        } else {
            DownloadPhase::Discard(error)
        }
    }

    pub open spec fn asks(&self) -> DownloadRequestView {
        match self.phase {
            DownloadPhase::Rest => DownloadRequestView::Restart(self.offset),
            DownloadPhase::Truncate => DownloadRequestView::TruncatePart,
            DownloadPhase::Retrieve => DownloadRequestView::Retrieve(self.remote_path@),
            DownloadPhase::Report => DownloadRequestView::Report(self.done),
            DownloadPhase::Receive => DownloadRequestView::ReceiveNext,
            DownloadPhase::Close => DownloadRequestView::Close,
            DownloadPhase::Sync => DownloadRequestView::SyncPart,
            DownloadPhase::Rename => DownloadRequestView::RenamePart,
            DownloadPhase::Discard(_) => DownloadRequestView::RemovePart,
            DownloadPhase::Over(_) => DownloadRequestView::Finished,
        }
    }

    /// The event answers what the download asks for.
    pub open spec fn expects(&self, event: DownloadEvent) -> bool {
        match self.phase {
            DownloadPhase::Rest | DownloadPhase::Retrieve | DownloadPhase::Close => event is Reply,
            DownloadPhase::Truncate | DownloadPhase::Sync | DownloadPhase::Rename
            | DownloadPhase::Discard(_) => event is Local,
            DownloadPhase::Report => event is Reported,
            DownloadPhase::Receive => match event {
                DownloadEvent::Received(n) => n > 0 && self.done + n <= u64::MAX,
                DownloadEvent::Ended | DownloadEvent::Failed(_) => true,
                _ => false,
            },
            DownloadPhase::Over(_) => false,
        }
    }

    /// The download after the event.
    pub open spec fn after(self, event: DownloadEvent) -> Download {
        match (self.phase, event) {
            (DownloadPhase::Rest, DownloadEvent::Reply(outcome)) => match outcome {
                Ok(_) => Download { phase: DownloadPhase::Retrieve, ..self },
                Err(failure) => if failure.refused() {
                    Download { phase: DownloadPhase::Truncate, ..self }
                } else {
                    Download { phase: self.failed_phase(NetError::Ftp(failure.text)), ..self }
                },
            },
            (DownloadPhase::Truncate, DownloadEvent::Local(outcome)) => match outcome {
                Ok(_) => Download { offset: 0, phase: DownloadPhase::Retrieve, ..self },
                Err(failure) => Download { phase: self.failed_phase(NetError::Io(failure)), ..self },
            },
            (DownloadPhase::Retrieve, DownloadEvent::Reply(outcome)) => match outcome {
                Ok(_) => Download {
                    done: self.offset,
                    phase: if self.offset > 0 {
                        DownloadPhase::Report
                    } else {
                        DownloadPhase::Receive
                    },
                    ..self
                },
                Err(failure) => Download {
                    phase: self.failed_phase(NetError::Ftp(failure.text)),
                    ..self
                },
            },
            (DownloadPhase::Report, DownloadEvent::Reported) => Download {
                phase: DownloadPhase::Receive,
                ..self
            },
            (DownloadPhase::Receive, DownloadEvent::Received(n)) => Download {
                done: (self.done + n) as u64,
                phase: DownloadPhase::Report,
                ..self
            },
            (DownloadPhase::Receive, DownloadEvent::Ended) => Download {
                phase: DownloadPhase::Close,
                ..self
            },
            (DownloadPhase::Receive, DownloadEvent::Failed(error)) => Download {
                phase: self.failed_phase(error),
                ..self
            },
            (DownloadPhase::Close, DownloadEvent::Reply(outcome)) => match outcome {
                Ok(_) => Download { phase: DownloadPhase::Sync, ..self },
                Err(failure) => Download {
                    phase: self.failed_phase(NetError::Ftp(failure.text)),
                    ..self
                },
            },
            (DownloadPhase::Sync, DownloadEvent::Local(outcome)) => match outcome {
                Ok(_) => Download { phase: DownloadPhase::Rename, ..self },
                Err(failure) => Download { phase: self.failed_phase(NetError::Io(failure)), ..self },
            },
            (DownloadPhase::Rename, DownloadEvent::Local(outcome)) => match outcome {
                Ok(_) => Download { phase: DownloadPhase::Over(Ok(self.done)), ..self },
                Err(failure) => Download {
                    phase: DownloadPhase::Discard(NetError::Io(failure)),
                    ..self
                },
            },
            (DownloadPhase::Discard(error), DownloadEvent::Local(_)) => Download {
                phase: DownloadPhase::Over(Err(error)),
                ..self
            },
            _ => self,
        }
    }

    /// A download may be started. The local part holds `offset` bytes and is kept after a failure if
    /// a later attempt is to continue it.
    pub fn begin(remote_path: &str, offset: u64, keep_on_error: bool) -> (r: Result<Self, NetError>)
        ensures
            r is Ok <==> !has_low_byte(remote_path@),
            r matches Err(e) ==> refused(
                e,
                "remote path contains a control character (CRLF/NUL injection guard)"@,
            ),
            r matches Ok(download) ==> {
                &&& download.remote_path@ == remote_path@
                &&& download.keep_on_error == keep_on_error
                &&& download.offset == offset
                &&& download.done == offset
                &&& if offset == 0 {
                    download.phase == DownloadPhase::Retrieve
                } else if offset <= usize::MAX {
                    download.phase == DownloadPhase::Rest
                } else {
                    exists|e: NetError| #[trigger]
                        ftp_error(e, "download resume offset does not fit this platform"@)
                            && download.phase == download.failed_phase(e)
                }
            },
    {
        match validate_ftp_path(remote_path) {
            Err(e) => {
                return Err(e);
            },
            Ok(()) => {},
        }
        let mut download = Download {
            remote_path: remote_path.to_owned(),
            keep_on_error,
            offset,
            done: offset,
            phase: DownloadPhase::Retrieve,
        };
        if offset > 0 {
            if offset > usize::MAX as u64 {
                let e: NetError = NetError::Ftp(
                    "download resume offset does not fit this platform".to_owned(),
                );
                assert(ftp_error(e, "download resume offset does not fit this platform"@));
                download.phase = download.failure(e);
            } else {
                download.phase = DownloadPhase::Rest;
            }
        }
        Ok(download)
    }

    fn failure(&self, error: NetError) -> (r: DownloadPhase)
        ensures
            r == self.failed_phase(error),
    {
        if self.keep_on_error {
            DownloadPhase::Over(Err(error))
        } else {
            DownloadPhase::Discard(error)
        }
    }

    /// What to do next.
    pub fn request(&self) -> (r: DownloadRequest)
        ensures
            r@ == self.asks(),
    {
        match &self.phase {
            DownloadPhase::Rest => DownloadRequest::Restart(self.offset),
            DownloadPhase::Truncate => DownloadRequest::TruncatePart,
            DownloadPhase::Retrieve => DownloadRequest::Retrieve(self.remote_path.clone()),
            DownloadPhase::Report => DownloadRequest::Report(self.done),
            DownloadPhase::Receive => DownloadRequest::ReceiveNext,
            DownloadPhase::Close => DownloadRequest::Close,
            DownloadPhase::Sync => DownloadRequest::SyncPart,
            DownloadPhase::Rename => DownloadRequest::RenamePart,
            DownloadPhase::Discard(_) => DownloadRequest::RemovePart,
            DownloadPhase::Over(_) => DownloadRequest::Finished,
        }
    }

    /// The answer to a request has come.
    pub fn handle(self, event: DownloadEvent) -> (r: Self)
        requires
            self.expects(event),
        ensures
            r == self.after(event),
    {
        let mut then: Download = self;
        let mut phase: DownloadPhase = DownloadPhase::Close;
        std::mem::swap(&mut phase, &mut then.phase);
        match (phase, event) {
            (DownloadPhase::Rest, DownloadEvent::Reply(outcome)) => {
                then.phase = match outcome {
                    Ok(()) => DownloadPhase::Retrieve,
                    Err(failure) => if failure.is_refusal() {
                        DownloadPhase::Truncate
                    } else {
                        then.failure(failure.into_error())
                    },
                };
            },
            (DownloadPhase::Truncate, DownloadEvent::Local(outcome)) => match outcome {
                Ok(()) => {
                    then.offset = 0;
                    then.phase = DownloadPhase::Retrieve;
                },
                Err(failure) => {
                    then.phase = then.failure(NetError::Io(failure));
                },
            },
            (DownloadPhase::Retrieve, DownloadEvent::Reply(outcome)) => match outcome {
                Ok(()) => {
                    then.done = then.offset;
                    then.phase = if then.offset > 0 {
                        DownloadPhase::Report
                    } else {
                        DownloadPhase::Receive
                    };
                },
                Err(failure) => {
                    then.phase = then.failure(failure.into_error());
                },
            },
            (DownloadPhase::Report, _) => {
                then.phase = DownloadPhase::Receive;
            },
            (DownloadPhase::Receive, DownloadEvent::Received(n)) => {
                then.done = then.done + n;
                then.phase = DownloadPhase::Report;
            },
            (DownloadPhase::Receive, DownloadEvent::Failed(error)) => {
                then.phase = then.failure(error);
            },
            (DownloadPhase::Receive, _) => {
                then.phase = DownloadPhase::Close;
            },
            (DownloadPhase::Close, DownloadEvent::Reply(outcome)) => {
                then.phase = match outcome {
                    Ok(()) => DownloadPhase::Sync,
                    Err(failure) => then.failure(failure.into_error()),
                };
            },
            (DownloadPhase::Sync, DownloadEvent::Local(outcome)) => {
                then.phase = match outcome {
                    Ok(()) => DownloadPhase::Rename,
                    Err(failure) => then.failure(NetError::Io(failure)),
                };
            },
            (DownloadPhase::Rename, DownloadEvent::Local(outcome)) => {
                then.phase = match outcome {
                    Ok(()) => DownloadPhase::Over(Ok(then.done)),
                    Err(failure) => DownloadPhase::Discard(NetError::Io(failure)),
                };
            },
            (DownloadPhase::Discard(error), _) => {
                then.phase = DownloadPhase::Over(Err(error));
            },
            (phase, _) => {
                then.phase = phase;
            },
        }
        then
    }
}

/// The part takes the place of the destination only after the server has confirmed the end of the
/// transfer and every byte is on disk: a failure never leaves a truncated file there.
pub proof fn destination_is_replaced_last(download: Download, event: DownloadEvent)
    requires
        download.expects(event),
        download.after(event).phase == DownloadPhase::Rename,
    ensures
        download.phase == DownloadPhase::Sync,
        event matches DownloadEvent::Local(outcome) && outcome is Ok,
{
}

/// The synchronization to disk in turn follows a confirmed end of the transfer.
pub proof fn synchronization_follows_a_confirmed_transfer(download: Download, event: DownloadEvent)
    requires
        download.expects(event),
        download.after(event).phase == DownloadPhase::Sync,
    ensures
        download.phase == DownloadPhase::Close,
        event matches DownloadEvent::Reply(outcome) && outcome is Ok,
{
}

/// Each event answers what the download asks for when it comes.
pub open spec fn all_expected(download: Download, events: Seq<DownloadEvent>) -> bool
    decreases events.len(),
{
    events.len() > 0 ==> download.expects(events[0]) && all_expected(
        download.after(events[0]),
        events.skip(1),
    )
}

/// The download after the events.
pub open spec fn after_all(download: Download, events: Seq<DownloadEvent>) -> Download
    decreases events.len(),
{
    if events.len() == 0 {
        download
    } else {
        after_all(download.after(events[0]), events.skip(1))
    }
}

/// How many bytes were received.
pub open spec fn received_bytes(events: Seq<DownloadEvent>) -> nat
    decreases events.len(),
{
    if events.len() == 0 {
        0
    } else {
        received_bytes(events.skip(1)) + match events[0] {
            DownloadEvent::Received(n) => n as nat,
            _ => 0nat,
        }
    }
}

/// The bytes of the local part that count: those of an earlier attempt, unless the server refuses to
/// continue it.
pub open spec fn kept_bytes(download: Download, events: Seq<DownloadEvent>) -> u64 {
    match download.phase {
        DownloadPhase::Rest => if events.len() > 0 && (events[0] matches DownloadEvent::Reply(
            outcome,
        ) && outcome is Ok) {
            download.offset
        } else {
            0
        },
        DownloadPhase::Truncate => 0,
        DownloadPhase::Retrieve => download.offset,
        _ => download.done,
    }
}

/// A download that succeeds reports exactly the bytes that it continued from and those that it
/// received; one whose part is being discarded does not succeed any more.
pub proof fn success_reports_every_byte(
    download: Download,
    events: Seq<DownloadEvent>,
    bytes: u64,
)
    requires
        all_expected(download, events),
        !(download.phase is Over),
        after_all(download, events).phase == DownloadPhase::Over(Ok(bytes)),
    ensures
        bytes == kept_bytes(download, events) + received_bytes(events),
        !(download.phase is Discard),
    decreases events.len(),
{
    reveal_with_fuel(all_expected, 2);
    reveal_with_fuel(after_all, 2);
    reveal_with_fuel(received_bytes, 2);
    let next = download.after(events[0]);
    let rest = events.skip(1);
    if !(next.phase is Over) {
        success_reports_every_byte(next, rest, bytes);
    }
}

/// What is told of the progress, one value after the other.
pub open spec fn reports(download: Download, events: Seq<DownloadEvent>) -> Seq<u64>
    decreases events.len(),
{
    if events.len() == 0 {
        Seq::empty()
    } else {
        let later = reports(download.after(events[0]), events.skip(1));
        if download.asks() is Report {
            seq![download.asks()->Report_0] + later
        } else {
            later
        }
    }
}

/// The transfer itself has not begun.
pub open spec fn not_begun(phase: DownloadPhase) -> bool {
    phase is Rest || phase is Truncate || phase is Retrieve
}

proof fn lemma_reports(download: Download, events: Seq<DownloadEvent>)
    requires
        all_expected(download, events),
    ensures
        ({
            let told = reports(download, events);
            let end = after_all(download, events).phase;
            &&& forall|i: int, j: int| 0 <= i < j < told.len() ==> told[i] < told[j]
            &&& forall|i: int|
                0 <= i < told.len() ==> #[trigger] told[i] >= if not_begun(download.phase) {
                    1
                } else if download.phase is Report {
                    download.done as int
                } else {
                    download.done + 1
                }
            &&& end matches DownloadPhase::Over(Ok(bytes)) ==> !(download.phase is Over) ==> {
                &&& told.len() > 0 ==> told.last() == bytes
                &&& told.len() == 0 ==> !(download.phase is Report) && bytes == if not_begun(
                    download.phase,
                ) {
                    0
                } else {
                    download.done
                }
                &&& !(download.phase is Discard)
            }
        }),
    decreases events.len(),
{
    reveal_with_fuel(all_expected, 2);
    reveal_with_fuel(after_all, 2);
    if events.len() > 0 {
        let next = download.after(events[0]);
        let rest = events.skip(1);
        let later = reports(next, rest);
        lemma_reports(next, rest);
        if next.phase is Over {
            assert(rest.len() == 0);
        }
        let told = reports(download, events);
        if download.phase is Report {
            assert forall|i: int, j: int| 0 <= i < j < told.len() implies told[i] < told[j] by {
                assert(told[j] == later[j - 1]);
                if i > 0 {
                    assert(told[i] == later[i - 1]);
                }
            }
            assert forall|i: int| 0 <= i < told.len() implies #[trigger] told[i]
                >= download.done by {
                if i > 0 {
                    assert(told[i] == later[i - 1]);
                }
            }
            if later.len() > 0 {
                assert(told.last() == later.last());
            }
        }
    }
}

/// The progress that is told rises with every value; and where the download succeeds the last value
/// is the count that it reports, while for an empty file nothing is told.
pub proof fn progress_rises_to_the_count(download: Download, events: Seq<DownloadEvent>)
    requires
        not_begun(download.phase),
        all_expected(download, events),
    ensures
        ({
            let told = reports(download, events);
            &&& forall|i: int, j: int| 0 <= i < j < told.len() ==> told[i] < told[j]
            &&& after_all(download, events).phase matches DownloadPhase::Over(Ok(bytes)) ==> if bytes
                == 0 {
                told.len() == 0
            } else {
                told.len() > 0 && told.last() == bytes
            }
        }),
{
    lemma_reports(download, events);
    let told = reports(download, events);
    if told.len() > 0 {
        assert(told[told.len() - 1] >= 1);
    }
}

/// A download of a whole file, in a session of its own: there is no part to continue, and none is
/// kept after a failure.
pub fn download(remote_path: &str) -> (r: Result<Download, NetError>)
    ensures
        r is Ok <==> !has_low_byte(remote_path@),
        r matches Err(e) ==> refused(
            e,
            "remote path contains a control character (CRLF/NUL injection guard)"@,
        ),
        r matches Ok(begun) ==> {
            &&& begun.remote_path@ == remote_path@
            &&& !begun.keep_on_error
            &&& begun.offset == 0
            &&& begun.done == 0
            &&& begun.phase == DownloadPhase::Retrieve
        },
{
    Download::begin(remote_path, 0, false)
}

} // verus!
