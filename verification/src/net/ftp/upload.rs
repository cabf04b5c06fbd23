//! Uploading one file.
//!
//! The bytes go to a private sibling of the destination, which is promoted once all of them have
//! been accepted. A resumable upload keeps the sibling after a failure and continues it later.

use vstd::prelude::*;

use crate::net::error::{IoFailure, NetError};
use crate::net::ftp::paths::{
    after_make_dir, ancestry, lemma_ancestry_is_above, lemma_no_ancestry, lemma_parent_is_safe,
    mkdirs, parent_remote,
};
use crate::net::ftp::promote::{
    CommandView, EndView, PhaseView, Promotion, PromotionPhase, PromotionStep, PromotionView,
};
use crate::net::ftp::transport::{ftp_error, FtpFailure};
use crate::net::safe::{has_low_byte, validate_ftp_path};
use crate::net::staging::{
    parent_of, refused, sibling_of, staged_at, staging_name, staging_refusal,
    without_trailing_slashes, RemoteStagingPaths,
};
use crate::net::transfer_rules::UploadResume;
use crate::numerals::hex_padded;
use crate::pieces::texts;

verus! {

/// How far an upload has got.
#[derive(Debug, PartialEq, Eq)]
pub enum UploadPhase {
    /// Make this one of the directories above the destination.
    Directory(usize),
    /// Ask how much of the file an earlier attempt has left.
    Size,
    /// Remove what an earlier attempt has left, and start again.
    Discard { rewind: bool },
    /// The earlier attempt had sent everything.
    ReportWhole,
    /// Ask the server to continue where the earlier attempt stopped.
    Rest,
    /// Move the local file to the given position; then tell the progress, if it is to be told.
    Seek { position: u64, report: bool },
    /// Tell how much has been sent already.
    ReportResumed,
    /// Open the data connection.
    Store,
    /// Send the local file.
    Send,
    /// Tell how much has been sent.
    ReportSent,
    /// Close the data connection, after this failure if there was one.
    Close(Option<NetError>),
    /// Remove the incomplete file; the upload has failed.
    Cleanup(NetError),
    /// Everything has been sent.
    Promote(Promotion),
    Over(Result<u64, NetError>),
}

/// What an upload asks for.
#[derive(Debug, PartialEq, Eq)]
pub enum UploadRequest {
    MakeDirectory(String),
    Size(String),
    /// A failure to remove is of no consequence.
    Remove(String),
    Restart(u64),
    SeekSource(u64),
    Report(u64),
    Store(String),
    /// Send the next part of the local file.
    SendNext,
    Close,
    Rename { from: String, to: String },
    Finished,
}

pub ghost enum RequestView {
    MakeDirectory(Seq<char>),
    Size(Seq<char>),
    Remove(Seq<char>),
    Restart(u64),
    SeekSource(u64),
    Report(u64),
    Store(Seq<char>),
    SendNext,
    Close,
    Rename { from: Seq<char>, to: Seq<char> },
    Finished,
}

impl View for UploadRequest {
    type V = RequestView;

    open spec fn view(&self) -> RequestView {
        match *self {
            UploadRequest::MakeDirectory(path) => RequestView::MakeDirectory(path@),
            UploadRequest::Size(path) => RequestView::Size(path@),
            UploadRequest::Remove(path) => RequestView::Remove(path@),
            UploadRequest::Restart(n) => RequestView::Restart(n),
            UploadRequest::SeekSource(n) => RequestView::SeekSource(n),
            UploadRequest::Report(n) => RequestView::Report(n),
            UploadRequest::Store(path) => RequestView::Store(path@),
            UploadRequest::SendNext => RequestView::SendNext,
            UploadRequest::Close => RequestView::Close,
            UploadRequest::Rename { from, to } => RequestView::Rename { from: from@, to: to@ },
            UploadRequest::Finished => RequestView::Finished,
        }
    }
}

/// The answer to a request.
#[derive(Debug, PartialEq, Eq)]
pub enum UploadEvent {
    /// To `MakeDirectory`, `Remove`, `Restart`, `Store` and `Rename`.
    Reply(Result<(), FtpFailure>),
    /// To `Size`: the size of the file, where there is one.
    Size(Result<Option<u64>, FtpFailure>),
    /// To `SeekSource`.
    Source(Result<(), IoFailure>),
    /// To `Report`.
    Reported,
    /// To `SendNext`: so many bytes were sent, at least one.
    Sent(u64),
    /// To `SendNext`: the local file is at its end.
    SourceEnded,
    /// To `SendNext`: reading or sending failed, or the user has cancelled.
    SendFailed(NetError),
    /// To `Close`, and whether the user has cancelled meanwhile.
    Closed(Result<(), FtpFailure>, bool),
}

/// An upload under way.
#[derive(Debug, PartialEq, Eq)]
pub struct Upload {
    pub destination: String,
    pub resume: Option<UploadResume>,
    pub directories: Vec<String>,
    pub staging: RemoteStagingPaths,
    /// The names for a start from scratch.
    pub fresh: RemoteStagingPaths,
    /// Keep the incomplete file after a failure.
    pub preserve: bool,
    pub offset: u64,
    pub sent: u64,
    pub phase: UploadPhase,
}

/// Two pairs of names are the same.
pub open spec fn same_paths(a: RemoteStagingPaths, b: RemoteStagingPaths) -> bool {
    a.temporary@ == b.temporary@ && a.backup@ == b.backup@
}

/// The server does not know the `SIZE` command, so that nothing may be appended.
pub open spec fn size_unsupported(failure: FtpFailure) -> bool {
    failure.answered(500) || failure.answered(501) || failure.answered(502) || failure.answered(504)
}

impl Upload {
    /// The phase after the directories have been made.
    pub open spec fn first_phase(&self) -> UploadPhase {
        if self.resume is Some {
            UploadPhase::Size
        } else {
            UploadPhase::Store
        }
    }

    /// The phase in which an incomplete file of the given size is dealt with.
    pub open spec fn resumes_as(&self, size: u64, phase: UploadPhase, error_text: Seq<char>) -> bool {
        if size > self.resume->0.expected_total {
            phase == (UploadPhase::Discard { rewind: false })
        } else if size == 0 {
            phase == UploadPhase::Store
        } else if size == self.resume->0.expected_total {
            phase == UploadPhase::ReportWhole
        } else if size > usize::MAX {
            phase matches UploadPhase::Over(Err(e)) && ftp_error(e, error_text)
        } else {
            phase == UploadPhase::Rest
        }
    }

    /// The phase after a failure, once a data connection was asked for.
    pub open spec fn failed_phase(&self, error: NetError) -> UploadPhase {
        if self.preserve {
            UploadPhase::Over(Err(error))
        } else {
            UploadPhase::Cleanup(error)
        }
    }

    /// `phase` is the start of a promotion to the destination.
    pub open spec fn promotes(&self, phase: UploadPhase) -> bool {
        phase matches UploadPhase::Promote(promotion) && promotion@ == (PromotionView {
            temporary: self.staging.temporary@,
            backup: self.staging.backup@,
            destination: self.destination@,
            preserve: self.preserve,
            phase: PhaseView::Direct,
        })
    }

    /// The upload and its phase fit together.
    pub open spec fn wf(&self) -> bool {
        &&& self.phase matches UploadPhase::Directory(i) ==> i < self.directories@.len()
        &&& (self.phase == UploadPhase::Size || self.phase == UploadPhase::ReportWhole || self.phase
            == UploadPhase::Rest) ==> self.resume is Some
        &&& self.phase matches UploadPhase::Promote(promotion) ==> !(promotion@.phase is Over)
    }

    /// What the upload asks for.
    pub open spec fn asks(&self) -> RequestView {
        match self.phase {
            UploadPhase::Directory(i) => RequestView::MakeDirectory(self.directories@[i as int]@),
            UploadPhase::Size => RequestView::Size(self.staging.temporary@),
            UploadPhase::Discard { .. } => RequestView::Remove(self.staging.temporary@),
            UploadPhase::ReportWhole | UploadPhase::ReportResumed => RequestView::Report(
                self.offset,
            ),
            UploadPhase::ReportSent => RequestView::Report(self.sent),
            UploadPhase::Rest => RequestView::Restart(self.offset),
            UploadPhase::Seek { position, .. } => RequestView::SeekSource(position),
            UploadPhase::Store => RequestView::Store(self.staging.temporary@),
            UploadPhase::Send => RequestView::SendNext,
            UploadPhase::Close(_) => RequestView::Close,
            UploadPhase::Cleanup(_) => RequestView::Remove(self.staging.temporary@),
            UploadPhase::Promote(promotion) => match promotion@.command() {
                CommandView::Rename { from, to } => RequestView::Rename { from, to },
                CommandView::Remove(path) => RequestView::Remove(path),
                CommandView::Finished => RequestView::Finished,
            },
            UploadPhase::Over(_) => RequestView::Finished,
        }
    }

    /// The event answers what the upload asks for.
    pub open spec fn expects(&self, event: UploadEvent) -> bool {
        match self.phase {
            UploadPhase::Directory(_) => event is Reply,
            UploadPhase::Size => event is Size,
            UploadPhase::Discard { .. } => event is Reply,
            UploadPhase::ReportWhole | UploadPhase::ReportResumed | UploadPhase::ReportSent => event
                is Reported,
            UploadPhase::Rest => event is Reply,
            UploadPhase::Seek { .. } => event is Source,
            UploadPhase::Store => event is Reply,
            UploadPhase::Send => match event {
                UploadEvent::Sent(n) => n > 0 && self.sent + n <= u64::MAX,
                UploadEvent::SourceEnded | UploadEvent::SendFailed(_) => true,
                _ => false,
            },
            UploadPhase::Close(_) => event is Closed,
            UploadPhase::Cleanup(_) => event is Reply,
            UploadPhase::Promote(_) => event is Reply,
            UploadPhase::Over(_) => false,
        }
    }

    /// Everything but the phase stays.
    pub open spec fn moves_to(&self, then: Upload, phase: UploadPhase) -> bool {
        then == (Upload { phase, ..*self })
    }

    /// `then` is the upload after the event.
    pub open spec fn becomes(&self, event: UploadEvent, then: Upload) -> bool {
        match (self.phase, event) {
            (UploadPhase::Directory(i), UploadEvent::Reply(outcome)) => match outcome {
                Err(failure) => if failure.answered(550) {
                    self.moves_to(then, self.next_directory(i))
                } else {
                    self.moves_to(then, UploadPhase::Over(Err(NetError::Ftp(failure.text))))
                },
                Ok(_) => self.moves_to(then, self.next_directory(i)),
            },
            (UploadPhase::Size, UploadEvent::Size(outcome)) => match outcome {
                Ok(Some(size)) => {
                    &&& then == (Upload { phase: then.phase, offset: size, ..*self })
                    &&& self.resumes_as(
                        size,
                        then.phase,
                        "upload resume offset does not fit this platform"@,
                    )
                },
                Ok(None) => self.moves_to(then, UploadPhase::Store),
                Err(failure) => if size_unsupported(failure) {
                    self.moves_to(then, UploadPhase::Discard { rewind: false })
                } else {
                    self.moves_to(then, UploadPhase::Over(Err(NetError::Ftp(failure.text))))
                },
            },
            (UploadPhase::Discard { rewind }, UploadEvent::Reply(_)) => {
                &&& same_paths(then.staging, self.fresh)
                &&& then == (Upload {
                    staging: then.staging,
                    preserve: false,
                    offset: 0,
                    sent: 0,
                    phase: if rewind {
                        UploadPhase::Seek { position: 0, report: false }
                    } else {
                        UploadPhase::Store
                    },
                    ..*self
                })
            },
            (UploadPhase::ReportWhole, UploadEvent::Reported) => {
                &&& then == (Upload { phase: then.phase, sent: self.offset, ..*self })
                &&& self.promotes(then.phase)
            },
            (UploadPhase::Rest, UploadEvent::Reply(outcome)) => match outcome {
                Ok(_) => self.moves_to(
                    then,
                    UploadPhase::Seek { position: self.offset, report: true },
                ),
                Err(failure) => if failure.refused() {
                    self.moves_to(then, UploadPhase::Discard { rewind: true })
                } else {
                    self.moves_to(then, UploadPhase::Over(Err(NetError::Ftp(failure.text))))
                },
            },
            (UploadPhase::Seek { report, .. }, UploadEvent::Source(outcome)) => match outcome {
                Ok(_) => self.moves_to(
                    then,
                    if report {
                        UploadPhase::ReportResumed
                    } else {
                        UploadPhase::Store
                    },
                ),
                Err(failure) => self.moves_to(
                    then,
                    UploadPhase::Over(Err(NetError::Io(failure))),
                ),
            },
            (UploadPhase::ReportResumed, UploadEvent::Reported) => self.moves_to(
                then,
                UploadPhase::Store,
            ),
            (UploadPhase::Store, UploadEvent::Reply(outcome)) => match outcome {
                Ok(_) => then == (Upload {
                    phase: UploadPhase::Send,
                    sent: self.offset,
                    ..*self
                }),
                Err(failure) => self.moves_to(
                    then,
                    self.failed_phase(NetError::Ftp(failure.text)),
                ),
            },
            (UploadPhase::Send, UploadEvent::Sent(n)) => then == (Upload {
                sent: (self.sent + n) as u64,
                phase: UploadPhase::ReportSent,
                ..*self
            }),
            (UploadPhase::ReportSent, UploadEvent::Reported) => self.moves_to(
                then,
                UploadPhase::Send,
            ),
            (UploadPhase::Send, UploadEvent::SourceEnded) => self.moves_to(
                then,
                UploadPhase::Close(None),
            ),
            (UploadPhase::Send, UploadEvent::SendFailed(error)) => self.moves_to(
                then,
                UploadPhase::Close(Some(error)),
            ),
            (UploadPhase::Close(failed), UploadEvent::Closed(outcome, cancelled)) => match failed {
                Some(error) => self.moves_to(then, self.failed_phase(error)),
                None => match outcome {
                    Err(failure) => self.moves_to(
                        then,
                        self.failed_phase(NetError::Ftp(failure.text)),
                    ),
                    Ok(_) => if cancelled {
                        self.moves_to(then, self.failed_phase(NetError::Cancelled))
                    } else {
                        self.moves_to(then, then.phase) && self.promotes(then.phase)
                    },
                },
            },
            (UploadPhase::Cleanup(error), UploadEvent::Reply(_)) => self.moves_to(
                then,
                UploadPhase::Over(Err(error)),
            ),
            (UploadPhase::Promote(promotion), UploadEvent::Reply(outcome)) => {
                let answered = promotion@.answered(
                    match outcome {
                        Ok(_) => None,
                        Err(failure) => Some(failure.text@),
                    },
                );
                &&& self.moves_to(then, then.phase)
                &&& match answered.phase {
                    PhaseView::Over(EndView::Promoted) => then.phase == UploadPhase::Over(
                        Ok(self.sent),
                    ),
                    PhaseView::Over(EndView::Refused(text))
                    | PhaseView::Over(EndView::Displaced(text)) => then.phase
                        matches UploadPhase::Over(Err(e)) && ftp_error(e, text),
                    _ => then.phase matches UploadPhase::Promote(next) && next@ == answered,
                }
            },
            _ => then == *self,
        }
    }

    pub open spec fn next_directory(&self, i: usize) -> UploadPhase {
        if i + 1 < self.directories@.len() {
            UploadPhase::Directory((i + 1) as usize)
        } else {
            self.first_phase()
        }
    }

    /// An upload with given staging names.
    pub fn staged(
        destination: &str,
        resume: Option<UploadResume>,
        staging: RemoteStagingPaths,
        fresh: RemoteStagingPaths,
    ) -> (r: Result<Self, NetError>)
        ensures
            r is Ok <==> !has_low_byte(destination@),
            r matches Ok(upload) ==> {
                &&& upload.wf()
                &&& upload.destination@ == destination@
                &&& upload.resume == resume
                &&& upload.staging == staging
                &&& upload.fresh == fresh
                &&& upload.preserve == (resume is Some)
                &&& upload.offset == 0
                &&& upload.sent == 0
                &&& texts(upload.directories@) == ancestry(
                    parent_of(without_trailing_slashes(destination@)),
                )
                &&& upload.phase == (if upload.directories@.len() > 0 {
                    UploadPhase::Directory(0)
                } else {
                    upload.first_phase()
                })
            },
            r matches Err(e) ==> refused(
                e,
                "remote path contains a control character (CRLF/NUL injection guard)"@,
            ),
    {
        match validate_ftp_path(destination) {
            Err(e) => {
                return Err(e);
            },
            Ok(()) => {},
        }
        proof {
            lemma_parent_is_safe(destination@);
        }
        let directories: Vec<String> = match parent_remote(destination) {
            None => {
                proof {
                    let parent = parent_of(without_trailing_slashes(destination@));
                    lemma_no_ancestry(parent);
                    assert(texts(Seq::<String>::empty()) =~= Seq::<Seq<char>>::empty());
                }
                Vec::new()
            },
            Some(parent) => match mkdirs(parent.as_str()) {
                Err(e) => {
                    return Err(e);
                },
                Ok(directories) => directories,
            },
        };
        let first: UploadPhase = if directories.len() > 0 {
            UploadPhase::Directory(0)
        } else if resume.is_some() {
            UploadPhase::Size
        } else {
            UploadPhase::Store
        };
        Ok(
            Upload {
                destination: destination.to_owned(),
                resume,
                directories,
                staging,
                fresh,
                preserve: resume.is_some(),
                offset: 0,
                sent: 0,
                phase: first,
            },
        )
    }

    /// Start an upload under fresh names, or under the names of the attempt that it resumes.
    pub fn begin(destination: &str, resume: Option<UploadResume>) -> (r: Result<Self, NetError>)
        ensures
            r is Ok <==> staging_refusal(destination@) is None && (resume matches Some(resume)
                ==> resume.token != 0),
            r matches Ok(upload) ==> {
                &&& upload.wf()
                &&& upload.destination@ == destination@
                &&& upload.resume == resume
                &&& upload.preserve == (resume is Some)
                &&& upload.offset == 0
                &&& upload.sent == 0
                &&& texts(upload.directories@) == ancestry(
                    parent_of(without_trailing_slashes(destination@)),
                )
                &&& upload.phase == (if upload.directories@.len() > 0 {
                    UploadPhase::Directory(0)
                } else {
                    upload.first_phase()
                })
                &&& exists|a: u128, b: u128|
                    #[trigger] staged_at(upload.fresh, destination@, hex_padded(a as nat, 32), b)
                &&& match resume {
                    Some(resume) => exists|b: u128|
                        staged_at(
                            upload.staging,
                            destination@,
                            hex_padded(resume.token as nat, 16),
                            b,
                        ),
                    None => same_paths(upload.staging, upload.fresh),
                }
            },
            r matches Err(e) ==> (if !has_low_byte(destination@) && (resume matches Some(resume)
                && resume.token == 0) {
                refused(e, "upload resume token must not be zero"@)
            } else {
                staging_refusal(destination@) matches Some(text) && refused(e, text)
            }),
    {
        match validate_ftp_path(destination) {
            Err(e) => {
                return Err(e);
            },
            Ok(()) => {},
        }
        match resume {
            Some(resume) => {
                let staging: RemoteStagingPaths =
                    match RemoteStagingPaths::for_resumable_destination(
                    destination,
                    resume.token,
                ) {
                    Err(e) => {
                        return Err(e);
                    },
                    Ok(staging) => staging,
                };
                match RemoteStagingPaths::for_destination(destination) {
                    Err(e) => Err(e),
                    Ok(fresh) => Self::staged(destination, Some(resume), staging, fresh),
                }
            },
            None => match RemoteStagingPaths::for_destination(destination) {
                Err(e) => Err(e),
                Ok(fresh) => {
                    let staging: RemoteStagingPaths = copy_paths(&fresh);
                    Self::staged(destination, None, staging, fresh)
                },
            },
        }
    }

    /// What to do next.
    pub fn request(&self) -> (r: UploadRequest)
        requires
            self.wf(),
        ensures
            r@ == self.asks(),
    {
        match &self.phase {
            UploadPhase::Directory(i) => UploadRequest::MakeDirectory(
                self.directories[*i].clone(),
            ),
            UploadPhase::Size => UploadRequest::Size(self.staging.temporary.clone()),
            UploadPhase::Discard { .. } => UploadRequest::Remove(self.staging.temporary.clone()),
            UploadPhase::ReportWhole | UploadPhase::ReportResumed => UploadRequest::Report(
                self.offset,
            ),
            UploadPhase::ReportSent => UploadRequest::Report(self.sent),
            UploadPhase::Rest => UploadRequest::Restart(self.offset),
            UploadPhase::Seek { position, .. } => UploadRequest::SeekSource(*position),
            UploadPhase::Store => UploadRequest::Store(self.staging.temporary.clone()),
            UploadPhase::Send => UploadRequest::SendNext,
            UploadPhase::Close(_) => UploadRequest::Close,
            UploadPhase::Cleanup(_) => UploadRequest::Remove(self.staging.temporary.clone()),
            UploadPhase::Promote(promotion) => match promotion.command() {
                PromotionStep::Rename { from, to } => UploadRequest::Rename { from, to },
                PromotionStep::Remove(path) => UploadRequest::Remove(path),
                PromotionStep::Finished => UploadRequest::Finished,
            },
            UploadPhase::Over(_) => UploadRequest::Finished,
        }
    }

    fn promotion(&self) -> (r: UploadPhase)
        ensures
            self.promotes(r),
    {
        UploadPhase::Promote(
            Promotion::new(&self.staging, self.destination.as_str(), self.preserve),
        )
    }

    fn failure(&self, error: NetError) -> (r: UploadPhase)
        ensures
            r == self.failed_phase(error),
    {
        if self.preserve {
            UploadPhase::Over(Err(error))
        } else {
            UploadPhase::Cleanup(error)
        }
    }

    fn after_directories(&self) -> (r: UploadPhase)
        ensures
            r == self.first_phase(),
    {
        if self.resume.is_some() {
            UploadPhase::Size
        } else {
            UploadPhase::Store
        }
    }

    /// The answer to a request has come.
    pub fn handle(self, event: UploadEvent) -> (r: Self)
        requires
            self.wf(),
            self.expects(event),
        ensures
            r.wf(),
            self.becomes(event, r),
    {
        let mut then: Upload = self;
        let phase: UploadPhase = then.take_phase();
        match (phase, event) {
            (UploadPhase::Directory(i), UploadEvent::Reply(outcome)) => {
                let n: usize = then.directories.len();
                then.phase = match after_make_dir(outcome) {
                    Err(e) => UploadPhase::Over(Err(e)),
                    Ok(()) => if i + 1 < n {
                        UploadPhase::Directory(i + 1)
                    } else {
                        then.after_directories()
                    },
                };
            },
            (UploadPhase::Size, UploadEvent::Size(outcome)) => match outcome {
                Ok(Some(size)) => {
                    let total: u64 = match then.resume {
                        Some(resume) => resume.expected_total,
                        None => 0,
                    };
                    then.offset = size;
                    then.phase = if size > total {
                        UploadPhase::Discard { rewind: false }
                    } else if size == 0 {
                        UploadPhase::Store
                    } else if size == total {
                        UploadPhase::ReportWhole
                    } else if size > usize::MAX as u64 {
                        UploadPhase::Over(
                            Err(
                                NetError::Ftp(
                                    "upload resume offset does not fit this platform".to_owned(),
                                ),
                            ),
                        )
                    } else {
                        UploadPhase::Rest
                    };
                },
                Ok(None) => {
                    then.phase = UploadPhase::Store;
                },
                Err(failure) => {
                    then.phase = if failure.has_code(500) || failure.has_code(501)
                        || failure.has_code(502) || failure.has_code(504) {
                        UploadPhase::Discard { rewind: false }
                    } else {
                        UploadPhase::Over(Err(failure.into_error()))
                    };
                },
            },
            (UploadPhase::Discard { rewind }, _) => {
                then.staging = copy_paths(&then.fresh);
                then.preserve = false;
                then.offset = 0;
                then.sent = 0;
                then.phase = if rewind {
                    UploadPhase::Seek { position: 0, report: false }
                } else {
                    UploadPhase::Store
                };
            },
            (UploadPhase::ReportWhole, _) => {
                then.sent = then.offset;
                then.phase = then.promotion();
            },
            (UploadPhase::Rest, UploadEvent::Reply(outcome)) => {
                then.phase = match outcome {
                    Ok(()) => UploadPhase::Seek { position: then.offset, report: true },
                    Err(failure) => if failure.is_refusal() {
                        UploadPhase::Discard { rewind: true }
                    } else {
                        UploadPhase::Over(Err(failure.into_error()))
                    },
                };
            },
            (UploadPhase::Seek { report, .. }, UploadEvent::Source(outcome)) => {
                then.phase = match outcome {
                    Err(failure) => UploadPhase::Over(Err(NetError::Io(failure))),
                    Ok(()) => if report {
                        UploadPhase::ReportResumed
                    } else {
                        UploadPhase::Store
                    },
                };
            },
            (UploadPhase::ReportResumed, _) => {
                then.phase = UploadPhase::Store;
            },
            (UploadPhase::Store, UploadEvent::Reply(outcome)) => match outcome {
                Ok(()) => {
                    then.sent = then.offset;
                    then.phase = UploadPhase::Send;
                },
                Err(failure) => {
                    then.phase = then.failure(failure.into_error());
                },
            },
            (UploadPhase::Send, UploadEvent::Sent(n)) => {
                then.sent = then.sent + n;
                then.phase = UploadPhase::ReportSent;
            },
            (UploadPhase::ReportSent, _) => {
                then.phase = UploadPhase::Send;
            },
            (UploadPhase::Send, UploadEvent::SendFailed(error)) => {
                then.phase = UploadPhase::Close(Some(error));
            },
            (UploadPhase::Send, _) => {
                then.phase = UploadPhase::Close(None);
            },
            (UploadPhase::Close(failed), UploadEvent::Closed(outcome, cancelled)) => {
                then.phase = match failed {
                    Some(error) => then.failure(error),
                    None => match outcome {
                        Err(failure) => then.failure(failure.into_error()),
                        Ok(()) => if cancelled {
                            then.failure(NetError::Cancelled)
                        } else {
                            then.promotion()
                        },
                    },
                };
            },
            (UploadPhase::Cleanup(error), _) => {
                then.phase = UploadPhase::Over(Err(error));
            },
            (UploadPhase::Promote(promotion), UploadEvent::Reply(outcome)) => {
                let next: Promotion = promotion.answer(outcome);
                let over: bool = match next.phase {
                    PromotionPhase::Over(_) => true,
                    _ => false,
                };
                then.phase = if over {
                    match next.result() {
                        Ok(()) => UploadPhase::Over(Ok(then.sent)),
                        Err(e) => UploadPhase::Over(Err(e)),
                    }
                } else {
                    UploadPhase::Promote(next)
                };
            },
            (phase, _) => {
                then.phase = phase;
            },
        }
        then
    }

    fn take_phase(&mut self) -> (r: UploadPhase)
        ensures
            r == old(self).phase,
            *final(self) == (Upload { phase: UploadPhase::Send, ..*old(self) }),
    {
        let mut phase: UploadPhase = UploadPhase::Send;
        std::mem::swap(&mut phase, &mut self.phase);
        phase
    }
}

/// The file that an abandoned resumable upload has left, to be removed.
pub fn discard_resumable_upload(remote_path: &str, token: u64) -> (r: Result<String, NetError>)
    ensures
        r is Ok <==> token != 0 && staging_refusal(remote_path@) is None,
        r matches Ok(path) ==> path@ == sibling_of(
            remote_path@,
            staging_name("upload"@, hex_padded(token as nat, 16)),
        ),
        r matches Err(e) ==> (if token == 0 {
            refused(e, "upload resume token must not be zero"@)
        } else {
            staging_refusal(remote_path@) matches Some(text) && refused(e, text)
        }),
{
    match RemoteStagingPaths::for_resumable_destination(remote_path, token) {
        Err(e) => Err(e),
        Ok(staging) => Ok(staging.temporary),
    }
}

fn copy_paths(paths: &RemoteStagingPaths) -> (r: RemoteStagingPaths)
    ensures
        same_paths(r, *paths),
{
    RemoteStagingPaths { temporary: paths.temporary.clone(), backup: paths.backup.clone() }
}

/// A promotion starts in one of two ways only: an earlier attempt has left as many bytes as the file
/// has, or the data connection was closed without a failure, the server confirmed the end of the
/// transfer, and nobody has cancelled.
pub proof fn promotion_needs_a_complete_transfer(upload: Upload, event: UploadEvent, then: Upload)
    requires
        upload.wf(),
        upload.expects(event),
        upload.becomes(event, then),
        then.phase is Promote,
        !(upload.phase is Promote),
    ensures
        upload.phase == UploadPhase::ReportWhole || (upload.phase == UploadPhase::Close(None)
            && (event matches UploadEvent::Closed(outcome, cancelled) && outcome is Ok
            && !cancelled)),
{
}

/// A data connection is closed without a failure only when the local file was read to its end, and
/// all of it was counted as sent.
pub proof fn clean_ends_follow_the_whole_file(upload: Upload, event: UploadEvent, then: Upload)
    requires
        upload.wf(),
        upload.expects(event),
        upload.becomes(event, then),
        then.phase == UploadPhase::Close(None),
    ensures
        upload.phase == UploadPhase::Send,
        event == UploadEvent::SourceEnded,
        then.sent == upload.sent,
{
}

/// An earlier attempt counts as complete only if the server holds exactly as many bytes as the file
/// has; if it holds more, or does not tell, everything is sent again under a fresh name.
pub proof fn only_whole_fragments_are_promoted(upload: Upload, event: UploadEvent, then: Upload)
    requires
        upload.wf(),
        upload.expects(event),
        upload.becomes(event, then),
        then.phase == UploadPhase::ReportWhole,
        upload.phase != UploadPhase::ReportWhole,
    ensures
        upload.phase == UploadPhase::Size,
        upload.resume matches Some(resume) && then.offset == resume.expected_total && event
            == UploadEvent::Size(Ok(Some(resume.expected_total))),
{
}

/// `then` is the upload some answers later.
pub open spec fn reaches(first: Upload, then: Upload, steps: nat) -> bool
    decreases steps,
{
    if steps == 0 {
        then == first
    } else {
        exists|between: Upload, event: UploadEvent|
            reaches(first, between, (steps - 1) as nat) && between.wf() && between.expects(event)
                && #[trigger] between.becomes(event, then)
    }
}

/// The upload goes to a file that may be uploaded to, beside it, and makes the directories above it.
pub open spec fn goes_beside(upload: Upload) -> bool {
    &&& staging_refusal(upload.destination@) is None
    &&& texts(upload.directories@) == ancestry(
        parent_of(without_trailing_slashes(upload.destination@)),
    )
    &&& upload.staging.temporary@ != upload.destination@
    &&& upload.fresh.temporary@ != upload.destination@
}

proof fn lemma_uploads_keep_their_course(first: Upload, then: Upload, steps: nat)
    requires
        goes_beside(first),
        reaches(first, then, steps),
    ensures
        goes_beside(then),
        then.destination == first.destination,
    decreases steps,
{
    if steps > 0 {
        let (between, event) = choose|between: Upload, event: UploadEvent|
            reaches(first, between, (steps - 1) as nat) && between.wf() && between.expects(event)
                && #[trigger] between.becomes(event, then);
        lemma_uploads_keep_their_course(first, between, (steps - 1) as nat);
    }
}

/// From its start until the promotion an upload asks for nothing that names the destination: the old
/// file stays as it is.
pub proof fn destination_is_left_alone_before_promotion(
    first: Upload,
    upload: Upload,
    steps: nat,
)
    requires
        goes_beside(first),
        reaches(first, upload, steps),
        upload.wf(),
        !(upload.phase is Promote),
    ensures
        match upload.asks() {
            RequestView::MakeDirectory(path) | RequestView::Size(path) | RequestView::Remove(path)
            | RequestView::Store(path) => path != first.destination@,
            RequestView::Rename { .. } => false,
            _ => true,
        },
{
    lemma_uploads_keep_their_course(first, upload, steps);
    if let UploadPhase::Directory(i) = upload.phase {
        assert(texts(upload.directories@)[i as int] == upload.directories@[i as int]@);
        lemma_ancestry_is_above(upload.destination@, i as int);
    }
}

/// After a failure the incomplete file is removed, unless a later attempt is to continue it.
pub proof fn failed_uploads_leave_no_stage(upload: Upload, event: UploadEvent, then: Upload)
    requires
        upload.wf(),
        upload.expects(event),
        upload.becomes(event, then),
        upload.phase is Close || upload.phase == UploadPhase::Store,
        !upload.preserve,
        !(then.phase is Send),
        !(then.phase is Promote),
    ensures
        then.phase is Cleanup,
        then.asks() == RequestView::Remove(upload.staging.temporary@),
{
}

} // verus!
