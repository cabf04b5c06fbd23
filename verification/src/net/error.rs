//! Network errors unified across FTP and SFTP.

use vstd::prelude::*;

use crate::pieces::{contains, contains_text};
use crate::text::{ascii_lowercase, chars_of, plus, to_ascii_lower};

verus! {

/// A new, as-yet-untrusted SSH host key presented by an SFTP server.
///
/// The networking layer never persists this value automatically. The user interface must show both
/// fields, have the user verify the fingerprint through an independent channel, and record trust
/// only after an explicit confirmation.
#[derive(Debug, PartialEq, Eq)]
pub struct HostKeyChallenge {
    pub endpoint_text: String,
    pub fingerprint_text: String,
}

impl Clone for HostKeyChallenge {
    fn clone(&self) -> (r: Self)
        ensures
            r == *self,
    {
        HostKeyChallenge {
            endpoint_text: self.endpoint_text.clone(),
            fingerprint_text: self.fingerprint_text.clone(),
        }
    }
}

impl HostKeyChallenge {
    pub fn new(endpoint: String, fingerprint: String) -> (r: Self)
        ensures
            r.endpoint_text == endpoint,
            r.fingerprint_text == fingerprint,
    {
        HostKeyChallenge { endpoint_text: endpoint, fingerprint_text: fingerprint }
    }

    /// Host and port this key was presented for, e.g. `sftp.example.com:22`.
    pub fn endpoint(&self) -> (r: &str)
        ensures
            r@ == self.endpoint_text@,
    {
        self.endpoint_text.as_str()
    }

    /// SHA-256 SSH host-key fingerprint to show and verify.
    pub fn fingerprint(&self) -> (r: &str)
        ensures
            r@ == self.fingerprint_text@,
    {
        self.fingerprint_text.as_str()
    }

    pub open spec fn text(&self) -> Seq<char> {
        "SFTP host key for "@ + self.endpoint_text@ + " is not trusted yet. Verify fingerprint "@
            + self.fingerprint_text@
            + " through an independent channel, then explicitly approve it."@
    }

    pub fn message(&self) -> (r: String)
        ensures
            r@ == self.text(),
    {
        let a: String = plus("SFTP host key for ".to_owned(), self.endpoint());
        let b: String = plus(a, " is not trusted yet. Verify fingerprint ");
        plus(
            plus(b, self.fingerprint()),
            " through an independent channel, then explicitly approve it.",
        )
    }
}

/// An FTPS leaf certificate that is not covered by normal platform trust, or that differs from an
/// endpoint pin. The password has not been sent when this challenge is created.
#[derive(Debug, PartialEq, Eq)]
pub struct TlsCertificateChallenge {
    pub endpoint_text: String,
    pub fingerprint_text: String,
    pub previous: Option<String>,
}

impl Clone for TlsCertificateChallenge {
    fn clone(&self) -> (r: Self)
        ensures
            r == *self,
    {
        TlsCertificateChallenge {
            endpoint_text: self.endpoint_text.clone(),
            fingerprint_text: self.fingerprint_text.clone(),
            previous: crate::model::connection::clone_text(&self.previous),
        }
    }
}

impl TlsCertificateChallenge {
    pub fn new(
        endpoint: String,
        fingerprint: String,
        previous_fingerprint: Option<String>,
    ) -> (r: Self)
        ensures
            r.endpoint_text == endpoint,
            r.fingerprint_text == fingerprint,
            r.previous == previous_fingerprint,
    {
        TlsCertificateChallenge {
            endpoint_text: endpoint,
            fingerprint_text: fingerprint,
            previous: previous_fingerprint,
        }
    }

    pub fn endpoint(&self) -> (r: &str)
        ensures
            r@ == self.endpoint_text@,
    {
        self.endpoint_text.as_str()
    }

    pub fn fingerprint(&self) -> (r: &str)
        ensures
            r@ == self.fingerprint_text@,
    {
        self.fingerprint_text.as_str()
    }

    pub fn previous_fingerprint(&self) -> (r: Option<&str>)
        ensures
            r is Some <==> self.previous is Some,
            r matches Some(t) ==> t@ == self.previous->0@,
    {
        match &self.previous {
            Some(t) => Some(t.as_str()),
            None => None,
        }
    }

    pub open spec fn text(&self) -> Seq<char> {
        match self.previous {
            Some(previous) => "FTPS certificate for "@ + self.endpoint_text@ + " changed from "@
                + previous@ + " to "@ + self.fingerprint_text@
                + "; verify it independently before replacing the pin"@,
            None => "FTPS certificate for "@ + self.endpoint_text@
                + " is not trusted; verify fingerprint "@ + self.fingerprint_text@
                + " independently before trusting it"@,
        }
    }

    pub fn message(&self) -> (r: String)
        ensures
            r@ == self.text(),
    {
        let start: String = plus("FTPS certificate for ".to_owned(), self.endpoint());
        match &self.previous {
            Some(previous) => {
                let a: String = plus(plus(start, " changed from "), previous.as_str());
                plus(
                    plus(plus(a, " to "), self.fingerprint()),
                    "; verify it independently before replacing the pin",
                )
            },
            None => plus(
                plus(plus(start, " is not trusted; verify fingerprint "), self.fingerprint()),
                " independently before trusting it",
            ),
        }
    }
}

/// The class of an input/output failure, as far as any decision depends on it.
#[derive(Debug, Clone, Copy, PartialEq, Eq, Structural)]
pub enum IoKind {
    BrokenPipe,
    ConnectionAborted,
    ConnectionRefused,
    ConnectionReset,
    Interrupted,
    NotConnected,
    TimedOut,
    UnexpectedEof,
    WouldBlock,
    NotFound,
    PermissionDenied,
    AlreadyExists,
    InvalidData,
    InvalidInput,
    Other,
}

#[derive(Debug, PartialEq, Eq)]
pub struct IoFailure {
    pub kind: IoKind,
    pub detail: String,
}

impl IoFailure {
    pub fn new(kind: IoKind, detail: &str) -> (r: Self)
        ensures
            r.kind == kind,
            r.detail@ == detail@,
    {
        IoFailure { kind, detail: detail.to_owned() }
    }
}

#[derive(Debug, PartialEq, Eq)]
pub enum NetError {
    Ftp(String),
    Ssh(String),
    HostKey(String),
    HostKeyTrustRequired(HostKeyChallenge),
    TlsCertificateTrustRequired(TlsCertificateChallenge),
    AuthFailed(String),
    Io(IoFailure),
    Join(String),
    MissingCredential,
    InvalidPath(String),
    Cancelled,
    UploadSourceChanged,
}

/// Failures of the transport that may pass by themselves.
pub open spec fn passing_failure(kind: IoKind) -> bool {
    ||| kind == IoKind::BrokenPipe
    ||| kind == IoKind::ConnectionAborted
    ||| kind == IoKind::ConnectionRefused
    ||| kind == IoKind::ConnectionReset
    ||| kind == IoKind::Interrupted
    ||| kind == IoKind::NotConnected
    ||| kind == IoKind::TimedOut
    ||| kind == IoKind::UnexpectedEof
    ||| kind == IoKind::WouldBlock
}

/// What the text of a permanent failure contains.
pub open spec fn permanent_markers() -> Seq<&'static str> {
    seq![
        "authentication",
        "permission denied",
        "access denied",
        "not permitted",
        "no such file",
        "not found",
        "invalid path",
        "host key",
        "certificate",
        "login incorrect",
        "bad password",
        "unsupported",
    ]
}

/// No marker of a permanent failure occurs in the text, whatever its case.
pub open spec fn transient_text(message: Seq<char>) -> bool {
    forall|i: int|
        0 <= i < permanent_markers().len() ==> !contains_text(
            ascii_lowercase(message),
            (#[trigger] permanent_markers()[i])@,
        )
}

pub fn protocol_error_may_be_transient(message: &str) -> (r: bool)
    ensures
        r == transient_text(message@),
{
    let chars: Vec<char> = chars_of(message);
    let lower: Vec<char> = to_ascii_lower(&chars);
    let markers: Vec<&'static str> = vec![
        "authentication",
        "permission denied",
        "access denied",
        "not permitted",
        "no such file",
        "not found",
        "invalid path",
        "host key",
        "certificate",
        "login incorrect",
        "bad password",
        "unsupported",
    ];
    assert(markers@ =~= permanent_markers());
    let mut i: usize = 0;
    while i < markers.len()
        invariant
            i <= markers@.len(),
            markers@ == permanent_markers(),
            lower@ == ascii_lowercase(message@),
            forall|j: int|
                0 <= j < i ==> !contains_text(lower@, (#[trigger] permanent_markers()[j])@),
        decreases markers@.len() - i,
    {
        let marker: Vec<char> = chars_of(markers[i]);
        if contains(&lower, &marker) {
            assert(contains_text(lower@, permanent_markers()[i as int]@));
            return false;
        }
        i += 1;
    }
    true
}

impl NetError {
    /// Whether repeating the same operation may succeed without changing credentials, trust, or
    /// the requested paths.
    pub open spec fn may_pass(&self) -> bool {
        match self {
            NetError::Io(failure) => passing_failure(failure.kind),
            NetError::Ftp(message) => transient_text(message@),
            NetError::Ssh(message) => transient_text(message@),
            NetError::Join(_) => true,
            _ => false,
        }
    }

    /// Errs on the side of not retrying: automatic retries must never turn a bad password or a
    /// permission problem into a login storm.
    pub fn is_retryable(&self) -> (r: bool)
        ensures
            r == self.may_pass(),
    {
        match self {
            NetError::Io(failure) => matches!(
                failure.kind,
                IoKind::BrokenPipe | IoKind::ConnectionAborted | IoKind::ConnectionRefused
                    | IoKind::ConnectionReset | IoKind::Interrupted | IoKind::NotConnected
                    | IoKind::TimedOut | IoKind::UnexpectedEof | IoKind::WouldBlock
            ),
            NetError::Ftp(message) => protocol_error_may_be_transient(message.as_str()),
            NetError::Ssh(message) => protocol_error_may_be_transient(message.as_str()),
            NetError::Join(_) => true,
            NetError::HostKey(_) => false,
            NetError::HostKeyTrustRequired(_) => false,
            NetError::TlsCertificateTrustRequired(_) => false,
            NetError::AuthFailed(_) => false,
            NetError::MissingCredential => false,
            NetError::InvalidPath(_) => false,
            NetError::Cancelled => false,
            NetError::UploadSourceChanged => false,
        }
    }

    pub open spec fn text(&self) -> Seq<char> {
        match self {
            NetError::Ftp(m) => "FTP error: "@ + m@,
            NetError::Ssh(m) => "SFTP/SSH error: "@ + m@,
            NetError::HostKey(m) => "host key verification failed: "@ + m@,
            NetError::HostKeyTrustRequired(c) => c.text(),
            NetError::TlsCertificateTrustRequired(c) => c.text(),
            NetError::AuthFailed(m) => "authentication failed for "@ + m@,
            NetError::Io(failure) => "io error: "@ + failure.detail@,
            NetError::Join(m) => "background task failed: "@ + m@,
            NetError::MissingCredential => "missing credential"@,
            NetError::InvalidPath(m) => "unsafe path: "@ + m@,
            NetError::Cancelled => "transfer cancelled"@,
            NetError::UploadSourceChanged =>
                "local upload source changed after it was queued; add it to the queue again"@,
        }
    }

    /// The text shown to the user.
    pub fn message(&self) -> (r: String)
        ensures
            r@ == self.text(),
    {
        match self {
            NetError::Ftp(m) => plus("FTP error: ".to_owned(), m.as_str()),
            NetError::Ssh(m) => plus("SFTP/SSH error: ".to_owned(), m.as_str()),
            NetError::HostKey(m) => plus("host key verification failed: ".to_owned(), m.as_str()),
            NetError::HostKeyTrustRequired(c) => c.message(),
            NetError::TlsCertificateTrustRequired(c) => c.message(),
            NetError::AuthFailed(m) => plus("authentication failed for ".to_owned(), m.as_str()),
            NetError::Io(failure) => plus("io error: ".to_owned(), failure.detail.as_str()),
            NetError::Join(m) => plus("background task failed: ".to_owned(), m.as_str()),
            NetError::MissingCredential => "missing credential".to_owned(),
            NetError::InvalidPath(m) => plus("unsafe path: ".to_owned(), m.as_str()),
            NetError::Cancelled => "transfer cancelled".to_owned(),
            NetError::UploadSourceChanged =>
                "local upload source changed after it was queued; add it to the queue again".to_owned(),
        }
    }
}

/// Nothing that concerns trust, credentials or the request itself is ever retried.
pub proof fn permanent_errors_are_not_retried(e: NetError)
    requires
        e is HostKey || e is HostKeyTrustRequired || e is TlsCertificateTrustRequired
            || e is AuthFailed || e is MissingCredential || e is InvalidPath || e is Cancelled
            || e is UploadSourceChanged,
    ensures
        !e.may_pass(),
{
}

} // verus!
