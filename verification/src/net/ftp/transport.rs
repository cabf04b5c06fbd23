//! Which transport an FTP connection uses, in which order its session is set up, and what a failure
//! on the way means.
//!
//! Plain FTP is a separate, deliberate transport of one saved connection. No failure of an encrypted
//! connection ever leads to it, and no password is sent before an encrypted session is up.

use vstd::prelude::*;

use crate::model::connection::{FtpDataMode, FtpFilenameEncoding, FtpTlsMode};
use crate::model::ConnectionSpec;
use crate::net::error::{IoFailure, NetError, TlsCertificateChallenge};
use crate::net::ftp::pin::{canonical_pin, normalize_certificate_pin};
use crate::net::partial::{private_mode, FileFacts};
use crate::numerals::{decimal, to_decimal};
use crate::pieces::{contains, contains_text};
use crate::text::{
    any_control, byte_len, chars_of, has_control, plus, same_text, string_of, text_of, utf8_len,
};

verus! {

/// A failed FTP operation: the reply code, where the server answered with an unexpected one, and
/// the text of the failure.
#[derive(Debug, PartialEq, Eq)]
pub struct FtpFailure {
    pub code: Option<u32>,
    pub text: String,
}

impl Clone for FtpFailure {
    fn clone(&self) -> (r: Self)
        ensures
            r == *self,
    {
        FtpFailure { code: self.code, text: self.text.clone() }
    }
}

impl FtpFailure {
    /// The server answered with this code.
    pub open spec fn answered(&self, code: u32) -> bool {
        self.code == Some(code)
    }

    /// The server refused the command for good.
    pub open spec fn refused(&self) -> bool {
        self.code matches Some(c) && c >= 500
    }

    pub fn is_refusal(&self) -> (r: bool)
        ensures
            r == self.refused(),
    {
        match self.code {
            Some(c) => c >= 500,
            None => false,
        }
    }

    pub fn has_code(&self, code: u32) -> (r: bool)
        ensures
            r == self.answered(code),
    {
        match self.code {
            Some(c) => c == code,
            None => false,
        }
    }

    /// The failure as an error of the client.
    pub fn into_error(self) -> (r: NetError)
        ensures
            r == NetError::Ftp(self.text),
    {
        NetError::Ftp(self.text)
    }
}

/// `e` is an FTP error with the given text.
pub open spec fn ftp_error(e: NetError, text: Seq<char>) -> bool {
    e matches NetError::Ftp(m) && m@ == text
}

fn refuse(text: &str) -> (r: NetError)
    ensures
        ftp_error(r, text@),
{
    NetError::Ftp(text.to_owned())
}

/// Whether this one saved connection explicitly uses plaintext-only FTP. Selecting it for one server
/// never authorizes a downgrade for another.
pub fn allow_plaintext_ftp(spec: &ConnectionSpec) -> (r: bool)
    ensures
        r == spec.allow_plaintext_ftp,
{
    spec.allow_plaintext_ftp
}

/// Certificate verification is off for this connection, or the test override is set to `1`.
pub open spec fn skips_verification(spec: ConnectionSpec, override_value: Option<Seq<char>>) -> bool {
    spec.accept_invalid_tls || override_value == Some("1"@)
}

/// Whether certificate verification is disabled. Strict verification is the default; the override is
/// a deliberately conspicuous switch for tests that is never saved.
pub fn accept_invalid_tls(spec: &ConnectionSpec, override_value: Option<&str>) -> (r: bool)
    ensures
        r == skips_verification(
            *spec,
            match override_value {
                Some(t) => Some(t@),
                None => None,
            },
        ),
{
    spec.accept_invalid_tls || match override_value {
        Some(t) => same_text(t, "1"),
        None => false,
    }
}

/// The certificate and key paths of a client identity. One without the other is an error.
pub open spec fn identity_paths(spec: ConnectionSpec) -> Result<
    Option<(Seq<char>, Seq<char>)>,
    Seq<char>,
> {
    match (spec.tls_client_cert, spec.tls_client_key) {
        (None, None) => Ok(None),
        (Some(certificate), Some(key)) => Ok(Some((certificate@, key@))),
        _ => Err("FTPS client certificate and private key must be configured together"@),
    }
}

/// The paths behind an optional identity.
pub open spec fn identity_view(identity: Option<(String, String)>) -> Option<
    (Seq<char>, Seq<char>),
> {
    match identity {
        Some(pair) => Some((pair.0@, pair.1@)),
        None => None,
    }
}

pub fn client_identity_paths(spec: &ConnectionSpec) -> (r: Result<
    Option<(String, String)>,
    NetError,
>)
    ensures
        r matches Ok(identity) ==> identity_paths(*spec) == Ok::<_, Seq<char>>(
            identity_view(identity),
        ),
        r matches Err(e) ==> (identity_paths(*spec) matches Err(text) && ftp_error(e, text)),
{
    match (&spec.tls_client_cert, &spec.tls_client_key) {
        (None, None) => Ok(None),
        (Some(certificate), Some(key)) => Ok(Some((certificate.clone(), key.clone()))),
        _ => Err(
            refuse("FTPS client certificate and private key must be configured together"),
        ),
    }
}

/// The transport of a connection.
#[derive(Debug, PartialEq, Eq)]
pub enum Transport {
    /// Unencrypted FTP, chosen for this connection.
    Plaintext,
    /// FTPS with exactly this leaf certificate.
    Pinned { pin: String, identity: Option<(String, String)> },
    /// FTPS with the platform's certificate verification, or with none.
    Platform { insecure: bool, identity: Option<(String, String)> },
}

pub ghost enum TransportView {
    Plaintext,
    Pinned { pin: Seq<char>, identity: Option<(Seq<char>, Seq<char>)> },
    Platform { insecure: bool, identity: Option<(Seq<char>, Seq<char>)> },
}

impl View for Transport {
    type V = TransportView;

    open spec fn view(&self) -> TransportView {
        match *self {
            Transport::Plaintext => TransportView::Plaintext,
            Transport::Pinned { pin, identity } => TransportView::Pinned {
                pin: pin@,
                identity: identity_view(identity),
            },
            Transport::Platform { insecure, identity } => TransportView::Platform {
                insecure,
                identity: identity_view(identity),
            },
        }
    }
}

/// Why plain FTP cannot be used as the connection is set up.
pub open spec fn plaintext_conflict(spec: ConnectionSpec) -> Option<Seq<char>> {
    if spec.ftp_tls_mode == FtpTlsMode::Implicit {
        Some("plaintext FTP cannot be combined with implicit TLS mode"@)
    } else {
        match identity_paths(spec) {
            Err(text) => Some(text),
            Ok(Some(_)) => Some("an FTPS client certificate cannot be used with plaintext FTP"@),
            Ok(None) => if spec.tls_pinned_sha256 is Some || spec.accept_invalid_tls {
                Some("FTPS certificate trust settings cannot be used with plaintext FTP"@)
            } else {
                None
            },
        }
    }
}

/// The transport that a connection's settings select.
pub open spec fn transport_of(spec: ConnectionSpec, override_value: Option<Seq<char>>) -> Result<
    TransportView,
    Seq<char>,
> {
    if spec.allow_plaintext_ftp {
        match plaintext_conflict(spec) {
            Some(text) => Err(text),
            None => Ok(TransportView::Plaintext),
        }
    } else if spec.tls_pinned_sha256 matches Some(raw) && canonical_pin(raw@) is None {
        Err("saved FTPS certificate pin is malformed; review this connection"@)
    } else {
        match identity_paths(spec) {
            Err(text) => Err(text),
            Ok(identity) => match spec.tls_pinned_sha256 {
                Some(raw) => Ok(TransportView::Pinned { pin: canonical_pin(raw@)->0, identity }),
                None => Ok(
                    TransportView::Platform {
                        insecure: skips_verification(spec, override_value),
                        identity,
                    },
                ),
            },
        }
    }
}

/// Choose the transport, before any byte is sent.
pub fn choose_transport(spec: &ConnectionSpec, override_value: Option<&str>) -> (r: Result<
    Transport,
    NetError,
>)
    ensures
        ({
            let chosen = transport_of(
                *spec,
                match override_value {
                    Some(t) => Some(t@),
                    None => None,
                },
            );
            &&& r matches Ok(transport) ==> chosen == Ok::<_, Seq<char>>(transport@)
            &&& r matches Err(e) ==> (chosen matches Err(text) && ftp_error(e, text))
        }),
{
    if spec.allow_plaintext_ftp {
        if spec.ftp_tls_mode == FtpTlsMode::Implicit {
            return Err(refuse("plaintext FTP cannot be combined with implicit TLS mode"));
        }
        match client_identity_paths(spec) {
            Err(e) => {
                return Err(e);
            },
            Ok(Some(_)) => {
                return Err(
                    refuse("an FTPS client certificate cannot be used with plaintext FTP"),
                );
            },
            Ok(None) => {},
        }
        if spec.tls_pinned_sha256.is_some() || spec.accept_invalid_tls {
            return Err(
                refuse("FTPS certificate trust settings cannot be used with plaintext FTP"),
            );
        }
        return Ok(Transport::Plaintext);
    }
    let pin: Option<String> = match &spec.tls_pinned_sha256 {
        None => None,
        Some(raw) => match normalize_certificate_pin(raw.as_str()) {
            None => {
                return Err(
                    refuse("saved FTPS certificate pin is malformed; review this connection"),
                );
            },
            Some(pin) => Some(pin),
        },
    };
    let identity: Option<(String, String)> = match client_identity_paths(spec) {
        Err(e) => {
            return Err(e);
        },
        Ok(identity) => identity,
    };
    match pin {
        Some(pin) => Ok(Transport::Pinned { pin, identity }),
        None => Ok(
            Transport::Platform { insecure: accept_invalid_tls(spec, override_value), identity },
        ),
    }
}

/// One step of setting up a session, in the order in which they happen.
#[derive(Debug, Clone, Copy, PartialEq, Eq, Structural)]
pub enum SetupStep {
    /// Open the control connection.
    Connect,
    /// Secure it with `AUTH TLS`.
    SecureExplicit,
    /// Open the control connection inside TLS from the first byte.
    SecureImplicit,
    /// `PBSZ 0` and `PROT P`: every data connection is encrypted too.
    PrivateData,
    /// Decide how data connections are made.
    DataConnection,
    /// Send the user name and the password.
    Login,
    /// `OPTS UTF8 ON`.
    Utf8Names,
    /// `TYPE I`.
    Binary,
}

/// How the control connection becomes ready for a login.
pub open spec fn opening_steps(encrypted: bool, mode: FtpTlsMode) -> Seq<SetupStep> {
    if !encrypted {
        seq![SetupStep::Connect]
    } else if mode == FtpTlsMode::Explicit {
        seq![SetupStep::Connect, SetupStep::SecureExplicit]
    } else {
        seq![SetupStep::SecureImplicit, SetupStep::PrivateData]
    }
}

/// Everything that sets up a session.
pub open spec fn setup_steps(spec: ConnectionSpec, transport: TransportView) -> Seq<SetupStep> {
    opening_steps(!(transport is Plaintext), spec.ftp_tls_mode) + seq![
        SetupStep::DataConnection,
        SetupStep::Login,
    ] + (if spec.ftp_filename_encoding == FtpFilenameEncoding::Utf8 {
        seq![SetupStep::Utf8Names, SetupStep::Binary]
    } else {
        seq![SetupStep::Binary]
    })
}

pub fn plan_session(spec: &ConnectionSpec, transport: &Transport) -> (r: Vec<SetupStep>)
    ensures
        r@ == setup_steps(*spec, transport@),
{
    let encrypted: bool = match transport {
        Transport::Plaintext => false,
        _ => true,
    };
    let mut steps: Vec<SetupStep> = Vec::new();
    if !encrypted {
        steps.push(SetupStep::Connect);
    } else if spec.ftp_tls_mode == FtpTlsMode::Explicit {
        steps.push(SetupStep::Connect);
        steps.push(SetupStep::SecureExplicit);
    } else {
        steps.push(SetupStep::SecureImplicit);
        steps.push(SetupStep::PrivateData);
    }
    assert(steps@ =~= opening_steps(!(transport@ is Plaintext), spec.ftp_tls_mode));
    steps.push(SetupStep::DataConnection);
    steps.push(SetupStep::Login);
    if spec.ftp_filename_encoding == FtpFilenameEncoding::Utf8 {
        steps.push(SetupStep::Utf8Names);
    }
    steps.push(SetupStep::Binary);
    assert(steps@ =~= setup_steps(*spec, transport@));
    steps
}

/// Plain FTP is used only where the connection itself asks for it and carries no setting of an
/// encrypted one; the override cannot bring it about.
pub proof fn plaintext_is_opt_in(spec: ConnectionSpec, override_value: Option<Seq<char>>)
    ensures
        transport_of(spec, override_value) == Ok::<_, Seq<char>>(TransportView::Plaintext) <==> (
        spec.allow_plaintext_ftp && spec.ftp_tls_mode == FtpTlsMode::Explicit
            && spec.tls_client_cert is None && spec.tls_client_key is None
            && spec.tls_pinned_sha256 is None && !spec.accept_invalid_tls),
{
}

/// A saved pin is never bypassed: such a connection accepts that one certificate, or nothing.
pub proof fn pins_are_enforced(
    spec: ConnectionSpec,
    override_value: Option<Seq<char>>,
    transport: TransportView,
)
    requires
        spec.tls_pinned_sha256 is Some,
        transport_of(spec, override_value) == Ok::<_, Seq<char>>(transport),
    ensures
        transport matches TransportView::Pinned { pin, .. } && canonical_pin(
            spec.tls_pinned_sha256->0@,
        ) == Some(pin),
{
}

/// On an encrypted transport the credentials follow the step that encrypts the control connection,
/// and with implicit TLS also the demand for private data connections. They are sent exactly once.
pub proof fn credentials_follow_encryption(spec: ConnectionSpec, transport: TransportView, at: int)
    requires
        !(transport is Plaintext),
        0 <= at < setup_steps(spec, transport).len(),
        setup_steps(spec, transport)[at] == SetupStep::Login,
    ensures
        at == 3,
        spec.ftp_tls_mode == FtpTlsMode::Explicit ==> setup_steps(spec, transport)[1]
            == SetupStep::SecureExplicit,
        spec.ftp_tls_mode == FtpTlsMode::Implicit ==> setup_steps(spec, transport)[0]
            == SetupStep::SecureImplicit && setup_steps(spec, transport)[1]
            == SetupStep::PrivateData,
{
}

/// `host:port` of the control connection.
pub open spec fn endpoint_of(spec: ConnectionSpec) -> Seq<char> {
    spec.host@ + ":"@ + decimal(spec.spec_effective_port() as nat)
}

pub fn endpoint_text(spec: &ConnectionSpec) -> (r: String)
    ensures
        r@ == endpoint_of(*spec),
{
    let number: String = string_of(&to_decimal(spec.effective_port() as u64));
    plus(plus(spec.host.clone(), ":"), number.as_str())
}

/// What a refused encrypted session is reported as.
pub open spec fn refused_session_text(mode: FtpTlsMode, code: u32) -> Seq<char> {
    match mode {
        FtpTlsMode::Explicit => "server refused explicit FTPS (AUTH TLS, reply "@ + decimal(
            code as nat,
        )
            + "). Plaintext FTP is disabled; explicitly confirm the legacy-server warning before retrying"@,
        FtpTlsMode::Implicit => "implicit FTPS server rejected the encrypted session (reply "@
            + decimal(code as nat) + ")"@,
    }
}

/// What to do about a failed handshake under the platform's verification.
#[derive(Debug, PartialEq, Eq)]
pub enum HandshakeFailure {
    /// Report this error.
    Report(NetError),
    /// Look at the server's certificate, without credentials, and then decide.
    Discover,
}

/// The encrypted session could not be established. An answer from the server is reported as such;
/// any other failure under strict verification calls for a look at the certificate.
pub fn after_platform_failure(spec: &ConnectionSpec, insecure: bool, failure: &FtpFailure) -> (r:
    HandshakeFailure)
    ensures
        failure.code matches Some(code) ==> (r matches HandshakeFailure::Report(e) && ftp_error(
            e,
            refused_session_text(spec.ftp_tls_mode, code),
        )),
        failure.code is None ==> r == (if insecure {
            HandshakeFailure::Report(NetError::Ftp(failure.text))
        } else {
            HandshakeFailure::Discover
        }),
{
    match failure.code {
        Some(code) => {
            let number: String = string_of(&to_decimal(code as u64));
            let text: String = match spec.ftp_tls_mode {
                FtpTlsMode::Explicit => plus(
                    plus(
                        "server refused explicit FTPS (AUTH TLS, reply ".to_owned(),
                        number.as_str(),
                    ),
                    "). Plaintext FTP is disabled; explicitly confirm the legacy-server warning before retrying",
                ),
                FtpTlsMode::Implicit => plus(
                    plus(
                        "implicit FTPS server rejected the encrypted session (reply ".to_owned(),
                        number.as_str(),
                    ),
                    ")",
                ),
            };
            HandshakeFailure::Report(NetError::Ftp(text))
        },
        None => if insecure {
            HandshakeFailure::Report(failure.clone().into_error())
        } else {
            HandshakeFailure::Discover
        },
    }
}

/// The challenge for a certificate seen at the endpoint.
pub open spec fn is_challenge(
    e: NetError,
    spec: ConnectionSpec,
    seen: Seq<char>,
    previous: Option<Seq<char>>,
) -> bool {
    e matches NetError::TlsCertificateTrustRequired(challenge) && challenge.endpoint_text@
        == endpoint_of(spec) && challenge.fingerprint_text@ == seen && text_of(challenge.previous)
        == previous
}

/// The look at the certificate has ended: ask the user about what was seen, or report the failed
/// handshake.
pub fn after_discovery(spec: &ConnectionSpec, seen: Option<String>, failure: FtpFailure) -> (r:
    NetError)
    ensures
        seen matches Some(fingerprint) ==> is_challenge(r, *spec, fingerprint@, None),
        seen is None ==> r == NetError::Ftp(failure.text),
{
    match seen {
        Some(fingerprint) => NetError::TlsCertificateTrustRequired(
            TlsCertificateChallenge::new(endpoint_text(spec), fingerprint, None),
        ),
        None => failure.into_error(),
    }
}

/// The handshake with a pinned certificate failed: a different certificate is a challenge that names
/// both, anything else is the failure itself.
pub fn after_pinned_failure(
    spec: &ConnectionSpec,
    expected: String,
    seen: Option<String>,
    failure: FtpFailure,
) -> (r: NetError)
    ensures
        ({
            if seen is Some && seen->0@ != expected@ {
                is_challenge(r, *spec, seen->0@, Some(expected@))
            } else {
                r == NetError::Ftp(failure.text)
            }
        }),
{
    match seen {
        Some(actual) => if same_text(actual.as_str(), expected.as_str()) {
            failure.into_error()
        } else {
            NetError::TlsCertificateTrustRequired(
                TlsCertificateChallenge::new(endpoint_text(spec), actual, Some(expected)),
            )
        },
        None => failure.into_error(),
    }
}

/// The fingerprint that a handshake without credentials brought to light.
pub fn discovered_certificate(seen: Option<String>, failure: Option<FtpFailure>) -> (r: Result<
    String,
    NetError,
>)
    ensures
        seen matches Some(fingerprint) ==> (r matches Ok(f) && f == fingerprint),
        seen is None ==> (r matches Err(e) && (match failure {
            Some(failure) => e == NetError::Ftp(failure.text),
            None => ftp_error(e, "FTPS server did not present a leaf certificate"@),
        })),
{
    match seen {
        Some(fingerprint) => Ok(fingerprint),
        None => match failure {
            Some(failure) => Err(failure.into_error()),
            None => Err(refuse("FTPS server did not present a leaf certificate")),
        },
    }
}

/// The outcome of a login: reply 530 is a failed authentication.
pub fn map_login(outcome: Result<(), FtpFailure>) -> (r: Result<(), NetError>)
    ensures
        outcome is Ok <==> r is Ok,
        outcome matches Err(failure) ==> (r matches Err(e) && (if failure.answered(530) {
            e matches NetError::AuthFailed(m) && m@ == "530 Login incorrect"@
        } else {
            e == NetError::Ftp(failure.text)
        })),
{
    match outcome {
        Ok(()) => Ok(()),
        Err(failure) => if failure.has_code(530) {
            Err(NetError::AuthFailed("530 Login incorrect".to_owned()))
        } else {
            Err(failure.into_error())
        },
    }
}

/// Seconds for a connection attempt where the connection does not set them.
pub const CONNECT_TIMEOUT_SECS: u64 = 15;

pub fn connection_timeout(spec: &ConnectionSpec) -> (r: u64)
    ensures
        r == (match spec.timeout_secs {
            Some(secs) => secs,
            None => CONNECT_TIMEOUT_SECS,
        }),
{
    match spec.timeout_secs {
        Some(secs) => secs,
        None => CONNECT_TIMEOUT_SECS,
    }
}

/// An internet address.
#[derive(Debug, Clone, Copy, PartialEq, Eq, Structural)]
pub enum PeerAddress {
    V4(u32),
    V6(u128),
}

/// An internet address and a port.
#[derive(Debug, Clone, Copy, PartialEq, Eq, Structural)]
pub struct PeerSocket {
    pub address: PeerAddress,
    pub port: u16,
}

/// Where a passive data connection goes. The server advertises an address of its own choosing, which
/// is never used: only the port is, at the address of the control connection.
pub fn safe_passive_target(control: PeerAddress, advertised: PeerSocket) -> (r: PeerSocket)
    ensures
        r.address == control,
        r.port == advertised.port,
{
    PeerSocket { address: control, port: advertised.port }
}

/// How data connections are made.
#[derive(Debug, Clone, Copy, PartialEq, Eq, Structural)]
pub enum DataConnection {
    /// The server connects back.
    Active,
    /// Through the same proxy, to the configured host and the advertised port.
    Proxied,
    /// To the control peer; with IPv6 the port alone is asked for.
    Passive { peer: PeerAddress, extended: bool },
}

/// Decide how data connections are made, given the peer of the control connection.
pub fn configure_data_connection(spec: &ConnectionSpec, peer: PeerAddress) -> (r: Result<
    DataConnection,
    NetError,
>)
    ensures
        r is Err <==> spec.ftp_data_mode == FtpDataMode::Active && spec.proxy_url is Some,
        r matches Err(e) ==> ftp_error(
            e,
            "active FTP mode cannot be used through an HTTP/SOCKS proxy"@,
        ),
        r matches Ok(data) ==> data == (if spec.ftp_data_mode == FtpDataMode::Active {
            DataConnection::Active
        } else if spec.proxy_url is Some {
            DataConnection::Proxied
        } else {
            DataConnection::Passive { peer, extended: peer is V6 }
        }),
{
    if spec.ftp_data_mode == FtpDataMode::Active {
        if spec.proxy_url.is_some() {
            return Err(refuse("active FTP mode cannot be used through an HTTP/SOCKS proxy"));
        }
        return Ok(DataConnection::Active);
    }
    if spec.proxy_url.is_some() {
        return Ok(DataConnection::Proxied);
    }
    let extended: bool = match peer {
        PeerAddress::V4(_) => false,
        PeerAddress::V6(_) => true,
    };
    Ok(DataConnection::Passive { peer, extended })
}

/// Every address of a host was tried and failed, in the given order.
pub fn no_address_answered(failures: Vec<IoFailure>, host: &str, port: u16) -> (r: NetError)
    ensures
        failures@.len() > 0 ==> r == NetError::Io(failures@.last()),
        failures@.len() == 0 ==> ftp_error(
            r,
            "no addresses found for "@ + host@ + ":"@ + decimal(port as nat),
        ),
{
    let mut all: Vec<IoFailure> = failures;
    match all.pop() {
        Some(last) => NetError::Io(last),
        None => {
            let number: String = string_of(&to_decimal(port as u64));
            NetError::Ftp(
                plus(
                    plus(plus("no addresses found for ".to_owned(), host), ":"),
                    number.as_str(),
                ),
            )
        },
    }
}

/// How often a connection is attempted while the server is at its session limit.
pub const CONNECT_ATTEMPTS: u32 = 5;

/// Milliseconds to wait after each failed attempt but the last.
pub open spec fn backoff_of(attempt: u32) -> u64 {
    if attempt == 0 {
        300
    } else if attempt == 1 {
        800
    } else if attempt == 2 {
        2000
    } else {
        5000
    }
}

/// The server turned the connection away because the user has too many sessions.
pub open spec fn session_limit(e: NetError) -> bool {
    e matches NetError::Ftp(m) && contains_text(m@, "421"@)
}

/// How many milliseconds to wait before the next attempt, after `attempt` (counted from zero) failed;
/// `None` to report the failure. Only a session limit is waited out.
pub fn retry_delay(error: &NetError, attempt: u32) -> (r: Option<u64>)
    ensures
        r == (if session_limit(*error) && attempt + 1 < CONNECT_ATTEMPTS {
            Some(backoff_of(attempt))
        } else {
            None
        }),
{
    let limited: bool = match error {
        NetError::Ftp(m) => {
            let text: Vec<char> = chars_of(m.as_str());
            let code: Vec<char> = chars_of("421");
            contains(&text, &code)
        },
        _ => false,
    };
    if !limited || attempt >= CONNECT_ATTEMPTS - 1 {
        return None;
    }
    if attempt == 0 {
        Some(300)
    } else if attempt == 1 {
        Some(800)
    } else if attempt == 2 {
        Some(2000)
    } else {
        Some(5000)
    }
}

/// How many attempts are made of a series that fails with the given errors, one for each attempt.
pub open spec fn attempts_made(errors: Seq<NetError>, attempt: nat) -> nat
    decreases errors.len() - attempt,
{
    if attempt < errors.len() && session_limit(errors[attempt as int]) && attempt + 1
        < CONNECT_ATTEMPTS {
        attempts_made(errors, attempt + 1)
    } else {
        attempt + 1
    }
}

/// There are never more than five attempts, and an error other than a session limit ends them at
/// once: a wrong password is tried a single time.
pub proof fn retries_are_bounded(errors: Seq<NetError>, attempt: nat)
    requires
        attempt < CONNECT_ATTEMPTS,
    ensures
        attempts_made(errors, attempt) <= CONNECT_ATTEMPTS,
        attempt < errors.len() && !session_limit(errors[attempt as int]) ==> attempts_made(
            errors,
            attempt,
        ) == attempt + 1,
    decreases errors.len() - attempt,
{
    if attempt < errors.len() && session_limit(errors[attempt as int]) && attempt + 1
        < CONNECT_ATTEMPTS {
        retries_are_bounded(errors, attempt + 1);
    }
}

/// Size limit of a certificate or key file.
pub const MAX_TLS_IDENTITY_FILE_BYTES: u64 = 1_048_576;

/// Why a path cannot name a certificate or key file.
pub open spec fn identity_path_refusal(path: Seq<char>) -> Option<Seq<char>> {
    if path.len() == 0 || utf8_len(path) > 4096 || has_control(path) {
        Some("FTPS client identity path is empty, too long, or unsafe"@)
    } else if path[0] != '/' {
        Some("FTPS client identity paths must be absolute"@)
    } else {
        None
    }
}

pub fn check_identity_path(path: &str) -> (r: Result<(), NetError>)
    ensures
        r is Ok <==> identity_path_refusal(path@) is None,
        r matches Err(e) ==> ftp_error(e, identity_path_refusal(path@)->0),
{
    let chars: Vec<char> = chars_of(path);
    if chars.len() == 0 || byte_len(path) > 4096 || any_control(&chars) {
        return Err(refuse("FTPS client identity path is empty, too long, or unsafe"));
    }
    if chars[0] != '/' {
        return Err(refuse("FTPS client identity paths must be absolute"));
    }
    Ok(())
}

/// Why a file may not be opened as a certificate or key file. A private key must belong to the user
/// of this process, and nobody else may have any right to it.
pub open spec fn identity_file_refusal(before: FileFacts, private_key: bool, user: u32) -> Option<
    Seq<char>,
> {
    if !before.is_file || before.is_symlink || before.len == 0 || before.len
        > MAX_TLS_IDENTITY_FILE_BYTES {
        Some("FTPS client identity must be a non-empty regular file of at most 1 MiB"@)
    } else if private_key && before.owner != user {
        Some("FTPS client private key must be owned by the current user"@)
    } else if private_key && !private_mode(before.mode) {
        Some("FTPS client private key permissions are too broad; use mode 600"@)
    } else {
        None
    }
}

pub fn check_identity_file(before: &FileFacts, private_key: bool, user: u32) -> (r: Result<
    (),
    NetError,
>)
    ensures
        r is Ok <==> identity_file_refusal(*before, private_key, user) is None,
        r matches Err(e) ==> ftp_error(e, identity_file_refusal(*before, private_key, user)->0),
{
    if !before.is_file || before.is_symlink || before.len == 0 || before.len
        > MAX_TLS_IDENTITY_FILE_BYTES {
        return Err(
            refuse("FTPS client identity must be a non-empty regular file of at most 1 MiB"),
        );
    }
    if private_key {
        if before.owner != user {
            return Err(refuse("FTPS client private key must be owned by the current user"));
        }
        if before.mode & 0o77 != 0 {
            return Err(
                refuse("FTPS client private key permissions are too broad; use mode 600"),
            );
        }
    }
    Ok(())
}

/// Why the opened file is not the one that was looked at before.
pub open spec fn identity_open_refusal(before: FileFacts, opened: FileFacts) -> Option<Seq<char>> {
    if before.device != opened.device || before.inode != opened.inode {
        Some("FTPS client identity file changed while it was being opened"@)
    } else if !opened.is_file || opened.len == 0 || opened.len > MAX_TLS_IDENTITY_FILE_BYTES {
        Some("FTPS client identity file changed type or size"@)
    } else {
        None
    }
}

pub fn check_identity_opened(before: &FileFacts, opened: &FileFacts) -> (r: Result<(), NetError>)
    ensures
        r is Ok <==> identity_open_refusal(*before, *opened) is None,
        r matches Err(e) ==> ftp_error(e, identity_open_refusal(*before, *opened)->0),
{
    if before.device != opened.device || before.inode != opened.inode {
        return Err(refuse("FTPS client identity file changed while it was being opened"));
    }
    if !opened.is_file || opened.len == 0 || opened.len > MAX_TLS_IDENTITY_FILE_BYTES {
        return Err(refuse("FTPS client identity file changed type or size"));
    }
    Ok(())
}

/// The bytes that were read, of which at most one more than the limit were asked for.
pub fn check_identity_bytes(bytes: Vec<u8>) -> (r: Result<Vec<u8>, NetError>)
    ensures
        r is Ok <==> 0 < bytes@.len() <= MAX_TLS_IDENTITY_FILE_BYTES,
        r matches Ok(b) ==> b == bytes,
        r matches Err(e) ==> ftp_error(e, "FTPS client identity file is empty or exceeds 1 MiB"@),
{
    if bytes.len() == 0 || bytes.len() as u64 > MAX_TLS_IDENTITY_FILE_BYTES {
        return Err(refuse("FTPS client identity file is empty or exceeds 1 MiB"));
    }
    Ok(bytes)
}

} // verus!
