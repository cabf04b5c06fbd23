//! How an FTP session is secured, what it is identified by, and what becomes of its failures.

use vstd::prelude::*;

use crate::model::connection::{FtpDataMode, FtpFilenameEncoding, FtpTlsMode};
use crate::model::{ConnectionSpec, Protocol};
use crate::net::error::{IoFailure, NetError};
use crate::net::ftp::identity::{all_decoded, identity_of, PemKeyView};
use crate::net::ftp::pin::{
    canonical_pin, certificate_fingerprint, normalize_certificate_pin, verify_leaf, PinCheck,
};
use crate::net::ftp::transport::{
    accept_invalid_tls, after_discovery, after_pinned_failure, after_platform_failure,
    check_identity_bytes, check_identity_file, check_identity_opened, check_identity_path,
    choose_transport, configure_data_connection, connection_timeout, discovered_certificate,
    endpoint_text, map_login, no_address_answered, plan_session, retry_delay, safe_passive_target,
    DataConnection, FtpFailure, HandshakeFailure, PeerAddress, PeerSocket, SetupStep, Transport,
};
use crate::net::partial::FileFacts;
use crate::numerals::decimal;
use crate::pieces::{contains_text, trimmed};
use crate::text::{ascii_lowercase, has_control, utf8_len};

verus! {

/// What a connection's settings ask for is the transport that is used. Plain FTP comes of the setting
/// for it alone; a saved pin is kept to; without a pin the platform's verification decides, unless
/// the connection or the override for tests turns it off. A certificate and key go along together.
pub proof fn transports_are_what_was_set(
    spec: &ConnectionSpec,
    override_value: Option<&str>,
    r: Result<Transport, NetError>,
)
    requires
        call_ensures(choose_transport, (spec, override_value), r),
    ensures
        r == Ok::<Transport, NetError>(Transport::Plaintext) ==> spec.allow_plaintext_ftp,
        spec.allow_plaintext_ftp && spec.ftp_tls_mode == FtpTlsMode::Explicit && spec.tls_client_cert
            is None && spec.tls_client_key is None && spec.tls_pinned_sha256 is None
            && !spec.accept_invalid_tls ==> r == Ok::<Transport, NetError>(Transport::Plaintext),
        spec.allow_plaintext_ftp && (spec.ftp_tls_mode == FtpTlsMode::Implicit || spec.tls_client_cert
            is Some || spec.tls_client_key is Some || spec.tls_pinned_sha256 is Some
            || spec.accept_invalid_tls) ==> r is Err,
        spec.tls_client_cert is Some != spec.tls_client_key is Some ==> r is Err,
        !spec.allow_plaintext_ftp && spec.tls_pinned_sha256 is None && (spec.tls_client_cert is Some
            == spec.tls_client_key is Some) ==> (r matches Ok(t) && (t matches Transport::Platform {
            insecure,
            identity,
        } && insecure == (spec.accept_invalid_tls || (override_value matches Some(v) && v@ == "1"@))
            && (identity is Some <==> spec.tls_client_cert is Some) && (identity matches Some(pair)
            ==> pair.0@ == spec.tls_client_cert->0@ && pair.1@ == spec.tls_client_key->0@))),
        !spec.allow_plaintext_ftp && spec.tls_pinned_sha256 is Some && (spec.tls_client_cert is Some
            == spec.tls_client_key is Some) ==> match canonical_pin(spec.tls_pinned_sha256->0@) {
            None => r is Err,
            Some(want) => r matches Ok(t) && (t matches Transport::Pinned { pin, identity } && pin@
                == want && (identity is Some <==> spec.tls_client_cert is Some) && (identity
                matches Some(pair) ==> pair.0@ == spec.tls_client_cert->0@ && pair.1@
                == spec.tls_client_key->0@)),
        },
{
}

/// Before a login the control connection is open and, unless plain FTP was chosen, encrypted; after
/// it come the names and the binary mode, and there is one login.
pub proof fn sessions_are_set_up_in_order(
    spec: &ConnectionSpec,
    transport: &Transport,
    r: Vec<SetupStep>,
)
    requires
        call_ensures(plan_session, (spec, transport), r),
    ensures
        transport is Plaintext && spec.ftp_filename_encoding == FtpFilenameEncoding::Auto ==> r@
            == seq![
            SetupStep::Connect,
            SetupStep::DataConnection,
            SetupStep::Login,
            SetupStep::Binary,
        ],
        transport is Plaintext && spec.ftp_filename_encoding == FtpFilenameEncoding::Utf8 ==> r@
            == seq![
            SetupStep::Connect,
            SetupStep::DataConnection,
            SetupStep::Login,
            SetupStep::Utf8Names,
            SetupStep::Binary,
        ],
        !(transport is Plaintext) && spec.ftp_tls_mode == FtpTlsMode::Explicit
            && spec.ftp_filename_encoding == FtpFilenameEncoding::Auto ==> r@ == seq![
            SetupStep::Connect,
            SetupStep::SecureExplicit,
            SetupStep::DataConnection,
            SetupStep::Login,
            SetupStep::Binary,
        ],
        !(transport is Plaintext) && spec.ftp_tls_mode == FtpTlsMode::Explicit
            && spec.ftp_filename_encoding == FtpFilenameEncoding::Utf8 ==> r@ == seq![
            SetupStep::Connect,
            SetupStep::SecureExplicit,
            SetupStep::DataConnection,
            SetupStep::Login,
            SetupStep::Utf8Names,
            SetupStep::Binary,
        ],
        !(transport is Plaintext) && spec.ftp_tls_mode == FtpTlsMode::Implicit
            && spec.ftp_filename_encoding == FtpFilenameEncoding::Auto ==> r@ == seq![
            SetupStep::SecureImplicit,
            SetupStep::PrivateData,
            SetupStep::DataConnection,
            SetupStep::Login,
            SetupStep::Binary,
        ],
        !(transport is Plaintext) && spec.ftp_tls_mode == FtpTlsMode::Implicit
            && spec.ftp_filename_encoding == FtpFilenameEncoding::Utf8 ==> r@ == seq![
            SetupStep::SecureImplicit,
            SetupStep::PrivateData,
            SetupStep::DataConnection,
            SetupStep::Login,
            SetupStep::Utf8Names,
            SetupStep::Binary,
        ],
{
}

/// The endpoint of a connection is its host and its port; without a port of its own it has that of
/// its protocol, and implicit FTPS has one of its own.
pub proof fn endpoints_are_host_and_port(spec: &ConnectionSpec, port: u16, r: String)
    requires
        call_ensures(ConnectionSpec::effective_port, (spec,), port),
        call_ensures(endpoint_text, (spec,), r),
    ensures
        r@ == spec.host@ + ":"@ + decimal(port as nat),
        spec.port != 0 ==> port == spec.port,
        spec.port == 0 && spec.protocol == Protocol::Sftp ==> port == 22,
        spec.port == 0 && spec.protocol == Protocol::Ftp && (spec.allow_plaintext_ftp
            || spec.ftp_tls_mode == FtpTlsMode::Explicit) ==> port == 21,
        spec.port == 0 && spec.protocol == Protocol::Ftp && !spec.allow_plaintext_ftp
            && spec.ftp_tls_mode == FtpTlsMode::Implicit ==> port == 990,
{
}

/// A data connection goes to the peer of the control connection at the advertised port, never to an
/// advertised address; through a proxy it is never active.
pub proof fn data_connections_go_to_the_peer(
    spec: &ConnectionSpec,
    peer: PeerAddress,
    advertised: PeerSocket,
    target: PeerSocket,
    r: Result<DataConnection, NetError>,
)
    requires
        call_ensures(safe_passive_target, (peer, advertised), target),
        call_ensures(configure_data_connection, (spec, peer), r),
    ensures
        target.address == peer,
        target.port == advertised.port,
        spec.ftp_data_mode == FtpDataMode::Active && spec.proxy_url is None ==> r == Ok::<
            DataConnection,
            NetError,
        >(DataConnection::Active),
        spec.ftp_data_mode == FtpDataMode::Active && spec.proxy_url is Some ==> r is Err,
        spec.ftp_data_mode == FtpDataMode::Passive && spec.proxy_url is Some ==> r == Ok::<
            DataConnection,
            NetError,
        >(DataConnection::Proxied),
        spec.ftp_data_mode == FtpDataMode::Passive && spec.proxy_url is None ==> (r matches Ok(d) && d
            == (DataConnection::Passive { peer, extended: peer is V6 })),
{
}

/// A server that answers is reported with its answer; one whose certificate was not accepted is
/// looked at before the user is asked, and the user is asked about what was seen there.
pub proof fn untrusted_certificates_are_asked_about(
    spec: &ConnectionSpec,
    insecure: bool,
    failure: FtpFailure,
    seen: Option<String>,
    step: HandshakeFailure,
    asked: NetError,
)
    requires
        call_ensures(after_platform_failure, (spec, insecure, &failure), step),
        call_ensures(after_discovery, (spec, seen, failure), asked),
    ensures
        failure.code is None && !insecure ==> step is Discover,
        failure.code is None && insecure ==> step == HandshakeFailure::Report(
            NetError::Ftp(failure.text),
        ),
        failure.code is Some ==> (step matches HandshakeFailure::Report(e) && e is Ftp),
        seen matches Some(found) ==> (asked matches NetError::TlsCertificateTrustRequired(c)
            && c.fingerprint_text@ == found@ && c.previous is None && c.endpoint_text@ == spec.host@
            + ":"@ + decimal(spec.spec_effective_port() as nat)),
        seen is None ==> asked == NetError::Ftp(failure.text),
{
}

/// A certificate other than the pinned one is asked about with both fingerprints; any other failure
/// is reported as it is.
pub proof fn changed_certificates_are_asked_about(
    spec: &ConnectionSpec,
    expected: String,
    seen: Option<String>,
    failure: FtpFailure,
    r: NetError,
)
    requires
        call_ensures(after_pinned_failure, (spec, expected, seen, failure), r),
    ensures
        seen is Some && seen->0@ != expected@ ==> (r matches NetError::TlsCertificateTrustRequired(c)
            && c.fingerprint_text@ == seen->0@ && (c.previous matches Some(p) && p@ == expected@)
            && c.endpoint_text@ == spec.host@ + ":"@ + decimal(spec.spec_effective_port() as nat)),
        seen is None || seen->0@ == expected@ ==> r == NetError::Ftp(failure.text),
{
}

/// The look at a certificate gives the fingerprint that was seen, and else why there is none.
pub proof fn discoveries_give_what_was_seen(
    seen: Option<String>,
    failure: Option<FtpFailure>,
    r: Result<String, NetError>,
)
    requires
        call_ensures(discovered_certificate, (seen, failure), r),
    ensures
        seen matches Some(found) ==> r == Ok::<String, NetError>(found),
        seen is None && failure is Some ==> r == Err::<String, NetError>(
            NetError::Ftp(failure->0.text),
        ),
        seen is None && failure is None ==> r is Err,
{
}

/// A refused login is a failed authentication exactly if the server says so.
pub proof fn refused_logins_are_told_apart(outcome: Result<(), FtpFailure>, r: Result<(), NetError>)
    requires
        call_ensures(map_login, (outcome,), r),
    ensures
        outcome is Ok ==> r is Ok,
        outcome matches Err(f) ==> f.code == Some(530u32) ==> (r matches Err(e) && e is AuthFailed),
        outcome matches Err(f) ==> f.code != Some(530u32) ==> r == Err::<(), NetError>(
            NetError::Ftp(f.text),
        ),
{
}

/// Only a server at its session limit is tried again, after a wait that grows, and five times at
/// most; the time for an attempt is the connection's own where it has one.
pub proof fn session_limits_are_waited_out(
    error: &NetError,
    attempt: u32,
    r: Option<u64>,
    spec: &ConnectionSpec,
    timeout: u64,
)
    requires
        call_ensures(retry_delay, (error, attempt), r),
        call_ensures(connection_timeout, (spec,), timeout),
    ensures
        r is Some ==> (error matches NetError::Ftp(m) && contains_text(m@, "421"@)) && attempt < 4,
        (error matches NetError::Ftp(m) && contains_text(m@, "421"@)) && attempt < 4 ==> r is Some,
        r is Some && attempt == 0 ==> r == Some(300u64),
        r is Some && attempt == 1 ==> r == Some(800u64),
        r is Some && attempt == 2 ==> r == Some(2000u64),
        r is Some && attempt == 3 ==> r == Some(5000u64),
        spec.timeout_secs matches Some(n) ==> timeout == n,
        spec.timeout_secs is None ==> timeout == 15,
{
}

/// Of the addresses of a host that failed, the last failure is reported.
pub proof fn the_last_address_is_reported(
    failures: Vec<IoFailure>,
    host: &str,
    port: u16,
    r: NetError,
)
    requires
        call_ensures(no_address_answered, (failures, host, port), r),
    ensures
        failures@.len() > 0 ==> r == NetError::Io(failures@[failures@.len() - 1]),
        failures@.len() == 0 ==> (r matches NetError::Ftp(m) && m@ == "no addresses found for "@
            + host@ + ":"@ + decimal(port as nat)),
{
}

/// A certificate or key file is read only where its path is absolute and it is a regular file of a
/// sensible size that did not change under the hands; a private key must be the user's own, and
/// nobody else's to read.
pub proof fn identity_files_are_the_users_own(
    path: &str,
    before: &FileFacts,
    opened: &FileFacts,
    private_key: bool,
    user: u32,
    bytes: Vec<u8>,
    p: Result<(), NetError>,
    f: Result<(), NetError>,
    o: Result<(), NetError>,
    b: Result<Vec<u8>, NetError>,
)
    requires
        call_ensures(check_identity_path, (path,), p),
        call_ensures(check_identity_file, (before, private_key, user), f),
        call_ensures(check_identity_opened, (before, opened), o),
        call_ensures(check_identity_bytes, (bytes,), b),
    ensures
        p is Ok <==> path@.len() > 0 && utf8_len(path@) <= 4096 && !has_control(path@) && path@[0]
            == '/',
        f is Ok <==> before.is_file && !before.is_symlink && 0 < before.len <= 1048576 && (
        private_key ==> before.owner == user && before.mode & 0o77 == 0),
        o is Ok <==> before.device == opened.device && before.inode == opened.inode && opened.is_file
            && 0 < opened.len <= 1048576,
        b is Ok <==> 0 < bytes@.len() <= 1048576,
        b matches Ok(read) ==> read@ == bytes@,
{
}

proof fn lemma_chain(items: Seq<Result<Seq<u8>, Seq<char>>>)
    ensures
        (forall|i: int| 0 <= i < items.len() ==> (#[trigger] items[i]) is Ok) ==> (all_decoded(items)
            matches Ok(chain) && chain.len() == items.len() && forall|i: int|
            0 <= i < items.len() ==> #[trigger] chain[i] == items[i]->Ok_0),
        (exists|i: int| 0 <= i < items.len() && (#[trigger] items[i]) is Err) ==> all_decoded(items)
            is Err,
    decreases items.len(),
{
    if items.len() > 0 {
        let front = items.drop_last();
        lemma_chain(front);
        assert(forall|i: int| 0 <= i < front.len() ==> #[trigger] front[i] == items[i]);
        if exists|i: int| 0 <= i < items.len() && (#[trigger] items[i]) is Err {
            let i = choose|i: int| 0 <= i < items.len() && (#[trigger] items[i]) is Err;
            if i < front.len() {
                assert(front[i] is Err);
            }
        }
        if forall|i: int| 0 <= i < items.len() ==> (#[trigger] items[i]) is Ok {
            assert(items[items.len() - 1] is Ok);
            assert(forall|i: int| 0 <= i < front.len() ==> (#[trigger] front[i]) is Ok);
        }
    }
}

/// A client's identity is the whole chain of its certificate file in its order and the one key of its
/// key file; anything unreadable, missing or ambiguous gives none.
pub proof fn identities_hold_the_chain_and_the_key(
    certificates: Seq<Result<Seq<u8>, Seq<char>>>,
    keys: Seq<Result<PemKeyView, Seq<char>>>,
)
    ensures
        certificates.len() > 0 && (forall|i: int|
            0 <= i < certificates.len() ==> (#[trigger] certificates[i]) is Ok) && keys.len() == 1 && (
        keys[0] matches Ok(key) && key.pkcs8) ==> (identity_of(certificates, keys) matches Ok(found)
            && found.private_key == keys[0]->Ok_0.der && found.certificates.len() == certificates.len()
            && forall|i: int|
            0 <= i < certificates.len() ==> #[trigger] found.certificates[i]
                == certificates[i]->Ok_0),
        certificates.len() == 0 ==> identity_of(certificates, keys) is Err,
        (exists|i: int| 0 <= i < certificates.len() && (#[trigger] certificates[i]) is Err)
            ==> identity_of(certificates, keys) is Err,
        keys.len() != 1 ==> identity_of(certificates, keys) is Err,
        (keys.len() > 0 && (keys[0] matches Ok(key) ==> !key.pkcs8)) ==> identity_of(
            certificates,
            keys,
        ) is Err,
{
    lemma_chain(certificates);
}

/// A handshake with a pin goes on for exactly the certificate with that fingerprint; without a pin
/// the certificate is only looked at. Either way its fingerprint is what was seen.
pub proof fn pins_accept_one_certificate(
    pin: &str,
    der: &[u8],
    other: &[u8],
    seen: String,
    pinned: PinCheck,
    unpinned: PinCheck,
)
    requires
        call_ensures(certificate_fingerprint, (der,), seen),
        call_ensures(verify_leaf, (Some(pin), der), pinned),
        call_ensures(verify_leaf, (None::<&str>, der), unpinned),
    ensures
        pinned.observed@ == seen@,
        unpinned.observed@ == seen@,
        pinned.accepted <==> pin@ == seen@,
        unpinned.accepted,
{
}

/// A pin may be written with or without its label, in either case and with white space around it: it
/// is the same pin. Anything but the 64 hexadecimal digits of a digest is none.
pub proof fn pins_are_read_as_digests(value: &str, r: Option<String>, hex: Seq<char>)
    requires
        call_ensures(normalize_certificate_pin, (value,), r),
        hex.len() == 64,
        forall|i: int|
            0 <= i < 64 ==> ('0' <= #[trigger] hex[i] && hex[i] <= '9') || ('a' <= hex[i] && hex[i]
                <= 'f'),
    ensures
        ascii_lowercase(trimmed(value@)) == hex ==> (r matches Some(pin) && pin@ == "sha256:"@ + hex),
        ascii_lowercase(trimmed(value@)) == "sha256:"@ + hex ==> (r matches Some(pin) && pin@
            == "sha256:"@ + hex),
        r matches Some(pin) ==> pin@.len() == 71,
{
    reveal_strlit("sha256:");
    let label = "sha256:"@;
    let low = ascii_lowercase(trimmed(value@));
    if low == hex {
        assert(!crate::pieces::has_prefix(low, label)) by {
            if crate::pieces::has_prefix(low, label) {
                assert(low.take(7)[0] == label[0]);
                assert(low[0] == 's');
            }
        }
    }
    if low == label + hex {
        assert(low.take(7) =~= label);
        assert(low.skip(7) =~= hex);
    }
}

} // verus!
