//! A saved server and how to reach it.

use vstd::prelude::*;

use super::protocol::Protocol;
use crate::text::plus;

verus! {

#[derive(Debug, Clone, Copy, PartialEq, Eq, Hash, Structural)]
pub enum SftpAuth {
    Password,
    PrivateKey,
    Agent,
    KeyboardInteractive,
}

impl Default for SftpAuth {
    fn default() -> (r: Self)
        ensures
            r == SftpAuth::Password,
    {
        SftpAuth::Password
    }
}

#[derive(Debug, Clone, Copy, PartialEq, Eq, Hash, Structural)]
pub enum FtpDataMode {
    Passive,
    Active,
}

impl Default for FtpDataMode {
    fn default() -> (r: Self)
        ensures
            r == FtpDataMode::Passive,
    {
        FtpDataMode::Passive
    }
}

#[derive(Debug, Clone, Copy, PartialEq, Eq, Hash, Structural)]
pub enum FtpFilenameEncoding {
    /// Keep the server default. Commands remain Unicode-safe strings.
    Auto,
    /// Require the server to accept `OPTS UTF8 ON` before any file operation.
    Utf8,
}

impl Default for FtpFilenameEncoding {
    fn default() -> (r: Self)
        ensures
            r == FtpFilenameEncoding::Auto,
    {
        FtpFilenameEncoding::Auto
    }
}

#[derive(Debug, Clone, Copy, PartialEq, Eq, Hash, Structural)]
pub enum FtpTlsMode {
    /// RFC 4217 explicit FTPS: connect on the FTP port, then issue `AUTH TLS` before login.
    Explicit,
    /// Legacy implicit FTPS: TLS starts immediately, conventionally on port 990.
    Implicit,
}

impl Default for FtpTlsMode {
    fn default() -> (r: Self)
        ensures
            r == FtpTlsMode::Explicit,
    {
        FtpTlsMode::Explicit
    }
}

#[derive(Debug, Clone, Copy, PartialEq, Eq, Hash, Structural)]
pub struct ConnectionId(pub usize);

#[derive(Debug, PartialEq, Eq)]
pub struct ConnectionSpec {
    pub id: ConnectionId,
    pub name: String,
    pub protocol: Protocol,
    pub host: String,
    pub port: u16,
    pub user: String,
    pub initial_path: String,
    pub group: String,
    pub tags: Vec<String>,
    /// Connection/operation timeout override in seconds. `None` uses protocol defaults.
    pub timeout_secs: Option<u64>,
    /// SFTP keepalive interval. `None` uses the default, `Some(0)` explicitly disables it.
    pub keepalive_interval_secs: Option<u64>,
    pub ftp_data_mode: FtpDataMode,
    pub ftp_filename_encoding: FtpFilenameEncoding,
    /// Explicit FTPS is the default. Implicit FTPS is opt-in for legacy servers that require TLS
    /// from the first byte of the control connection.
    pub ftp_tls_mode: FtpTlsMode,
    /// Optional unauthenticated CONNECT proxy. Credentials are deliberately unsupported here so
    /// secrets can never be serialized into connection metadata or synchronized accidentally.
    pub proxy_url: Option<String>,
    /// Resolve SFTP host aliases and safe connection parameters from `~/.ssh/config`.
    pub use_ssh_config: bool,
    /// Optional single SSH jump host (`[user@]host[:port]` or an alias from SSH config).
    pub ssh_proxy_jump: Option<String>,
    /// Plaintext-only FTP is unencrypted. It is an explicit transport mode per saved host, so a
    /// TLS error can never silently downgrade this or any other connection.
    pub allow_plaintext_ftp: bool,
    /// Certificate exceptions are security decisions for one endpoint, never a global switch.
    pub accept_invalid_tls: bool,
    /// SHA-256 fingerprint of the exact FTPS leaf certificate trusted for this endpoint.
    pub tls_pinned_sha256: Option<String>,
    /// Optional local PEM certificate chain and unencrypted PKCS#8 PEM private key used for FTPS
    /// mutual TLS. These are paths only.
    pub tls_client_cert: Option<String>,
    pub tls_client_key: Option<String>,
    /// SFTP authentication method. FTP always uses a password.
    pub sftp_auth: SftpAuth,
    /// User-selected private-key path; the key itself is never copied into app storage or sync.
    pub sftp_private_key: Option<String>,
    /// Optional parallel-file limit for this endpoint.
    pub transfer_concurrency: Option<usize>,
}

pub fn clone_text(s: &Option<String>) -> (r: Option<String>)
    ensures
        r == *s,
{
    match s {
        Some(t) => Some(t.clone()),
        None => None,
    }
}

pub fn clone_texts(v: &Vec<String>) -> (r: Vec<String>)
    ensures
        r@ == v@,
{
    let mut out: Vec<String> = Vec::new();
    let mut i: usize = 0;
    while i < v.len()
        invariant
            i <= v@.len(),
            out@ == v@.take(i as int),
        decreases v@.len() - i,
    {
        out.push(v[i].clone());
        assert(v@.take(i + 1) =~= v@.take(i as int).push(v@[i as int]));
        i += 1;
    }
    assert(v@.take(v@.len() as int) =~= v@);
    out
}

/// Two connections agree in every field.
pub open spec fn same_spec(a: ConnectionSpec, b: ConnectionSpec) -> bool {
    a == (ConnectionSpec { tags: a.tags, ..b }) && a.tags@ == b.tags@
}

impl Clone for ConnectionSpec {
    fn clone(&self) -> (r: Self)
        ensures
            same_spec(r, *self),
    {
        ConnectionSpec {
            id: self.id,
            name: self.name.clone(),
            protocol: self.protocol,
            host: self.host.clone(),
            port: self.port,
            user: self.user.clone(),
            initial_path: self.initial_path.clone(),
            group: self.group.clone(),
            tags: clone_texts(&self.tags),
            timeout_secs: self.timeout_secs,
            keepalive_interval_secs: self.keepalive_interval_secs,
            ftp_data_mode: self.ftp_data_mode,
            ftp_filename_encoding: self.ftp_filename_encoding,
            ftp_tls_mode: self.ftp_tls_mode,
            proxy_url: clone_text(&self.proxy_url),
            use_ssh_config: self.use_ssh_config,
            ssh_proxy_jump: clone_text(&self.ssh_proxy_jump),
            allow_plaintext_ftp: self.allow_plaintext_ftp,
            accept_invalid_tls: self.accept_invalid_tls,
            tls_pinned_sha256: clone_text(&self.tls_pinned_sha256),
            tls_client_cert: clone_text(&self.tls_client_cert),
            tls_client_key: clone_text(&self.tls_client_key),
            sftp_auth: self.sftp_auth,
            sftp_private_key: clone_text(&self.sftp_private_key),
            transfer_concurrency: self.transfer_concurrency,
        }
    }
}

impl ConnectionSpec {
    pub open spec fn spec_effective_port(&self) -> u16 {
        if self.port != 0 {
            self.port
        } else if self.protocol == Protocol::Ftp && !self.allow_plaintext_ftp && self.ftp_tls_mode
            == FtpTlsMode::Implicit {
            990
        } else {
            self.protocol.spec_default_port()
        }
    }

    /// Effective port: the protocol default if none was chosen.
    pub fn effective_port(&self) -> (r: u16)
        ensures
            r == self.spec_effective_port(),
            r != 0,
    {
        if self.port == 0 {
            if self.protocol == Protocol::Ftp && !self.allow_plaintext_ftp && self.ftp_tls_mode
                == FtpTlsMode::Implicit {
                990
            } else {
                self.protocol.default_port()
            }
        } else {
            self.port
        }
    }

    pub open spec fn spec_protocol_label(&self) -> Seq<char> {
        match self.protocol {
            Protocol::Ftp => "FTP"@,
            Protocol::Sftp => "SFTP"@,
        }
    }

    /// The label stays `FTP` for FTPS: the actual transport is decided at connect time.
    pub fn protocol_label(&self) -> (r: &'static str)
        ensures
            r@ == self.spec_protocol_label(),
    {
        match self.protocol {
            Protocol::Ftp => "FTP",
            Protocol::Sftp => "SFTP",
        }
    }

    /// Human label for the toolbar and the connection manager, e.g. `ftp.example.com (FTP)`.
    pub fn display_label(&self) -> (r: String)
        ensures
            r@ == self.host@ + " ("@ + self.spec_protocol_label() + ")"@,
    {
        plus(plus(plus(self.host.clone(), " ("), self.protocol_label()), ")")
    }
}

} // verus!
