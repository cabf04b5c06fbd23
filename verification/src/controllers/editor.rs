//! The form in which a connection is edited.

use vstd::prelude::*;

use crate::model::connection::{
    ConnectionId, ConnectionSpec, FtpDataMode, FtpFilenameEncoding, FtpTlsMode, SftpAuth,
};
use crate::model::protocol::{protocol_named, protocol_word, Protocol};
use crate::net::ftp::pin::{canonical_pin, normalize_certificate_pin};
use crate::net::proxy::{proxy_of, validate_proxy_url};
use crate::net::safe::{has_low_byte, validate_ftp_path};
use crate::net::ssh_resolve::{
    jump_reference, range_message, range_text, validate_ssh_proxy_jump, ConnectionLimits,
};
use crate::numerals::{parse_unsigned, signed_decimal, to_signed_decimal, unsigned_value};
use crate::pieces::{split, split_any, texts, trim, trimmed, views};
use crate::text::{
    any_control, byte_len, chars_of, debug_quoted, has_control, lowercase, plus, same_text,
    string_of, text_of, to_lowercase, utf8_len,
};

verus! {

pub const MAX_TAG_BYTES: usize = 128;

pub const MAX_TAGS: usize = 32;

pub const MAX_GROUP_BYTES: usize = 256;

pub const MAX_IDENTITY_PATH_BYTES: usize = 4096;

/// What stands in the fields of the form.
#[derive(Debug, PartialEq, Eq)]
pub struct EditorForm {
    pub name: String,
    pub protocol: String,
    pub host: String,
    pub port: String,
    pub user: String,
    pub password: String,
    pub initial_path: String,
    pub group: String,
    pub tags: String,
    pub timeout_secs: String,
    pub keepalive_secs: String,
    pub ftp_data_mode: String,
    pub ftp_filename_encoding: String,
    pub ftp_tls_mode: String,
    pub proxy_url: String,
    pub use_ssh_config: bool,
    pub ssh_proxy_jump: String,
    pub sftp_auth: String,
    pub sftp_key_path: String,
    pub transfer_concurrency: i32,
    pub allow_plaintext_ftp: bool,
    pub tls_pin: String,
    pub tls_client_cert: String,
    pub tls_client_key: String,
    pub legacy_invalid_tls: bool,
}

/// The bounds that the form is held to.
#[derive(Debug, Clone, Copy, PartialEq, Eq, Structural)]
pub struct EditorLimits {
    pub connection: ConnectionLimits,
    pub min_concurrency: u16,
    pub max_concurrency: u16,
}

// --- single fields -----------------------------------------------------------------------------

fn trim_text(s: &str) -> (r: String)
    ensures
        r@ == trimmed(s@),
{
    let chars: Vec<char> = chars_of(s);
    string_of(trim(&chars))
}

/// A field without the white space around it, unless nothing is left.
pub open spec fn filled(s: Seq<char>) -> Option<Seq<char>> {
    if trimmed(s).len() == 0 {
        None
    } else {
        Some(trimmed(s))
    }
}

fn fill(s: &str) -> (r: Option<String>)
    ensures
        text_of(r) == filled(s@),
{
    let chars: Vec<char> = chars_of(s);
    let inner: &[char] = trim(&chars);
    if inner.len() == 0 {
        None
    } else {
        Some(string_of(inner))
    }
}

fn text_has_control(s: &str) -> (r: bool)
    ensures
        r == has_control(s@),
{
    let chars: Vec<char> = chars_of(s);
    any_control(&chars)
}

/// A tag of the list differs from another one by letter case alone.
pub open spec fn has_tag(tags: Seq<Seq<char>>, tag: Seq<char>) -> bool {
    exists|i: int| 0 <= i < tags.len() && lowercase(#[trigger] tags[i]) == lowercase(tag)
}

/// The tags among the pieces, after those that are already there.
pub open spec fn tags_among(parts: Seq<Seq<char>>, tags: Seq<Seq<char>>) -> Result<
    Seq<Seq<char>>,
    Seq<char>,
>
    decreases parts.len(),
{
    if parts.len() == 0 {
        Ok(tags)
    } else {
        let tag = trimmed(parts[0]);
        if tag.len() == 0 {
            tags_among(parts.skip(1), tags)
        } else if utf8_len(tag) > MAX_TAG_BYTES || has_control(tag) {
            Err("each tag must be at most 128 characters and contain no controls"@)
        } else if has_tag(tags, tag) {
            Err("duplicate tag: "@ + tag)
        } else if tags.len() >= MAX_TAGS {
            Err("a connection can have at most 32 tags"@)
        } else {
            tags_among(parts.skip(1), tags.push(tag))
        }
    }
}

/// The tags of a comma-separated list.
pub open spec fn tags_of(raw: Seq<char>) -> Result<Seq<Seq<char>>, Seq<char>> {
    tags_among(split_any(raw, seq![',']), Seq::empty())
}

fn knows_tag(tags: &Vec<String>, tag: &str) -> (r: bool)
    ensures
        r == has_tag(texts(tags@), tag@),
{
    let canonical: String = to_lowercase(tag);
    let mut i: usize = 0;
    while i < tags.len()
        invariant
            i <= tags@.len(),
            canonical@ == lowercase(tag@),
            forall|j: int|
                0 <= j < i ==> lowercase(#[trigger] texts(tags@)[j]) != lowercase(tag@),
        decreases tags@.len() - i,
    {
        let known: String = to_lowercase(tags[i].as_str());
        assert(texts(tags@)[i as int] == tags@[i as int]@);
        if same_text(known.as_str(), canonical.as_str()) {
            return true;
        }
        i += 1;
    }
    false
}

pub fn parse_editor_tags(raw: &str) -> (r: Result<Vec<String>, String>)
    ensures
        match r {
            Ok(tags) => tags_of(raw@) == Ok::<Seq<Seq<char>>, Seq<char>>(texts(tags@)),
            Err(e) => tags_of(raw@) == Err::<Seq<Seq<char>>, Seq<char>>(e@),
        },
{
    let chars: Vec<char> = chars_of(raw);
    let comma: [char; 1] = [','];
    assert(comma@ =~= seq![',']);
    let parts: Vec<Vec<char>> = split(&chars, comma.as_slice());
    let ghost all = views(parts@);
    let mut tags: Vec<String> = Vec::new();
    assert(texts(tags@) =~= Seq::<Seq<char>>::empty());
    assert(all.skip(0) =~= all);
    let mut i: usize = 0;
    while i < parts.len()
        invariant
            i <= parts@.len(),
            all == views(parts@),
            all == split_any(raw@, seq![',']),
            tags_among(all.skip(i as int), texts(tags@)) == tags_of(raw@),
        decreases parts@.len() - i,
    {
        let piece: &[char] = trim(&parts[i]);
        let ghost rest = all.skip(i as int);
        assert(rest[0] == parts@[i as int]@);
        assert(rest.skip(1) =~= all.skip(i + 1));
        if piece.len() > 0 {
            let tag: String = string_of(piece);
            if byte_len(tag.as_str()) > MAX_TAG_BYTES || any_control(piece) {
                return Err(
                    "each tag must be at most 128 characters and contain no controls".to_owned(),
                );
            }
            if knows_tag(&tags, tag.as_str()) {
                return Err(plus("duplicate tag: ".to_owned(), tag.as_str()));
            }
            if tags.len() >= MAX_TAGS {
                return Err("a connection can have at most 32 tags".to_owned());
            }
            let ghost before = texts(tags@);
            tags.push(tag);
            assert(texts(tags@) =~= before.push(tag@));
        }
        i += 1;
    }
    Ok(tags)
}

/// What an accepted list of tags is: bounded, without controls, and no two tags are the same but
/// for letter case.
pub open spec fn tags_allowed(tags: Seq<Seq<char>>) -> bool {
    &&& tags.len() <= MAX_TAGS
    &&& forall|i: int|
        0 <= i < tags.len() ==> (#[trigger] tags[i]).len() > 0 && utf8_len(tags[i]) <= MAX_TAG_BYTES
            && !has_control(tags[i])
    &&& forall|i: int, j: int|
        0 <= i < j < tags.len() ==> lowercase(#[trigger] tags[i]) != lowercase(#[trigger] tags[j])
}

proof fn lemma_tags_among(parts: Seq<Seq<char>>, tags: Seq<Seq<char>>)
    requires
        tags_allowed(tags),
    ensures
        tags_among(parts, tags) matches Ok(all) ==> tags_allowed(all),
    decreases parts.len(),
{
    if parts.len() > 0 {
        let tag = trimmed(parts[0]);
        if tag.len() == 0 {
            lemma_tags_among(parts.skip(1), tags);
        } else if utf8_len(tag) > MAX_TAG_BYTES || has_control(tag) || has_tag(tags, tag)
            || tags.len() >= MAX_TAGS {
        } else {
            lemma_tags_among(parts.skip(1), tags.push(tag));
        }
    }
}

/// Whatever is typed, the tags that come of it are bounded and distinct.
pub proof fn accepted_tags_are_distinct(raw: Seq<char>)
    ensures
        tags_of(raw) matches Ok(tags) ==> tags_allowed(tags),
{
    lemma_tags_among(split_any(raw, seq![',']), Seq::empty());
}

/// A timeout in seconds; 0 stands for the default.
pub open spec fn timeout_of(raw: Seq<char>, limits: ConnectionLimits) -> Result<
    Option<u64>,
    Seq<char>,
> {
    match unsigned_value(trimmed(raw), u64::MAX as nat) {
        None => Err("timeout must be a whole non-negative number"@),
        Some(n) => if n == 0 {
            Ok(None)
        } else if limits.min_timeout <= n <= limits.max_timeout {
            Ok(Some(n as u64))
        } else {
            Err("timeout must be 0 or "@ + range_text(limits.min_timeout, limits.max_timeout))
        },
    }
}

pub fn parse_editor_timeout(raw: &str, limits: &ConnectionLimits) -> (r: Result<
    Option<u64>,
    String,
>)
    ensures
        match r {
            Ok(seconds) => timeout_of(raw@, *limits) == Ok::<Option<u64>, Seq<char>>(seconds),
            Err(e) => timeout_of(raw@, *limits) == Err::<Option<u64>, Seq<char>>(e@),
        },
{
    let chars: Vec<char> = chars_of(raw);
    match parse_unsigned(trim(&chars), u64::MAX) {
        None => Err("timeout must be a whole non-negative number".to_owned()),
        Some(seconds) => {
            if seconds == 0 {
                return Ok(None);
            }
            if seconds < limits.min_timeout || limits.max_timeout < seconds {
                return Err(
                    range_message("timeout must be 0 or ", limits.min_timeout, limits.max_timeout),
                );
            }
            Ok(Some(seconds))
        },
    }
}

/// A keepalive interval in seconds; 0 switches it off, and an empty field stands for the default.
pub open spec fn keepalive_of(raw: Seq<char>, limits: ConnectionLimits) -> Result<
    Option<u64>,
    Seq<char>,
> {
    if trimmed(raw).len() == 0 {
        Ok(None)
    } else {
        match unsigned_value(trimmed(raw), u64::MAX as nat) {
            None => Err("keepalive must be a whole non-negative number"@),
            Some(n) => if n == 0 || limits.min_keepalive <= n <= limits.max_keepalive {
                Ok(Some(n as u64))
            } else {
                Err(
                    "keepalive must be blank, 0, or "@ + range_text(
                        limits.min_keepalive,
                        limits.max_keepalive,
                    ),
                )
            },
        }
    }
}

pub fn parse_editor_keepalive(raw: &str, limits: &ConnectionLimits) -> (r: Result<
    Option<u64>,
    String,
>)
    ensures
        match r {
            Ok(seconds) => keepalive_of(raw@, *limits) == Ok::<Option<u64>, Seq<char>>(seconds),
            Err(e) => keepalive_of(raw@, *limits) == Err::<Option<u64>, Seq<char>>(e@),
        },
{
    let chars: Vec<char> = chars_of(raw);
    let inner: &[char] = trim(&chars);
    if inner.len() == 0 {
        return Ok(None);
    }
    match parse_unsigned(inner, u64::MAX) {
        None => Err("keepalive must be a whole non-negative number".to_owned()),
        Some(seconds) => {
            if seconds != 0 && (seconds < limits.min_keepalive || limits.max_keepalive < seconds) {
                return Err(
                    range_message(
                        "keepalive must be blank, 0, or ",
                        limits.min_keepalive,
                        limits.max_keepalive,
                    ),
                );
            }
            Ok(Some(seconds))
        },
    }
}

// --- the words of the form ---------------------------------------------------------------------

pub open spec fn auth_word(auth: SftpAuth) -> Seq<char> {
    match auth {
        SftpAuth::Password => "password"@,
        SftpAuth::PrivateKey => "private_key"@,
        SftpAuth::Agent => "agent"@,
        SftpAuth::KeyboardInteractive => "keyboard_interactive"@,
    }
}

pub open spec fn auth_named(word: Seq<char>) -> Option<SftpAuth> {
    if word == "password"@ {
        Some(SftpAuth::Password)
    } else if word == "private_key"@ {
        Some(SftpAuth::PrivateKey)
    } else if word == "agent"@ {
        Some(SftpAuth::Agent)
    } else if word == "keyboard_interactive"@ {
        Some(SftpAuth::KeyboardInteractive)
    } else {
        None
    }
}

pub fn auth_text(auth: SftpAuth) -> (r: &'static str)
    ensures
        r@ == auth_word(auth),
{
    match auth {
        SftpAuth::Password => "password",
        SftpAuth::PrivateKey => "private_key",
        SftpAuth::Agent => "agent",
        SftpAuth::KeyboardInteractive => "keyboard_interactive",
    }
}

fn read_auth(word: &str) -> (r: Option<SftpAuth>)
    ensures
        r == auth_named(word@),
{
    if same_text(word, "password") {
        Some(SftpAuth::Password)
    } else if same_text(word, "private_key") {
        Some(SftpAuth::PrivateKey)
    } else if same_text(word, "agent") {
        Some(SftpAuth::Agent)
    } else if same_text(word, "keyboard_interactive") {
        Some(SftpAuth::KeyboardInteractive)
    } else {
        None
    }
}

pub open spec fn data_mode_word(mode: FtpDataMode) -> Seq<char> {
    match mode {
        FtpDataMode::Passive => "passive"@,
        FtpDataMode::Active => "active"@,
    }
}

pub open spec fn data_mode_named(word: Seq<char>) -> Option<FtpDataMode> {
    if word == "passive"@ {
        Some(FtpDataMode::Passive)
    } else if word == "active"@ {
        Some(FtpDataMode::Active)
    } else {
        None
    }
}

pub fn data_mode_text(mode: FtpDataMode) -> (r: &'static str)
    ensures
        r@ == data_mode_word(mode),
{
    match mode {
        FtpDataMode::Passive => "passive",
        FtpDataMode::Active => "active",
    }
}

pub open spec fn encoding_word(encoding: FtpFilenameEncoding) -> Seq<char> {
    match encoding {
        FtpFilenameEncoding::Auto => "auto"@,
        FtpFilenameEncoding::Utf8 => "utf8"@,
    }
}

pub open spec fn encoding_named(word: Seq<char>) -> Option<FtpFilenameEncoding> {
    if word == "auto"@ {
        Some(FtpFilenameEncoding::Auto)
    } else if word == "utf8"@ {
        Some(FtpFilenameEncoding::Utf8)
    } else {
        None
    }
}

pub fn encoding_text(encoding: FtpFilenameEncoding) -> (r: &'static str)
    ensures
        r@ == encoding_word(encoding),
{
    match encoding {
        FtpFilenameEncoding::Auto => "auto",
        FtpFilenameEncoding::Utf8 => "utf8",
    }
}

pub open spec fn tls_mode_word(mode: FtpTlsMode) -> Seq<char> {
    match mode {
        FtpTlsMode::Explicit => "explicit"@,
        FtpTlsMode::Implicit => "implicit"@,
    }
}

pub open spec fn tls_mode_named(word: Seq<char>) -> Option<FtpTlsMode> {
    if word == "explicit"@ {
        Some(FtpTlsMode::Explicit)
    } else if word == "implicit"@ {
        Some(FtpTlsMode::Implicit)
    } else {
        None
    }
}

pub fn tls_mode_text(mode: FtpTlsMode) -> (r: &'static str)
    ensures
        r@ == tls_mode_word(mode),
{
    match mode {
        FtpTlsMode::Explicit => "explicit",
        FtpTlsMode::Implicit => "implicit",
    }
}

// --- the draft ---------------------------------------------------------------------------------

impl EditorForm {
    /// The protocol that is chosen, if it is one.
    pub open spec fn chosen_protocol(self) -> Option<Protocol> {
        protocol_named(protocol_word(self.protocol@))
    }

    pub open spec fn is_sftp(self) -> bool {
        self.chosen_protocol() == Some(Protocol::Sftp)
    }

    pub open spec fn is_ftp(self) -> bool {
        self.chosen_protocol() == Some(Protocol::Ftp)
    }

    /// Plaintext is a transport of its own; only FTP has it.
    pub open spec fn is_plaintext(self) -> bool {
        self.is_ftp() && self.allow_plaintext_ftp
    }

    pub open spec fn has_tls(self) -> bool {
        self.is_ftp() && !self.allow_plaintext_ftp
    }

    /// How the server is authenticated to; FTP always uses a password.
    pub open spec fn chosen_auth(self) -> Option<SftpAuth> {
        if self.is_sftp() {
            auth_named(trimmed(self.sftp_auth@))
        } else {
            Some(SftpAuth::Password)
        }
    }

    pub open spec fn uses_ssh_config(self) -> bool {
        self.is_sftp() && self.use_ssh_config
    }

    pub open spec fn jump(self) -> Option<Seq<char>> {
        if self.is_sftp() {
            filled(self.ssh_proxy_jump@)
        } else {
            None
        }
    }

    pub open spec fn private_key(self) -> Option<Seq<char>> {
        if self.chosen_auth() == Some(SftpAuth::PrivateKey) {
            filled(self.sftp_key_path@)
        } else {
            None
        }
    }

    pub open spec fn chosen_data_mode(self) -> Option<FtpDataMode> {
        if self.is_ftp() {
            data_mode_named(self.ftp_data_mode@)
        } else {
            Some(FtpDataMode::Passive)
        }
    }

    pub open spec fn chosen_encoding(self) -> Option<FtpFilenameEncoding> {
        if self.is_ftp() {
            encoding_named(self.ftp_filename_encoding@)
        } else {
            Some(FtpFilenameEncoding::Auto)
        }
    }

    pub open spec fn chosen_tls_mode(self) -> Option<FtpTlsMode> {
        if self.is_ftp() {
            tls_mode_named(self.ftp_tls_mode@)
        } else {
            Some(FtpTlsMode::Explicit)
        }
    }

    pub open spec fn client_cert(self) -> Option<Seq<char>> {
        if self.has_tls() {
            filled(self.tls_client_cert@)
        } else {
            None
        }
    }

    pub open spec fn client_key(self) -> Option<Seq<char>> {
        if self.has_tls() {
            filled(self.tls_client_key@)
        } else {
            None
        }
    }

    pub open spec fn keepalive(self, limits: ConnectionLimits) -> Result<Option<u64>, Seq<char>> {
        if self.is_sftp() {
            keepalive_of(self.keepalive_secs@, limits)
        } else {
            Ok(None)
        }
    }
}

/// The first of two refusals.
pub open spec fn first_refusal(a: Option<Seq<char>>, b: Option<Seq<char>>) -> Option<Seq<char>> {
    match a {
        Some(e) => Some(e),
        None => b,
    }
}

/// What is wrong with the server that the form names.
pub open spec fn endpoint_refusal(form: EditorForm) -> Option<Seq<char>> {
    if trimmed(form.name@).len() == 0 || trimmed(form.host@).len() == 0 || trimmed(
        form.user@,
    ).len() == 0 {
        Some("name, host and user are required"@)
    } else if form.chosen_protocol() is None {
        Some(
            "invalid protocol: "@ + ("unknown protocol: "@ + debug_quoted(
                protocol_word(form.protocol@),
            )),
        )
    } else if unsigned_value(trimmed(form.port@), 65535) is None {
        Some("port must be a whole number from 0 to 65535"@)
    } else {
        None
    }
}

/// What is wrong with how the connection is filed and kept alive.
pub open spec fn details_refusal(form: EditorForm, limits: ConnectionLimits) -> Option<Seq<char>> {
    let path = trimmed(form.initial_path@);
    let group = trimmed(form.group@);
    if has_control(path) {
        Some("initial path contains a control character"@)
    } else if form.is_ftp() && path.len() > 0 && has_low_byte(path) {
        Some(
            "unsafe path: "@
                + "remote path contains a control character (CRLF/NUL injection guard)"@,
        )
    } else if utf8_len(group) > MAX_GROUP_BYTES || has_control(group) {
        Some("group must be at most 256 characters and contain no controls"@)
    } else if tags_of(form.tags@) is Err {
        Some(tags_of(form.tags@)->Err_0)
    } else if timeout_of(form.timeout_secs@, limits) is Err {
        Some(timeout_of(form.timeout_secs@, limits)->Err_0)
    } else if form.keepalive(limits) is Err {
        Some(form.keepalive(limits)->Err_0)
    } else {
        None
    }
}

/// What is wrong with the way to the server and the proof of who is calling.
pub open spec fn access_refusal(form: EditorForm) -> Option<Seq<char>> {
    if filled(form.proxy_url@) is Some && proxy_of(trimmed(form.proxy_url@)) is Err {
        Some("invalid proxy: "@ + proxy_of(trimmed(form.proxy_url@))->Err_0)
    } else if form.jump() is Some && jump_reference(form.jump()->0) is Err {
        Some("SFTP/SSH error: "@ + jump_reference(form.jump()->0)->Err_0)
    } else if form.chosen_auth() is None {
        Some("invalid SFTP authentication mode: "@ + trimmed(form.sftp_auth@))
    } else if form.chosen_auth() == Some(SftpAuth::PrivateKey) && form.private_key() is None
        && !form.uses_ssh_config() {
        Some("choose an SSH private-key file or enable ~/.ssh/config IdentityFile"@)
    } else {
        None
    }
}

pub open spec fn concurrency_allowed(value: i32, limits: EditorLimits) -> bool {
    value == 0 || limits.min_concurrency <= value <= limits.max_concurrency
}

/// What is wrong with how files are transferred.
pub open spec fn transfer_refusal(form: EditorForm, limits: EditorLimits) -> Option<Seq<char>> {
    if !concurrency_allowed(form.transfer_concurrency, limits) {
        Some(
            "invalid per-server transfer limit: "@ + signed_decimal(
                form.transfer_concurrency as int,
            ),
        )
    } else if form.chosen_data_mode() is None {
        Some("invalid FTP data mode: "@ + form.ftp_data_mode@)
    } else if form.chosen_encoding() is None {
        Some("invalid FTP filename encoding: "@ + form.ftp_filename_encoding@)
    } else if form.chosen_tls_mode() is None {
        Some("invalid FTPS TLS mode: "@ + form.ftp_tls_mode@)
    } else if form.chosen_data_mode() == Some(FtpDataMode::Active) && (form.is_plaintext()
        || filled(form.proxy_url@) is Some) {
        Some("active data mode requires FTPS and cannot be combined with HTTP/SOCKS5 proxy"@)
    } else {
        None
    }
}

/// What is wrong with one path of the client identity.
pub open spec fn identity_path_refusal(path: Option<Seq<char>>) -> Option<Seq<char>> {
    match path {
        None => None,
        Some(p) => if utf8_len(p) > MAX_IDENTITY_PATH_BYTES || has_control(p) {
            Some("TLS client identity path is too long or contains a control character"@)
        } else if !(p.len() > 0 && p[0] == '/') {
            Some("TLS client identity paths must be absolute"@)
        } else {
            None
        },
    }
}

/// What is wrong with the trust in the server and the identity of the client.
pub open spec fn tls_refusal(form: EditorForm) -> Option<Seq<char>> {
    if form.has_tls() && filled(form.tls_pin@) is Some && canonical_pin(form.tls_pin@) is None {
        Some("saved TLS fingerprint is malformed"@)
    } else if form.client_cert() is Some != form.client_key() is Some {
        Some("choose both the TLS client certificate and its PKCS#8 private key"@)
    } else {
        first_refusal(
            identity_path_refusal(form.client_cert()),
            identity_path_refusal(form.client_key()),
        )
    }
}

/// Why the form does not describe a connection: the first thing that is wrong with it.
pub open spec fn draft_refusal(form: EditorForm, limits: EditorLimits) -> Option<Seq<char>> {
    first_refusal(
        endpoint_refusal(form),
        first_refusal(
            details_refusal(form, limits.connection),
            first_refusal(
                access_refusal(form),
                first_refusal(transfer_refusal(form, limits), tls_refusal(form)),
            ),
        ),
    )
}

/// `spec` is the connection that the form describes.
pub open spec fn describes(
    form: EditorForm,
    limits: EditorLimits,
    id: ConnectionId,
    spec: ConnectionSpec,
) -> bool {
    &&& spec.id == id
    &&& spec.name@ == trimmed(form.name@)
    &&& form.chosen_protocol() == Some(spec.protocol)
    &&& spec.host@ == trimmed(form.host@)
    &&& unsigned_value(trimmed(form.port@), 65535) == Some(spec.port as nat)
    &&& spec.user@ == trimmed(form.user@)
    &&& spec.initial_path@ == trimmed(form.initial_path@)
    &&& spec.group@ == trimmed(form.group@)
    &&& tags_of(form.tags@) == Ok::<Seq<Seq<char>>, Seq<char>>(texts(spec.tags@))
    &&& timeout_of(form.timeout_secs@, limits.connection) == Ok::<Option<u64>, Seq<char>>(
        spec.timeout_secs,
    )
    &&& form.keepalive(limits.connection) == Ok::<Option<u64>, Seq<char>>(
        spec.keepalive_interval_secs,
    )
    &&& form.chosen_data_mode() == Some(spec.ftp_data_mode)
    &&& form.chosen_encoding() == Some(spec.ftp_filename_encoding)
    &&& spec.ftp_tls_mode == if form.is_plaintext() {
        FtpTlsMode::Explicit
    } else {
        form.chosen_tls_mode()->0
    }
    &&& text_of(spec.proxy_url) == filled(form.proxy_url@)
    &&& spec.use_ssh_config == form.uses_ssh_config()
    &&& text_of(spec.ssh_proxy_jump) == form.jump()
    &&& spec.allow_plaintext_ftp == form.is_plaintext()
    &&& spec.accept_invalid_tls == (form.has_tls() && form.legacy_invalid_tls)
    &&& text_of(spec.tls_pinned_sha256) == if form.has_tls() && filled(form.tls_pin@) is Some {
        canonical_pin(form.tls_pin@)
    } else {
        None
    }
    &&& text_of(spec.tls_client_cert) == form.client_cert()
    &&& text_of(spec.tls_client_key) == form.client_key()
    &&& form.chosen_auth() == Some(spec.sftp_auth)
    &&& text_of(spec.sftp_private_key) == form.private_key()
    &&& spec.transfer_concurrency == if form.transfer_concurrency == 0 {
        None
    } else {
        Some(form.transfer_concurrency as usize)
    }
}

/// The password that goes with the connection; an agent and an interactive login have none.
pub open spec fn draft_password(form: EditorForm) -> Seq<char> {
    if form.chosen_auth() == Some(SftpAuth::Agent) || form.chosen_auth() == Some(
        SftpAuth::KeyboardInteractive,
    ) {
        Seq::empty()
    } else {
        form.password@
    }
}

fn check_details(form: &EditorForm, protocol: Protocol) -> (r: Result<(String, String), String>)
    requires
        form.chosen_protocol() == Some(protocol),
    ensures
        ({
            let path = trimmed(form.initial_path@);
            let group = trimmed(form.group@);
            match r {
                Ok(pair) => pair.0@ == path && pair.1@ == group && !has_control(path)
                    && !has_control(group) && utf8_len(group) <= MAX_GROUP_BYTES && !(
                form.is_ftp() && path.len() > 0 && has_low_byte(path)),
                Err(e) => forall|limits: ConnectionLimits|
                    #[trigger] details_refusal(*form, limits) == Some(e@),
            }
        }),
{
    let initial_path: String = trim_text(form.initial_path.as_str());
    if text_has_control(initial_path.as_str()) {
        return Err("initial path contains a control character".to_owned());
    }
    if protocol == Protocol::Ftp && byte_len(initial_path.as_str()) > 0 {
        proof {
            crate::text::lemma_empty_text(initial_path@);
        }
        match validate_ftp_path(initial_path.as_str()) {
            Ok(()) => {},
            Err(error) => {
                return Err(error.message());
            },
        }
    }
    proof {
        crate::text::lemma_empty_text(initial_path@);
    }
    let group: String = trim_text(form.group.as_str());
    if byte_len(group.as_str()) > MAX_GROUP_BYTES || text_has_control(group.as_str()) {
        return Err("group must be at most 256 characters and contain no controls".to_owned());
    }
    Ok((initial_path, group))
}

fn check_access(form: &EditorForm, protocol: Protocol) -> (r: Result<
    (Option<String>, Option<String>, SftpAuth, Option<String>),
    String,
>)
    requires
        form.chosen_protocol() == Some(protocol),
    ensures
        match r {
            Ok(parts) => access_refusal(*form) is None && text_of(parts.0) == filled(
                form.proxy_url@,
            ) && text_of(parts.1) == form.jump() && form.chosen_auth() == Some(parts.2)
                && text_of(parts.3) == form.private_key(),
            Err(e) => access_refusal(*form) == Some(e@),
        },
{
    let proxy_url: Option<String> = fill(form.proxy_url.as_str());
    match &proxy_url {
        Some(proxy) => {
            match validate_proxy_url(proxy.as_str()) {
                Ok(()) => {},
                Err(error) => {
                    return Err(plus("invalid proxy: ".to_owned(), error.as_str()));
                },
            }
        },
        None => {},
    }
    let ssh_proxy_jump: Option<String> = if protocol == Protocol::Sftp {
        fill(form.ssh_proxy_jump.as_str())
    } else {
        None
    };
    match &ssh_proxy_jump {
        Some(jump) => {
            match validate_ssh_proxy_jump(jump.as_str()) {
                Ok(()) => {},
                Err(error) => {
                    return Err(error);
                },
            }
        },
        None => {},
    }
    let sftp_auth: SftpAuth = if protocol == Protocol::Sftp {
        let word: String = trim_text(form.sftp_auth.as_str());
        match read_auth(word.as_str()) {
            Some(auth) => auth,
            None => {
                return Err(
                    plus("invalid SFTP authentication mode: ".to_owned(), word.as_str()),
                );
            },
        }
    } else {
        SftpAuth::Password
    };
    let sftp_private_key: Option<String> = if sftp_auth == SftpAuth::PrivateKey {
        fill(form.sftp_key_path.as_str())
    } else {
        None
    };
    let use_ssh_config: bool = protocol == Protocol::Sftp && form.use_ssh_config;
    if sftp_auth == SftpAuth::PrivateKey && sftp_private_key.is_none() && !use_ssh_config {
        return Err(
            "choose an SSH private-key file or enable ~/.ssh/config IdentityFile".to_owned(),
        );
    }
    Ok((proxy_url, ssh_proxy_jump, sftp_auth, sftp_private_key))
}

fn check_transfer(form: &EditorForm, protocol: Protocol, proxied: bool, limits: &EditorLimits) -> (r:
    Result<(Option<usize>, FtpDataMode, FtpFilenameEncoding, FtpTlsMode), String>)
    requires
        form.chosen_protocol() == Some(protocol),
        proxied == (filled(form.proxy_url@) is Some),
    ensures
        match r {
            Ok(parts) => transfer_refusal(*form, *limits) is None && parts.0 == (
            if form.transfer_concurrency == 0 {
                None
            } else {
                Some(form.transfer_concurrency as usize)
            }) && form.chosen_data_mode() == Some(parts.1) && form.chosen_encoding() == Some(
                parts.2,
            ) && form.chosen_tls_mode() == Some(parts.3),
            Err(e) => transfer_refusal(*form, *limits) == Some(e@),
        },
{
    let value: i32 = form.transfer_concurrency;
    let transfer_concurrency: Option<usize> = if value == 0 {
        None
    } else if value >= limits.min_concurrency as i32 && value <= limits.max_concurrency as i32 {
        Some(value as usize)
    } else {
        let number: String = string_of(&to_signed_decimal(value as i64));
        return Err(plus("invalid per-server transfer limit: ".to_owned(), number.as_str()));
    };
    let mut data_mode: FtpDataMode = FtpDataMode::Passive;
    let mut encoding: FtpFilenameEncoding = FtpFilenameEncoding::Auto;
    let mut tls_mode: FtpTlsMode = FtpTlsMode::Explicit;
    if protocol == Protocol::Ftp {
        if same_text(form.ftp_data_mode.as_str(), "passive") {
        } else if same_text(form.ftp_data_mode.as_str(), "active") {
            data_mode = FtpDataMode::Active;
        } else {
            return Err(
                plus("invalid FTP data mode: ".to_owned(), form.ftp_data_mode.as_str()),
            );
        }
        if same_text(form.ftp_filename_encoding.as_str(), "auto") {
        } else if same_text(form.ftp_filename_encoding.as_str(), "utf8") {
            encoding = FtpFilenameEncoding::Utf8;
        } else {
            return Err(
                plus(
                    "invalid FTP filename encoding: ".to_owned(),
                    form.ftp_filename_encoding.as_str(),
                ),
            );
        }
        if same_text(form.ftp_tls_mode.as_str(), "explicit") {
        } else if same_text(form.ftp_tls_mode.as_str(), "implicit") {
            tls_mode = FtpTlsMode::Implicit;
        } else {
            return Err(plus("invalid FTPS TLS mode: ".to_owned(), form.ftp_tls_mode.as_str()));
        }
    }
    let plaintext: bool = protocol == Protocol::Ftp && form.allow_plaintext_ftp;
    if data_mode == FtpDataMode::Active && (plaintext || proxied) {
        return Err(
            "active data mode requires FTPS and cannot be combined with HTTP/SOCKS5 proxy".to_owned(),
        );
    }
    Ok((transfer_concurrency, data_mode, encoding, tls_mode))
}

fn check_identity_path(path: &Option<String>) -> (r: Result<(), String>)
    ensures
        match r {
            Ok(_) => identity_path_refusal(text_of(*path)) is None,
            Err(e) => identity_path_refusal(text_of(*path)) == Some(e@),
        },
{
    match path {
        None => Ok(()),
        Some(p) => {
            let chars: Vec<char> = chars_of(p.as_str());
            if byte_len(p.as_str()) > MAX_IDENTITY_PATH_BYTES || any_control(&chars) {
                return Err(
                    "TLS client identity path is too long or contains a control character".to_owned(),
                );
            }
            if !(chars.len() > 0 && chars[0] == '/') {
                return Err("TLS client identity paths must be absolute".to_owned());
            }
            Ok(())
        },
    }
}

fn check_tls(form: &EditorForm, protocol: Protocol) -> (r: Result<
    (Option<String>, Option<String>, Option<String>),
    String,
>)
    requires
        form.chosen_protocol() == Some(protocol),
    ensures
        match r {
            Ok(parts) => tls_refusal(*form) is None && text_of(parts.0) == (if form.has_tls()
                && filled(form.tls_pin@) is Some {
                canonical_pin(form.tls_pin@)
            } else {
                None
            }) && text_of(parts.1) == form.client_cert() && text_of(parts.2) == form.client_key(),
            Err(e) => tls_refusal(*form) == Some(e@),
        },
{
    let has_tls: bool = protocol == Protocol::Ftp && !form.allow_plaintext_ftp;
    let mut pin: Option<String> = None;
    let mut cert: Option<String> = None;
    let mut key: Option<String> = None;
    if has_tls {
        if fill(form.tls_pin.as_str()).is_some() {
            pin = normalize_certificate_pin(form.tls_pin.as_str());
            if pin.is_none() {
                return Err("saved TLS fingerprint is malformed".to_owned());
            }
        }
        cert = fill(form.tls_client_cert.as_str());
        key = fill(form.tls_client_key.as_str());
    }
    if cert.is_some() != key.is_some() {
        return Err(
            "choose both the TLS client certificate and its PKCS#8 private key".to_owned(),
        );
    }
    match check_identity_path(&cert) {
        Ok(()) => {},
        Err(error) => {
            return Err(error);
        },
    }
    match check_identity_path(&key) {
        Ok(()) => {},
        Err(error) => {
            return Err(error);
        },
    }
    Ok((pin, cert, key))
}

/// Read the form as a connection and its password.
///
/// Plaintext is a distinct transport, not a fallback policy: the unused TLS mode is put in its
/// canonical form, so that saved metadata cannot ask for plaintext and implicit TLS at once.
pub fn editor_connection_draft(
    form: &EditorForm,
    connection_id: ConnectionId,
    limits: &EditorLimits,
) -> (r: Result<(ConnectionSpec, String), String>)
    ensures
        match r {
            Ok(draft) => draft_refusal(*form, *limits) is None && describes(
                *form,
                *limits,
                connection_id,
                draft.0,
            ) && draft.1@ == draft_password(*form),
            Err(e) => draft_refusal(*form, *limits) == Some(e@),
        },
{
    let name: Option<String> = fill(form.name.as_str());
    let host: Option<String> = fill(form.host.as_str());
    let user: Option<String> = fill(form.user.as_str());
    if name.is_none() || host.is_none() || user.is_none() {
        return Err("name, host and user are required".to_owned());
    }
    let name: String = name.unwrap();
    let host: String = host.unwrap();
    let user: String = user.unwrap();
    let protocol: Protocol = match Protocol::parse(form.protocol.as_str()) {
        Ok(protocol) => protocol,
        Err(error) => {
            return Err(plus("invalid protocol: ".to_owned(), error.as_str()));
        },
    };
    let port_field: Vec<char> = chars_of(form.port.as_str());
    let port: u16 = match parse_unsigned(trim(&port_field), 65535) {
        Some(n) => n as u16,
        None => {
            return Err("port must be a whole number from 0 to 65535".to_owned());
        },
    };
    let (initial_path, group) = match check_details(form, protocol) {
        Ok(parts) => parts,
        Err(error) => {
            assert(details_refusal(*form, limits.connection) == Some(error@));
            return Err(error);
        },
    };
    let tags: Vec<String> = match parse_editor_tags(form.tags.as_str()) {
        Ok(tags) => tags,
        Err(error) => {
            return Err(error);
        },
    };
    let timeout_secs: Option<u64> = match parse_editor_timeout(
        form.timeout_secs.as_str(),
        &limits.connection,
    ) {
        Ok(seconds) => seconds,
        Err(error) => {
            return Err(error);
        },
    };
    let keepalive_interval_secs: Option<u64> = if protocol == Protocol::Sftp {
        match parse_editor_keepalive(form.keepalive_secs.as_str(), &limits.connection) {
            Ok(seconds) => seconds,
            Err(error) => {
                return Err(error);
            },
        }
    } else {
        None
    };
    let (proxy_url, ssh_proxy_jump, sftp_auth, sftp_private_key) = match check_access(
        form,
        protocol,
    ) {
        Ok(parts) => parts,
        Err(error) => {
            return Err(error);
        },
    };
    let (transfer_concurrency, ftp_data_mode, ftp_filename_encoding, configured_tls_mode) =
        match check_transfer(form, protocol, proxy_url.is_some(), limits) {
        Ok(parts) => parts,
        Err(error) => {
            return Err(error);
        },
    };
    let (tls_pinned_sha256, tls_client_cert, tls_client_key) = match check_tls(form, protocol) {
        Ok(parts) => parts,
        Err(error) => {
            return Err(error);
        },
    };
    let allow_plaintext_ftp: bool = protocol == Protocol::Ftp && form.allow_plaintext_ftp;
    let ftp_tls_mode: FtpTlsMode = if allow_plaintext_ftp {
        FtpTlsMode::Explicit
    } else {
        configured_tls_mode
    };
    let password: String = if sftp_auth == SftpAuth::Agent || sftp_auth
        == SftpAuth::KeyboardInteractive {
        String::new()
    } else {
        form.password.clone()
    };
    let spec = ConnectionSpec {
        id: connection_id,
        name,
        protocol,
        host,
        port,
        user,
        initial_path,
        group,
        tags,
        timeout_secs,
        keepalive_interval_secs,
        ftp_data_mode,
        ftp_filename_encoding,
        ftp_tls_mode,
        proxy_url,
        use_ssh_config: protocol == Protocol::Sftp && form.use_ssh_config,
        ssh_proxy_jump,
        allow_plaintext_ftp,
        accept_invalid_tls: protocol == Protocol::Ftp && !allow_plaintext_ftp
            && form.legacy_invalid_tls,
        tls_pinned_sha256,
        tls_client_cert,
        tls_client_key,
        sftp_auth,
        sftp_private_key,
        transfer_concurrency,
    };
    Ok((spec, password))
}

} // verus!
