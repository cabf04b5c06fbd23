//! What the connection editor makes of its fields, and what it shows of a saved connection.

use vstd::prelude::*;

use crate::controllers::editor::{
    auth_named, data_mode_named, editor_connection_draft, encoding_named, filled, keepalive_of,
    tags_among, tags_of, timeout_of, tls_mode_named, EditorForm, EditorLimits,
};
use crate::controllers::editor_form::{edit_form, new_form};
use crate::model::connection::{
    ConnectionId, ConnectionSpec, FtpDataMode, FtpFilenameEncoding, FtpTlsMode, SftpAuth,
};
use crate::model::protocol::{protocol_named, protocol_word};
use crate::model::Protocol;
use crate::net::ftp::pin::canonical_pin;
use crate::net::proxy::proxy_of;
use crate::net::ssh_resolve::{jump_reference, ConnectionLimits};
use crate::numerals::{decimal, decimal_reads_back, unsigned_value};
use crate::pieces::{joined, lemma_trimmed_fixed, texts, trimmed};
use crate::text::{has_control, lowercase, text_of, utf8_len};

verus! {

/// A text field without the white space around it, where there is something in it.
pub open spec fn holds_field(saved: Option<String>, field: Seq<char>) -> bool {
    &&& saved is Some <==> trimmed(field).len() > 0
    &&& saved matches Some(s) ==> s@ == trimmed(field)
}

/// What was typed into a field is what the connection has, white space around it aside; no two fields
/// are mixed up.
pub proof fn drafts_hold_what_was_typed(
    id: ConnectionId,
    form: &EditorForm,
    limits: &EditorLimits,
    draft: (ConnectionSpec, String),
)
    requires
        call_ensures(
            editor_connection_draft,
            (form, id, limits),
            Ok::<(ConnectionSpec, String), String>(draft),
        ),
    ensures
        draft.0.id == id,
        draft.0.name@ == trimmed(form.name@),
        draft.0.host@ == trimmed(form.host@),
        draft.0.user@ == trimmed(form.user@),
        draft.0.initial_path@ == trimmed(form.initial_path@),
        draft.0.group@ == trimmed(form.group@),
        unsigned_value(trimmed(form.port@), 65535) == Some(draft.0.port as nat),
        protocol_named(protocol_word(form.protocol@)) == Some(draft.0.protocol),
        holds_field(draft.0.proxy_url, form.proxy_url@),
        form.transfer_concurrency == 0 ==> draft.0.transfer_concurrency is None,
        form.transfer_concurrency != 0 ==> (draft.0.transfer_concurrency matches Some(n) && n
            == form.transfer_concurrency),
        timeout_of(form.timeout_secs@, limits.connection) == Ok::<Option<u64>, Seq<char>>(
            draft.0.timeout_secs,
        ),
        tags_of(form.tags@) == Ok::<Seq<Seq<char>>, Seq<char>>(texts(draft.0.tags@)),
{
    let spec = draft.0;
    assert(text_of(spec.proxy_url) == filled(form.proxy_url@));
}

/// The fields of FTP are those of the form, and nothing of them is kept in a plaintext connection but
/// the data mode and the encoding.
pub proof fn ftp_drafts_hold_the_ftp_fields(
    id: ConnectionId,
    form: &EditorForm,
    limits: &EditorLimits,
    draft: (ConnectionSpec, String),
)
    requires
        call_ensures(
            editor_connection_draft,
            (form, id, limits),
            Ok::<(ConnectionSpec, String), String>(draft),
        ),
        draft.0.protocol == Protocol::Ftp,
    ensures
        draft.0.allow_plaintext_ftp == form.allow_plaintext_ftp,
        data_mode_named(form.ftp_data_mode@) == Some(draft.0.ftp_data_mode),
        encoding_named(form.ftp_filename_encoding@) == Some(draft.0.ftp_filename_encoding),
        !form.allow_plaintext_ftp ==> tls_mode_named(form.ftp_tls_mode@) == Some(draft.0.ftp_tls_mode),
        !form.allow_plaintext_ftp ==> draft.0.accept_invalid_tls == form.legacy_invalid_tls,
        !form.allow_plaintext_ftp ==> holds_field(draft.0.tls_client_cert, form.tls_client_cert@),
        !form.allow_plaintext_ftp ==> holds_field(draft.0.tls_client_key, form.tls_client_key@),
        !form.allow_plaintext_ftp && trimmed(form.tls_pin@).len() > 0 ==> (draft.0.tls_pinned_sha256
            matches Some(pin) && canonical_pin(form.tls_pin@) == Some(pin@)),
        !form.allow_plaintext_ftp && trimmed(form.tls_pin@).len() == 0 ==> draft.0.tls_pinned_sha256
            is None,
        draft.1@ == form.password@,
{
    let spec = draft.0;
    assert(text_of(spec.tls_pinned_sha256) == if !form.allow_plaintext_ftp && filled(form.tls_pin@)
        is Some {
        canonical_pin(form.tls_pin@)
    } else {
        None
    });
    assert(!form.allow_plaintext_ftp ==> text_of(spec.tls_client_cert) == filled(
        form.tls_client_cert@,
    ));
    assert(!form.allow_plaintext_ftp ==> text_of(spec.tls_client_key) == filled(form.tls_client_key@));
}

/// The fields of SFTP are those of the form; a password goes along with the logins that have one.
pub proof fn sftp_drafts_hold_the_sftp_fields(
    id: ConnectionId,
    form: &EditorForm,
    limits: &EditorLimits,
    draft: (ConnectionSpec, String),
)
    requires
        call_ensures(
            editor_connection_draft,
            (form, id, limits),
            Ok::<(ConnectionSpec, String), String>(draft),
        ),
        draft.0.protocol == Protocol::Sftp,
    ensures
        draft.0.use_ssh_config == form.use_ssh_config,
        holds_field(draft.0.ssh_proxy_jump, form.ssh_proxy_jump@),
        auth_named(trimmed(form.sftp_auth@)) == Some(draft.0.sftp_auth),
        draft.0.sftp_auth == SftpAuth::PrivateKey ==> holds_field(
            draft.0.sftp_private_key,
            form.sftp_key_path@,
        ),
        draft.0.sftp_auth != SftpAuth::PrivateKey ==> draft.0.sftp_private_key is None,
        keepalive_of(form.keepalive_secs@, limits.connection) == Ok::<Option<u64>, Seq<char>>(
            draft.0.keepalive_interval_secs,
        ),
        draft.0.sftp_auth == SftpAuth::Agent || draft.0.sftp_auth == SftpAuth::KeyboardInteractive
            ==> draft.1@.len() == 0,
        draft.0.sftp_auth == SftpAuth::Password || draft.0.sftp_auth == SftpAuth::PrivateKey
            ==> draft.1@ == form.password@,
{
    let spec = draft.0;
    assert(text_of(spec.ssh_proxy_jump) == filled(form.ssh_proxy_jump@));
    assert(spec.sftp_auth == SftpAuth::PrivateKey ==> text_of(spec.sftp_private_key) == filled(
        form.sftp_key_path@,
    ));
    assert(spec.sftp_auth != SftpAuth::PrivateKey ==> text_of(spec.sftp_private_key) is None);
}

/// A form that lacks something, or holds something that cannot be, describes no connection.
pub proof fn odd_drafts_are_refused(
    id: ConnectionId,
    form: &EditorForm,
    limits: &EditorLimits,
    r: Result<(ConnectionSpec, String), String>,
)
    requires
        call_ensures(editor_connection_draft, (form, id, limits), r),
    ensures
        trimmed(form.name@).len() == 0 || trimmed(form.host@).len() == 0 || trimmed(form.user@).len()
            == 0 ==> (r matches Err(e) && e@ == "name, host and user are required"@),
        protocol_named(protocol_word(form.protocol@)) is None ==> r is Err,
        unsigned_value(trimmed(form.port@), 65535) is None ==> r is Err,
        has_control(trimmed(form.initial_path@)) ==> r is Err,
        utf8_len(trimmed(form.group@)) > 256 || has_control(trimmed(form.group@)) ==> r is Err,
        trimmed(form.proxy_url@).len() > 0 && proxy_of(trimmed(form.proxy_url@)) is Err ==> r is Err,
        protocol_named(protocol_word(form.protocol@)) == Some(Protocol::Sftp) && trimmed(
            form.ssh_proxy_jump@,
        ).len() > 0 && jump_reference(trimmed(form.ssh_proxy_jump@)) is Err ==> r is Err,
        protocol_named(protocol_word(form.protocol@)) == Some(Protocol::Sftp) && trimmed(
            form.sftp_auth@,
        ) == "private_key"@ && trimmed(form.sftp_key_path@).len() == 0 && !form.use_ssh_config ==> r
            is Err,
        form.transfer_concurrency < 0 || form.transfer_concurrency > limits.max_concurrency ==> r is Err,
        0 < form.transfer_concurrency < limits.min_concurrency ==> r is Err,
        protocol_named(protocol_word(form.protocol@)) == Some(Protocol::Ftp) && form.ftp_data_mode@
            == "active"@ && (form.allow_plaintext_ftp || trimmed(form.proxy_url@).len() > 0) ==> r
            is Err,
        protocol_named(protocol_word(form.protocol@)) == Some(Protocol::Ftp)
            && !form.allow_plaintext_ftp && (trimmed(form.tls_client_cert@).len() > 0) != (trimmed(
            form.tls_client_key@,
        ).len() > 0) ==> r is Err,
        protocol_named(protocol_word(form.protocol@)) == Some(Protocol::Ftp)
            && !form.allow_plaintext_ftp && trimmed(form.tls_pin@).len() > 0 && canonical_pin(
            form.tls_pin@,
        ) is None ==> r is Err,
{
    lemma_words();
}

proof fn lemma_words()
    ensures
        "password"@ != "private_key"@,
        "password"@ != "agent"@,
        "password"@ != "keyboard_interactive"@,
        "private_key"@ != "agent"@,
        "private_key"@ != "keyboard_interactive"@,
        "agent"@ != "keyboard_interactive"@,
        "passive"@ != "active"@,
        "auto"@ != "utf8"@,
        "explicit"@ != "implicit"@,
{
    reveal_strlit("password");
    reveal_strlit("private_key");
    reveal_strlit("agent");
    reveal_strlit("keyboard_interactive");
    reveal_strlit("passive");
    reveal_strlit("active");
    reveal_strlit("auto");
    reveal_strlit("utf8");
    reveal_strlit("explicit");
    reveal_strlit("implicit");
    assert("password"@.len() == 8);
    assert("private_key"@.len() == 11);
    assert("agent"@.len() == 5);
    assert("keyboard_interactive"@.len() == 20);
    assert("passive"@.len() == 7);
    assert("active"@.len() == 6);
    assert("auto"@[0] != "utf8"@[0]);
    assert("explicit"@[0] != "implicit"@[0]);
}

/// The words of the form stand for what they say, and no other word for anything.
pub proof fn form_words_stand_for_what_they_say(word: Seq<char>)
    ensures
        auth_named(word) == Some(SftpAuth::Password) <==> word == "password"@,
        auth_named(word) == Some(SftpAuth::PrivateKey) <==> word == "private_key"@,
        auth_named(word) == Some(SftpAuth::Agent) <==> word == "agent"@,
        auth_named(word) == Some(SftpAuth::KeyboardInteractive) <==> word == "keyboard_interactive"@,
        data_mode_named(word) == Some(FtpDataMode::Passive) <==> word == "passive"@,
        data_mode_named(word) == Some(FtpDataMode::Active) <==> word == "active"@,
        encoding_named(word) == Some(FtpFilenameEncoding::Auto) <==> word == "auto"@,
        encoding_named(word) == Some(FtpFilenameEncoding::Utf8) <==> word == "utf8"@,
        tls_mode_named(word) == Some(FtpTlsMode::Explicit) <==> word == "explicit"@,
        tls_mode_named(word) == Some(FtpTlsMode::Implicit) <==> word == "implicit"@,
{
    lemma_words();
}

/// A number of seconds is taken as it is where it lies in the range of the setting; zero and an empty
/// field have meanings of their own.
pub proof fn seconds_are_taken_as_they_are(n: u64, limits: &ConnectionLimits)
    ensures
        n == 0 ==> timeout_of(decimal(n as nat), *limits) == Ok::<Option<u64>, Seq<char>>(None),
        n > 0 && limits.min_timeout <= n <= limits.max_timeout ==> timeout_of(
            decimal(n as nat),
            *limits,
        ) == Ok::<Option<u64>, Seq<char>>(Some(n)),
        n > 0 && (n < limits.min_timeout || n > limits.max_timeout) ==> timeout_of(
            decimal(n as nat),
            *limits,
        ) is Err,
        n == 0 || limits.min_keepalive <= n <= limits.max_keepalive ==> keepalive_of(
            decimal(n as nat),
            *limits,
        ) == Ok::<Option<u64>, Seq<char>>(Some(n)),
        n > 0 && (n < limits.min_keepalive || n > limits.max_keepalive) ==> keepalive_of(
            decimal(n as nat),
            *limits,
        ) is Err,
        keepalive_of(Seq::empty(), *limits) == Ok::<Option<u64>, Seq<char>>(None),
{
    let s = decimal(n as nat);
    decimal_reads_back(n as nat);
    assert(s.len() > 0);
    assert(crate::numerals::is_digit(s[0]));
    assert(crate::numerals::is_digit(s[s.len() - 1]));
    lemma_trimmed_fixed(s);
    lemma_trimmed_fixed(Seq::<char>::empty());
}

/// A further piece of the list adds its tag behind those before it, white space around it aside; an
/// empty one adds nothing, and one that differs from an earlier tag by letter case alone, is too long
/// or holds control characters refuses the list.
pub proof fn tags_are_added_one_by_one(
    parts: Seq<Seq<char>>,
    before: Seq<Seq<char>>,
    piece: Seq<char>,
)
    ensures
        tags_among(parts, before) is Err ==> tags_among(parts.push(piece), before) is Err,
        tags_among(parts, before) matches Ok(tags) ==> {
            let next = tags_among(parts.push(piece), before);
            let tag = trimmed(piece);
            &&& tag.len() == 0 ==> next == Ok::<Seq<Seq<char>>, Seq<char>>(tags)
            &&& tag.len() > 0 && (utf8_len(tag) > 128 || has_control(tag)) ==> next is Err
            &&& tag.len() > 0 && (exists|i: int|
                0 <= i < tags.len() && lowercase(#[trigger] tags[i]) == lowercase(tag)) ==> next is Err
            &&& tag.len() > 0 && tags.len() >= 32 ==> next is Err
            &&& tag.len() > 0 && utf8_len(tag) <= 128 && !has_control(tag) && tags.len() < 32 && (
            forall|i: int| 0 <= i < tags.len() ==> lowercase(#[trigger] tags[i]) != lowercase(tag))
                ==> next == Ok::<Seq<Seq<char>>, Seq<char>>(tags.push(tag))
        },
    decreases parts.len(),
{
    if parts.len() == 0 {
        assert(parts.push(piece).skip(1) =~= Seq::<Seq<char>>::empty());
        reveal_with_fuel(tags_among, 2);
    } else {
        assert(parts.push(piece)[0] == parts[0]);
        assert(parts.push(piece).skip(1) =~= parts.skip(1).push(piece));
        tags_are_added_one_by_one(parts.skip(1), before, piece);
        tags_are_added_one_by_one(parts.skip(1), before.push(trimmed(parts[0])), piece);
    }
}

/// A saved text, or an empty field for none.
pub open spec fn shown_in(field: Seq<char>, saved: Option<String>) -> bool {
    match saved {
        Some(s) => field == s@,
        None => field.len() == 0,
    }
}

/// A saved connection is shown field by field as it is.
pub proof fn forms_show_the_connection(spec: &ConnectionSpec, password: String, form: EditorForm)
    requires
        call_ensures(edit_form, (spec, password), form),
    ensures
        form.name@ == spec.name@,
        form.host@ == spec.host@,
        form.user@ == spec.user@,
        form.port@ == decimal(spec.port as nat),
        form.password@ == password@,
        form.initial_path@ == spec.initial_path@,
        form.group@ == spec.group@,
        form.tags@ == joined(texts(spec.tags@), ", "@),
        spec.protocol == Protocol::Ftp ==> form.protocol@ == "ftp"@,
        spec.protocol == Protocol::Sftp ==> form.protocol@ == "sftp"@,
        spec.timeout_secs matches Some(n) ==> form.timeout_secs@ == decimal(n as nat),
        spec.timeout_secs is None ==> form.timeout_secs@ == decimal(0),
        spec.keepalive_interval_secs matches Some(n) ==> form.keepalive_secs@ == decimal(n as nat),
        spec.keepalive_interval_secs is None ==> form.keepalive_secs@.len() == 0,
        spec.ftp_data_mode == FtpDataMode::Passive ==> form.ftp_data_mode@ == "passive"@,
        spec.ftp_data_mode == FtpDataMode::Active ==> form.ftp_data_mode@ == "active"@,
        spec.ftp_filename_encoding == FtpFilenameEncoding::Auto ==> form.ftp_filename_encoding@
            == "auto"@,
        spec.ftp_filename_encoding == FtpFilenameEncoding::Utf8 ==> form.ftp_filename_encoding@
            == "utf8"@,
        spec.ftp_tls_mode == FtpTlsMode::Explicit ==> form.ftp_tls_mode@ == "explicit"@,
        spec.ftp_tls_mode == FtpTlsMode::Implicit ==> form.ftp_tls_mode@ == "implicit"@,
        spec.sftp_auth == SftpAuth::Password ==> form.sftp_auth@ == "password"@,
        spec.sftp_auth == SftpAuth::PrivateKey ==> form.sftp_auth@ == "private_key"@,
        spec.sftp_auth == SftpAuth::Agent ==> form.sftp_auth@ == "agent"@,
        spec.sftp_auth == SftpAuth::KeyboardInteractive ==> form.sftp_auth@
            == "keyboard_interactive"@,
        shown_in(form.proxy_url@, spec.proxy_url),
        shown_in(form.ssh_proxy_jump@, spec.ssh_proxy_jump),
        shown_in(form.sftp_key_path@, spec.sftp_private_key),
        shown_in(form.tls_pin@, spec.tls_pinned_sha256),
        shown_in(form.tls_client_cert@, spec.tls_client_cert),
        shown_in(form.tls_client_key@, spec.tls_client_key),
        form.use_ssh_config == spec.use_ssh_config,
        form.allow_plaintext_ftp == spec.allow_plaintext_ftp,
        form.legacy_invalid_tls == spec.accept_invalid_tls,
        spec.transfer_concurrency is None ==> form.transfer_concurrency == 0,
        spec.transfer_concurrency matches Some(n) ==> (n <= 4 ==> form.transfer_concurrency == n),
        spec.transfer_concurrency matches Some(n) ==> (n > 4 ==> form.transfer_concurrency == 4),
{
}

/// A new connection starts as FTP over explicit TLS in passive mode, with a password.
pub proof fn new_connections_start_secure(form: EditorForm)
    requires
        call_ensures(new_form, (), form),
    ensures
        form.protocol@ == "ftp"@,
        form.port@ == "21"@,
        form.ftp_tls_mode@ == "explicit"@,
        form.ftp_data_mode@ == "passive"@,
        form.sftp_auth@ == "password"@,
        !form.allow_plaintext_ftp,
        !form.legacy_invalid_tls,
        form.host@ == ""@ && form.user@ == ""@ && form.password@ == ""@,
{
}

} // verus!
