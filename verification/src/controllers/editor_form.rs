//! Filling the form in which a connection is edited.

use vstd::prelude::*;

use crate::controllers::editor::{
    auth_named, auth_text, auth_word, data_mode_named, data_mode_text, data_mode_word, describes,
    draft_password, draft_refusal, encoding_named, encoding_text, encoding_word, filled,
    has_tag, tags_allowed, tags_among, tags_of, tls_mode_named, tls_mode_text, tls_mode_word,
    EditorForm, EditorLimits,
};
use crate::model::connection::{
    ConnectionId, ConnectionSpec, FtpDataMode, FtpFilenameEncoding, FtpTlsMode, SftpAuth,
};
use crate::model::protocol::Protocol;
use crate::net::ftp::pin::canonical_pin;
use crate::numerals::{decimal, decimal_reads_back, is_digit, number_text, unsigned_value};
use crate::pieces::{
    holds_none_of, join, joined, lemma_list_splits, lemma_one_piece,
    lemma_pieces_hold_no_separator, lemma_trimmed, lemma_trimmed_after_space, lemma_trimmed_fixed,
    spaced, split_any, texts, trimmed, views,
};
use crate::text::{chars_of, lowercase, string_of, text_of};

verus! {

/// The most files at once that the form offers.
pub const MAX_OFFERED_CONCURRENCY: usize = 4;

/// The form for a connection that does not exist yet.
pub fn new_form() -> (r: EditorForm)
    ensures
        r.name@ == ""@,
        r.protocol@ == "ftp"@,
        r.host@ == ""@,
        r.port@ == "21"@,
        r.user@ == ""@,
        r.password@ == ""@,
        r.initial_path@ == ""@,
        r.group@ == ""@,
        r.tags@ == ""@,
        r.timeout_secs@ == "0"@,
        r.keepalive_secs@ == ""@,
        r.ftp_data_mode@ == "passive"@,
        r.ftp_filename_encoding@ == "auto"@,
        r.ftp_tls_mode@ == "explicit"@,
        r.proxy_url@ == ""@,
        !r.use_ssh_config,
        r.ssh_proxy_jump@ == ""@,
        r.sftp_auth@ == "password"@,
        r.sftp_key_path@ == ""@,
        r.transfer_concurrency == 0,
        !r.allow_plaintext_ftp,
        r.tls_pin@ == ""@,
        r.tls_client_cert@ == ""@,
        r.tls_client_key@ == ""@,
        !r.legacy_invalid_tls,
{
    EditorForm {
        name: "".to_owned(),
        protocol: "ftp".to_owned(),
        host: "".to_owned(),
        port: "21".to_owned(),
        user: "".to_owned(),
        password: "".to_owned(),
        initial_path: "".to_owned(),
        group: "".to_owned(),
        tags: "".to_owned(),
        timeout_secs: "0".to_owned(),
        keepalive_secs: "".to_owned(),
        ftp_data_mode: "passive".to_owned(),
        ftp_filename_encoding: "auto".to_owned(),
        ftp_tls_mode: "explicit".to_owned(),
        proxy_url: "".to_owned(),
        use_ssh_config: false,
        ssh_proxy_jump: "".to_owned(),
        sftp_auth: "password".to_owned(),
        sftp_key_path: "".to_owned(),
        transfer_concurrency: 0,
        allow_plaintext_ftp: false,
        tls_pin: "".to_owned(),
        tls_client_cert: "".to_owned(),
        tls_client_key: "".to_owned(),
        legacy_invalid_tls: false,
    }
}

/// A text, or nothing.
pub open spec fn text_or_empty(t: Option<String>) -> Seq<char> {
    match t {
        Some(s) => s@,
        None => Seq::empty(),
    }
}

fn or_empty(t: &Option<String>) -> (r: String)
    ensures
        r@ == text_or_empty(*t),
{
    match t {
        Some(s) => s.clone(),
        None => String::new(),
    }
}

pub open spec fn number_or(n: Option<u64>, default: Seq<char>) -> Seq<char> {
    match n {
        Some(k) => decimal(k as nat),
        None => default,
    }
}

pub open spec fn offered_concurrency(limit: Option<usize>) -> i32 {
    match limit {
        None => 0,
        Some(n) => if n <= MAX_OFFERED_CONCURRENCY {
            n as i32
        } else {
            4
        },
    }
}

/// The form shows the connection and its password.
pub open spec fn shows(form: EditorForm, spec: ConnectionSpec, password: Seq<char>) -> bool {
    &&& form.name@ == spec.name@
    &&& form.protocol@ == spec.protocol.name()
    &&& form.host@ == spec.host@
    &&& form.port@ == decimal(spec.port as nat)
    &&& form.user@ == spec.user@
    &&& form.password@ == password
    &&& form.initial_path@ == spec.initial_path@
    &&& form.group@ == spec.group@
    &&& form.tags@ == joined(texts(spec.tags@), ", "@)
    &&& form.timeout_secs@ == number_or(spec.timeout_secs, decimal(0))
    &&& form.keepalive_secs@ == number_or(spec.keepalive_interval_secs, Seq::empty())
    &&& form.ftp_data_mode@ == data_mode_word(spec.ftp_data_mode)
    &&& form.ftp_filename_encoding@ == encoding_word(spec.ftp_filename_encoding)
    &&& form.ftp_tls_mode@ == tls_mode_word(spec.ftp_tls_mode)
    &&& form.proxy_url@ == text_or_empty(spec.proxy_url)
    &&& form.use_ssh_config == spec.use_ssh_config
    &&& form.ssh_proxy_jump@ == text_or_empty(spec.ssh_proxy_jump)
    &&& form.sftp_auth@ == auth_word(spec.sftp_auth)
    &&& form.sftp_key_path@ == text_or_empty(spec.sftp_private_key)
    &&& form.transfer_concurrency == offered_concurrency(spec.transfer_concurrency)
    &&& form.allow_plaintext_ftp == spec.allow_plaintext_ftp
    &&& form.tls_pin@ == text_or_empty(spec.tls_pinned_sha256)
    &&& form.tls_client_cert@ == text_or_empty(spec.tls_client_cert)
    &&& form.tls_client_key@ == text_or_empty(spec.tls_client_key)
    &&& form.legacy_invalid_tls == spec.accept_invalid_tls
}

/// Whether a saved password is looked up when the connection is edited: an agent and an interactive
/// login have none.
pub fn reads_password(spec: &ConnectionSpec) -> (r: bool)
    ensures
        r == !(spec.sftp_auth == SftpAuth::Agent || spec.sftp_auth
            == SftpAuth::KeyboardInteractive),
{
    !(spec.sftp_auth == SftpAuth::Agent || spec.sftp_auth == SftpAuth::KeyboardInteractive)
}

fn join_tags(tags: &Vec<String>) -> (r: String)
    ensures
        r@ == joined(texts(tags@), ", "@),
{
    let mut parts: Vec<Vec<char>> = Vec::new();
    let mut i: usize = 0;
    while i < tags.len()
        invariant
            i <= tags@.len(),
            parts@.len() == i,
            forall|j: int| 0 <= j < i ==> (#[trigger] parts@[j])@ == tags@[j]@,
        decreases tags@.len() - i,
    {
        parts.push(chars_of(tags[i].as_str()));
        i += 1;
    }
    assert(views(parts@) =~= texts(tags@));
    let separator: Vec<char> = chars_of(", ");
    string_of(&join(&parts, &separator))
}

/// The form in which a saved connection is edited.
pub fn edit_form(spec: &ConnectionSpec, password: String) -> (r: EditorForm)
    ensures
        shows(r, *spec, password@),
{
    let transfer_concurrency: i32 = match spec.transfer_concurrency {
        None => 0,
        Some(n) => if n <= MAX_OFFERED_CONCURRENCY {
            n as i32
        } else {
            4
        },
    };
    EditorForm {
        name: spec.name.clone(),
        protocol: spec.protocol.to_string(),
        host: spec.host.clone(),
        port: number_text(spec.port as u64),
        user: spec.user.clone(),
        password,
        initial_path: spec.initial_path.clone(),
        group: spec.group.clone(),
        tags: join_tags(&spec.tags),
        timeout_secs: match spec.timeout_secs {
            Some(seconds) => number_text(seconds),
            None => number_text(0),
        },
        keepalive_secs: match spec.keepalive_interval_secs {
            Some(seconds) => number_text(seconds),
            None => String::new(),
        },
        ftp_data_mode: data_mode_text(spec.ftp_data_mode).to_owned(),
        ftp_filename_encoding: encoding_text(spec.ftp_filename_encoding).to_owned(),
        ftp_tls_mode: tls_mode_text(spec.ftp_tls_mode).to_owned(),
        proxy_url: or_empty(&spec.proxy_url),
        use_ssh_config: spec.use_ssh_config,
        ssh_proxy_jump: or_empty(&spec.ssh_proxy_jump),
        sftp_auth: auth_text(spec.sftp_auth).to_owned(),
        sftp_key_path: or_empty(&spec.sftp_private_key),
        transfer_concurrency,
        allow_plaintext_ftp: spec.allow_plaintext_ftp,
        tls_pin: or_empty(&spec.tls_pinned_sha256),
        tls_client_cert: or_empty(&spec.tls_client_cert),
        tls_client_key: or_empty(&spec.tls_client_key),
        legacy_invalid_tls: spec.accept_invalid_tls,
    }
}

// --- laws --------------------------------------------------------------------------------------

/// A connection in plaintext keeps no trace of TLS: no trusted certificate, no exception, no client
/// identity and no implicit mode.
pub proof fn plaintext_drafts_hold_no_tls_state(
    form: EditorForm,
    limits: EditorLimits,
    id: ConnectionId,
    spec: ConnectionSpec,
)
    requires
        describes(form, limits, id, spec),
        spec.allow_plaintext_ftp,
    ensures
        spec.protocol == Protocol::Ftp,
        spec.ftp_tls_mode == FtpTlsMode::Explicit,
        spec.tls_pinned_sha256 is None,
        !spec.accept_invalid_tls,
        spec.tls_client_cert is None,
        spec.tls_client_key is None,
{
}

/// What only one protocol has is never saved with the other.
pub proof fn drafts_hold_nothing_of_the_other_protocol(
    form: EditorForm,
    limits: EditorLimits,
    id: ConnectionId,
    spec: ConnectionSpec,
)
    requires
        describes(form, limits, id, spec),
    ensures
        spec.protocol == Protocol::Ftp ==> spec.keepalive_interval_secs is None
            && !spec.use_ssh_config && spec.ssh_proxy_jump is None && spec.sftp_auth
            == SftpAuth::Password && spec.sftp_private_key is None,
        spec.protocol == Protocol::Sftp ==> !spec.allow_plaintext_ftp && !spec.accept_invalid_tls
            && spec.tls_pinned_sha256 is None && spec.tls_client_cert is None
            && spec.tls_client_key is None && spec.ftp_data_mode == FtpDataMode::Passive
            && spec.ftp_filename_encoding == FtpFilenameEncoding::Auto && spec.ftp_tls_mode
            == FtpTlsMode::Explicit,
{
}

/// Every word of the form stands for the value that it was written for.
proof fn lemma_words_read_back(
    auth: SftpAuth,
    data_mode: FtpDataMode,
    encoding: FtpFilenameEncoding,
    tls_mode: FtpTlsMode,
)
    ensures
        auth_named(trimmed(auth_word(auth))) == Some(auth),
        data_mode_named(data_mode_word(data_mode)) == Some(data_mode),
        encoding_named(encoding_word(encoding)) == Some(encoding),
        tls_mode_named(tls_mode_word(tls_mode)) == Some(tls_mode),
{
    reveal_strlit("password");
    reveal_strlit("private_key");
    reveal_strlit("agent");
    reveal_strlit("keyboard_interactive");
    reveal_strlit("passive");
    reveal_strlit("active");
    reveal_strlit("auto");
    reveal_strlit("utf8");
    reveal_strlit("explicit");
    reveal_strlit("implicit");
    lemma_trimmed_fixed(auth_word(auth));
    assert("password"@.len() == 8);
    assert("private_key"@.len() == 11);
    assert("agent"@.len() == 5);
    assert("keyboard_interactive"@.len() == 20);
    assert("passive"@.len() == 7);
    assert("active"@.len() == 6);
    assert("auto"@[0] == 'a' && "utf8"@[0] == 'u');
    assert("explicit"@[0] == 'e' && "implicit"@[0] == 'i');
}

/// A number in a field reads back as that number.
proof fn lemma_number_reads_back(n: nat, max: nat)
    requires
        n <= max,
    ensures
        unsigned_value(trimmed(decimal(n)), max) == Some(n),
        trimmed(decimal(n)).len() > 0,
{
    decimal_reads_back(n);
    let text = decimal(n);
    assert(is_digit(text[0]));
    assert(is_digit(text.last()));
    lemma_trimmed_fixed(text);
}

/// A field that was read and written again reads the same.
proof fn lemma_filled_again(s: Seq<char>, saved: Option<String>)
    requires
        text_of(saved) == filled(s),
    ensures
        filled(text_or_empty(saved)) == filled(s),
{
    lemma_trimmed(s);
    lemma_trimmed_fixed(Seq::empty());
}

/// A tag as it stands in a list: trimmed, not empty and without a comma.
spec fn is_listed_tag(tag: Seq<char>) -> bool {
    &&& tag.len() > 0
    &&& trimmed(tag) == tag
    &&& !tag.contains(',')
}

proof fn lemma_tags_are_listed(parts: Seq<Seq<char>>, tags: Seq<Seq<char>>)
    requires
        forall|i: int| 0 <= i < parts.len() ==> !(#[trigger] parts[i]).contains(','),
        forall|i: int| 0 <= i < tags.len() ==> is_listed_tag(#[trigger] tags[i]),
    ensures
        tags_among(parts, tags) matches Ok(all) ==> forall|i: int|
            0 <= i < all.len() ==> is_listed_tag(#[trigger] all[i]),
    decreases parts.len(),
{
    if parts.len() > 0 && tags_among(parts, tags) is Ok {
        let tag = trimmed(parts[0]);
        let rest = parts.skip(1);
        lemma_trimmed(parts[0]);
        assert forall|i: int| 0 <= i < rest.len() implies !(#[trigger] rest[i]).contains(',') by {
            assert(rest[i] == parts[i + 1]);
        }
        if tag.len() == 0 {
            lemma_tags_are_listed(rest, tags);
        } else {
            assert(!parts[0].contains(','));
            assert(is_listed_tag(tag));
            lemma_tags_are_listed(rest, tags.push(tag));
        }
    }
}

proof fn lemma_spaced_tags_read(tags: Seq<Seq<char>>, n: int)
    requires
        tags_allowed(tags),
        forall|i: int| 0 <= i < tags.len() ==> is_listed_tag(#[trigger] tags[i]),
        0 <= n <= tags.len(),
    ensures
        tags_among(spaced(tags).skip(n), tags.take(n)) == Ok::<Seq<Seq<char>>, Seq<char>>(tags),
    decreases tags.len() - n,
{
    let rest = spaced(tags).skip(n);
    if n == tags.len() {
        assert(tags.take(n) =~= tags);
    } else {
        let tag = tags[n];
        assert(is_listed_tag(tag));
        if n > 0 {
            lemma_trimmed_after_space(tag);
        }
        assert(rest[0] == spaced(tags)[n]);
        assert(trimmed(rest[0]) == tag);
        assert(rest.skip(1) =~= spaced(tags).skip(n + 1));
        assert(tags.take(n).push(tag) =~= tags.take(n + 1));
        assert(!has_tag(tags.take(n), tag)) by {
            if has_tag(tags.take(n), tag) {
                let i = choose|i: int|
                    0 <= i < tags.take(n).len() && lowercase(#[trigger] tags.take(n)[i])
                        == lowercase(tag);
                assert(lowercase(tags[i]) != lowercase(tags[n]));
            }
        }
        lemma_spaced_tags_read(tags, n + 1);
    }
}

/// A list of tags that was accepted and written again is read as the same tags.
pub proof fn tags_read_back(raw: Seq<char>, tags: Seq<Seq<char>>)
    requires
        tags_of(raw) == Ok::<Seq<Seq<char>>, Seq<char>>(tags),
    ensures
        tags_of(joined(tags, ", "@)) == Ok::<Seq<Seq<char>>, Seq<char>>(tags),
{
    let comma = seq![','];
    assert(comma[0] == ',');
    crate::controllers::editor::accepted_tags_are_distinct(raw);
    lemma_pieces_hold_no_separator(raw, comma, ',');
    lemma_tags_are_listed(split_any(raw, comma), Seq::empty());
    if tags.len() == 0 {
        let none = joined(tags, ", "@);
        lemma_one_piece(none, comma);
        lemma_trimmed_fixed(none);
        reveal_with_fuel(tags_among, 2);
        assert(tags =~= Seq::<Seq<char>>::empty());
    } else {
        assert forall|i: int| 0 <= i < tags.len() implies holds_none_of(
            #[trigger] tags[i],
            comma,
        ) by {
            assert(is_listed_tag(tags[i]));
            assert forall|j: int| 0 <= j < tags[i].len() implies !comma.contains(
                #[trigger] tags[i][j],
            ) by {
                assert(tags[i].contains(tags[i][j]));
            }
        }
        lemma_list_splits(tags, comma);
        lemma_spaced_tags_read(tags, 0);
        assert(spaced(tags).skip(0) =~= spaced(tags));
        assert(tags.take(0) =~= Seq::<Seq<char>>::empty());
    }
}

/// Two connections agree in every field, as far as a form can tell.
pub open spec fn agree(a: ConnectionSpec, b: ConnectionSpec) -> bool {
    &&& a.id == b.id
    &&& a.name@ == b.name@
    &&& a.protocol == b.protocol
    &&& a.host@ == b.host@
    &&& a.port == b.port
    &&& a.user@ == b.user@
    &&& a.initial_path@ == b.initial_path@
    &&& a.group@ == b.group@
    &&& texts(a.tags@) == texts(b.tags@)
    &&& a.timeout_secs == b.timeout_secs
    &&& a.keepalive_interval_secs == b.keepalive_interval_secs
    &&& a.ftp_data_mode == b.ftp_data_mode
    &&& a.ftp_filename_encoding == b.ftp_filename_encoding
    &&& a.ftp_tls_mode == b.ftp_tls_mode
    &&& text_of(a.proxy_url) == text_of(b.proxy_url)
    &&& a.use_ssh_config == b.use_ssh_config
    &&& text_of(a.ssh_proxy_jump) == text_of(b.ssh_proxy_jump)
    &&& a.allow_plaintext_ftp == b.allow_plaintext_ftp
    &&& a.accept_invalid_tls == b.accept_invalid_tls
    &&& text_of(a.tls_pinned_sha256) == text_of(b.tls_pinned_sha256)
    &&& text_of(a.tls_client_cert) == text_of(b.tls_client_cert)
    &&& text_of(a.tls_client_key) == text_of(b.tls_client_key)
    &&& a.sftp_auth == b.sftp_auth
    &&& text_of(a.sftp_private_key) == text_of(b.sftp_private_key)
    &&& a.transfer_concurrency == b.transfer_concurrency
}

/// A pin that was accepted fills the field and reads back.
proof fn lemma_pin_reads_back(raw: Seq<char>, pin: Seq<char>)
    requires
        canonical_pin(raw) == Some(pin),
    ensures
        canonical_pin(pin) == Some(pin),
        filled(pin) is Some,
{
    reveal_strlit("sha256:");
    crate::net::ftp::pin::canonical_pins_are_fixed_points(raw, pin);
    assert(pin[0] == 's');
    let hex = crate::net::ftp::pin::without_label(
        crate::text::ascii_lowercase(trimmed(raw)),
    );
    assert(pin == "sha256:"@ + hex);
    assert(pin.last() == hex[63]);
    assert(crate::net::ftp::pin::is_lower_hex(hex[63]));
    lemma_trimmed_fixed(pin);
}

/// A saved connection survives the editor: where its form is opened and saved again with nothing
/// changed, the form is accepted and describes the same connection, with the same password.
pub proof fn connections_survive_the_editor(
    form: EditorForm,
    limits: EditorLimits,
    id: ConnectionId,
    spec: ConnectionSpec,
    shown: EditorForm,
    again: ConnectionSpec,
)
    requires
        limits.max_concurrency <= MAX_OFFERED_CONCURRENCY,
        draft_refusal(form, limits) is None,
        describes(form, limits, id, spec),
        shows(shown, spec, draft_password(form)),
    ensures
        draft_refusal(shown, limits) is None,
        describes(shown, limits, id, again) ==> agree(again, spec),
        describes(shown, limits, id, spec),
        draft_password(shown) == draft_password(form),
{
    lemma_trimmed(form.name@);
    lemma_trimmed(form.host@);
    lemma_trimmed(form.user@);
    lemma_trimmed(form.initial_path@);
    lemma_trimmed(form.group@);
    crate::model::protocol::protocol_name_reads_back(spec.protocol);
    lemma_number_reads_back(spec.port as nat, 65535);
    tags_read_back(form.tags@, texts(spec.tags@));
    lemma_number_reads_back(0, u64::MAX as nat);
    if let Some(n) = spec.timeout_secs {
        lemma_number_reads_back(n as nat, u64::MAX as nat);
    }
    if let Some(n) = spec.keepalive_interval_secs {
        lemma_number_reads_back(n as nat, u64::MAX as nat);
    }
    lemma_trimmed_fixed(Seq::empty());
    lemma_words_read_back(
        spec.sftp_auth,
        spec.ftp_data_mode,
        spec.ftp_filename_encoding,
        spec.ftp_tls_mode,
    );
    lemma_filled_again(form.proxy_url@, spec.proxy_url);
    lemma_trimmed(form.proxy_url@);
    if form.is_sftp() {
        lemma_filled_again(form.ssh_proxy_jump@, spec.ssh_proxy_jump);
    }
    if form.chosen_auth() == Some(SftpAuth::PrivateKey) {
        lemma_filled_again(form.sftp_key_path@, spec.sftp_private_key);
    }
    if form.has_tls() {
        lemma_filled_again(form.tls_client_cert@, spec.tls_client_cert);
        lemma_filled_again(form.tls_client_key@, spec.tls_client_key);
        if filled(form.tls_pin@) is Some {
            lemma_pin_reads_back(form.tls_pin@, canonical_pin(form.tls_pin@)->0);
        }
    }
    assert(crate::controllers::editor::endpoint_refusal(shown) is None);
    assert(crate::controllers::editor::details_refusal(shown, limits.connection) is None);
    assert(crate::controllers::editor::access_refusal(shown) is None);
    assert(crate::controllers::editor::transfer_refusal(shown, limits) is None);
    assert(crate::controllers::editor::tls_refusal(shown) is None);
    assert(describes(shown, limits, id, spec));
}

} // verus!
