//! The list of saved connections: importing, showing and filtering it.

use vstd::prelude::*;

use crate::controllers::credentials::{same_key, CredentialKey, KeyView};
use crate::model::connection::{ConnectionId, ConnectionSpec};
use crate::net::error::NetError;
use crate::numerals::{decimal, to_decimal};
use crate::pieces::{
    contains, contains_text, drop_while, join, joined, texts, trim, trimmed, views, white,
};
use crate::text::{
    ascii_lowercase, chars_of, is_white_space, is_word, lowercase, plus, same_text, string_of,
    to_ascii_lower, to_lowercase, white_space,
};

verus! {

// --- importing ---------------------------------------------------------------------------------

/// A connection of the list, with the key of its endpoint if it has one.
#[derive(Debug, PartialEq, Eq)]
pub struct SavedConnection {
    pub spec: ConnectionSpec,
    pub key: Option<CredentialKey>,
}

/// A connection that was read from a file, with the key of its endpoint or why it has none.
#[derive(Debug, PartialEq, Eq)]
pub struct ImportedConnection {
    pub spec: ConnectionSpec,
    pub key: Result<CredentialKey, String>,
}

pub open spec fn key_of(saved: SavedConnection) -> Option<KeyView> {
    match saved.key {
        Some(k) => Some(k@),
        None => None,
    }
}

pub open spec fn endpoint_listed(list: Seq<SavedConnection>, key: KeyView) -> bool {
    exists|i: int| 0 <= i < list.len() && key_of(#[trigger] list[i]) == Some(key)
}

/// `spec` under another identity.
pub open spec fn renumbered(spec: ConnectionSpec, id: nat) -> ConnectionSpec {
    ConnectionSpec { id: ConnectionId(id as usize), ..spec }
}

/// The list with the new connections behind it: an endpoint that is already there is left out, and
/// every connection that is added gets the next identity.
pub open spec fn merged(
    list: Seq<SavedConnection>,
    incoming: Seq<ImportedConnection>,
    next: nat,
) -> Result<Seq<SavedConnection>, Seq<char>>
    decreases incoming.len(),
{
    if incoming.len() == 0 {
        Ok(list)
    } else {
        match incoming[0].key {
            Err(e) => Err(e@),
            Ok(key) => if endpoint_listed(list, key@) {
                merged(list, incoming.skip(1), next)
            } else {
                merged(
                    list.push(
                        SavedConnection {
                            spec: renumbered(incoming[0].spec, next),
                            key: Some(key),
                        },
                    ),
                    incoming.skip(1),
                    next + 1,
                )
            },
        }
    }
}

fn lists_endpoint(list: &Vec<SavedConnection>, key: &CredentialKey) -> (r: bool)
    ensures
        r == endpoint_listed(list@, key@),
{
    let mut i: usize = 0;
    while i < list.len()
        invariant
            i <= list@.len(),
            forall|j: int| 0 <= j < i ==> key_of(#[trigger] list@[j]) != Some(key@),
        decreases list@.len() - i,
    {
        let found: bool = match &list[i].key {
            Some(k) => same_key(k, key),
            None => false,
        };
        if found {
            return true;
        }
        i += 1;
    }
    false
}

/// Merge what was imported into a copy of the list, skipping the endpoints that are already there.
/// On success the longer list and the number of connections that were added; where it is 0 nothing
/// need be saved.
#[verifier::loop_isolation(false)]
pub fn merge_new(
    list: Vec<SavedConnection>,
    incoming: Vec<ImportedConnection>,
    next_id: usize,
) -> (r: Result<(Vec<SavedConnection>, usize), String>)
    requires
        next_id + incoming@.len() <= usize::MAX,
    ensures
        match r {
            Ok(after) => merged(list@, incoming@, next_id as nat) == Ok::<
                Seq<SavedConnection>,
                Seq<char>,
            >(after.0@) && after.1 == after.0@.len() - list@.len(),
            Err(e) => merged(list@, incoming@, next_id as nat) == Err::<
                Seq<SavedConnection>,
                Seq<char>,
            >(e@),
        },
{
    let mut candidate: Vec<SavedConnection> = list;
    let mut rest: Vec<ImportedConnection> = incoming;
    let mut next: usize = next_id;
    let mut count: usize = 0;
    while rest.len() > 0
        invariant
            next + rest@.len() <= usize::MAX,
            count <= next,
            count == candidate@.len() - list@.len(),
            merged(candidate@, rest@, next as nat) == merged(list@, incoming@, next_id as nat),
        decreases rest@.len(),
    {
        let ghost before = rest@;
        let first: ImportedConnection = rest.remove(0);
        assert(rest@ =~= before.skip(1));
        let key: CredentialKey = match first.key {
            Ok(key) => key,
            Err(e) => {
                return Err(e);
            },
        };
        if !lists_endpoint(&candidate, &key) {
            let spec = ConnectionSpec { id: ConnectionId(next), ..first.spec };
            candidate.push(SavedConnection { spec, key: Some(key) });
            next += 1;
            count += 1;
        }
    }
    Ok((candidate, count))
}

/// What was in the list stays where it was, and nothing is added whose endpoint an earlier row has.
pub proof fn imports_add_no_endpoint_twice(
    list: Seq<SavedConnection>,
    incoming: Seq<ImportedConnection>,
    next: nat,
)
    requires
        merged(list, incoming, next) is Ok,
    ensures
        ({
            let after = merged(list, incoming, next)->Ok_0;
            &&& list.len() <= after.len() <= list.len() + incoming.len()
            &&& after.take(list.len() as int) == list
            &&& forall|i: int, j: int|
                0 <= i < j < after.len() && list.len() <= j ==> key_of(#[trigger] after[j]) is Some
                    && key_of(#[trigger] after[i]) != key_of(after[j])
        }),
    decreases incoming.len(),
{
    let after = merged(list, incoming, next)->Ok_0;
    if incoming.len() == 0 {
        assert(after.take(list.len() as int) =~= list);
    } else {
        let key = incoming[0].key->Ok_0;
        if endpoint_listed(list, key@) {
            imports_add_no_endpoint_twice(list, incoming.skip(1), next);
        } else {
            let row = SavedConnection {
                spec: renumbered(incoming[0].spec, next),
                key: Some(key),
            };
            let longer = list.push(row);
            imports_add_no_endpoint_twice(longer, incoming.skip(1), next + 1);
            assert(after.take(longer.len() as int) == longer);
            assert(after.take(list.len() as int) =~= longer.take(list.len() as int));
            assert(longer.take(list.len() as int) =~= list);
            assert forall|i: int, j: int|
                0 <= i < j < after.len() && list.len() <= j implies key_of(#[trigger] after[j]) is Some
                && key_of(#[trigger] after[i]) != key_of(after[j]) by {
                if j == list.len() {
                    assert(after.take(longer.len() as int)[j] == row);
                    assert(after.take(longer.len() as int)[i] == list[i]);
                }
            }
        }
    }
}

/// Every connection that is added has an identity of its own, as long as `next` is beyond those that
/// are in use.
pub proof fn imported_identities_are_fresh(
    list: Seq<SavedConnection>,
    incoming: Seq<ImportedConnection>,
    next: nat,
)
    requires
        merged(list, incoming, next) is Ok,
        next + incoming.len() <= usize::MAX,
        forall|i: int| 0 <= i < list.len() ==> (#[trigger] list[i]).spec.id.0 < next,
        forall|i: int, j: int|
            0 <= i < j < list.len() ==> (#[trigger] list[i]).spec.id != (#[trigger] list[j]).spec.id,
    ensures
        ({
            let after = merged(list, incoming, next)->Ok_0;
            forall|i: int, j: int|
                0 <= i < j < after.len() ==> (#[trigger] after[i]).spec.id != (
                #[trigger] after[j]).spec.id
        }),
    decreases incoming.len(),
{
    if incoming.len() > 0 {
        let key = incoming[0].key->Ok_0;
        if endpoint_listed(list, key@) {
            imported_identities_are_fresh(list, incoming.skip(1), next);
        } else {
            let row = SavedConnection {
                spec: renumbered(incoming[0].spec, next),
                key: Some(key),
            };
            imported_identities_are_fresh(list.push(row), incoming.skip(1), next + 1);
        }
    }
}

/// The formats that connections are imported from.
#[derive(Debug, Clone, Copy, PartialEq, Eq, Structural)]
pub enum ImportFormat {
    Json,
    FileZilla,
}

/// `text` begins with `c`, white space aside.
pub open spec fn opens_with(text: Seq<char>, c: char) -> bool {
    let rest = drop_while(text, white());
    rest.len() > 0 && rest[0] == c
}

pub open spec fn has_extension(extension: Option<Seq<char>>, word: Seq<char>) -> bool {
    extension matches Some(e) && ascii_lowercase(e) == word
}

/// The format of a file: its extension decides, else how its text begins.
pub open spec fn format_of(extension: Option<Seq<char>>, text: Seq<char>) -> Option<ImportFormat> {
    if has_extension(extension, "json"@) {
        Some(ImportFormat::Json)
    } else if has_extension(extension, "xml"@) || opens_with(text, '<') {
        Some(ImportFormat::FileZilla)
    } else if opens_with(text, '{') || opens_with(text, '[') {
        Some(ImportFormat::Json)
    } else {
        None
    }
}

/// The first character of a text that is not white space.
fn first_mark(text: &[char]) -> (r: Option<char>)
    ensures
        forall|c: char| opens_with(text@, c) == (r == Some(c)),
{
    let mut i: usize = 0;
    while i < text.len() && white_space(text[i])
        invariant
            i <= text@.len(),
            forall|j: int| 0 <= j < i ==> is_white_space(#[trigger] text@[j]),
        decreases text@.len() - i,
    {
        i += 1;
    }
    proof {
        crate::pieces::lemma_drop_while(text@, white(), i as int);
    }
    if i < text.len() {
        Some(text[i])
    } else {
        None
    }
}

pub fn import_format(extension: Option<&str>, text: &str) -> (r: Option<ImportFormat>)
    ensures
        r == format_of(
            match extension {
                Some(e) => Some(e@),
                None => None,
            },
            text@,
        ),
{
    let mut json: bool = false;
    let mut xml: bool = false;
    match extension {
        Some(e) => {
            let chars: Vec<char> = chars_of(e);
            let lower: Vec<char> = to_ascii_lower(&chars);
            json = is_word(&lower, "json");
            xml = is_word(&lower, "xml");
        },
        None => {},
    }
    let chars: Vec<char> = chars_of(text);
    let mark: Option<char> = first_mark(&chars);
    if json {
        Some(ImportFormat::Json)
    } else if xml || mark == Some('<') {
        Some(ImportFormat::FileZilla)
    } else if mark == Some('{') || mark == Some('[') {
        Some(ImportFormat::Json)
    } else {
        None
    }
}

/// How an import went.
#[derive(Debug, PartialEq, Eq)]
pub enum ImportEnd {
    /// The file could not be read; the limit is in words.
    Unreadable { limit: String, error: String },
    Unrecognized,
    /// The file holds no connections that can be used.
    Failed(String),
    /// The longer list could not be saved.
    NotSaved(String),
    Imported(usize),
}

pub open spec fn import_text(label: Seq<char>, end: ImportEnd) -> Seq<char> {
    match end {
        ImportEnd::Unreadable { limit, error } => "could not read "@ + label + " ("@ + limit@
            + " limit): "@ + error@,
        ImportEnd::Unrecognized => "unrecognized file format: "@ + label
            + " (use FileZilla .xml or .json)"@,
        ImportEnd::Failed(e) => "import failed ("@ + label + "): "@ + e@,
        ImportEnd::NotSaved(e) => "import failed ("@ + label + "): could not save metadata: "@ + e@,
        ImportEnd::Imported(n) => if n > 0 {
            "imported "@ + decimal(n as nat) + " connection(s) from "@ + label
        } else {
            "no new connections from "@ + label + " (all already present)"@
        },
    }
}

/// The status line after an import.
pub fn import_message(label: &str, end: &ImportEnd) -> (r: String)
    ensures
        r@ == import_text(label@, *end),
{
    match end {
        ImportEnd::Unreadable { limit, error } => plus(
            plus(
                plus(
                    plus(plus("could not read ".to_owned(), label), " ("),
                    limit.as_str(),
                ),
                " limit): ",
            ),
            error.as_str(),
        ),
        ImportEnd::Unrecognized => plus(
            plus("unrecognized file format: ".to_owned(), label),
            " (use FileZilla .xml or .json)",
        ),
        ImportEnd::Failed(e) => plus(
            plus(plus("import failed (".to_owned(), label), "): "),
            e.as_str(),
        ),
        ImportEnd::NotSaved(e) => plus(
            plus(
                plus("import failed (".to_owned(), label),
                "): could not save metadata: ",
            ),
            e.as_str(),
        ),
        ImportEnd::Imported(n) => {
            if *n > 0 {
                let number: String = string_of(&to_decimal(*n as u64));
                plus(
                    plus(
                        plus("imported ".to_owned(), number.as_str()),
                        " connection(s) from ",
                    ),
                    label,
                )
            } else {
                plus(
                    plus("no new connections from ".to_owned(), label),
                    " (all already present)",
                )
            }
        },
    }
}

// --- showing -----------------------------------------------------------------------------------

/// A row of the connection manager.
#[derive(Debug, PartialEq, Eq)]
pub struct ConnRow {
    pub id: i32,
    pub label: String,
    pub sub: String,
    pub protocol: String,
    pub connected: bool,
}

impl Clone for ConnRow {
    fn clone(&self) -> (r: Self)
        ensures
            r == *self,
    {
        ConnRow {
            id: self.id,
            label: self.label.clone(),
            sub: self.sub.clone(),
            protocol: self.protocol.clone(),
            connected: self.connected,
        }
    }
}

/// The second line of a row: the endpoint, its group and its tags. Demonstrations show no user.
pub open spec fn row_details(spec: ConnectionSpec, demo: bool) -> Seq<char> {
    let login = if demo {
        Seq::empty()
    } else {
        spec.user@ + "@"@
    };
    let group = if spec.group@.len() == 0 {
        Seq::empty()
    } else {
        " · "@ + spec.group@
    };
    let tags = if spec.tags@.len() == 0 {
        Seq::empty()
    } else {
        " · #"@ + joined(texts(spec.tags@), " #"@)
    };
    login + spec.host@ + ":"@ + decimal(spec.port as nat) + group + tags
}

pub open spec fn row_protocol(spec: ConnectionSpec, demo: bool) -> Seq<char> {
    if demo && spec.name@ == "Production"@ {
        "FTPS"@
    } else {
        spec.spec_protocol_label()
    }
}

/// The protocol of a row in capitals.
pub fn demo_protocol_label(spec: &ConnectionSpec, demo: bool) -> (r: String)
    ensures
        r@ == row_protocol(*spec, demo),
{
    if demo && same_text(spec.name.as_str(), "Production") {
        "FTPS".to_owned()
    } else {
        spec.protocol_label().to_owned()
    }
}

fn tag_list(tags: &Vec<String>) -> (r: String)
    ensures
        r@ == joined(texts(tags@), " #"@),
{
    let mut parts: Vec<Vec<char>> = Vec::new();
    let mut i: usize = 0;
    while i < tags.len()
        invariant
            i <= tags@.len(),
            parts@.len() == i,
            forall|j: int| 0 <= j < i ==> (#[trigger] parts@[j])@ == tags@[j]@,
        decreases tags@.len() - i,
    {
        parts.push(chars_of(tags[i].as_str()));
        i += 1;
    }
    assert(views(parts@) =~= texts(tags@));
    let separator: Vec<char> = chars_of(" #");
    string_of(&join(&parts, &separator))
}

/// `row` shows `spec`.
pub open spec fn row_shows(row: ConnRow, spec: ConnectionSpec, active: i32, demo: bool) -> bool {
    &&& row.id == spec.id.0 as i32
    &&& row.label@ == spec.name@
    &&& row.sub@ == row_details(spec, demo)
    &&& row.protocol@ == row_protocol(spec, demo)
    &&& row.connected == (row.id == active)
}

/// The row of one connection; `active` is the one that is connected.
pub fn connection_row(spec: &ConnectionSpec, active: i32, demo: bool) -> (r: ConnRow)
    ensures
        row_shows(r, *spec, active, demo),
{
    let login: String = if demo {
        String::new()
    } else {
        plus(spec.user.clone(), "@")
    };
    let number: String = string_of(&to_decimal(spec.port as u64));
    let endpoint: String = plus(plus(plus(login, spec.host.as_str()), ":"), number.as_str());
    let group: String = if same_text(spec.group.as_str(), "") {
        String::new()
    } else {
        plus(" · ".to_owned(), spec.group.as_str())
    };
    let tags: String = if spec.tags.len() == 0 {
        String::new()
    } else {
        plus(" · #".to_owned(), tag_list(&spec.tags).as_str())
    };
    proof {
        reveal_strlit("");
        assert(""@ =~= Seq::<char>::empty());
        assert(spec.group@.len() == 0 ==> spec.group@ =~= Seq::<char>::empty());
    }
    let sub: String = plus(plus(endpoint, group.as_str()), tags.as_str());
    assert(sub@ =~= row_details(*spec, demo));
    let id: i32 = spec.id.0 as i32;
    ConnRow {
        id,
        label: spec.name.clone(),
        sub,
        protocol: demo_protocol_label(spec, demo),
        connected: id == active,
    }
}

/// The rows of the whole list, in its order.
pub fn refresh_connections_model(list: &Vec<ConnectionSpec>, active: i32, demo: bool) -> (r: Vec<
    ConnRow,
>)
    ensures
        r@.len() == list@.len(),
        forall|i: int| 0 <= i < r@.len() ==> row_shows(#[trigger] r@[i], list@[i], active, demo),
{
    let mut rows: Vec<ConnRow> = Vec::new();
    let mut i: usize = 0;
    while i < list.len()
        invariant
            i <= list@.len(),
            rows@.len() == i,
            forall|j: int| 0 <= j < i ==> row_shows(#[trigger] rows@[j], list@[j], active, demo),
        decreases list@.len() - i,
    {
        rows.push(connection_row(&list[i], active, demo));
        i += 1;
    }
    rows
}

/// A row is found by a text that occurs in its name, its details or its protocol, whatever the case.
pub open spec fn row_found(row: ConnRow, query: Seq<char>) -> bool {
    let wanted = lowercase(trimmed(query));
    ||| wanted.len() == 0
    ||| contains_text(lowercase(row.label@), wanted)
    ||| contains_text(lowercase(row.sub@), wanted)
    ||| contains_text(lowercase(row.protocol@), wanted)
}

fn lower_contains(text: &str, wanted: &[char]) -> (r: bool)
    ensures
        r == contains_text(lowercase(text@), wanted@),
{
    let lower: Vec<char> = chars_of(to_lowercase(text).as_str());
    contains(&lower, wanted)
}

pub fn conn_row_matches(row: &ConnRow, query: &str) -> (r: bool)
    ensures
        r == row_found(*row, query@),
{
    let raw: Vec<char> = chars_of(query);
    let inner: String = string_of(trim(&raw));
    let wanted: Vec<char> = chars_of(to_lowercase(inner.as_str()).as_str());
    if wanted.len() == 0 {
        return true;
    }
    lower_contains(row.label.as_str(), &wanted) || lower_contains(row.sub.as_str(), &wanted)
        || lower_contains(row.protocol.as_str(), &wanted)
}

/// The rows that a text finds, in their order.
pub open spec fn rows_found(rows: Seq<ConnRow>, query: Seq<char>) -> Seq<ConnRow> {
    rows.filter(|row: ConnRow| row_found(row, query))
}

pub fn apply_server_filter(rows: &Vec<ConnRow>, query: &str) -> (r: Vec<ConnRow>)
    ensures
        r@ == rows_found(rows@, query@),
{
    let ghost keep = |row: ConnRow| row_found(row, query@);
    let mut out: Vec<ConnRow> = Vec::new();
    let mut i: usize = 0;
    reveal(Seq::filter);
    assert(rows@.take(0) =~= Seq::<ConnRow>::empty());
    while i < rows.len()
        invariant
            i <= rows@.len(),
            keep == |row: ConnRow| row_found(row, query@),
            out@ == rows@.take(i as int).filter(keep),
        decreases rows@.len() - i,
    {
        proof {
            reveal(Seq::filter);
            assert(rows@.take(i + 1).drop_last() =~= rows@.take(i as int));
            assert(rows@.take(i + 1).last() == rows@[i as int]);
        }
        if conn_row_matches(&rows[i], query) {
            out.push(rows[i].clone());
        }
        i += 1;
    }
    assert(rows@.take(rows@.len() as int) =~= rows@);
    out
}

// --- testing -----------------------------------------------------------------------------------

/// The line about a test of a connection that was not saved.
pub open spec fn test_text(result: Result<(usize, bool), NetError>) -> Seq<char> {
    match result {
        Ok((count, plaintext)) => if plaintext {
            "Connection successful — listed "@ + decimal(count as nat)
                + " item(s), but the session is plaintext FTP."@
        } else {
            "Connection successful — authentication and listing completed ("@ + decimal(
                count as nat,
            ) + " item(s))."@
        },
        Err(NetError::HostKeyTrustRequired(challenge)) => "Server reached. Verify SSH fingerprint "@
            + challenge.fingerprint_text@
            + " independently, then Save and Connect to approve it."@,
        Err(NetError::TlsCertificateTrustRequired(challenge)) =>
            "Server reached. Verify TLS fingerprint "@ + challenge.fingerprint_text@
            + " independently, then Save and Connect to pin it."@,
        Err(error) => "Connection test failed: "@ + error.text(),
    }
}

/// What a test of a connection came to: how many items it listed and whether in plaintext.
pub fn test_message(result: &Result<(usize, bool), NetError>) -> (r: String)
    ensures
        r@ == test_text(*result),
{
    match result {
        Ok((count, plaintext)) => {
            let number: String = string_of(&to_decimal(*count as u64));
            if *plaintext {
                plus(
                    plus(
                        "Connection successful — listed ".to_owned(),
                        number.as_str(),
                    ),
                    " item(s), but the session is plaintext FTP.",
                )
            } else {
                plus(
                    plus(
                        "Connection successful — authentication and listing completed (".to_owned(),
                        number.as_str(),
                    ),
                    " item(s)).",
                )
            }
        },
        Err(NetError::HostKeyTrustRequired(challenge)) => plus(
            plus("Server reached. Verify SSH fingerprint ".to_owned(), challenge.fingerprint()),
            " independently, then Save and Connect to approve it.",
        ),
        Err(NetError::TlsCertificateTrustRequired(challenge)) => plus(
            plus("Server reached. Verify TLS fingerprint ".to_owned(), challenge.fingerprint()),
            " independently, then Save and Connect to pin it.",
        ),
        Err(error) => plus("Connection test failed: ".to_owned(), error.message().as_str()),
    }
}

} // verus!
