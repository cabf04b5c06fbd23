//! From the lines of a listing to directory entries.

use vstd::prelude::*;
use vstd::utf8::encode_utf8;

use crate::model::entry::{entry_views, sort_entries, sorted_entries, EntryView, RemoteEntry};
use crate::net::error::NetError;
use crate::net::ftp::listing::MAX_LISTING_ENTRIES;
use crate::net::ftp::transport::ftp_error;
use crate::net::safe::{safe_component, validate_remote_component};
use crate::net::search::{split_words, words};
use crate::net::transfer_rules::RemoteMetadata;
use crate::pieces::{split, split_any, texts, trim, trimmed, views};
use crate::text::{
    ascii_lowercase, byte_len, chars_of, is_word, same_text, string_of, text_of, to_ascii_lower,
    utf8_len,
};

verus! {

/// What the listing parser reads out of one line.
#[derive(Debug, PartialEq, Eq)]
pub struct ListedFile {
    pub name: String,
    pub is_dir: bool,
    pub size: u64,
    /// Seconds since the Unix epoch.
    pub mtime: Option<i64>,
}

pub ghost struct ListedView {
    pub name: Seq<char>,
    pub is_dir: bool,
    pub size: u64,
    pub mtime: Option<i64>,
}

impl View for ListedFile {
    type V = ListedView;

    open spec fn view(&self) -> ListedView {
        ListedView {
            name: self.name@,
            is_dir: self.is_dir,
            size: self.size,
            mtime: self.mtime,
        }
    }
}

/// A fact `UNIX.mode=..` whose value has three or four bytes that are not all ASCII.
pub open spec fn odd_mode_fact(fact: Seq<char>) -> bool {
    let parts = split_any(fact, seq!['=']);
    &&& parts.len() >= 2
    &&& ascii_lowercase(parts[0]) == "unix.mode"@
    &&& utf8_len(parts[1]) == 3 || utf8_len(parts[1]) == 4
    &&& utf8_len(parts[1]) != parts[1].len()
}

/// One of the facts that stand between semicolons is an odd mode.
pub open spec fn has_odd_mode(line: Seq<char>) -> bool {
    let facts = split_any(line, seq![';']);
    exists|i: int| 0 <= i < facts.len() && odd_mode_fact(#[trigger] facts[i])
}

fn is_odd_mode_fact(fact: &[char]) -> (r: bool)
    ensures
        r == odd_mode_fact(fact@),
{
    let equals: [char; 1] = ['='];
    assert(equals@ =~= seq!['=']);
    let parts: Vec<Vec<char>> = split(fact, equals.as_slice());
    let ghost whole = split_any(fact@, seq!['=']);
    assert(forall|i: int| 0 <= i < parts@.len() ==> #[trigger] whole[i] == parts@[i]@);
    if parts.len() < 2 {
        return false;
    }
    let key: Vec<char> = to_ascii_lower(&parts[0]);
    if !is_word(&key, "unix.mode") {
        return false;
    }
    let value: String = string_of(&parts[1]);
    let n: usize = byte_len(value.as_str());
    (n == 3 || n == 4) && n != parts[1].len()
}

fn holds_odd_mode(line: &str) -> (r: bool)
    ensures
        r == has_odd_mode(line@),
{
    let chars: Vec<char> = chars_of(line);
    let semicolon: [char; 1] = [';'];
    assert(semicolon@ =~= seq![';']);
    let facts: Vec<Vec<char>> = split(&chars, semicolon.as_slice());
    let ghost whole = split_any(line@, seq![';']);
    let mut i: usize = 0;
    while i < facts.len()
        invariant
            i <= facts@.len(),
            views(facts@) == whole,
            whole == split_any(line@, seq![';']),
            forall|j: int| 0 <= j < i ==> !odd_mode_fact(#[trigger] whole[j]),
        decreases facts@.len() - i,
    {
        assert(whole[i as int] == facts@[i as int]@);
        if is_odd_mode_fact(&facts[i]) {
            return true;
        }
        i += 1;
    }
    false
}

/// At some moment `suppaftp::list::ListParser::parse_posix` reads the line as this file, or as none.
pub uninterp spec fn posix_reads(line: Seq<char>, file: Option<ListedView>) -> bool;

/// `suppaftp::list::ListParser::parse_posix`: a line as `ls -l` writes it. A line without a year is
/// dated by the current one, so that the same line can be read differently at another time; all that
/// is claimed is that the result is one that the line can be read as.
#[verifier::external_body]
pub(crate) fn read_posix_line(line: &str) -> (r: Option<ListedFile>)
    ensures
        posix_reads(line@, listed_view(r)),
{
    let file = suppaftp::list::ListParser::parse_posix(line).ok()?;
    let mtime = match file.modified().duration_since(std::time::UNIX_EPOCH) {
        Ok(duration) => Some(duration.as_secs() as i64),
        Err(_) => None,
    };
    let name = file.name().to_string();
    Some(ListedFile { name, is_dir: file.is_directory(), size: file.size() as u64, mtime })
}

/// On some machine `suppaftp::list::ListParser::parse_dos` reads the line as this file, or as none.
pub uninterp spec fn dos_reads(line: Seq<char>, file: Option<ListedView>) -> bool;

/// `suppaftp::list::ListParser::parse_dos`: a line as `dir` writes it. Which sizes fit depends on the
/// width of a machine word; all that is claimed is that the result is one that the line can be read
/// as.
#[verifier::external_body]
pub(crate) fn read_dos_line(line: &str) -> (r: Option<ListedFile>)
    ensures
        dos_reads(line@, listed_view(r)),
{
    let file = suppaftp::list::ListParser::parse_dos(line).ok()?;
    let mtime = match file.modified().duration_since(std::time::UNIX_EPOCH) {
        Ok(duration) => Some(duration.as_secs() as i64),
        Err(_) => None,
    };
    let name = file.name().to_string();
    Some(ListedFile { name, is_dir: file.is_directory(), size: file.size() as u64, mtime })
}

/// On some machine `suppaftp::list::ListParser::parse_mlsd` reads the line as this file, or as none.
pub uninterp spec fn facts_read(line: Seq<char>, file: Option<ListedView>) -> bool;

/// `suppaftp::list::ListParser::parse_mlsd`: a line of facts before a name. Which sizes fit depends on
/// the width of a machine word; all that is claimed is that the result is one that the line can be
/// read as. It is not handed a line with an odd mode: it would cut that value between two bytes of a
/// character, or take it to have three characters, and panic.
#[verifier::external_body]
pub(crate) fn read_facts_line(line: &str) -> (r: Option<ListedFile>)
    requires
        !has_odd_mode(line@),
    ensures
        facts_read(line@, listed_view(r)),
{
    let file = suppaftp::list::ListParser::parse_mlsd(line).ok()?;
    let mtime = match file.modified().duration_since(std::time::UNIX_EPOCH) {
        Ok(duration) => Some(duration.as_secs() as i64),
        Err(_) => None,
    };
    let name = file.name().to_string();
    Some(ListedFile { name, is_dir: file.is_directory(), size: file.size() as u64, mtime })
}

/// The line can be read as this file, or as none: in POSIX format if it has that, else in DOS format,
/// else as facts; facts with an odd mode are no file.
pub open spec fn can_be_read_as(line: Seq<char>, file: Option<ListedView>) -> bool {
    exists|posix: Option<ListedView>| #[trigger]
        posix_reads(line, posix) && match posix {
            Some(_) => file == posix,
            None => without_posix(line, file),
        }
}

/// The line has no POSIX format, and can be read as this file, or as none.
pub open spec fn without_posix(line: Seq<char>, file: Option<ListedView>) -> bool {
    exists|dos: Option<ListedView>| #[trigger]
        dos_reads(line, dos) && match dos {
            Some(_) => file == dos,
            None => if has_odd_mode(line) {
                file is None
            } else {
                facts_read(line, file)
            },
        }
}

/// Read one line of a listing in whichever format it has.
pub fn read_list_line(line: &str) -> (r: Option<ListedFile>)
    ensures
        can_be_read_as(line@, listed_view(r)),
{
    let posix: Option<ListedFile> = read_posix_line(line);
    let ghost posix_view = listed_view(posix);
    assert(posix_reads(line@, posix_view));
    if posix.is_some() {
        return posix;
    }
    let dos: Option<ListedFile> = read_dos_line(line);
    let ghost dos_view = listed_view(dos);
    assert(dos_reads(line@, dos_view));
    if dos.is_some() {
        assert(without_posix(line@, dos_view));
        return dos;
    }
    let facts: Option<ListedFile> = if holds_odd_mode(line) {
        None
    } else {
        read_facts_line(line)
    };
    assert(without_posix(line@, listed_view(facts)));
    facts
}

/// The permission bits, owner and group of a POSIX listing line.
pub type PosixMetadata = (Option<u32>, Option<String>, Option<String>);

pub open spec fn flag(on: bool, value: nat) -> nat {
    if on {
        value
    } else {
        0
    }
}

/// The three bits at one place of a mode such as `-rwxr-x---`.
pub open spec fn permission_digit(mode: Seq<u8>, at: int) -> nat {
    // r, w, and one of x, s and t
    flag(mode[at] == 114, 4) + flag(mode[at + 1] == 119, 2) + flag(
        mode[at + 2] == 120 || mode[at + 2] == 115 || mode[at + 2] == 116,
        1,
    )
}

/// The first word of a POSIX line: a mode of at least ten bytes that starts with `-`, `d` or `l`.
pub open spec fn is_posix_mode(mode: Seq<u8>) -> bool {
    mode.len() >= 10 && (mode[0] == 45 || mode[0] == 100 || mode[0] == 108)
}

pub open spec fn word_at(fields: Seq<Seq<char>>, i: int) -> Option<Seq<char>> {
    if i < fields.len() {
        Some(fields[i])
    } else {
        None
    }
}

/// What a listing line says of mode, owner and group. Only a POSIX line says anything.
pub open spec fn posix_metadata(line: Seq<char>) -> (
    Option<u32>,
    Option<Seq<char>>,
    Option<Seq<char>>,
) {
    let fields = words(line);
    if fields.len() == 0 || !is_posix_mode(encode_utf8(fields[0])) {
        (None, None, None)
    } else {
        let mode = encode_utf8(fields[0]);
        (
            Some(
                (permission_digit(mode, 1) * 64 + permission_digit(mode, 4) * 8 + permission_digit(
                    mode,
                    7,
                )) as u32,
            ),
            word_at(fields, 2),
            word_at(fields, 3),
        )
    }
}

fn read_permission(mode: &[u8], at: usize) -> (r: u32)
    requires
        at + 2 < mode@.len(),
    ensures
        r == permission_digit(mode@, at as int),
        r <= 7,
{
    let read: u32 = if mode[at] == 114 {
        4
    } else {
        0
    };
    let write: u32 = if mode[at + 1] == 119 {
        2
    } else {
        0
    };
    let last: u8 = mode[at + 2];
    let execute: u32 = if last == 120 || last == 115 || last == 116 {
        1
    } else {
        0
    };
    read + write + execute
}

fn word_text(fields: &Vec<Vec<char>>, i: usize) -> (r: Option<String>)
    ensures
        text_of(r) == word_at(views(fields@), i as int),
{
    if i < fields.len() {
        Some(string_of(&fields[i]))
    } else {
        None
    }
}

pub fn posix_listing_metadata(line: &str) -> (r: PosixMetadata)
    ensures
        (r.0, text_of(r.1), text_of(r.2)) == posix_metadata(line@),
{
    let chars: Vec<char> = chars_of(line);
    let fields: Vec<Vec<char>> = split_words(&chars);
    assert(views(fields@) == words(line@));
    if fields.len() == 0 {
        return (None, None, None);
    }
    let first: String = string_of(&fields[0]);
    assert(first@ == words(line@)[0]);
    let mode: &[u8] = first.as_str().as_bytes();
    if mode.len() < 10 || !(mode[0] == 45 || mode[0] == 100 || mode[0] == 108) {
        return (None, None, None);
    }
    let permissions: u32 = read_permission(mode, 1) * 64 + read_permission(mode, 4) * 8
        + read_permission(mode, 7);
    (Some(permissions), word_text(&fields, 2), word_text(&fields, 3))
}

/// What one line of a listing comes to.
pub ghost enum LineMeaning {
    /// Nothing: an empty or unreadable line, or the directory itself or its parent.
    Nothing,
    /// A name that is not safe to use.
    Unsafe,
    Entry(EntryView),
}

/// The entry of a line, given what the parser read out of it.
pub open spec fn line_meaning(line: Seq<char>, parsed: Option<ListedView>) -> LineMeaning {
    let text = trimmed(line);
    match parsed {
        None => LineMeaning::Nothing,
        Some(file) => if text.len() == 0 || file.name == "."@ || file.name == ".."@ {
            LineMeaning::Nothing
        } else if !safe_component(file.name) {
            LineMeaning::Unsafe
        } else {
            let (permissions, owner, group) = posix_metadata(text);
            LineMeaning::Entry(
                EntryView {
                    name: file.name,
                    is_dir: file.is_dir,
                    size: file.size,
                    mtime: file.mtime,
                    permissions,
                    owner,
                    group,
                },
            )
        },
    }
}

pub open spec fn listed_view(parsed: Option<ListedFile>) -> Option<ListedView> {
    match parsed {
        Some(file) => Some(file@),
        None => None,
    }
}

/// `r` is what the meaning of a line is reported as.
pub open spec fn reports(r: Result<Option<RemoteEntry>, NetError>, meaning: LineMeaning) -> bool {
    match meaning {
        LineMeaning::Nothing => r == Ok::<Option<RemoteEntry>, NetError>(None),
        LineMeaning::Unsafe => r matches Err(e) && is_unsafe_name(e),
        LineMeaning::Entry(view) => r matches Ok(Some(entry)) && entry@ == view,
    }
}

pub open spec fn is_unsafe_name(e: NetError) -> bool {
    e matches NetError::InvalidPath(m) && m@ == "server returned an unsafe file name"@
}

/// The entry of a line, given what the parser read out of it.
pub fn entry_from(line: &str, parsed: Option<&ListedFile>) -> (r: Result<
    Option<RemoteEntry>,
    NetError,
>)
    ensures
        reports(
            r,
            line_meaning(
                line@,
                match parsed {
                    Some(file) => Some(file@),
                    None => None,
                },
            ),
        ),
{
    let file: &ListedFile = match parsed {
        None => {
            return Ok(None);
        },
        Some(file) => file,
    };
    let chars: Vec<char> = chars_of(line);
    let text: &[char] = trim(&chars);
    if text.len() == 0 || same_text(file.name.as_str(), ".") || same_text(file.name.as_str(), "..") {
        return Ok(None);
    }
    match validate_remote_component(file.name.as_str()) {
        Err(e) => {
            return Err(e);
        },
        Ok(()) => {},
    }
    let whole: String = string_of(text);
    let (permissions, owner, group) = posix_listing_metadata(whole.as_str());
    Ok(
        Some(
            RemoteEntry {
                name: file.name.clone(),
                is_dir: file.is_dir,
                size: file.size,
                mtime: file.mtime,
                permissions,
                owner,
                group,
            },
        ),
    )
}

/// Read one line. Whichever way the parser reads the trimmed line, it is reported as `entry_from`
/// says; an empty line is nothing.
pub fn parse_listing_line(line: &str) -> (r: Result<Option<RemoteEntry>, NetError>)
    ensures
        exists|parsed: Option<ListedView>| #[trigger]
            can_be_read_as(trimmed(line@), parsed) && reports(r, line_meaning(line@, parsed)),
        trimmed(line@).len() == 0 ==> r == Ok::<Option<RemoteEntry>, NetError>(None),
{
    let parsed: Option<ListedFile> = read_trimmed(line);
    let r: Result<Option<RemoteEntry>, NetError> = entry_from(
        line,
        match &parsed {
            Some(file) => Some(file),
            None => None,
        },
    );
    assert(can_be_read_as(trimmed(line@), listed_view(parsed)));
    r
}

/// Hand a line to the parser, without the white space around it.
fn read_trimmed(line: &str) -> (r: Option<ListedFile>)
    ensures
        can_be_read_as(trimmed(line@), listed_view(r)),
{
    let chars: Vec<char> = chars_of(line);
    let text: String = string_of(trim(&chars));
    read_list_line(text.as_str())
}

/// The views of what the parser read out of several lines.
pub open spec fn listed_views(parsed: Seq<Option<ListedFile>>) -> Seq<Option<ListedView>> {
    parsed.map_values(|p: Option<ListedFile>| listed_view(p))
}

/// The entries of several lines after those that have been found already: at most so many, up to
/// the first unsafe name. `None` if there is one.
pub open spec fn gathered(
    lines: Seq<Seq<char>>,
    parsed: Seq<Option<ListedView>>,
    found: Seq<EntryView>,
    limit: nat,
) -> Option<Seq<EntryView>>
    decreases lines.len(),
{
    if lines.len() == 0 || found.len() >= limit {
        Some(found)
    } else {
        match line_meaning(lines[0], parsed[0]) {
            LineMeaning::Nothing => gathered(lines.skip(1), parsed.skip(1), found, limit),
            LineMeaning::Unsafe => None,
            LineMeaning::Entry(entry) => gathered(
                lines.skip(1),
                parsed.skip(1),
                found.push(entry),
                limit,
            ),
        }
    }
}

/// The entries of several lines in the order of the lines, at most `limit` of them.
pub fn gather_entries(lines: &Vec<String>, parsed: &Vec<Option<ListedFile>>, limit: usize) -> (r:
    Result<Vec<RemoteEntry>, NetError>)
    requires
        parsed@.len() == lines@.len(),
    ensures
        ({
            let all = gathered(
                texts(lines@),
                listed_views(parsed@),
                Seq::empty(),
                limit as nat,
            );
            &&& r is Ok <==> all is Some
            &&& r matches Ok(entries) ==> all == Some(entry_views(entries@))
            &&& r matches Err(e) ==> is_unsafe_name(e)
        }),
{
    let ghost all_lines = texts(lines@);
    let ghost all_parsed = listed_views(parsed@);
    let mut out: Vec<RemoteEntry> = Vec::new();
    let mut i: usize = 0;
    proof {
        assert(entry_views(out@) =~= Seq::<EntryView>::empty());
        assert(all_lines.skip(0) =~= all_lines);
        assert(all_parsed.skip(0) =~= all_parsed);
    }
    while i < lines.len() && out.len() < limit
        invariant
            i <= lines@.len(),
            parsed@.len() == lines@.len(),
            all_lines == texts(lines@),
            all_parsed == listed_views(parsed@),
            gathered(
                all_lines.skip(i as int),
                all_parsed.skip(i as int),
                entry_views(out@),
                limit as nat,
            ) == gathered(all_lines, all_parsed, Seq::empty(), limit as nat),
        decreases lines@.len() - i,
    {
        let one: Option<&ListedFile> = match &parsed[i] {
            Some(file) => Some(file),
            None => None,
        };
        proof {
            assert(all_lines.skip(i as int)[0] == lines@[i as int]@);
            assert(all_parsed.skip(i as int)[0] == listed_view(parsed@[i as int]));
            assert(all_lines.skip(i as int).skip(1) =~= all_lines.skip(i + 1));
            assert(all_parsed.skip(i as int).skip(1) =~= all_parsed.skip(i + 1));
        }
        match entry_from(lines[i].as_str(), one) {
            Err(e) => {
                return Err(e);
            },
            Ok(None) => {},
            Ok(Some(entry)) => {
                let ghost before = entry_views(out@);
                out.push(entry);
                assert(entry_views(out@) =~= before.push(entry@));
            },
        }
        i += 1;
    }
    Ok(out)
}

/// `entries` are the given ones, put in listing order.
pub open spec fn in_listing_order(all: Seq<EntryView>, entries: Seq<RemoteEntry>) -> bool {
    exists|unsorted: Seq<RemoteEntry>|
        entry_views(unsorted) == all && #[trigger] sorted_entries(unsorted, entries)
}

/// The entries of a whole listing, in listing order.
pub open spec fn listing_result(
    r: Result<Vec<RemoteEntry>, NetError>,
    lines: Seq<Seq<char>>,
    parsed: Seq<Option<ListedView>>,
) -> bool {
    match gathered(lines, parsed, Seq::empty(), MAX_LISTING_ENTRIES as nat) {
        Some(all) => r matches Ok(entries) && in_listing_order(all, entries@),
        None => r matches Err(e) && is_unsafe_name(e),
    }
}

pub fn entries_from(lines: &Vec<String>, parsed: &Vec<Option<ListedFile>>) -> (r: Result<
    Vec<RemoteEntry>,
    NetError,
>)
    requires
        parsed@.len() == lines@.len(),
    ensures
        listing_result(r, texts(lines@), listed_views(parsed@)),
{
    match gather_entries(lines, parsed, MAX_LISTING_ENTRIES) {
        Err(e) => Err(e),
        Ok(found) => {
            let mut entries: Vec<RemoteEntry> = found;
            let ghost unsorted = entries@;
            sort_entries(&mut entries);
            assert(in_listing_order(entry_views(unsorted), entries@));
            Ok(entries)
        },
    }
}

/// Each of the trimmed lines can be read as the file at its place.
pub open spec fn can_all_be_read_as(
    lines: Seq<Seq<char>>,
    parsed: Seq<Option<ListedView>>,
) -> bool {
    &&& parsed.len() == lines.len()
    &&& forall|i: int|
        0 <= i < lines.len() ==> can_be_read_as(trimmed(#[trigger] lines[i]), parsed[i])
}

/// Hand every line to the parser.
pub fn read_lines(lines: &Vec<String>) -> (r: Vec<Option<ListedFile>>)
    ensures
        can_all_be_read_as(texts(lines@), listed_views(r@)),
{
    let mut parsed: Vec<Option<ListedFile>> = Vec::new();
    let mut i: usize = 0;
    while i < lines.len()
        invariant
            i <= lines@.len(),
            parsed@.len() == i,
            forall|j: int|
                0 <= j < i ==> can_be_read_as(
                    trimmed(#[trigger] texts(lines@)[j]),
                    listed_view(parsed@[j]),
                ),
        decreases lines@.len() - i,
    {
        assert(texts(lines@)[i as int] == lines@[i as int]@);
        parsed.push(read_trimmed(lines[i].as_str()));
        i += 1;
    }
    parsed
}

/// The entries of a whole listing, whichever way the parser reads its lines.
pub fn parse_lines(lines: &Vec<String>) -> (r: Result<Vec<RemoteEntry>, NetError>)
    ensures
        exists|parsed: Seq<Option<ListedView>>|
            can_all_be_read_as(texts(lines@), parsed) && #[trigger] listing_result(
                r,
                texts(lines@),
                parsed,
            ),
{
    let parsed: Vec<Option<ListedFile>> = read_lines(lines);
    let r: Result<Vec<RemoteEntry>, NetError> = entries_from(lines, &parsed);
    assert(listing_result(r, texts(lines@), listed_views(parsed@)));
    r
}

/// The entries that a listing yields all have safe names, and there are no more of them than lines
/// nor than the limit.
pub proof fn gathered_entries_are_safe(
    lines: Seq<Seq<char>>,
    parsed: Seq<Option<ListedView>>,
    found: Seq<EntryView>,
    limit: nat,
)
    requires
        found.len() <= limit,
        forall|i: int| 0 <= i < found.len() ==> safe_component((#[trigger] found[i]).name),
    ensures
        gathered(lines, parsed, found, limit) matches Some(all) ==> {
            &&& all.len() <= limit
            &&& all.len() <= found.len() + lines.len()
            &&& forall|i: int| 0 <= i < all.len() ==> safe_component((#[trigger] all[i]).name)
        },
    decreases lines.len(),
{
    if lines.len() > 0 && found.len() < limit {
        match line_meaning(lines[0], parsed[0]) {
            LineMeaning::Nothing => {
                gathered_entries_are_safe(lines.skip(1), parsed.skip(1), found, limit);
            },
            LineMeaning::Unsafe => {},
            LineMeaning::Entry(entry) => {
                gathered_entries_are_safe(lines.skip(1), parsed.skip(1), found.push(entry), limit);
            },
        }
    }
}

/// The first line that the parser reads as the given name.
pub open spec fn line_named(parsed: Seq<Option<ListedView>>, name: Seq<char>, from: int) -> Option<
    int,
>
    decreases parsed.len() - from,
{
    if from < 0 || from >= parsed.len() {
        None
    } else if parsed[from] matches Some(file) && file.name == name {
        Some(from)
    } else {
        line_named(parsed, name, from + 1)
    }
}

/// What a listing says of one name in it. A listing that was cut off cannot say that a name is
/// absent.
pub fn find_metadata(
    lines: &Vec<String>,
    parsed: &Vec<Option<ListedFile>>,
    name: &str,
    truncated: bool,
) -> (r: Result<RemoteMetadata, NetError>)
    requires
        parsed@.len() == lines@.len(),
    ensures
        match line_named(listed_views(parsed@), name@, 0) {
            Some(i) => 0 <= i < lines@.len() && parsed@[i] is Some && (r matches Ok(metadata)
                && metadata.is_dir == parsed@[i]->0.is_dir && metadata.size == parsed@[i]->0.size
                && metadata.mtime == parsed@[i]->0.mtime && (
                metadata.permissions,
                text_of(metadata.owner),
                text_of(metadata.group),
            ) == posix_metadata(lines@[i]@)),
            None => r matches Err(e) && ftp_error(
                e,
                if truncated {
                    "remote metadata listing was truncated before the item was found"@
                } else {
                    "remote item no longer exists"@
                },
            ),
        },
{
    let ghost all = listed_views(parsed@);
    let mut i: usize = 0;
    while i < parsed.len()
        invariant
            i <= parsed@.len(),
            parsed@.len() == lines@.len(),
            all == listed_views(parsed@),
            line_named(all, name@, i as int) == line_named(all, name@, 0),
        decreases parsed@.len() - i,
    {
        assert(all[i as int] == listed_view(parsed@[i as int]));
        if let Some(file) = &parsed[i] {
            if same_text(file.name.as_str(), name) {
                let (permissions, owner, group) = posix_listing_metadata(lines[i].as_str());
                return Ok(
                    RemoteMetadata {
                        is_dir: file.is_dir,
                        size: file.size,
                        mtime: file.mtime,
                        permissions,
                        owner,
                        group,
                    },
                );
            }
        }
        i += 1;
    }
    if truncated {
        Err(
            NetError::Ftp(
                "remote metadata listing was truncated before the item was found".to_owned(),
            ),
        )
    } else {
        Err(NetError::Ftp("remote item no longer exists".to_owned()))
    }
}

} // verus!
