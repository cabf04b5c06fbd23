//! Path-safety helpers: the chokepoint between server-controlled strings and the two sinks that can
//! be abused, FTP command arguments and the local filesystem.
//!
//! 1. [`validate_ftp_path`] rejects C0 control bytes (CR, LF and NUL among them) before a string is
//!    forwarded into an FTP command, which is one line of text.
//! 2. [`sanitize_local_rel`] normalizes a server-controlled relative path so it cannot escape the
//!    user-chosen local root.
//! 3. [`assert_within`] holds a resolved target against the resolved root at the write boundary.

use vstd::prelude::*;
use vstd::utf8::{encode_scalar, encode_utf8};

use crate::lexical::same;
use crate::net::error::NetError;
use crate::pieces::{
    contains_char, copy_chars, join, joined, split, split_any, split_at_separator, views,
};
use crate::text::{byte_len, chars_of, is_word, string_of, utf8_len};

verus! {

/// A byte below 0x20 occurs in the UTF-8 form of the text.
pub open spec fn has_low_byte(s: Seq<char>) -> bool {
    exists|i: int| 0 <= i < encode_utf8(s).len() && (#[trigger] encode_utf8(s)[i]) < 0x20
}

pub fn any_low_byte(s: &str) -> (r: bool)
    ensures
        r == has_low_byte(s@),
{
    let bytes: &[u8] = s.as_bytes();
    let mut i: usize = 0;
    while i < bytes.len()
        invariant
            i <= bytes@.len(),
            bytes@ == encode_utf8(s@),
            forall|j: int| 0 <= j < i ==> (#[trigger] bytes@[j]) >= 0x20,
        decreases bytes@.len() - i,
    {
        if bytes[i] < 0x20 {
            assert(encode_utf8(s@)[i as int] < 0x20);
            return true;
        }
        i += 1;
    }
    false
}

/// A C0 control character occurs in the text.
pub open spec fn has_low_char(s: Seq<char>) -> bool {
    exists|i: int| 0 <= i < s.len() && (#[trigger] s[i]) < '\u{20}'
}

/// An ASCII character is one byte, its own code; every byte of another one is above the ASCII range.
pub proof fn lemma_scalar_bytes(c: char)
    ensures
        c < '\u{80}' ==> encode_scalar(c as u32).len() == 1 && encode_scalar(c as u32)[0] as int
            == c as int,
        c >= '\u{80}' ==> forall|i: int|
            0 <= i < encode_scalar(c as u32).len() ==> (#[trigger] encode_scalar(c as u32)[i])
                >= 0x80,
{
    let v = c as u32;
    vstd::utf8::char_is_scalar(c);
    if v < 0x80 {
        assert((v & 0x7F) == v) by (bit_vector)
            requires
                v < 0x80,
        ;
    }
    assert(forall|b: u8| #[trigger] (0x80u8 | b) >= 0x80) by (bit_vector);
    assert(forall|b: u8| #[trigger] (0xC0u8 | b) >= 0x80) by (bit_vector);
    assert(forall|b: u8| #[trigger] (0xE0u8 | b) >= 0x80) by (bit_vector);
    assert(forall|b: u8| #[trigger] (0xF0u8 | b) >= 0x80) by (bit_vector);
}

/// A low byte stands for a C0 control character, and the other way round.
pub proof fn lemma_low_bytes_are_low_chars(s: Seq<char>)
    ensures
        has_low_byte(s) <==> has_low_char(s),
    decreases s.len(),
{
    let bytes = encode_utf8(s);
    if s.len() > 0 {
        let c = s[0];
        let t = s.drop_first();
        let head = encode_scalar(c as u32);
        let tail = encode_utf8(t);
        lemma_low_bytes_are_low_chars(t);
        lemma_scalar_bytes(c);
        assert(bytes =~= head + tail);
        if has_low_byte(s) {
            let i = choose|i: int| 0 <= i < bytes.len() && (#[trigger] bytes[i]) < 0x20;
            if i < head.len() {
                assert(head[i] < 0x20);
                assert(s[0] < '\u{20}');
            } else {
                assert(tail[i - head.len()] < 0x20);
                let k = choose|k: int| 0 <= k < t.len() && (#[trigger] t[k]) < '\u{20}';
                assert(s[k + 1] == t[k]);
            }
        }
        if has_low_char(s) {
            let k = choose|k: int| 0 <= k < s.len() && (#[trigger] s[k]) < '\u{20}';
            if k == 0 {
                assert(bytes[0] == head[0]);
            } else {
                assert(t[k - 1] == s[k]);
                let i = choose|i: int| 0 <= i < tail.len() && (#[trigger] tail[i]) < 0x20;
                assert(bytes[i + head.len()] == tail[i]);
            }
        }
    }
}

/// The beginning of a text without C0 control bytes has none either.
pub proof fn lemma_low_bytes_of_prefix(s: Seq<char>, t: Seq<char>)
    requires
        !has_low_byte(s),
        t.len() <= s.len(),
        t == s.take(t.len() as int),
    ensures
        !has_low_byte(t),
{
    lemma_low_bytes_are_low_chars(s);
    lemma_low_bytes_are_low_chars(t);
    if has_low_char(t) {
        let k = choose|k: int| 0 <= k < t.len() && (#[trigger] t[k]) < '\u{20}';
        assert(s[k] == t[k]);
    }
}

/// Reject any C0 control byte (CR, LF, NUL and TAB among them) in a string destined for an FTP
/// command argument.
pub fn validate_ftp_path(s: &str) -> (r: Result<(), NetError>)
    ensures
        r is Ok <==> !has_low_byte(s@),
        r matches Err(e) ==> e matches NetError::InvalidPath(m) && m@
            == "remote path contains a control character (CRLF/NUL injection guard)"@,
{
    if any_low_byte(s) {
        return Err(
            NetError::InvalidPath(
                "remote path contains a control character (CRLF/NUL injection guard)".to_owned(),
            ),
        );
    }
    Ok(())
}

/// A server-supplied name that can be one component of a path: it is not empty, is neither `.` nor
/// `..`, holds no `/` and no C0 control byte.
pub open spec fn safe_component(name: Seq<char>) -> bool {
    &&& name.len() > 0
    &&& name != "."@
    &&& name != ".."@
    &&& !name.contains('/')
    &&& !has_low_byte(name)
}

/// Reject a server-supplied name that would not be a single component of a path.
pub fn validate_remote_component(name: &str) -> (r: Result<(), NetError>)
    ensures
        r is Ok <==> safe_component(name@),
        r matches Err(e) ==> e matches NetError::InvalidPath(m) && m@
            == "server returned an unsafe file name"@,
{
    let chars: Vec<char> = chars_of(name);
    if chars.len() == 0 || is_word(&chars, ".") || is_word(&chars, "..") || contains_char(
        &chars,
        '/',
    ) || any_low_byte(name) {
        return Err(NetError::InvalidPath("server returned an unsafe file name".to_owned()));
    }
    Ok(())
}

pub open spec fn slash() -> Seq<char> {
    seq!['/']
}

/// A component that says nothing, or only "here".
pub open spec fn idle_component(c: Seq<char>) -> bool {
    c.len() == 0 || c == seq!['.']
}

pub open spec fn parent_component(c: Seq<char>) -> bool {
    c == seq!['.', '.']
}

/// The components that remain of `parts` after those already kept: `.` and empty ones are dropped,
/// `..` takes back one, and a component with a control byte or over 255 bytes is refused.
pub open spec fn kept_components(parts: Seq<Seq<char>>, kept: Seq<Seq<char>>) -> Result<
    Seq<Seq<char>>,
    Seq<char>,
>
    decreases parts.len(),
{
    if parts.len() == 0 {
        Ok(kept)
    } else {
        let c = parts[0];
        if idle_component(c) {
            kept_components(parts.skip(1), kept)
        } else if parent_component(c) {
            kept_components(
                parts.skip(1),
                if kept.len() > 0 {
                    kept.drop_last()
                } else {
                    kept
                },
            )
        } else if has_low_byte(c) {
            Err("filename contains a control character"@)
        } else if utf8_len(c) > 255 {
            Err("filename exceeds 255 bytes (NAME_MAX)"@)
        } else {
            kept_components(parts.skip(1), kept.push(c))
        }
    }
}

/// The clean relative path of a server-controlled one, or the reason for its refusal.
pub open spec fn sanitized(rel: Seq<char>) -> Result<Seq<char>, Seq<char>> {
    match kept_components(split_any(rel, slash()), Seq::empty()) {
        Err(e) => Err(e),
        Ok(kept) => if joined(kept, slash()).len() == 0 {
            Err("server filename sanitizes to empty (refusing to write)"@)
        } else {
            Ok(joined(kept, slash()))
        },
    }
}

/// Normalize a server-controlled relative path so it cannot escape the chosen local root.
///
/// - strips leading separators, so that the path is never absolute,
/// - drops empty and `.` components,
/// - resolves `..` by taking back one component (one that would climb above the root is dropped),
/// - rejects any component containing a control byte or exceeding 255 bytes.
///
/// An input of which nothing remains is rejected.
pub fn sanitize_local_rel(rel: &str) -> (r: Result<String, NetError>)
    ensures
        r is Ok <==> sanitized(rel@) is Ok,
        r matches Ok(clean) ==> sanitized(rel@) == Ok::<Seq<char>, Seq<char>>(clean@),
        r matches Err(e) ==> e matches NetError::InvalidPath(m) && sanitized(rel@) == Err::<
            Seq<char>,
            Seq<char>,
        >(m@),
{
    let sep: [char; 1] = ['/'];
    let here: [char; 1] = ['.'];
    let up: [char; 2] = ['.', '.'];
    assert(sep@ =~= slash());
    assert(here@ =~= seq!['.']);
    assert(up@ =~= seq!['.', '.']);
    let chars: Vec<char> = chars_of(rel);
    let parts: Vec<Vec<char>> = split(&chars, sep.as_slice());
    let ghost all = views(parts@);
    let mut kept: Vec<Vec<char>> = Vec::new();
    let mut i: usize = 0;
    assert(views(kept@) =~= Seq::<Seq<char>>::empty());
    assert(all.skip(0) =~= all);
    while i < parts.len()
        invariant
            i <= parts@.len(),
            all == views(parts@),
            here@ == seq!['.'],
            up@ == seq!['.', '.'],
            all == split_any(rel@, slash()),
            kept_components(all, Seq::empty()) == kept_components(
                all.skip(i as int),
                views(kept@),
            ),
        decreases parts@.len() - i,
    {
        let ghost rest = all.skip(i as int);
        assert(rest[0] == parts@[i as int]@);
        assert(rest.skip(1) =~= all.skip(i + 1));
        let ghost before = kept@;
        if parts[i].len() == 0 || same(&parts[i], here.as_slice()) {
        } else if same(&parts[i], up.as_slice()) {
            kept.pop();
            proof {
                if before.len() > 0 {
                    assert(views(kept@) =~= views(before).drop_last());
                } else {
                    assert(views(kept@) =~= views(before));
                }
            }
        } else {
            let text: String = string_of(&parts[i]);
            if any_low_byte(text.as_str()) {
                return Err(
                    NetError::InvalidPath("filename contains a control character".to_owned()),
                );
            }
            if byte_len(text.as_str()) > 255 {
                return Err(
                    NetError::InvalidPath("filename exceeds 255 bytes (NAME_MAX)".to_owned()),
                );
            }
            kept.push(copy_chars(&parts[i]));
            assert(views(kept@) =~= views(before).push(parts@[i as int]@));
        }
        i += 1;
    }
    assert(all.skip(i as int).len() == 0);
    let clean: Vec<char> = join(&kept, sep.as_slice());
    if clean.len() == 0 {
        return Err(
            NetError::InvalidPath(
                "server filename sanitizes to empty (refusing to write)".to_owned(),
            ),
        );
    }
    Ok(string_of(&clean))
}

/// A component that may stand in a clean path.
pub open spec fn clean_component(c: Seq<char>) -> bool {
    &&& !idle_component(c)
    &&& !parent_component(c)
    &&& !has_low_byte(c)
    &&& utf8_len(c) <= 255
    &&& !c.contains('/')
}

proof fn lemma_kept_are_clean(parts: Seq<Seq<char>>, kept: Seq<Seq<char>>)
    requires
        forall|i: int| 0 <= i < parts.len() ==> !(#[trigger] parts[i]).contains('/'),
        forall|i: int| 0 <= i < kept.len() ==> clean_component(#[trigger] kept[i]),
        kept_components(parts, kept) is Ok,
    ensures
        forall|i: int|
            0 <= i < kept_components(parts, kept)->Ok_0.len() ==> clean_component(
                #[trigger] kept_components(parts, kept)->Ok_0[i],
            ),
    decreases parts.len(),
{
    if parts.len() > 0 {
        let c = parts[0];
        assert(!c.contains('/'));
        let rest = parts.skip(1);
        assert forall|i: int| 0 <= i < rest.len() implies !(#[trigger] rest[i]).contains('/') by {
            assert(rest[i] == parts[i + 1]);
        }
        if idle_component(c) {
            lemma_kept_are_clean(rest, kept);
        } else if parent_component(c) {
            lemma_kept_are_clean(
                rest,
                if kept.len() > 0 {
                    kept.drop_last()
                } else {
                    kept
                },
            );
        } else {
            lemma_kept_are_clean(rest, kept.push(c));
        }
    }
}

proof fn lemma_parts_have_no_slash(s: Seq<char>)
    ensures
        forall|i: int|
            0 <= i < split_any(s, slash()).len() ==> !(#[trigger] split_any(s, slash())[i]).contains(
                '/',
            ),
    decreases s.len(),
{
    let n = crate::pieces::first_of(s, slash());
    crate::pieces::lemma_first_of_bounds(s, slash());
    assert(slash()[0] == '/');
    let head = if n < s.len() {
        s.take(n)
    } else {
        s
    };
    assert(!head.contains('/')) by {
        if head.contains('/') {
            let j = choose|j: int| 0 <= j < head.len() && head[j] == '/';
            assert(s[j] == '/');
            assert(slash().contains(s[j]));
        }
    }
    if n < s.len() {
        lemma_parts_have_no_slash(s.skip(n + 1));
        let rest = split_any(s.skip(n + 1), slash());
        assert forall|i: int| 0 <= i < split_any(s, slash()).len() implies !(#[trigger] split_any(
            s,
            slash(),
        )[i]).contains('/') by {
            if i > 0 {
                assert(split_any(s, slash())[i] == rest[i - 1]);
            }
        }
    }
}

/// Splitting a joined path gives the components back.
pub proof fn joined_components_split_back(parts: Seq<Seq<char>>)
    requires
        parts.len() > 0,
        forall|i: int| 0 <= i < parts.len() ==> !(#[trigger] parts[i]).contains('/'),
    ensures
        split_any(joined(parts, slash()), slash()) == parts,
    decreases parts.len(),
{
    assert(slash()[0] == '/');
    let last = parts.last();
    assert(split_any(last, slash()) =~= seq![last]) by {
        assert(!last.contains('/'));
        assert forall|i: int| 0 <= i < last.len() implies !slash().contains(#[trigger] last[i]) by {
            assert(last.contains(last[i]));
        }
        crate::pieces::lemma_first_of(last, slash(), last.len() as int);
    }
    if parts.len() > 1 {
        let front = parts.drop_last();
        assert forall|i: int| 0 <= i < front.len() implies !(#[trigger] front[i]).contains('/') by {
            assert(front[i] == parts[i]);
        }
        joined_components_split_back(front);
        split_at_separator(joined(front, slash()), '/', last, slash());
        assert(joined(parts, slash()) =~= joined(front, slash()) + seq!['/'] + last);
        assert(front + seq![last] =~= parts);
    } else {
        assert(parts =~= seq![last]);
    }
}

/// A clean path has only clean components: none is empty, `.` or `..`, none holds a control byte or
/// exceeds 255 bytes. In particular it is never absolute and never leaves its root.
pub proof fn sanitized_path_stays_inside(rel: Seq<char>)
    requires
        sanitized(rel) is Ok,
    ensures
        ({
            let clean = sanitized(rel)->Ok_0;
            let parts = split_any(clean, slash());
            &&& clean.len() > 0
            &&& clean[0] != '/'
            &&& forall|i: int| 0 <= i < parts.len() ==> clean_component(#[trigger] parts[i])
        }),
{
    let parts = split_any(rel, slash());
    lemma_parts_have_no_slash(rel);
    lemma_kept_are_clean(parts, Seq::empty());
    let kept = kept_components(parts, Seq::empty())->Ok_0;
    let clean = joined(kept, slash());
    assert(kept.len() > 0);
    assert forall|i: int| 0 <= i < kept.len() implies !(#[trigger] kept[i]).contains('/') by {
        assert(clean_component(kept[i]));
    }
    joined_components_split_back(kept);
    lemma_joined_starts_with_first(kept);
    assert(clean_component(kept[0]));
    assert(clean[0] == kept[0][0]);
    assert(kept[0].contains(kept[0][0]));
}

proof fn lemma_joined_starts_with_first(parts: Seq<Seq<char>>)
    requires
        parts.len() > 0,
    ensures
        joined(parts, slash()).len() >= parts[0].len(),
        joined(parts, slash()).take(parts[0].len() as int) == parts[0],
    decreases parts.len(),
{
    if parts.len() > 1 {
        lemma_joined_starts_with_first(parts.drop_last());
        let front = joined(parts.drop_last(), slash());
        assert(parts.drop_last()[0] == parts[0]);
        assert(joined(parts, slash()).take(parts[0].len() as int) =~= front.take(
            parts[0].len() as int,
        ));
    } else {
        assert(parts[0].take(parts[0].len() as int) =~= parts[0]);
    }
}

proof fn lemma_clean_kept_whole(parts: Seq<Seq<char>>, kept: Seq<Seq<char>>)
    requires
        forall|i: int| 0 <= i < parts.len() ==> clean_component(#[trigger] parts[i]),
    ensures
        kept_components(parts, kept) == Ok::<Seq<Seq<char>>, Seq<char>>(kept + parts),
    decreases parts.len(),
{
    if parts.len() > 0 {
        let rest = parts.skip(1);
        assert(clean_component(parts[0]));
        assert forall|i: int| 0 <= i < rest.len() implies clean_component(#[trigger] rest[i]) by {
            assert(rest[i] == parts[i + 1]);
        }
        lemma_clean_kept_whole(rest, kept.push(parts[0]));
        assert(kept.push(parts[0]) + rest =~= kept + parts);
    } else {
        assert(kept + parts =~= kept);
    }
}

/// Sanitizing a clean path changes nothing.
pub proof fn sanitizing_is_idempotent(rel: Seq<char>)
    requires
        sanitized(rel) is Ok,
    ensures
        sanitized(sanitized(rel)->Ok_0) == sanitized(rel),
{
    let parts = split_any(rel, slash());
    lemma_parts_have_no_slash(rel);
    lemma_kept_are_clean(parts, Seq::empty());
    let kept = kept_components(parts, Seq::empty())->Ok_0;
    assert forall|i: int| 0 <= i < kept.len() implies !(#[trigger] kept[i]).contains('/') by {
        assert(clean_component(kept[i]));
    }
    assert(kept.len() > 0);
    joined_components_split_back(kept);
    lemma_clean_kept_whole(kept, Seq::empty());
    assert(Seq::<Seq<char>>::empty() + kept =~= kept);
}

// --- resolved local paths ----------------------------------------------------------------------

/// One component of a local path.
#[derive(Debug, PartialEq, Eq)]
pub enum PathPart {
    /// A name, as the bytes that the filesystem knows it by.
    Normal(Vec<u8>),
    /// `..`
    Parent,
    /// A leading `.`
    Current,
}

/// A local path, taken apart into its components.
#[derive(Debug, PartialEq, Eq)]
pub struct PathParts {
    pub absolute: bool,
    pub parts: Vec<PathPart>,
}

/// A component by its meaning.
pub ghost enum PartView {
    Normal(Seq<u8>),
    Parent,
    Current,
}

impl View for PathPart {
    type V = PartView;

    open spec fn view(&self) -> PartView {
        match self {
            PathPart::Normal(name) => PartView::Normal(name@),
            PathPart::Parent => PartView::Parent,
            PathPart::Current => PartView::Current,
        }
    }
}

pub ghost struct PathView {
    pub absolute: bool,
    pub parts: Seq<PartView>,
}

pub open spec fn part_views(v: Seq<PathPart>) -> Seq<PartView> {
    v.map_values(|p: PathPart| p@)
}

impl View for PathParts {
    type V = PathView;

    open spec fn view(&self) -> PathView {
        PathView { absolute: self.absolute, parts: part_views(self.parts@) }
    }
}

/// Add bytes at the end.
pub(crate) fn append_bytes(out: &mut Vec<u8>, more: &[u8])
    ensures
        final(out)@ == old(out)@ + more@,
{
    let ghost start = out@;
    let mut i: usize = 0;
    while i < more.len()
        invariant
            i <= more@.len(),
            out@ == start + more@.take(i as int),
        decreases more@.len() - i,
    {
        out.push(more[i]);
        assert(start + more@.take(i + 1) =~= (start + more@.take(i as int)).push(more@[i as int]));
        i += 1;
    }
    assert(more@.take(more@.len() as int) =~= more@);
}

pub fn copy_bytes(v: &[u8]) -> (r: Vec<u8>)
    ensures
        r@ == v@,
{
    let mut out: Vec<u8> = Vec::new();
    let mut i: usize = 0;
    while i < v.len()
        invariant
            i <= v@.len(),
            out@ == v@.take(i as int),
        decreases v@.len() - i,
    {
        out.push(v[i]);
        assert(v@.take(i + 1) =~= v@.take(i as int).push(v@[i as int]));
        i += 1;
    }
    assert(v@.take(v@.len() as int) =~= v@);
    out
}

pub fn same_bytes(a: &[u8], b: &[u8]) -> (r: bool)
    ensures
        r == (a@ == b@),
{
    if a.len() != b.len() {
        return false;
    }
    let mut i: usize = 0;
    while i < a.len()
        invariant
            a@.len() == b@.len(),
            i <= a@.len(),
            forall|j: int| 0 <= j < i ==> a@[j] == b@[j],
        decreases a@.len() - i,
    {
        if a[i] != b[i] {
            return false;
        }
        i += 1;
    }
    assert(a@ =~= b@);
    true
}

impl PathPart {
    fn copy(&self) -> (r: PathPart)
        ensures
            r@ == self@,
    {
        match self {
            PathPart::Normal(name) => PathPart::Normal(copy_bytes(name)),
            PathPart::Parent => PathPart::Parent,
            PathPart::Current => PathPart::Current,
        }
    }

    fn same(&self, other: &PathPart) -> (r: bool)
        ensures
            r == (self@ == other@),
    {
        match (self, other) {
            (PathPart::Normal(a), PathPart::Normal(b)) => same_bytes(a, b),
            (PathPart::Parent, PathPart::Parent) => true,
            (PathPart::Current, PathPart::Current) => true,
            _ => false,
        }
    }
}

/// The components `from` up to `to` of a list.
fn copy_parts(v: &Vec<PathPart>, from: usize, to: usize, out: &mut Vec<PathPart>)
    requires
        from <= to <= v@.len(),
    ensures
        part_views(final(out)@) == part_views(old(out)@) + part_views(v@).subrange(
            from as int,
            to as int,
        ),
{
    let ghost start = part_views(out@);
    let ghost all = part_views(v@);
    let mut i: usize = from;
    assert(start + all.subrange(from as int, from as int) =~= start);
    while i < to
        invariant
            from <= i <= to <= v@.len(),
            all == part_views(v@),
            part_views(out@) == start + all.subrange(from as int, i as int),
        decreases to - i,
    {
        let ghost before = out@;
        out.push(v[i].copy());
        assert(part_views(out@) =~= part_views(before).push(all[i as int]));
        assert(start + all.subrange(from as int, i + 1) =~= (start + all.subrange(
            from as int,
            i as int,
        )).push(all[i as int]));
        i += 1;
    }
}

impl PathParts {
    pub fn duplicate(&self) -> (r: PathParts)
        ensures
            r@ == self@,
    {
        let mut parts: Vec<PathPart> = Vec::new();
        copy_parts(&self.parts, 0, self.parts.len(), &mut parts);
        let r = PathParts { absolute: self.absolute, parts };
        assert(r@.parts =~= self@.parts);
        r
    }
}

pub open spec fn has_parent_part(p: PathView) -> bool {
    exists|i: int| 0 <= i < p.parts.len() && #[trigger] p.parts[i] == PartView::Parent
}

fn any_parent_part(p: &PathParts) -> (r: bool)
    ensures
        r == has_parent_part(p@),
{
    let mut i: usize = 0;
    while i < p.parts.len()
        invariant
            i <= p.parts@.len(),
            forall|j: int| 0 <= j < i ==> #[trigger] p@.parts[j] != PartView::Parent,
        decreases p.parts@.len() - i,
    {
        assert(p@.parts[i as int] == p.parts@[i as int]@);
        if matches!(p.parts[i], PathPart::Parent) {
            return true;
        }
        i += 1;
    }
    false
}

/// `p` lies at or below `root`.
pub open spec fn lies_below(p: PathView, root: PathView) -> bool {
    &&& p.absolute == root.absolute
    &&& root.parts.len() <= p.parts.len()
    &&& p.parts.take(root.parts.len() as int) == root.parts
}

pub fn starts_with_path(p: &PathParts, root: &PathParts) -> (r: bool)
    ensures
        r == lies_below(p@, root@),
{
    if p.absolute != root.absolute || root.parts.len() > p.parts.len() {
        return false;
    }
    let mut i: usize = 0;
    while i < root.parts.len()
        invariant
            i <= root.parts@.len() <= p.parts@.len(),
            p.absolute == root.absolute,
            forall|j: int| 0 <= j < i ==> p@.parts[j] == #[trigger] root@.parts[j],
        decreases root.parts@.len() - i,
    {
        assert(p@.parts[i as int] == p.parts@[i as int]@);
        assert(root@.parts[i as int] == root.parts@[i as int]@);
        if !p.parts[i].same(&root.parts[i]) {
            assert(p@.parts.take(root@.parts.len() as int)[i as int] != root@.parts[i as int]);
            return false;
        }
        i += 1;
    }
    assert(p@.parts.take(root@.parts.len() as int) =~= root@.parts);
    true
}

/// Two paths have the same components.
pub fn same_path(a: &PathParts, b: &PathParts) -> (r: bool)
    ensures
        r == (a@ == b@),
{
    if a.parts.len() != b.parts.len() {
        assert(a@.parts.len() != b@.parts.len());
        return false;
    }
    let below: bool = starts_with_path(a, b);
    assert(a@.parts.take(b@.parts.len() as int) =~= a@.parts);
    below
}

/// What to do next with a path of which the last `dropped` components have been set aside.
#[derive(Debug, PartialEq, Eq)]
pub enum ClimbStep {
    /// The answer: the resolved ancestor with the components set aside put back.
    Resolved(PathParts),
    /// Ask the filesystem to resolve the path without its last `dropped` components.
    Resolve { dropped: usize },
    /// No ancestor could be resolved: the path as it stands is the answer.
    Unresolved,
}

/// The ancestor of `path` that is tried when its last `dropped` components are set aside can be
/// climbed out of: it has a parent, the parent is not empty, and its last component is a name.
pub open spec fn can_climb(path: PathView, dropped: nat) -> bool {
    let n = path.parts.len() - dropped;
    &&& n > 0
    &&& (path.absolute || n > 1)
    &&& path.parts[n - 1] is Normal
}

/// Resolve a path of which the last components need not exist.
///
/// The filesystem is asked for the path, then for one ancestor after another; the nearest one that
/// it resolves is extended by the components below it, which do not exist and so hold no links.
pub fn canonicalize_lenient(path: &PathParts, dropped: usize, resolved: Option<PathParts>) -> (r:
    ClimbStep)
    requires
        dropped <= path.parts@.len(),
    ensures
        resolved matches Some(anchor) ==> r matches ClimbStep::Resolved(full) && full@.absolute
            == anchor@.absolute && full@.parts == anchor@.parts + path@.parts.skip(
            path@.parts.len() - dropped,
        ),
        resolved is None ==> if can_climb(path@, dropped as nat) {
            r == ClimbStep::Resolve { dropped: (dropped + 1) as usize }
        } else {
            r == ClimbStep::Unresolved
        },
        r matches ClimbStep::Resolve { dropped: next } ==> next <= path@.parts.len(),
{
    let n: usize = path.parts.len() - dropped;
    match resolved {
        Some(anchor) => {
            let mut full: PathParts = anchor;
            let mut parts: Vec<PathPart> = full.parts;
            copy_parts(&path.parts, n, path.parts.len(), &mut parts);
            assert(path@.parts.skip(n as int) =~= path@.parts.subrange(
                n as int,
                path@.parts.len() as int,
            ));
            ClimbStep::Resolved(PathParts { absolute: full.absolute, parts })
        },
        None => {
            if n == 0 {
                return ClimbStep::Unresolved;
            }
            assert(path@.parts[n - 1] == path.parts@[n - 1]@);
            if !path.absolute && n == 1 {
                return ClimbStep::Unresolved;
            }
            match path.parts[n - 1] {
                PathPart::Normal(_) => ClimbStep::Resolve { dropped: dropped + 1 },
                _ => ClimbStep::Unresolved,
            }
        },
    }
}

/// What must be resolved before containment can be decided.
#[derive(Debug, PartialEq, Eq)]
pub enum WithinCheck {
    /// Nothing can be escaped from.
    Accepted,
    /// Resolve the root and this many leading components of the target, its parent.
    ResolveParent { parts: usize },
}

/// The parent of a path, as a number of leading components; none for a root, an empty path or a
/// single name.
pub open spec fn parent_parts(p: PathView) -> Option<nat> {
    if p.parts.len() == 0 || (p.parts.len() == 1 && !p.absolute) {
        None
    } else {
        Some((p.parts.len() - 1) as nat)
    }
}

/// First half of the containment guard: refuse any `..` outright, then name what to resolve.
pub fn before_within(root: &PathParts, target: &PathParts) -> (r: Result<WithinCheck, NetError>)
    ensures
        r is Err <==> has_parent_part(root@) || has_parent_part(target@),
        r matches Err(e) ==> e matches NetError::InvalidPath(m) && m@
            == "path contains a parent-dir (..) component"@,
        r matches Ok(check) ==> (match parent_parts(target@) {
            Some(n) => check == (WithinCheck::ResolveParent { parts: n as usize }),
            None => check == WithinCheck::Accepted,
        }),
{
    if any_parent_part(root) || any_parent_part(target) {
        return Err(
            NetError::InvalidPath("path contains a parent-dir (..) component".to_owned()),
        );
    }
    let n: usize = target.parts.len();
    if n == 0 || (n == 1 && !target.absolute) {
        Ok(WithinCheck::Accepted)
    } else {
        Ok(WithinCheck::ResolveParent { parts: n - 1 })
    }
}

/// Second half of the containment guard: the resolved parent of the target must lie at or below the
/// resolved root.
pub fn assert_within(canon_root: &PathParts, canon_parent: &PathParts) -> (r: Result<(), NetError>)
    ensures
        r is Ok <==> lies_below(canon_parent@, canon_root@),
        r matches Err(e) ==> e matches NetError::InvalidPath(m) && m@
            == "refusing to write outside the destination root (containment guard)"@,
{
    if !starts_with_path(canon_parent, canon_root) {
        return Err(
            NetError::InvalidPath(
                "refusing to write outside the destination root (containment guard)".to_owned(),
            ),
        );
    }
    Ok(())
}

} // verus!
