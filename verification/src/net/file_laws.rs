//! What becomes of local files, remote paths and failures on the way of a transfer.

use vstd::prelude::*;
use vstd::utf8::encode_utf8;

use crate::digest::sha256;
use crate::model::entry::RemoteEntry;
use crate::model::ConnectionSpec;
use crate::net::error::{IoFailure, IoKind, NetError};
use crate::net::ftp::checksum::{hash_files, HashStep, RemoteDigest};
use crate::net::ftp::commands::{
    after_relay_read, before_relay_read, chmod, file_size, initial_directory, modified_time, rename,
    RelayRead, RelayStep,
};
use crate::net::ftp::transport::FtpFailure;
use crate::net::partial::{
    after_create, after_open_existing, check_fragment, resumable_part_path, CreateOutcome,
    DownloadResume, FileFacts, PartStep,
};
use crate::net::safe::{
    assert_within, before_within, canonicalize_lenient, has_low_byte, has_low_char, kept_components,
    lemma_low_bytes_are_low_chars, sanitize_local_rel, slash, validate_ftp_path,
    validate_remote_component, ClimbStep, PartView, PathParts, WithinCheck,
};
use crate::net::search::normalize_remote_search_query;
use crate::net::staging::RemoteStagingPaths;
use crate::net::transfer_rules::{
    download_file_limited, exceeds_limit, local_transfer_metadata, metadata_to_apply,
    modified_unix_nanos, remote_exists, validate_upload_source, MetadataPreservation,
    TransferMetadata, UploadResume,
};
use crate::numerals::{decimal, digit_char, hex_padded};
use crate::pieces::{contains_text, joined, split_any, trimmed};
use crate::text::{ascii_lowercase, has_control, lowercase, utf8_len};

verus! {

// --- metadata ----------------------------------------------------------------------------------

/// Of a local file's metadata exactly what the user wants kept is carried over, and of its mode only
/// the bits for reading, writing and executing.
pub proof fn wanted_metadata_is_carried_over(
    modified: Option<i128>,
    mode: u32,
    policy: MetadataPreservation,
    r: TransferMetadata,
    bit: u32,
)
    requires
        call_ensures(local_transfer_metadata, (modified, mode, policy), r),
        bit < 32,
    ensures
        policy.timestamps ==> r.modified == modified,
        !policy.timestamps ==> r.modified is None,
        !policy.permissions ==> r.permissions is None,
        policy.permissions ==> r.permissions is Some,
        policy.permissions && bit < 9 ==> (r.permissions->0 >> bit) & 1 == (mode >> bit) & 1,
        policy.permissions && bit >= 9 ==> (r.permissions->0 >> bit) & 1 == 0,
{
    assert(bit < 9 ==> ((mode & 0o777) >> bit) & 1 == (mode >> bit) & 1) by (bit_vector);
    assert(bit >= 9 && bit < 32 ==> ((mode & 0o777) >> bit) & 1 == 0) by (bit_vector);
}

/// A downloaded file gets the times and the bits that were carried over, but only if it is still one
/// regular file with one name.
pub proof fn metadata_goes_to_a_plain_file(
    metadata: TransferMetadata,
    opened: Option<FileFacts>,
    r: Result<TransferMetadata, IoFailure>,
)
    requires
        call_ensures(metadata_to_apply, (metadata, opened), r),
        metadata.modified is Some || metadata.permissions is Some,
        opened is Some,
    ensures
        r is Ok <==> opened->0.is_file && opened->0.links == 1,
        r matches Ok(m) ==> m.modified == metadata.modified && (m.permissions is Some
            <==> metadata.permissions is Some) && (metadata.permissions matches Some(bits) ==> bits
            <= 0o777 ==> m.permissions == Some(bits)),
        r matches Err(e) ==> e.kind == IoKind::InvalidData,
{
    if let Some(bits) = metadata.permissions {
        assert(bits <= 0o777 ==> bits & 0o777 == bits) by (bit_vector);
    }
}

/// A queued upload goes on only with a source of the size and the time that it was queued with.
pub proof fn changed_sources_are_noticed(
    len: u64,
    modified: Option<i128>,
    nanos: Option<u64>,
    resume: UploadResume,
    r: Result<(), NetError>,
)
    requires
        call_ensures(modified_unix_nanos, (modified,), nanos),
        call_ensures(validate_upload_source, (len, nanos, resume), r),
    ensures
        len != resume.expected_total ==> r == Err::<(), NetError>(NetError::UploadSourceChanged),
        modified is None ==> r == Err::<(), NetError>(NetError::UploadSourceChanged),
        modified matches Some(t) ==> (t != resume.expected_modified_unix_nanos ==> r == Err::<
            (),
            NetError,
        >(NetError::UploadSourceChanged)),
        modified matches Some(t) ==> (len == resume.expected_total && t
            == resume.expected_modified_unix_nanos ==> r is Ok),
{
}

/// A download with a ceiling fails exactly if more than the ceiling arrived, and says the ceiling.
pub proof fn ceilings_are_kept(
    done: u64,
    max_bytes: u64,
    exceeded: bool,
    result: Result<u64, NetError>,
    r: Result<u64, NetError>,
)
    requires
        call_ensures(exceeds_limit, (done, max_bytes), exceeded),
        call_ensures(download_file_limited, (exceeded, result, max_bytes), r),
    ensures
        done <= max_bytes ==> r == result,
        done > max_bytes ==> (r matches Err(e) && (e matches NetError::Io(f) && f.kind
            == IoKind::InvalidData && f.detail@ == "remote file exceeds the "@ + decimal(
            max_bytes as nat,
        ) + "-byte safety limit"@)),
{
}

/// A name is there exactly if the listing has an entry of that name; a failed listing says neither.
pub proof fn names_are_looked_for_in_the_listing(
    listing: Result<Vec<RemoteEntry>, NetError>,
    name: &str,
    r: Result<bool, NetError>,
)
    requires
        call_ensures(remote_exists, (listing, name), r),
    ensures
        listing matches Err(e) ==> r == Err::<bool, NetError>(e),
        listing matches Ok(entries) ==> r is Ok,
        listing matches Ok(entries) ==> forall|i: int|
            0 <= i < entries@.len() && (#[trigger] entries@[i]).name@ == name@ ==> r == Ok::<
                bool,
                NetError,
            >(true),
        listing matches Ok(entries) ==> ((forall|i: int|
            0 <= i < entries@.len() ==> (#[trigger] entries@[i]).name@ != name@) ==> r == Ok::<
            bool,
            NetError,
        >(false)),
{
}

// --- fragments ---------------------------------------------------------------------------------

/// The fragment of a download lies beside its destination as a hidden file; its name holds the name
/// of the destination and the token, so that the next attempt finds it.
pub proof fn fragments_lie_beside_their_destination(
    destination: &PathParts,
    token: u64,
    name: Seq<u8>,
    r: PathParts,
)
    requires
        call_ensures(resumable_part_path, (destination, token), r),
        destination@.parts.len() > 0,
        destination@.parts[destination@.parts.len() - 1] == PartView::Normal(name),
    ensures
        r@.absolute == destination@.absolute,
        r@.parts.len() == destination@.parts.len(),
        forall|i: int|
            0 <= i < destination@.parts.len() - 1 ==> r@.parts[i] == #[trigger] destination@.parts[i],
        r@.parts[r@.parts.len() - 1] == PartView::Normal(
            encode_utf8("."@) + name + encode_utf8(
                ".gmacftp-"@ + hex_padded(token as nat, 16) + ".part"@,
            ),
        ),
{
}

/// An existing fragment is appended to only if it is one private regular file with one name, and the
/// same before and after it was opened.
pub proof fn only_safe_fragments_are_continued(
    before: &FileFacts,
    opened: &FileFacts,
    r: Result<bool, IoFailure>,
)
    requires
        call_ensures(check_fragment, (before, Some(opened)), r),
    ensures
        r is Ok <==> before.is_file && !before.is_symlink && opened.is_file && before.device
            == opened.device && before.inode == opened.inode && opened.links == 1 && opened.mode & 0o77
            == 0,
        r matches Ok(whole) ==> whole,
        r matches Err(e) ==> e.kind == IoKind::InvalidData,
{
}

/// A new fragment begins at zero; an existing one of the same token is continued where it ends,
/// unless it is longer than the file. Fragments of a token are kept for the next attempt.
pub proof fn fragments_are_continued_where_they_end(
    resume: Option<DownloadResume>,
    attempt: u32,
    outcome: CreateOutcome,
    r: PartStep,
    len: u64,
    token: DownloadResume,
    step: PartStep,
)
    requires
        call_ensures(after_create, (resume, attempt, outcome), r),
        call_ensures(after_open_existing, (token, len), step),
        attempt < 16,
    ensures
        outcome is Created && resume is Some ==> r == (PartStep::Ready { offset: 0, keep_on_error: true }),
        outcome is Created && resume is None ==> r == (PartStep::Ready {
            offset: 0,
            keep_on_error: false,
        }),
        outcome matches CreateOutcome::Failed(e) ==> r == PartStep::Fail(e),
        outcome is AlreadyExists && resume is Some ==> r is OpenExisting,
        outcome is AlreadyExists && resume is None && attempt < 15 ==> r == (PartStep::Create {
            attempt: (attempt + 1) as u32,
        }),
        outcome is AlreadyExists && resume is None && attempt == 15 ==> (r matches PartStep::Fail(e)
            && e.kind == IoKind::AlreadyExists),
        token.expected_total is None ==> step == (PartStep::Ready { offset: len, keep_on_error: true }),
        token.expected_total matches Some(n) ==> (len <= n ==> step == (PartStep::Ready {
            offset: len,
            keep_on_error: true,
        })),
        token.expected_total matches Some(n) ==> (len > n ==> step is Fail),
{
}

// --- paths -------------------------------------------------------------------------------------

/// A path is sent to a server exactly if it holds no control character below the space.
pub proof fn control_characters_are_never_sent(
    path: &str,
    other: &str,
    r: Result<(), NetError>,
    both: Result<(), NetError>,
)
    requires
        call_ensures(validate_ftp_path, (path,), r),
        call_ensures(rename, (path, other), both),
    ensures
        r is Ok <==> (forall|i: int| 0 <= i < path@.len() ==> #[trigger] path@[i] >= '\u{20}'),
        both is Ok <==> (forall|i: int| 0 <= i < path@.len() ==> #[trigger] path@[i] >= '\u{20}') && (
        forall|i: int| 0 <= i < other@.len() ==> #[trigger] other@[i] >= '\u{20}'),
{
    lemma_low_bytes_are_low_chars(path@);
    lemma_low_bytes_are_low_chars(other@);
}

/// A name from a server is one component of a path: not empty, not a step up or in place, without a
/// slash and without control characters.
pub proof fn server_names_are_single_components(name: &str, r: Result<(), NetError>)
    requires
        call_ensures(validate_remote_component, (name,), r),
    ensures
        r is Ok <==> name@.len() > 0 && name@ != seq!['.'] && name@ != seq!['.', '.'] && (forall|i: int|
            0 <= i < name@.len() ==> #[trigger] name@[i] >= '\u{20}' && name@[i] != '/'),
{
    lemma_low_bytes_are_low_chars(name@);
    reveal_strlit(".");
    reveal_strlit("..");
    assert("."@ =~= seq!['.']);
    assert(".."@ =~= seq!['.', '.']);
    if r is Ok {
        assert forall|i: int| 0 <= i < name@.len() implies #[trigger] name@[i] >= '\u{20}' && name@[i]
            != '/' by {
            assert(name@.contains(name@[i]));
        }
    }
}

/// A further component of a server's path is kept as it is, unless it says nothing or leads up: then
/// it adds nothing or takes the one before it back. One with control characters or too long for a
/// file name refuses the path.
pub proof fn components_are_kept_or_taken_back(
    parts: Seq<Seq<char>>,
    before: Seq<Seq<char>>,
    c: Seq<char>,
)
    ensures
        kept_components(parts, before) is Err ==> kept_components(parts.push(c), before) is Err,
        kept_components(parts, before) matches Ok(kept) ==> {
            let next = kept_components(parts.push(c), before);
            &&& c.len() == 0 || c == seq!['.'] ==> next == Ok::<Seq<Seq<char>>, Seq<char>>(kept)
            &&& c == seq!['.', '.'] && kept.len() > 0 ==> next == Ok::<Seq<Seq<char>>, Seq<char>>(
                kept.drop_last(),
            )
            &&& c == seq!['.', '.'] && kept.len() == 0 ==> next == Ok::<Seq<Seq<char>>, Seq<char>>(kept)
            &&& (exists|i: int| 0 <= i < c.len() && #[trigger] c[i] < '\u{20}') ==> next is Err
            &&& utf8_len(c) > 255 && c != seq!['.'] && c != seq!['.', '.'] ==> next is Err
            &&& c.len() > 0 && c != seq!['.'] && c != seq!['.', '.'] && utf8_len(c) <= 255 && (forall|
                i: int,
            |
                0 <= i < c.len() ==> #[trigger] c[i] >= '\u{20}') ==> next == Ok::<
                Seq<Seq<char>>,
                Seq<char>,
            >(kept.push(c))
        },
    decreases parts.len(),
{
    lemma_low_bytes_are_low_chars(c);
    if parts.len() == 0 {
        assert(parts.push(c).skip(1) =~= Seq::<Seq<char>>::empty());
        reveal_with_fuel(kept_components, 2);
        if has_low_char(c) {
            assert(c != seq!['.'] && c != seq!['.', '.']);
        }
    } else {
        assert(parts.push(c)[0] == parts[0]);
        assert(parts.push(c).skip(1) =~= parts.skip(1).push(c));
        let first = parts[0];
        components_are_kept_or_taken_back(parts.skip(1), before, c);
        components_are_kept_or_taken_back(
            parts.skip(1),
            if before.len() > 0 {
                before.drop_last()
            } else {
                before
            },
            c,
        );
        components_are_kept_or_taken_back(parts.skip(1), before.push(first), c);
    }
}

/// The clean path is made up of the components that were kept, in their order; a path of which none
/// is kept is refused.
pub proof fn clean_paths_hold_the_kept_components(rel: &str, r: Result<String, NetError>)
    requires
        call_ensures(sanitize_local_rel, (rel,), r),
    ensures
        kept_components(split_any(rel@, seq!['/']), Seq::empty()) matches Ok(kept) ==> (kept.len() > 0
            && joined(kept, seq!['/']).len() > 0 ==> (r matches Ok(clean) && clean@ == joined(
            kept,
            seq!['/'],
        ))),
        kept_components(split_any(rel@, seq!['/']), Seq::empty()) matches Ok(kept) ==> (kept.len() == 0
            ==> r is Err),
        kept_components(split_any(rel@, seq!['/']), Seq::empty()) is Err ==> r is Err,
{
    assert(slash() =~= seq!['/']);
}

/// A path with a step up is never written to, and another only where its resolved folder lies in the
/// resolved root.
pub proof fn writes_stay_in_the_root(
    root: &PathParts,
    target: &PathParts,
    first: Result<WithinCheck, NetError>,
    canon_root: &PathParts,
    canon_parent: &PathParts,
    second: Result<(), NetError>,
)
    requires
        call_ensures(before_within, (root, target), first),
        call_ensures(assert_within, (canon_root, canon_parent), second),
    ensures
        forall|i: int|
            0 <= i < target@.parts.len() && #[trigger] target@.parts[i] == PartView::Parent ==> first
                is Err,
        forall|i: int|
            0 <= i < root@.parts.len() && #[trigger] root@.parts[i] == PartView::Parent ==> first is Err,
        first is Ok && target@.parts.len() > 1 ==> (first matches Ok(check) && (check
            matches WithinCheck::ResolveParent { parts } && parts == target@.parts.len() - 1)),
        second is Ok <==> canon_parent@.absolute == canon_root@.absolute && canon_root@.parts.len()
            <= canon_parent@.parts.len() && forall|i: int|
            0 <= i < canon_root@.parts.len() ==> #[trigger] canon_parent@.parts[i]
                == canon_root@.parts[i],
{
    let n = canon_root@.parts.len() as int;
    if canon_root@.parts.len() <= canon_parent@.parts.len() {
        if forall|i: int| 0 <= i < n ==> #[trigger] canon_parent@.parts[i] == canon_root@.parts[i] {
            assert(canon_parent@.parts.take(n) =~= canon_root@.parts);
        }
        if canon_parent@.parts.take(n) == canon_root@.parts {
            assert forall|i: int| 0 <= i < n implies #[trigger] canon_parent@.parts[i]
                == canon_root@.parts[i] by {
                assert(canon_parent@.parts.take(n)[i] == canon_parent@.parts[i]);
            }
        }
    }
    if first is Ok && target@.parts.len() > 1 {
        assert(target.parts@.len() == target.parts.len());
    }
}

/// What lies below the nearest ancestor that exists is put back as it stands.
pub proof fn missing_components_are_put_back(
    path: &PathParts,
    dropped: usize,
    anchor: PathParts,
    r: ClimbStep,
)
    requires
        call_ensures(canonicalize_lenient, (path, dropped, Some(anchor)), r),
        dropped <= path.parts@.len(),
    ensures
        r matches ClimbStep::Resolved(full) && full@.absolute == anchor@.absolute && full@.parts.len()
            == anchor@.parts.len() + dropped && (forall|i: int|
            0 <= i < anchor@.parts.len() ==> full@.parts[i] == #[trigger] anchor@.parts[i]) && (forall|
            i: int,
        |
            0 <= i < dropped ==> full@.parts[anchor@.parts.len() + i] == #[trigger] path@.parts[path@.parts.len()
                - dropped + i]),
{
    if let ClimbStep::Resolved(full) = r {
        assert forall|i: int| 0 <= i < dropped implies full@.parts[anchor@.parts.len() + i]
            == #[trigger] path@.parts[path@.parts.len() - dropped + i] by {
            assert(path@.parts.skip(path@.parts.len() - dropped)[i] == path@.parts[path@.parts.len()
                - dropped + i]);
        }
    }
}

/// An upload is staged under two names of its own, one for what is written and one for the file that
/// it replaces; the first carries the token.
pub proof fn stages_carry_their_tokens(
    destination: &str,
    token: &str,
    backup: u128,
    r: Result<RemoteStagingPaths, NetError>,
    parent: Seq<char>,
    name: Seq<char>,
)
    requires
        call_ensures(RemoteStagingPaths::build, (destination, token, backup), r),
        r is Ok,
        destination@ == parent + seq!['/'] + name,
        parent.len() > 0,
        name.len() > 0,
        forall|i: int| 0 <= i < name.len() ==> #[trigger] name[i] != '/',
        parent != seq!['/'],
    ensures
        r->Ok_0.temporary@ == parent + seq!['/'] + (".gmacftp-"@ + "upload"@ + seq!['-'] + token@),
        r->Ok_0.backup@ == parent + seq!['/'] + (".gmacftp-"@ + "backup"@ + seq!['-'] + hex_padded(
            backup as nat,
            32,
        )),
{
    let d = destination@;
    let n = parent.len() as int;
    assert(d.last() == name[name.len() - 1]);
    crate::pieces::lemma_drop_end_while(d, crate::pieces::only('/'), d.len() as int);
    assert(d.take(d.len() as int) =~= d);
    assert forall|i: int| n < i < d.len() implies #[trigger] d[i] != '/' by {
        assert(d[i] == name[i - n - 1]);
    }
    assert(d[n] == '/');
    crate::net::staging::lemma_last_slash(d, n);
    assert(d.take(n) =~= parent);
}

// --- what is asked of a server -----------------------------------------------------------------

/// Permissions are set with the three octal digits of the mode; other bits are never set.
pub proof fn modes_are_sent_in_octal(path: &str, mode: u32, r: Result<String, NetError>, a: u32, b: u32, c: u32)
    requires
        call_ensures(chmod, (path, mode), r),
        a < 8,
        b < 8,
        c < 8,
        mode == 64 * a + 8 * b + c,
        !has_low_byte(path@),
    ensures
        r matches Ok(text) && text@ == "CHMOD "@ + seq![
            digit_char(a as nat),
            digit_char(b as nat),
            digit_char(c as nat),
        ] + " "@ + path@,
{
    assert(mode <= 0o777);
    assert(mode / 64 == a);
    assert(mode / 8 == 8 * a + b);
    assert(mode / 8 % 8 == b);
    assert(mode % 8 == c);
}

/// No mode beyond the bits for reading, writing and executing is sent.
pub proof fn other_modes_are_refused(path: &str, mode: u32, r: Result<String, NetError>)
    requires
        call_ensures(chmod, (path, mode), r),
        mode > 511 || has_low_byte(path@),
    ensures
        r is Err,
{
}

/// The server's word that there is no such file is an answer, any other failure is not; a time before
/// the epoch is unknown.
pub proof fn missing_files_have_no_size(
    outcome: Result<u64, FtpFailure>,
    r: Result<Option<u64>, FtpFailure>,
    timestamp: i64,
    time: Option<u64>,
)
    requires
        call_ensures(file_size, (outcome,), r),
        call_ensures(modified_time, (timestamp,), time),
    ensures
        outcome matches Ok(n) ==> r == Ok::<Option<u64>, FtpFailure>(Some(n)),
        outcome matches Err(f) ==> (f.code == Some(550u32) ==> r == Ok::<Option<u64>, FtpFailure>(None)),
        outcome matches Err(f) ==> (f.code != Some(550u32) ==> r == Err::<Option<u64>, FtpFailure>(f)),
        timestamp >= 0 ==> time == Some(timestamp as u64),
        timestamp < 0 ==> time is None,
{
}

/// A session starts in the directory of the connection, white space around it aside; without one it
/// starts where the server puts it.
pub proof fn sessions_start_in_their_directory(
    spec: &ConnectionSpec,
    r: Result<Option<String>, NetError>,
)
    requires
        call_ensures(initial_directory, (spec,), r),
    ensures
        trimmed(spec.initial_path@).len() == 0 ==> r == Ok::<Option<String>, NetError>(None),
        trimmed(spec.initial_path@).len() > 0 && !has_low_byte(trimmed(spec.initial_path@)) ==> (r
            matches Ok(d) && (d matches Some(path) && path@ == trimmed(spec.initial_path@))),
        trimmed(spec.initial_path@).len() > 0 && has_low_byte(trimmed(spec.initial_path@)) ==> r is Err,
{
    assert(trimmed(spec.initial_path@).len() == 0 ==> !has_low_byte(trimmed(spec.initial_path@))) by {
        lemma_low_bytes_are_low_chars(trimmed(spec.initial_path@));
    }
}

/// The digest of a remote file is that of all of its bytes in their order, and of none where reading
/// or closing failed.
pub proof fn digests_are_of_all_bytes(
    fresh: RemoteDigest,
    digest: RemoteDigest,
    read: Result<(), NetError>,
    close: Result<(), NetError>,
    r: Result<Vec<u8>, NetError>,
)
    requires
        call_ensures(RemoteDigest::new, (), fresh),
        call_ensures(RemoteDigest::finish, (digest, read, close), r),
    ensures
        fresh.received().len() == 0,
        read is Ok && close is Ok ==> (r matches Ok(hash) && hash@ == sha256(digest.received())),
        read matches Err(e) ==> r == Err::<Vec<u8>, NetError>(e),
        read is Ok ==> (close matches Err(e) ==> r == Err::<Vec<u8>, NetError>(e)),
{
}

/// Files are hashed one after the other in their order, and each digest goes with its file.
pub proof fn files_are_hashed_in_their_order(
    paths: &Vec<String>,
    digests: Vec<Vec<u8>>,
    r: HashStep,
)
    requires
        call_ensures(hash_files, (paths, digests), r),
        digests@.len() <= paths@.len(),
    ensures
        digests@.len() < paths@.len() && !has_low_byte(paths@[digests@.len() as int]@) ==> r
            == HashStep::Hash(paths@[digests@.len() as int]),
        digests@.len() < paths@.len() && has_low_byte(paths@[digests@.len() as int]@) ==> r is Failed,
        digests@.len() == paths@.len() ==> (r matches HashStep::Finished(all) && all@.len()
            == paths@.len() && forall|i: int|
            0 <= i < all@.len() ==> (#[trigger] all@[i]).0@ == paths@[i]@ && all@[i].1@
                == digests@[i]@),
{
}

/// A relay reads and forwards until one side ends, fails or is told to stop, and a handshake that
/// takes too long ends it.
pub proof fn relays_stop_on_either_side(
    stopped: bool,
    complete: bool,
    late: bool,
    before: RelayStep,
    read: RelayRead,
    after: RelayStep,
)
    requires
        call_ensures(before_relay_read, (stopped, complete, late), before),
        call_ensures(after_relay_read, (read,), after),
    ensures
        stopped ==> before == (RelayStep::Stop { tell: false }),
        !stopped && late && !complete ==> before == (RelayStep::Stop { tell: true }),
        !stopped && (complete || !late) ==> before is Read,
        read matches RelayRead::Bytes(n) ==> (n > 0 ==> after is Forward),
        read matches RelayRead::Bytes(n) ==> (n == 0 ==> after == (RelayStep::Stop { tell: true })),
        read is Again ==> after is Read,
        read is Failed ==> after == (RelayStep::Stop { tell: true }),
{
}

// --- failures ----------------------------------------------------------------------------------

/// An operation is repeated only where the failure may pass by itself: a broken transport, or a
/// protocol error whose text names no lasting cause.
pub proof fn only_passing_failures_are_retried(error: &NetError, r: bool)
    requires
        call_ensures(NetError::is_retryable, (error,), r),
    ensures
        error matches NetError::Io(f) ==> (r <==> f.kind == IoKind::BrokenPipe || f.kind
            == IoKind::ConnectionAborted || f.kind == IoKind::ConnectionRefused || f.kind
            == IoKind::ConnectionReset || f.kind == IoKind::Interrupted || f.kind == IoKind::NotConnected
            || f.kind == IoKind::TimedOut || f.kind == IoKind::UnexpectedEof || f.kind
            == IoKind::WouldBlock),
        error is Join ==> r,
        error is HostKey || error is HostKeyTrustRequired || error is TlsCertificateTrustRequired || error
            is AuthFailed || error is MissingCredential || error is InvalidPath || error is Cancelled
            || error is UploadSourceChanged ==> !r,
        error matches NetError::Ftp(m) ==> (names_a_lasting_cause(m@) ==> !r),
        error matches NetError::Ssh(m) ==> (names_a_lasting_cause(m@) ==> !r),
        error matches NetError::Ftp(m) ==> (!names_a_lasting_cause(m@) ==> r),
        error matches NetError::Ssh(m) ==> (!names_a_lasting_cause(m@) ==> r),
{
    let markers = crate::net::error::permanent_markers();
    assert(forall|m: Seq<char>|
        #![trigger names_a_lasting_cause(m)]
        names_a_lasting_cause(m) <==> !crate::net::error::transient_text(m)) by {
        assert forall|m: Seq<char>|
            #![trigger names_a_lasting_cause(m)]
            names_a_lasting_cause(m) <==> !crate::net::error::transient_text(m) by {
            let low = ascii_lowercase(m);
            if names_a_lasting_cause(m) {
                assert(contains_text(low, markers[0]@) || contains_text(low, markers[1]@)
                    || contains_text(low, markers[2]@) || contains_text(low, markers[3]@)
                    || contains_text(low, markers[4]@) || contains_text(low, markers[5]@)
                    || contains_text(low, markers[6]@) || contains_text(low, markers[7]@)
                    || contains_text(low, markers[8]@) || contains_text(low, markers[9]@)
                    || contains_text(low, markers[10]@) || contains_text(low, markers[11]@));
            }
        }
    }
}

/// The text, whatever its case, says that repeating the operation cannot help.
pub open spec fn names_a_lasting_cause(message: Seq<char>) -> bool {
    let low = ascii_lowercase(message);
    ||| contains_text(low, "authentication"@)
    ||| contains_text(low, "permission denied"@)
    ||| contains_text(low, "access denied"@)
    ||| contains_text(low, "not permitted"@)
    ||| contains_text(low, "no such file"@)
    ||| contains_text(low, "not found"@)
    ||| contains_text(low, "invalid path"@)
    ||| contains_text(low, "host key"@)
    ||| contains_text(low, "certificate"@)
    ||| contains_text(low, "login incorrect"@)
    ||| contains_text(low, "bad password"@)
    ||| contains_text(low, "unsupported"@)
}

/// A failure is told with the text that came with it.
pub proof fn failures_are_told_with_their_text(error: &NetError, r: String)
    requires
        call_ensures(NetError::message, (error,), r),
    ensures
        error matches NetError::Ftp(m) ==> r@ == "FTP error: "@ + m@,
        error matches NetError::Ssh(m) ==> r@ == "SFTP/SSH error: "@ + m@,
        error matches NetError::HostKey(m) ==> r@ == "host key verification failed: "@ + m@,
        error matches NetError::AuthFailed(m) ==> r@ == "authentication failed for "@ + m@,
        error matches NetError::Io(f) ==> r@ == "io error: "@ + f.detail@,
        error matches NetError::Join(m) ==> r@ == "background task failed: "@ + m@,
        error matches NetError::InvalidPath(m) ==> r@ == "unsafe path: "@ + m@,
        error is Cancelled ==> r@ == "transfer cancelled"@,
        error is MissingCredential ==> r@ == "missing credential"@,
{
}

/// A search is for the query in lower case, white space around it aside; one of less than two
/// characters, over its limit or with control characters is refused.
pub proof fn queries_are_searched_for_in_lower_case(query: &str, r: Result<String, NetError>)
    requires
        call_ensures(normalize_remote_search_query, (query,), r),
    ensures
        r is Ok <==> trimmed(query@).len() >= 2 && utf8_len(trimmed(query@)) <= 256 && !has_control(
            trimmed(query@),
        ),
        r matches Ok(q) ==> q@ == lowercase(trimmed(query@)),
{
}

} // verus!
