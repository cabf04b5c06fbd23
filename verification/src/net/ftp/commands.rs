//! Single commands and the answers to them.

use vstd::prelude::*;

use crate::model::entry::RemoteEntry;
use crate::model::ConnectionSpec;
use crate::net::error::NetError;
use crate::net::ftp::delivery::Delivery;
use crate::net::ftp::entries::{
    can_all_be_read_as, entries_from, gather_entries, gathered, is_unsafe_name,
    listed_views, listing_result, read_lines, ListedFile, ListedView,
};
use crate::net::ftp::listing::Listing;
use crate::net::ftp::transport::FtpFailure;
use crate::net::safe::{has_low_byte, validate_ftp_path};
use crate::net::staging::refused;
use crate::numerals::digit_char;
use crate::pieces::{texts, trim, trimmed};
use crate::text::{chars_of, plus, string_of};

verus! {

/// The text of a path that no FTP command may carry.
pub open spec fn control_text() -> Seq<char> {
    "remote path contains a control character (CRLF/NUL injection guard)"@
}

/// Three octal digits.
pub open spec fn octal3(mode: u32) -> Seq<char> {
    seq![
        digit_char((mode / 64) as nat),
        digit_char((mode / 8 % 8) as nat),
        digit_char((mode % 8) as nat),
    ]
}

/// The arguments of `SITE` that set the permission bits of a path. Only read, write and execute bits
/// can be set.
pub fn chmod(path: &str, mode: u32) -> (r: Result<String, NetError>)
    ensures
        r is Ok <==> !has_low_byte(path@) && mode <= 0o777,
        r matches Ok(text) ==> text@ == "CHMOD "@ + octal3(mode) + " "@ + path@,
        r matches Err(e) ==> refused(
            e,
            if has_low_byte(path@) {
                control_text()
            } else {
                "invalid permission mode"@
            },
        ),
{
    match validate_ftp_path(path) {
        Err(e) => {
            return Err(e);
        },
        Ok(()) => {},
    }
    if mode > 0o777 {
        return Err(NetError::InvalidPath("invalid permission mode".to_owned()));
    }
    let digits: [char; 3] = [
        octal_digit(mode / 64),
        octal_digit(mode / 8 % 8),
        octal_digit(mode % 8),
    ];
    let octal: String = string_of(digits.as_slice());
    assert(octal@ =~= octal3(mode));
    Ok(plus(plus(plus("CHMOD ".to_owned(), octal.as_str()), " "), path))
}

fn octal_digit(d: u32) -> (r: char)
    requires
        d < 8,
    ensures
        r == digit_char(d as nat),
{
    (d as u8 + 48) as char
}

/// Both paths of a rename can be sent to the server.
pub fn rename(from: &str, to: &str) -> (r: Result<(), NetError>)
    ensures
        r is Ok <==> !has_low_byte(from@) && !has_low_byte(to@),
        r matches Err(e) ==> refused(e, control_text()),
{
    match validate_ftp_path(from) {
        Err(e) => {
            return Err(e);
        },
        Ok(()) => {},
    }
    validate_ftp_path(to)
}

/// The size of a remote file: reply 550 says that there is none.
pub fn file_size(outcome: Result<u64, FtpFailure>) -> (r: Result<Option<u64>, FtpFailure>)
    ensures
        match outcome {
            Ok(size) => r == Ok::<Option<u64>, FtpFailure>(Some(size)),
            Err(failure) => if failure.answered(550) {
                r == Ok::<Option<u64>, FtpFailure>(None)
            } else {
                r == Err::<Option<u64>, FtpFailure>(failure)
            },
        },
{
    match outcome {
        Ok(size) => Ok(Some(size)),
        Err(failure) => if failure.has_code(550) {
            Ok(None)
        } else {
            Err(failure)
        },
    }
}

/// A modification time in seconds, as the server reports it. One before the epoch is unknown.
pub fn modified_time(timestamp: i64) -> (r: Option<u64>)
    ensures
        r == (if timestamp < 0 {
            None
        } else {
            Some(timestamp as u64)
        }),
{
    if timestamp < 0 {
        None
    } else {
        Some(timestamp as u64)
    }
}

/// The directory to change to after the login, if the connection names one.
pub fn initial_directory(spec: &ConnectionSpec) -> (r: Result<Option<String>, NetError>)
    ensures
        ({
            let path = trimmed(spec.initial_path@);
            &&& r is Err <==> has_low_byte(path) && path.len() > 0
            &&& r matches Ok(directory) ==> (directory is None <==> path.len() == 0) && (directory
                matches Some(d) ==> d@ == path)
            &&& r matches Err(e) ==> refused(e, control_text())
        }),
{
    let chars: Vec<char> = chars_of(spec.initial_path.as_str());
    let path: &[char] = trim(&chars);
    if path.len() == 0 {
        return Ok(None);
    }
    let text: String = string_of(path);
    match validate_ftp_path(text.as_str()) {
        Err(e) => Err(e),
        Ok(()) => Ok(Some(text)),
    }
}

/// The entries of one batch of lines, in the order of the lines. An unsafe name ends the listing.
pub fn batch_entries(lines: &Vec<String>, parsed: &Vec<Option<ListedFile>>) -> (r: Result<
    Vec<RemoteEntry>,
    NetError,
>)
    requires
        parsed@.len() == lines@.len(),
    ensures
        ({
            let all = gathered(
                texts(lines@),
                listed_views(parsed@),
                Seq::empty(),
                usize::MAX as nat,
            );
            &&& r is Ok <==> all is Some
            &&& r matches Ok(entries) ==> all == Some(crate::model::entry::entry_views(entries@))
            &&& r matches Err(e) ==> is_unsafe_name(e)
        }),
{
    gather_entries(lines, parsed, usize::MAX)
}

/// `r` holds the entries of a listing, with the word whether the session is in plain text.
pub open spec fn first_listing(
    r: Result<(Vec<RemoteEntry>, bool), NetError>,
    lines: Seq<Seq<char>>,
    parsed: Seq<Option<ListedView>>,
    plaintext: bool,
) -> bool {
    match r {
        Ok((entries, told)) => told == plaintext && listing_result(Ok(entries), lines, parsed),
        Err(e) => listing_result(Err(e), lines, parsed),
    }
}

/// The first listing of a connection, once all of it has been received: an unsafe name that a batch
/// brought to light comes first, then the receiver's wish to stop.
pub fn connect_and_list_incremental(
    delivery: Delivery,
    listing: &Listing,
    parsed: &Vec<Option<ListedFile>>,
    plaintext: bool,
) -> (r: Result<(Vec<RemoteEntry>, bool), NetError>)
    requires
        parsed@.len() == listing.lines@.len(),
    ensures
        delivery.rejected matches Some(e) ==> r == Err::<(Vec<RemoteEntry>, bool), NetError>(e),
        delivery.rejected is None && (delivery.declined || listing.cancelled) ==> r == Err::<
            (Vec<RemoteEntry>, bool),
            NetError,
        >(NetError::Cancelled),
        !delivery.stopped() && !listing.cancelled ==> first_listing(
            r,
            texts(listing.lines@),
            listed_views(parsed@),
            plaintext,
        ),
{
    match delivery.rejected {
        Some(e) => {
            return Err(e);
        },
        None => {},
    }
    if delivery.declined || listing.cancelled {
        return Err(NetError::Cancelled);
    }
    match entries_from(&listing.lines, parsed) {
        Ok(entries) => Ok((entries, plaintext)),
        Err(e) => Err(e),
    }
}

/// `r` is the outcome of a first listing whose lines were read as `parsed`, in one batch.
pub open spec fn listed_at_once(
    r: Result<(Vec<RemoteEntry>, bool), NetError>,
    listing: Listing,
    parsed: Seq<Option<ListedView>>,
    plaintext: bool,
) -> bool {
    let lines = texts(listing.lines@);
    if gathered(lines, parsed, Seq::empty(), usize::MAX as nat) is None {
        r matches Err(e) && is_unsafe_name(e)
    } else if listing.cancelled {
        r == Err::<(Vec<RemoteEntry>, bool), NetError>(NetError::Cancelled)
    } else {
        first_listing(r, lines, parsed, plaintext)
    }
}

/// The first listing of a connection, for a receiver that takes all of it.
pub fn connect_and_list(listing: &Listing, plaintext: bool) -> (r: Result<
    (Vec<RemoteEntry>, bool),
    NetError,
>)
    ensures
        exists|parsed: Seq<Option<ListedView>>| #[trigger]
            listed_at_once(r, *listing, parsed, plaintext) && can_all_be_read_as(
                texts(listing.lines@),
                parsed,
            ),
{
    let parsed: Vec<Option<ListedFile>> = read_lines(&listing.lines);
    let rejected: Option<NetError> = match batch_entries(&listing.lines, &parsed) {
        Ok(_) => None,
        Err(e) => Some(e),
    };
    let r: Result<(Vec<RemoteEntry>, bool), NetError> = connect_and_list_incremental(
        Delivery { rejected, declined: false },
        listing,
        &parsed,
        plaintext,
    );
    assert(listed_at_once(r, *listing, listed_views(parsed@), plaintext));
    r
}

/// What to do about a relay between the local socket and an implicit FTPS server.
#[derive(Debug, Clone, Copy, PartialEq, Eq, Structural)]
pub enum RelayStep {
    /// Read from the source.
    Read,
    /// Write what was read to the destination.
    Forward,
    /// Shut both sides down. The flag says that the other direction is told to stop too.
    Stop { tell: bool },
}

/// Before each read: another direction may have stopped, and the handshake has a deadline until it is
/// complete.
pub fn before_relay_read(stopped: bool, handshake_complete: bool, past_deadline: bool) -> (r:
    RelayStep)
    ensures
        r == (if stopped {
            RelayStep::Stop { tell: false }
        } else if !handshake_complete && past_deadline {
            RelayStep::Stop { tell: true }
        } else {
            RelayStep::Read
        }),
{
    if stopped {
        RelayStep::Stop { tell: false }
    } else if !handshake_complete && past_deadline {
        RelayStep::Stop { tell: true }
    } else {
        RelayStep::Read
    }
}

/// What a read from one side of a relay came to.
#[derive(Debug, Clone, Copy, PartialEq, Eq, Structural)]
pub enum RelayRead {
    Bytes(usize),
    /// The read timed out; nothing is wrong.
    Again,
    Failed,
}

pub fn after_relay_read(read: RelayRead) -> (r: RelayStep)
    ensures
        r == (match read {
            RelayRead::Bytes(n) => if n == 0 {
                RelayStep::Stop { tell: true }
            } else {
                RelayStep::Forward
            },
            RelayRead::Again => RelayStep::Read,
            RelayRead::Failed => RelayStep::Stop { tell: true },
        }),
{
    match read {
        RelayRead::Bytes(n) => if n == 0 {
            RelayStep::Stop { tell: true }
        } else {
            RelayStep::Forward
        },
        RelayRead::Again => RelayStep::Read,
        RelayRead::Failed => RelayStep::Stop { tell: true },
    }
}

} // verus!
