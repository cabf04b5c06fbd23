//! Receiving a directory listing within bounds.
//!
//! A listing comes line by line from an untrusted server. Reception stops as soon as a line, the
//! number of lines or the number of bytes gets too large, so that a hostile server can make a client
//! neither fill its memory nor wait forever.

use vstd::prelude::*;
use vstd::slice::slice_subrange;
use vstd::utf8::{decode_utf8, valid_utf8};

use crate::net::error::{IoFailure, IoKind};
use crate::net::ftp::transport::FtpFailure;
use crate::net::safe::copy_bytes;
use crate::pieces::texts;
use crate::text::{byte_len, plus, utf8_len};

verus! {

pub const MAX_LISTING_ENTRIES: usize = 50_000;

pub const MAX_LISTING_BYTES: usize = 16_777_216;

pub const MAX_LISTING_LINE_BYTES: usize = 32_768;

/// Seconds for a whole listing.
pub const MAX_LISTING_SECS: u64 = 120;

pub const LISTING_BATCH_ENTRIES: usize = 256;

/// The text of bytes that may not be UTF-8: what `String::from_utf8_lossy` makes of them.
pub uninterp spec fn lossy_text(bytes: Seq<u8>) -> Seq<char>;

/// `String::from_utf8_lossy`: the text of the bytes, with replacement characters for what is not
/// UTF-8. It is a function of the bytes alone and goes by the name `lossy_text`; valid UTF-8 is
/// decoded as it is.
#[verifier::external_body]
pub(crate) fn to_text_lossy(bytes: &[u8]) -> (r: String)
    ensures
        r@ == lossy_text(bytes@),
        valid_utf8(bytes@) ==> r@ == decode_utf8(bytes@),
{
    String::from_utf8_lossy(bytes).into_owned()
}

/// The command that asks for the listing of a directory, or of the current one.
pub open spec fn command_text(command: Seq<char>, path: Option<Seq<char>>) -> Seq<char> {
    if path matches Some(p) && p.len() > 0 {
        command + " "@ + path->0
    } else {
        command
    }
}

pub fn listing_command(command: &str, path: Option<&str>) -> (r: String)
    ensures
        r@ == command_text(
            command@,
            match path {
                Some(p) => Some(p@),
                None => None,
            },
        ),
{
    match path {
        Some(p) => if byte_len(p) == 0 {
            proof {
                crate::text::lemma_empty_text(p@);
            }
            command.to_owned()
        } else {
            proof {
                crate::text::lemma_empty_text(p@);
            }
            plus(plus(command.to_owned(), " "), p)
        },
        None => command.to_owned(),
    }
}

/// A refused `MLSD` is followed by `LIST`.
pub fn falls_back_to_list(failure: &FtpFailure) -> (r: bool)
    ensures
        r == failure.refused(),
{
    failure.is_refusal()
}

/// A listing has one deadline for all of its bytes, looked at before each read: a limit on single
/// reads alone would let a server send one byte at a time for ever.
pub fn check_deadline(now_millis: u64, deadline_millis: u64) -> (r: Result<(), IoFailure>)
    ensures
        r is Ok <==> now_millis < deadline_millis,
        r matches Err(e) ==> e.kind == IoKind::TimedOut && e.detail@
            == "FTP directory listing exceeded its total time limit"@,
{
    if now_millis >= deadline_millis {
        return Err(
            IoFailure::new(
                IoKind::TimedOut,
                "FTP directory listing exceeded its total time limit",
            ),
        );
    }
    Ok(())
}

pub const LINE_FEED: u8 = 10;

pub const CARRIAGE_RETURN: u8 = 13;

/// How many bytes of a buffer belong to the current line: up to and with the first line feed.
pub open spec fn line_share(buf: Seq<u8>) -> nat
    decreases buf.len(),
{
    if buf.len() == 0 {
        0
    } else if buf[0] == LINE_FEED {
        1
    } else {
        1 + line_share(buf.skip(1))
    }
}

proof fn lemma_line_share(buf: Seq<u8>, n: int)
    requires
        0 < n <= buf.len(),
        forall|i: int| 0 <= i < n - 1 ==> #[trigger] buf[i] != LINE_FEED,
        n < buf.len() ==> buf[n - 1] == LINE_FEED,
    ensures
        line_share(buf) == n,
    decreases n,
{
    if n > 1 {
        assert(buf[0] != LINE_FEED);
        let t = buf.skip(1);
        assert forall|i: int| 0 <= i < n - 2 implies #[trigger] t[i] != LINE_FEED by {
            assert(t[i] == buf[i + 1]);
        }
        lemma_line_share(t, n - 1);
    } else if buf[0] != LINE_FEED {
        reveal_with_fuel(line_share, 2);
        assert(buf.skip(1).len() == 0);
    }
}

/// A line without the carriage returns and line feeds at its end.
pub open spec fn chomped(line: Seq<u8>) -> Seq<u8>
    decreases line.len(),
{
    if line.len() > 0 && (line.last() == CARRIAGE_RETURN || line.last() == LINE_FEED) {
        chomped(line.drop_last())
    } else {
        line
    }
}

/// What a buffer of bytes brings.
#[derive(Debug, PartialEq, Eq)]
pub enum LineStep {
    /// So many bytes of the buffer were taken; the line goes on in the next buffer.
    Partial(usize),
    /// So many bytes of the buffer were taken, and this line is complete.
    Line(usize, String),
    /// The line is too long. Nothing was taken, and the connection must be closed.
    Overlong,
    /// The listing is over.
    End,
}

pub ghost enum LineStepView {
    Partial(nat),
    Line(nat, Seq<char>),
    Overlong,
    End,
}

impl View for LineStep {
    type V = LineStepView;

    open spec fn view(&self) -> LineStepView {
        match *self {
            LineStep::Partial(n) => LineStepView::Partial(n as nat),
            LineStep::Line(n, text) => LineStepView::Line(n as nat, text@),
            LineStep::Overlong => LineStepView::Overlong,
            LineStep::End => LineStepView::End,
        }
    }
}

/// What a buffer brings to a line of which `line` has arrived. An empty buffer ends the stream.
pub open spec fn line_step(line: Seq<u8>, buf: Seq<u8>, max_bytes: nat) -> LineStepView {
    let share = line_share(buf);
    if buf.len() == 0 {
        if line.len() == 0 {
            LineStepView::End
        } else {
            LineStepView::Line(0, lossy_text(chomped(line)))
        }
    } else if line.len() + share > max_bytes {
        LineStepView::Overlong
    } else if buf[share - 1] == LINE_FEED {
        LineStepView::Line(share, lossy_text(chomped(line + buf.take(share as int))))
    } else {
        LineStepView::Partial(share)
    }
}

/// Reads one line after another out of buffers of any size.
#[derive(Debug, PartialEq, Eq)]
pub struct LineReader {
    pub line: Vec<u8>,
}

impl LineReader {
    pub fn new() -> (r: Self)
        ensures
            r.line@ == Seq::<u8>::empty(),
    {
        LineReader { line: Vec::new() }
    }

    /// Take what the buffer holds of the current line.
    pub fn read_listing_line(&mut self, buf: &[u8], max_bytes: usize) -> (r: LineStep)
        requires
            old(self).line@.len() <= max_bytes,
        ensures
            r@ == line_step(old(self).line@, buf@, max_bytes as nat),
            final(self).line@.len() <= max_bytes,
            r matches LineStep::Partial(n) ==> final(self).line@ == old(self).line@ + buf@,
            r matches LineStep::Line(_, _) ==> final(self).line@.len() == 0,
            r == LineStep::Overlong || r == LineStep::End ==> final(self).line@ == old(self).line@,
    {
        if buf.len() == 0 {
            if self.line.len() == 0 {
                return LineStep::End;
            }
            let whole: Vec<u8> = self.take_line();
            return LineStep::Line(0, to_text_lossy(chomp(&whole)));
        }
        let mut share: usize = 0;
        let mut ended: bool = false;
        while share < buf.len() && !ended
            invariant
                share <= buf@.len(),
                !ended ==> forall|i: int| 0 <= i < share ==> #[trigger] buf@[i] != LINE_FEED,
                ended ==> share > 0 && buf@[share - 1] == LINE_FEED && forall|i: int|
                    0 <= i < share - 1 ==> #[trigger] buf@[i] != LINE_FEED,
            decreases buf@.len() - share,
        {
            ended = buf[share] == LINE_FEED;
            share += 1;
        }
        proof {
            lemma_line_share(buf@, share as int);
        }
        if share > max_bytes - self.line.len() {
            return LineStep::Overlong;
        }
        self.extend(slice_subrange(buf, 0, share));
        if ended {
            let whole: Vec<u8> = self.take_line();
            assert(whole@ =~= old(self).line@ + buf@.take(share as int));
            LineStep::Line(share, to_text_lossy(chomp(&whole)))
        } else {
            assert(buf@.take(share as int) =~= buf@);
            LineStep::Partial(share)
        }
    }

    fn take_line(&mut self) -> (r: Vec<u8>)
        ensures
            r@ == old(self).line@,
            final(self).line@.len() == 0,
    {
        let whole: Vec<u8> = copy_bytes(self.line.as_slice());
        self.line = Vec::new();
        whole
    }

    fn extend(&mut self, bytes: &[u8])
        ensures
            final(self).line@ == old(self).line@ + bytes@,
    {
        let ghost start = self.line@;
        let mut i: usize = 0;
        while i < bytes.len()
            invariant
                i <= bytes@.len(),
                self.line@ == start + bytes@.take(i as int),
            decreases bytes@.len() - i,
        {
            self.line.push(bytes[i]);
            assert(start + bytes@.take(i + 1) =~= (start + bytes@.take(i as int)).push(
                bytes@[i as int],
            ));
            i += 1;
        }
        assert(bytes@.take(bytes@.len() as int) =~= bytes@);
    }
}

fn chomp(line: &[u8]) -> (r: &[u8])
    ensures
        r@ == chomped(line@),
{
    let mut n: usize = line.len();
    assert(line@.take(n as int) =~= line@);
    while n > 0 && (line[n - 1] == CARRIAGE_RETURN || line[n - 1] == LINE_FEED)
        invariant
            n <= line@.len(),
            chomped(line@.take(n as int)) == chomped(line@),
        decreases n,
    {
        assert(line@.take(n as int).drop_last() =~= line@.take(n - 1));
        n -= 1;
    }
    slice_subrange(line, 0, n)
}

/// Where the stream is cut into buffers does not matter: as long as the first part holds no line
/// feed, feeding two buffers one after the other brings what feeding them together brings.
pub proof fn cuts_do_not_matter(line: Seq<u8>, first: Seq<u8>, second: Seq<u8>, max_bytes: nat)
    requires
        first.len() > 0,
        second.len() > 0,
        !first.contains(LINE_FEED),
        line_step(line, first, max_bytes) is Partial,
    ensures
        match line_step(line + first, second, max_bytes) {
            LineStepView::Partial(n) => line_step(line, first + second, max_bytes)
                == LineStepView::Partial(first.len() + n),
            LineStepView::Line(n, text) => line_step(line, first + second, max_bytes)
                == LineStepView::Line(first.len() + n, text),
            other => line_step(line, first + second, max_bytes) == other,
        },
{
    let both = first + second;
    assert forall|i: int| 0 <= i < first.len() implies #[trigger] first[i] != LINE_FEED by {
        assert(first.contains(first[i]));
    }
    lemma_share_bounds(second);
    let n = line_share(second) as int;
    assert forall|i: int| 0 <= i < first.len() + n - 1 implies #[trigger] both[i] != LINE_FEED by {
        if i >= first.len() {
            assert(both[i] == second[i - first.len()]);
        }
    }
    lemma_line_share(both, first.len() + n);
    lemma_line_share(first, first.len() as int);
    assert(line + first + second.take(n) =~= line + both.take(first.len() + n));
}

proof fn lemma_share_bounds(buf: Seq<u8>)
    requires
        buf.len() > 0,
    ensures
        0 < line_share(buf) <= buf.len(),
        forall|i: int| 0 <= i < line_share(buf) - 1 ==> #[trigger] buf[i] != LINE_FEED,
        line_share(buf) < buf.len() ==> buf[line_share(buf) - 1] == LINE_FEED,
    decreases buf.len(),
{
    if buf[0] != LINE_FEED && buf.len() > 1 {
        let t = buf.skip(1);
        lemma_share_bounds(t);
        assert forall|i: int| 0 <= i < line_share(buf) - 1 implies #[trigger] buf[i]
            != LINE_FEED by {
            if i > 0 {
                assert(buf[i] == t[i - 1]);
            }
        }
    } else if buf[0] != LINE_FEED {
        reveal_with_fuel(line_share, 2);
        assert(buf.skip(1).len() == 0);
    }
}

/// The lines of a listing. `truncated` says that the server sent more than this client keeps,
/// `cancelled` that the receiver of the lines wanted no more.
#[derive(Debug, PartialEq, Eq)]
pub struct Listing {
    pub lines: Vec<String>,
    pub truncated: bool,
    pub cancelled: bool,
}

/// Bytes of all the lines together.
pub open spec fn total_bytes(lines: Seq<Seq<char>>) -> nat
    decreases lines.len(),
{
    if lines.len() == 0 {
        0
    } else {
        total_bytes(lines.drop_last()) + utf8_len(lines.last())
    }
}

/// What to do after a line.
#[derive(Debug, PartialEq, Eq)]
pub enum ListingStep {
    /// Read on.
    Read,
    /// Hand these lines over, and say with `delivered` whether more are wanted.
    Deliver(Vec<String>),
    /// Stop reading.
    Stop,
}

/// A listing while it is received.
#[derive(Debug, PartialEq, Eq)]
pub struct ListingProgress {
    pub lines: Vec<String>,
    pub stored_bytes: usize,
    /// Lines that have not been handed over yet.
    pub pending: Vec<String>,
    pub truncated: bool,
    pub cancelled: bool,
    pub malformed: bool,
}

impl ListingProgress {
    /// The bounds hold, and the lines not yet handed over are the last ones.
    pub open spec fn wf(&self) -> bool {
        &&& self.lines@.len() <= MAX_LISTING_ENTRIES
        &&& self.stored_bytes == total_bytes(texts(self.lines@))
        &&& self.stored_bytes <= MAX_LISTING_BYTES
        &&& self.pending@.len() < LISTING_BATCH_ENTRIES
        &&& self.pending@.len() <= self.lines@.len()
        &&& self.pending@ == self.lines@.skip(self.lines@.len() - self.pending@.len())
    }

    /// There is room for one more line.
    pub open spec fn has_room(&self, line: Seq<char>) -> bool {
        self.lines@.len() < MAX_LISTING_ENTRIES && self.stored_bytes + utf8_len(line)
            <= MAX_LISTING_BYTES
    }

    pub fn new() -> (r: Self)
        ensures
            r.wf(),
            r.lines@.len() == 0,
            !r.truncated && !r.cancelled && !r.malformed,
    {
        let r = ListingProgress {
            lines: Vec::new(),
            stored_bytes: 0,
            pending: Vec::new(),
            truncated: false,
            cancelled: false,
            malformed: false,
        };
        assert(texts(r.lines@) =~= Seq::<Seq<char>>::empty());
        assert(r.pending@ =~= r.lines@.skip(0));
        r
    }

    /// Take the next line; `None` stands for one that is too long. A receiver that wants no more is
    /// handed nothing more.
    pub fn accept(&mut self, line: Option<String>) -> (r: ListingStep)
        requires
            old(self).wf(),
        ensures
            final(self).wf(),
            final(self).cancelled == old(self).cancelled,
            old(self).cancelled ==> r == ListingStep::Stop && *final(self) == *old(self),
            !old(self).cancelled && line is None ==> r == ListingStep::Stop && *final(self) == (
            ListingProgress { malformed: true, ..*old(self) }),
            !old(self).cancelled && line is Some && line->0@.len() == 0 ==> r == ListingStep::Read
                && *final(self) == *old(self),
            !old(self).cancelled && line is Some && line->0@.len() > 0 && !old(self).has_room(
                line->0@,
            ) ==> r == ListingStep::Stop && *final(self) == (ListingProgress {
                truncated: true,
                ..*old(self)
            }),
            !old(self).cancelled && line is Some && line->0@.len() > 0 && old(self).has_room(
                line->0@,
            ) ==> {
                &&& final(self).lines@ == old(self).lines@.push(line->0)
                &&& final(self).truncated == old(self).truncated
                &&& final(self).malformed == old(self).malformed
                &&& if old(self).pending@.len() + 1 >= LISTING_BATCH_ENTRIES {
                    r matches ListingStep::Deliver(batch) && batch@ == old(self).pending@.push(
                        line->0,
                    ) && final(self).pending@.len() == 0
                } else {
                    r == ListingStep::Read && final(self).pending@ == old(self).pending@.push(
                        line->0,
                    )
                }
            },
    {
        if self.cancelled {
            return ListingStep::Stop;
        }
        let text: String = match line {
            None => {
                self.malformed = true;
                return ListingStep::Stop;
            },
            Some(text) => text,
        };
        let n: usize = byte_len(text.as_str());
        proof {
            crate::text::lemma_empty_text(text@);
        }
        if n == 0 {
            return ListingStep::Read;
        }
        if self.lines.len() >= MAX_LISTING_ENTRIES || n > MAX_LISTING_BYTES - self.stored_bytes {
            self.truncated = true;
            return ListingStep::Stop;
        }
        self.stored_bytes = self.stored_bytes + n;
        self.pending.push(text.clone());
        self.lines.push(text);
        proof {
            assert(texts(self.lines@).drop_last() =~= texts(old(self).lines@));
            assert(self.pending@ =~= self.lines@.skip(self.lines@.len() - self.pending@.len()));
        }
        if self.pending.len() >= LISTING_BATCH_ENTRIES {
            let batch: Vec<String> = self.take_pending();
            ListingStep::Deliver(batch)
        } else {
            ListingStep::Read
        }
    }

    fn take_pending(&mut self) -> (r: Vec<String>)
        ensures
            r@ == old(self).pending@,
            final(self).pending@.len() == 0,
            final(self).lines == old(self).lines,
            final(self).stored_bytes == old(self).stored_bytes,
            final(self).truncated == old(self).truncated,
            final(self).cancelled == old(self).cancelled,
            final(self).malformed == old(self).malformed,
            final(self).pending@ == final(self).lines@.skip(final(self).lines@.len() as int),
    {
        let batch: Vec<String> = crate::model::connection::clone_texts(&self.pending);
        self.pending = Vec::new();
        assert(self.pending@ =~= self.lines@.skip(self.lines@.len() as int));
        batch
    }

    /// The receiver has answered to a batch.
    pub fn delivered(&mut self, go_on: bool)
        requires
            old(self).wf(),
        ensures
            final(self).wf(),
            *final(self) == (ListingProgress {
                cancelled: old(self).cancelled || !go_on,
                ..*old(self)
            }),
    {
        if !go_on {
            self.cancelled = true;
        }
    }

    /// Reading has ended. What was not handed over yet is handed over now, unless the receiver has
    /// already said that it wants no more.
    pub fn last_batch(&mut self) -> (r: Option<Vec<String>>)
        requires
            old(self).wf(),
        ensures
            final(self).wf(),
            final(self).lines == old(self).lines,
            final(self).truncated == old(self).truncated,
            final(self).cancelled == old(self).cancelled,
            final(self).malformed == old(self).malformed,
            r is Some <==> !old(self).cancelled && old(self).pending@.len() > 0,
            r matches Some(batch) ==> batch@ == old(self).pending@ && final(self).pending@.len()
                == 0,
            r is None ==> final(self).pending == old(self).pending,
    {
        if !self.cancelled && self.pending.len() > 0 {
            let batch: Vec<String> = self.take_pending();
            Some(batch)
        } else {
            None
        }
    }

    /// The listing, once the data connection is closed. A failure to read comes first, then a line
    /// that was too long; after a deliberate cutoff the reply to closing the connection is ignored.
    pub fn finish(self, read: Result<(), FtpFailure>, close: Result<(), FtpFailure>) -> (r: Result<
        Listing,
        FtpFailure,
    >)
        ensures
            read matches Err(e) ==> r == Err::<Listing, FtpFailure>(e),
            read is Ok && self.malformed ==> (r matches Err(e) && e.code is None && e.text@
                == "Response contains an invalid syntax"@),
            read is Ok && !self.malformed && !self.cancelled && !self.truncated ==> (close
                matches Err(e) ==> r == Err::<Listing, FtpFailure>(e)),
            read is Ok && !self.malformed && (self.cancelled || self.truncated || close is Ok) ==> (
            r matches Ok(listing) && listing.lines == self.lines && listing.truncated
                == self.truncated && listing.cancelled == self.cancelled),
    {
        match read {
            Err(e) => {
                return Err(e);
            },
            Ok(()) => {},
        }
        if self.malformed {
            return Err(
                FtpFailure { code: None, text: "Response contains an invalid syntax".to_owned() },
            );
        }
        if !self.cancelled && !self.truncated {
            match close {
                Err(e) => {
                    return Err(e);
                },
                Ok(()) => {},
            }
        }
        Ok(Listing { lines: self.lines, truncated: self.truncated, cancelled: self.cancelled })
    }
}

} // verus!
