//! What downloads, listings and checksums come to.

use vstd::prelude::*;

use crate::net::error::NetError;
use crate::net::ftp::download::{Download, DownloadEvent, DownloadPhase, DownloadRequestView};
use crate::net::ftp::listing::{
    chomped, line_share, line_step, lossy_text, LineStepView, Listing, ListingProgress,
    CARRIAGE_RETURN, LINE_FEED,
};
use crate::net::ftp::promote::{CommandView, EndView, PhaseView, PromotionView};
use crate::net::ftp::transport::FtpFailure;

verus! {

/// What follows the answer of the server, or of the disk, to each request of a download.
pub proof fn downloads_follow_the_answers(download: Download, event: DownloadEvent, then: Download)
    requires
        download.expects(event),
        call_ensures(Download::handle, (download, event), then),
    ensures
        then.remote_path == download.remote_path,
        then.keep_on_error == download.keep_on_error,
        download.phase is Rest ==> download.asks() == DownloadRequestView::Restart(download.offset),
        download.phase is Rest && event == DownloadEvent::Reply(Ok(())) ==> then.asks()
            == DownloadRequestView::Retrieve(download.remote_path@) && then.offset == download.offset,
        download.phase is Rest ==> (event matches DownloadEvent::Reply(Err(failure))
            ==> if failure.code matches Some(c) && c >= 500 {
            then.asks() == DownloadRequestView::TruncatePart
        } else {
            fails_with(download, then, NetError::Ftp(failure.text))
        }),
        download.phase is Truncate && event == DownloadEvent::Local(Ok(())) ==> then.asks()
            == DownloadRequestView::Retrieve(download.remote_path@) && then.offset == 0,
        download.phase is Truncate ==> (event matches DownloadEvent::Local(Err(failure))
            ==> fails_with(download, then, NetError::Io(failure))),
        download.phase is Retrieve && event == DownloadEvent::Reply(Ok(())) ==> then.done
            == download.offset && then.asks() == (if download.offset > 0 {
            DownloadRequestView::Report(download.offset)
        } else {
            DownloadRequestView::ReceiveNext
        }),
        download.phase is Retrieve || download.phase is Close ==> (event matches DownloadEvent::Reply(
            Err(failure),
        ) ==> fails_with(download, then, NetError::Ftp(failure.text))),
        download.phase is Receive ==> (event matches DownloadEvent::Received(n) ==> then.done
            == download.done + n && then.asks() == DownloadRequestView::Report(
            (download.done + n) as u64,
        )),
        download.phase is Report ==> then.asks() == DownloadRequestView::ReceiveNext && then.done
            == download.done,
        download.phase is Receive && event == DownloadEvent::Ended ==> then.asks()
            == DownloadRequestView::Close && then.done == download.done,
        download.phase is Receive ==> (event matches DownloadEvent::Failed(error) ==> fails_with(
            download,
            then,
            error,
        )),
        download.phase is Close && event == DownloadEvent::Reply(Ok(())) ==> then.asks()
            == DownloadRequestView::SyncPart && then.done == download.done,
        download.phase is Sync && event == DownloadEvent::Local(Ok(())) ==> then.asks()
            == DownloadRequestView::RenamePart && then.done == download.done,
        download.phase is Sync ==> (event matches DownloadEvent::Local(Err(failure)) ==> fails_with(
            download,
            then,
            NetError::Io(failure),
        )),
        download.phase is Rename && event == DownloadEvent::Local(Ok(())) ==> then.phase
            == DownloadPhase::Over(Ok(download.done)),
        download.phase is Rename ==> (event matches DownloadEvent::Local(Err(failure)) ==> then.asks()
            == DownloadRequestView::RemovePart && then.phase == DownloadPhase::Discard(
            NetError::Io(failure),
        )),
        download.phase matches DownloadPhase::Discard(error) ==> download.asks()
            == DownloadRequestView::RemovePart && then.phase == DownloadPhase::Over(Err(error)),
{
}

/// The download has failed with this error: it is over where the part is kept, and else the part is
/// removed first.
pub open spec fn fails_with(before: Download, then: Download, error: NetError) -> bool {
    if before.keep_on_error {
        then.phase == DownloadPhase::Over(Err(error))
    } else {
        then.phase == DownloadPhase::Discard(error) && then.asks() == DownloadRequestView::RemovePart
    }
}

/// A promotion first tries to rename over the destination, then moves the old file aside and tries
/// again; if that fails too it moves the old file back. What is told is the failure that decided.
pub proof fn promotions_try_and_go_back(promotion: PromotionView, failure: Option<Seq<char>>)
    ensures
        ({
            let then = promotion.answered(failure);
            let direct = CommandView::Rename {
                from: promotion.temporary,
                to: promotion.destination,
            };
            let aside = CommandView::Rename { from: promotion.destination, to: promotion.backup };
            let back = CommandView::Rename { from: promotion.backup, to: promotion.destination };
            &&& then.temporary == promotion.temporary && then.backup == promotion.backup
                && then.destination == promotion.destination && then.preserve == promotion.preserve
            &&& promotion.phase is Direct ==> {
                &&& promotion.command() == direct
                &&& failure is None ==> then.phase == PhaseView::Over(EndView::Promoted)
                &&& failure is Some ==> then.command() == aside
            }
            &&& promotion.phase matches PhaseView::Aside { direct: text } ==> {
                &&& failure is None ==> then.command() == direct
                &&& failure is Some ==> gives_up(promotion, then, EndView::Refused(text))
            }
            &&& promotion.phase is Again ==> {
                &&& failure is None ==> then.command() == CommandView::Remove(promotion.backup)
                &&& failure is Some ==> then.command() == back
            }
            &&& promotion.phase matches PhaseView::Rollback { promote } ==> (failure is None
                ==> gives_up(promotion, then, EndView::Refused(promote)))
            &&& promotion.phase is Rollback && failure is Some ==> (exists|text: Seq<char>| #[trigger]
                gives_up(promotion, then, EndView::Displaced(text)))
            &&& promotion.phase is DropBackup ==> then.phase == PhaseView::Over(EndView::Promoted)
            &&& promotion.phase is Direct && failure is Some ==> then.phase
                == (PhaseView::Aside { direct: failure->0 })
            &&& promotion.phase is Again && failure is Some ==> then.phase == (PhaseView::Rollback {
                promote: failure->0,
            })
        }),
{
    if let PhaseView::Rollback { promote } = promotion.phase {
        if let Some(text) = failure {
            let told = crate::net::ftp::promote::displaced_text(promote, text, promotion.backup);
            assert(gives_up(promotion, promotion.answered(failure), EndView::Displaced(told)));
        }
    }
}

/// The promotion ends so, after the new file was removed where it is not to be kept.
pub open spec fn gives_up(before: PromotionView, then: PromotionView, end: EndView) -> bool {
    if before.preserve {
        then.phase == PhaseView::Over(end)
    } else {
        then.phase == PhaseView::DropTemporary(end) && then.command() == CommandView::Remove(
            before.temporary,
        )
    }
}

// --- listings ----------------------------------------------------------------------------------

proof fn lemma_share(buf: Seq<u8>, n: int)
    requires
        0 <= n < buf.len(),
        buf[n] == LINE_FEED,
        forall|i: int| 0 <= i < n ==> #[trigger] buf[i] != LINE_FEED,
    ensures
        line_share(buf) == n + 1,
    decreases n,
{
    if n > 0 {
        assert(buf[0] != LINE_FEED);
        let rest = buf.skip(1);
        assert forall|i: int| 0 <= i < n - 1 implies #[trigger] rest[i] != LINE_FEED by {
            assert(rest[i] == buf[i + 1]);
        }
        lemma_share(rest, n - 1);
    }
}

proof fn lemma_no_share(buf: Seq<u8>)
    requires
        forall|i: int| 0 <= i < buf.len() ==> #[trigger] buf[i] != LINE_FEED,
    ensures
        line_share(buf) == buf.len(),
    decreases buf.len(),
{
    if buf.len() > 0 {
        assert(buf[0] != LINE_FEED);
        let rest = buf.skip(1);
        assert forall|i: int| 0 <= i < rest.len() implies #[trigger] rest[i] != LINE_FEED by {
            assert(rest[i] == buf[i + 1]);
        }
        lemma_no_share(rest);
    }
}

/// A line ends at its line feed and goes without it, and without a carriage return before it; what
/// follows in the buffer is left for the next line. `text` ends in neither.
pub proof fn lines_end_at_their_line_feed(
    line: Seq<u8>,
    text: Seq<u8>,
    returned: bool,
    rest: Seq<u8>,
    max_bytes: nat,
)
    requires
        forall|i: int| 0 <= i < text.len() ==> #[trigger] text[i] != LINE_FEED,
        (line + text).len() > 0 ==> (line + text).last() != LINE_FEED && (line + text).last()
            != CARRIAGE_RETURN,
        line.len() + text.len() + 2 <= max_bytes,
    ensures
        ({
            let end = if returned {
                seq![CARRIAGE_RETURN, LINE_FEED]
            } else {
                seq![LINE_FEED]
            };
            line_step(line, text + end + rest, max_bytes) == LineStepView::Line(
                text.len() + end.len(),
                lossy_text(line + text),
            )
        }),
{
    let end = if returned {
        seq![CARRIAGE_RETURN, LINE_FEED]
    } else {
        seq![LINE_FEED]
    };
    let buf = text + end + rest;
    let n = text.len() + end.len() - 1;
    assert(buf[n] == LINE_FEED);
    assert forall|i: int| 0 <= i < n implies #[trigger] buf[i] != LINE_FEED by {
        if i < text.len() {
            assert(buf[i] == text[i]);
        } else {
            assert(buf[i] == end[i - text.len()]);
        }
    }
    lemma_share(buf, n);
    let whole = line + buf.take(n + 1);
    assert(whole =~= line + text + end);
    reveal_with_fuel(chomped, 3);
    if returned {
        assert(whole.drop_last() =~= line + text + seq![CARRIAGE_RETURN]);
        assert(whole.drop_last().drop_last() =~= line + text);
    } else {
        assert(whole.drop_last() =~= line + text);
    }
}

/// A buffer without a line feed is taken whole, unless the line would become too long; at the end of
/// the stream what has arrived is the last line.
pub proof fn lines_go_on_in_the_next_buffer(line: Seq<u8>, buf: Seq<u8>, max_bytes: nat)
    requires
        forall|i: int| 0 <= i < buf.len() ==> #[trigger] buf[i] != LINE_FEED,
        line.len() <= max_bytes,
    ensures
        buf.len() > 0 && line.len() + buf.len() <= max_bytes ==> line_step(line, buf, max_bytes)
            == LineStepView::Partial(buf.len()),
        line.len() + buf.len() > max_bytes ==> line_step(line, buf, max_bytes)
            == LineStepView::Overlong,
        line_step(line, Seq::empty(), max_bytes) == (if line.len() == 0 {
            LineStepView::End
        } else {
            LineStepView::Line(0, lossy_text(chomped(line)))
        }),
{
    lemma_no_share(buf);
    if buf.len() > 0 {
        assert(buf[buf.len() - 1] != LINE_FEED);
    }
}

/// A listing that could not be read to its end, or holds a line that is too long, is a failure; a
/// listing that was cut off on purpose is not, whatever closing its connection brought.
pub proof fn listings_fail_as_they_were_read(
    progress: ListingProgress,
    read: Result<(), FtpFailure>,
    close: Result<(), FtpFailure>,
    r: Result<Listing, FtpFailure>,
)
    requires
        call_ensures(ListingProgress::finish, (progress, read, close), r),
    ensures
        read matches Err(failure) ==> r == Err::<Listing, FtpFailure>(failure),
        progress.malformed ==> r is Err,
        read is Ok && !progress.malformed && (progress.cancelled || progress.truncated) ==> r is Ok,
        r matches Ok(listing) ==> listing.lines == progress.lines && listing.truncated
            == progress.truncated && listing.cancelled == progress.cancelled && read is Ok
            && !progress.malformed,
        read is Ok && close is Err && !progress.cancelled && !progress.truncated ==> r is Err,
{
}

} // verus!
