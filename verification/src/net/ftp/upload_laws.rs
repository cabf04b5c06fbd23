//! What an upload asks of the server, over whole runs and step by step.

use vstd::prelude::*;

use crate::net::error::NetError;
use crate::net::ftp::paths::ancestry;
use crate::net::ftp::upload::{RequestView, Upload, UploadEvent, UploadPhase};
use crate::net::ftp::upload_run::is_run;
use crate::net::staging::{parent_of, without_trailing_slashes};
use crate::pieces::texts;

verus! {

/// The directories that were asked for in the first steps, in order.
pub open spec fn made(states: Seq<Upload>, steps: int) -> Seq<Seq<char>>
    decreases steps,
{
    if steps <= 0 {
        Seq::empty()
    } else {
        match states[steps - 1].asks() {
            RequestView::MakeDirectory(path) => made(states, steps - 1).push(path),
            _ => made(states, steps - 1),
        }
    }
}

/// An upload as it is begun: the directories are those on the way to the destination, and the first
/// of them comes first.
pub open spec fn is_begun(upload: Upload, destination: Seq<char>) -> bool {
    &&& upload.destination@ == destination
    &&& texts(upload.directories@) == ancestry(parent_of(without_trailing_slashes(destination)))
    &&& upload.offset == 0
    &&& upload.sent == 0
    &&& if upload.directories@.len() > 0 {
        upload.phase == UploadPhase::Directory(0)
    } else {
        upload.phase == UploadPhase::Size || upload.phase == UploadPhase::Store
    }
}

/// What has been asked for so far, where `way` is to be made in the end.
spec fn on_the_way(upload: Upload, way: Seq<Seq<char>>, so_far: Seq<Seq<char>>) -> bool {
    &&& texts(upload.directories@) == way
    &&& match upload.phase {
        UploadPhase::Directory(i) => i < way.len() && so_far == way.take(i as int),
        UploadPhase::Over(Err(_)) => true,
        _ => so_far == way,
    }
}

proof fn lemma_made_step(
    upload: Upload,
    event: UploadEvent,
    then: Upload,
    way: Seq<Seq<char>>,
    so_far: Seq<Seq<char>>,
)
    requires
        upload.wf(),
        upload.expects(event),
        upload.becomes(event, then),
        on_the_way(upload, way, so_far),
    ensures
        on_the_way(
            then,
            way,
            match upload.asks() {
                RequestView::MakeDirectory(path) => so_far.push(path),
                _ => so_far,
            },
        ),
{
    if let UploadPhase::Directory(i) = upload.phase {
        assert(way[i as int] == upload.directories@[i as int]@);
        assert(way.take(i as int).push(way[i as int]) =~= way.take(i + 1));
        assert(way.take(way.len() as int) =~= way);
        assert(way.len() == upload.directories@.len() == upload.directories.len());
    }
}

proof fn lemma_made(states: Seq<Upload>, events: Seq<UploadEvent>, destination: Seq<char>, steps: int)
    requires
        is_run(states, events),
        is_begun(states[0], destination),
        0 <= steps <= events.len(),
    ensures
        on_the_way(states[steps], texts(states[0].directories@), made(states, steps)),
    decreases steps,
{
    let all = texts(states[0].directories@);
    if steps == 0 {
        assert(all.take(0) =~= Seq::<Seq<char>>::empty());
        assert(all.len() == states[0].directories@.len());
        if all.len() == 0 {
            assert(all =~= Seq::<Seq<char>>::empty());
        }
    } else {
        let n = steps - 1;
        lemma_made(states, events, destination, n);
        assert(states[n].wf() && states[n].expects(events[n]));
        lemma_made_step(states[n], events[n], states[n + 1], all, made(states, n));
    }
}

/// By the time that anything else is asked for, every directory on the way to the destination has
/// been asked for, each once and from the top down.
pub proof fn every_directory_is_made_first(
    states: Seq<Upload>,
    events: Seq<UploadEvent>,
    destination: Seq<char>,
    steps: int,
)
    requires
        is_run(states, events),
        is_begun(states[0], destination),
        0 <= steps <= events.len(),
    ensures
        match states[steps].asks() {
            RequestView::MakeDirectory(_) => {
                let way = ancestry(parent_of(without_trailing_slashes(destination)));
                let so_far = made(states, steps);
                so_far.len() < way.len() && so_far == way.take(so_far.len() as int) && states[steps].asks()
                    == RequestView::MakeDirectory(way[so_far.len() as int])
            },
            RequestView::Finished => states[steps].phase matches UploadPhase::Over(Ok(_)) ==> made(
                states,
                steps,
            ) == ancestry(parent_of(without_trailing_slashes(destination))),
            _ => made(states, steps) == ancestry(
                parent_of(without_trailing_slashes(destination)),
            ),
        },
{
    lemma_made(states, events, destination, steps);
    if let UploadPhase::Directory(i) = states[steps].phase {
        let all = texts(states[0].directories@);
        assert(all.take(i as int).len() == i);
        assert(texts(states[steps].directories@)[i as int] == states[steps].directories@[i as int]@);
    }
}

/// Where the local file is read from after the first steps.
pub open spec fn source_position(states: Seq<Upload>, events: Seq<UploadEvent>, steps: int) -> u64
    decreases steps,
{
    if steps <= 0 {
        0
    } else {
        match (states[steps - 1].asks(), events[steps - 1]) {
            (RequestView::SeekSource(n), UploadEvent::Source(Ok(_))) => n,
            _ => source_position(states, events, steps - 1),
        }
    }
}

/// Where the server would write next after the first steps: after a `REST` that it has accepted.
pub open spec fn server_position(states: Seq<Upload>, events: Seq<UploadEvent>, steps: int) -> u64
    decreases steps,
{
    if steps <= 0 {
        0
    } else {
        match (states[steps - 1].asks(), events[steps - 1]) {
            (RequestView::Restart(n), UploadEvent::Reply(Ok(_))) => n,
            _ => server_position(states, events, steps - 1),
        }
    }
}

spec fn lined_up(upload: Upload, source: u64, server: u64) -> bool {
    match upload.phase {
        UploadPhase::Directory(_) | UploadPhase::Size => source == 0 && server == 0 && upload.offset
            == 0,
        UploadPhase::Discard { .. } | UploadPhase::Rest | UploadPhase::ReportWhole => source == 0
            && server == 0,
        UploadPhase::Seek { position, .. } => position == upload.offset && server == upload.offset,
        UploadPhase::ReportResumed | UploadPhase::Store => source == upload.offset && server
            == upload.offset,
        _ => true,
    }
}

proof fn lemma_lined_up(states: Seq<Upload>, events: Seq<UploadEvent>, destination: Seq<char>, steps: int)
    requires
        is_run(states, events),
        is_begun(states[0], destination),
        0 <= steps <= events.len(),
    ensures
        lined_up(
            states[steps],
            source_position(states, events, steps),
            server_position(states, events, steps),
        ),
    decreases steps,
{
    if steps > 0 {
        lemma_lined_up(states, events, destination, steps - 1);
        let before = states[steps - 1];
        assert(before.wf() && before.expects(events[steps - 1]));
        assert(before.becomes(events[steps - 1], states[steps - 1 + 1]));
    }
}

/// Whenever bytes are about to be stored, the local file is read from exactly the place at which the
/// server goes on writing, and that many bytes count as sent already.
pub proof fn source_and_server_continue_at_one_place(
    states: Seq<Upload>,
    events: Seq<UploadEvent>,
    destination: Seq<char>,
    steps: int,
)
    requires
        is_run(states, events),
        is_begun(states[0], destination),
        0 <= steps < events.len(),
        states[steps].asks() is Store,
        events[steps] == UploadEvent::Reply(Ok(())),
    ensures
        source_position(states, events, steps) == server_position(states, events, steps),
        states[steps + 1].sent == source_position(states, events, steps),
        states[steps + 1].asks() == RequestView::SendNext,
{
    lemma_lined_up(states, events, destination, steps);
    assert(states[steps].becomes(events[steps], states[steps + 1]));
}

/// What is promoted is the file that was written last, or the complete one that the server already
/// had; it takes the place of the destination and of nothing else.
pub proof fn the_written_file_takes_the_place_of_the_destination(
    upload: Upload,
    event: UploadEvent,
    then: Upload,
)
    requires
        upload.wf(),
        upload.expects(event),
        upload.becomes(event, then),
        then.phase is Promote,
        !(upload.phase is Promote),
    ensures
        then.destination@ == upload.destination@,
        then.asks() == (RequestView::Rename {
            from: then.staging.temporary@,
            to: upload.destination@,
        }),
        then.staging == upload.staging,
{
}

/// Only where an upload starts over does it write to another file than before, and it writes to the
/// one that it asked about, or removed, or wrote to.
pub proof fn uploads_stay_with_their_stage(upload: Upload, event: UploadEvent, then: Upload)
    requires
        upload.wf(),
        upload.expects(event),
        upload.becomes(event, then),
    ensures
        then.destination@ == upload.destination@,
        !(upload.phase is Discard) ==> then.staging == upload.staging && then.preserve == upload.preserve,
        upload.phase is Discard ==> then.staging.temporary@ == upload.fresh.temporary@ && then.staging.backup@
            == upload.fresh.backup@ && !then.preserve && then.offset == 0,
        upload.phase is Size ==> upload.asks() == RequestView::Size(upload.staging.temporary@),
        upload.phase is Discard ==> upload.asks() == RequestView::Remove(upload.staging.temporary@),
        upload.phase is Store ==> upload.asks() == RequestView::Store(upload.staging.temporary@),
{
}

/// A directory that exists already is no reason to stop; any other refusal is, and is told.
pub proof fn existing_directories_are_tolerated(upload: Upload, event: UploadEvent, then: Upload)
    requires
        upload.wf(),
        upload.phase is Directory,
        upload.expects(event),
        upload.becomes(event, then),
    ensures
        event matches UploadEvent::Reply(Err(failure)) ==> if failure.code == Some(550u32) {
            !(then.phase is Over)
        } else {
            then.phase == UploadPhase::Over(Err(NetError::Ftp(failure.text)))
        },
        event matches UploadEvent::Reply(Ok(_)) ==> !(then.phase is Over),
{
}

/// What follows from the size of what an earlier attempt has left: nothing there means a start from
/// the beginning, a part is continued at its end, the whole is promoted, and too much is removed.
pub proof fn the_size_decides_how_to_go_on(upload: Upload, event: UploadEvent, then: Upload)
    requires
        upload.wf(),
        upload.phase is Size,
        upload.expects(event),
        upload.becomes(event, then),
    ensures
        event matches UploadEvent::Size(Ok(None)) ==> then.asks() == RequestView::Store(
            upload.staging.temporary@,
        ),
        event matches UploadEvent::Size(Ok(Some(size))) ==> {
            let total = upload.resume->0.expected_total;
            &&& size > total ==> then.asks() == RequestView::Remove(upload.staging.temporary@)
            &&& size == 0 ==> then.asks() == RequestView::Store(upload.staging.temporary@)
            &&& 0 < size == total ==> then.asks() == RequestView::Report(total)
            &&& 0 < size < total && size <= usize::MAX ==> then.asks() == RequestView::Restart(size)
            &&& usize::MAX < size < total ==> then.phase matches UploadPhase::Over(Err(_))
        },
        event matches UploadEvent::Size(Err(failure)) ==> if failure.code == Some(500u32)
            || failure.code == Some(501u32) || failure.code == Some(502u32) || failure.code == Some(
            504u32,
        ) {
            then.asks() == RequestView::Remove(upload.staging.temporary@)
        } else {
            then.phase == UploadPhase::Over(Err(NetError::Ftp(failure.text)))
        },
{
}

/// A server that refuses to continue for good gets the whole file again; any other failure ends the
/// upload.
pub proof fn a_refused_restart_starts_over(upload: Upload, event: UploadEvent, then: Upload)
    requires
        upload.wf(),
        upload.phase is Rest,
        upload.expects(event),
        upload.becomes(event, then),
    ensures
        event matches UploadEvent::Reply(Ok(_)) ==> then.asks() == RequestView::SeekSource(
            upload.offset,
        ),
        event matches UploadEvent::Reply(Err(failure)) ==> if failure.code matches Some(c) && c
            >= 500 {
            then.asks() == RequestView::Remove(upload.staging.temporary@) && then.phase
                == (UploadPhase::Discard { rewind: true })
        } else {
            then.phase == UploadPhase::Over(Err(NetError::Ftp(failure.text)))
        },
{
}

/// A failure is passed on as it is: the one of sending before the one of closing, and that before a
/// cancellation. What was written is removed, unless it is to be continued.
pub proof fn failures_are_passed_on(upload: Upload, event: UploadEvent, then: Upload)
    requires
        upload.wf(),
        upload.expects(event),
        upload.becomes(event, then),
    ensures
        upload.phase matches UploadPhase::Send ==> (event matches UploadEvent::SendFailed(error)
            ==> then.phase == UploadPhase::Close(Some(error))),
        upload.phase matches UploadPhase::Close(Some(error)) ==> then.phase == if upload.preserve {
            UploadPhase::Over(Err(error))
        } else {
            UploadPhase::Cleanup(error)
        },
        upload.phase == UploadPhase::Close(None) ==> (event matches UploadEvent::Closed(
            Err(failure),
            _,
        ) ==> then.phase == if upload.preserve {
            UploadPhase::Over(Err(NetError::Ftp(failure.text)))
        } else {
            UploadPhase::Cleanup(NetError::Ftp(failure.text))
        }),
        upload.phase == UploadPhase::Close(None) && event == UploadEvent::Closed(Ok(()), true)
            ==> then.phase == if upload.preserve {
            UploadPhase::Over(Err(NetError::Cancelled))
        } else {
            UploadPhase::Cleanup(NetError::Cancelled)
        },
        upload.phase == UploadPhase::Close(None) && event == UploadEvent::Closed(Ok(()), false)
            ==> then.phase is Promote,
        upload.phase matches UploadPhase::Cleanup(error) ==> then.phase == UploadPhase::Over(
            Err(error),
        ) && upload.asks() == RequestView::Remove(upload.staging.temporary@),
        upload.phase is Seek ==> (event matches UploadEvent::Source(Err(failure)) ==> then.phase
            == UploadPhase::Over(Err(NetError::Io(failure)))),
        upload.phase is Store ==> (event matches UploadEvent::Reply(Err(failure)) ==> then.phase
            == if upload.preserve {
            UploadPhase::Over(Err(NetError::Ftp(failure.text)))
        } else {
            UploadPhase::Cleanup(NetError::Ftp(failure.text))
        }),
{
}

/// Each phase asks for what it is there for, with the numbers and the names of this upload.
pub proof fn each_phase_asks_for_its_own(upload: Upload)
    ensures
        upload.phase matches UploadPhase::Directory(i) ==> upload.asks() == RequestView::MakeDirectory(
            upload.directories@[i as int]@,
        ),
        upload.phase is ReportSent ==> upload.asks() == RequestView::Report(upload.sent),
        upload.phase is ReportWhole || upload.phase is ReportResumed ==> upload.asks()
            == RequestView::Report(upload.offset),
        upload.phase is Rest ==> upload.asks() == RequestView::Restart(upload.offset),
        upload.phase matches UploadPhase::Seek { position, .. } ==> upload.asks()
            == RequestView::SeekSource(position),
        upload.phase is Send ==> upload.asks() is SendNext,
        upload.phase is Close ==> upload.asks() is Close,
        upload.phase is Cleanup ==> upload.asks() == RequestView::Remove(upload.staging.temporary@),
        upload.phase is Over ==> upload.asks() is Finished,
{
}

/// A promotion works with the names of the upload: the file that was written, the place for the file
/// that it replaces, and the destination.
pub proof fn promotions_have_the_names_of_the_upload(
    upload: Upload,
    event: UploadEvent,
    then: Upload,
)
    requires
        upload.wf(),
        upload.expects(event),
        upload.becomes(event, then),
        !(upload.phase is Promote),
    ensures
        then.phase matches UploadPhase::Promote(promotion) ==> promotion@.temporary
            == upload.staging.temporary@ && promotion@.backup == upload.staging.backup@
            && promotion@.destination == upload.destination@ && promotion@.preserve == upload.preserve,
{
}

} // verus!
