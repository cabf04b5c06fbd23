//! What holds of an upload from its start to its end.

use vstd::prelude::*;

use crate::net::ftp::upload::{RequestView, Upload, UploadEvent, UploadPhase};

verus! {

/// The states that an upload goes through as the events come in.
pub open spec fn is_run(states: Seq<Upload>, events: Seq<UploadEvent>) -> bool {
    &&& states.len() == events.len() + 1
    &&& forall|i: int|
        0 <= i < events.len() ==> (#[trigger] states[i]).wf() && states[i].expects(events[i])
            && states[i].becomes(events[i], states[i + 1])
}

/// What is told of the progress in the first steps, one value after the other.
pub open spec fn told(states: Seq<Upload>, steps: int) -> Seq<u64>
    decreases steps,
{
    if steps <= 0 {
        Seq::empty()
    } else {
        match states[steps - 1].asks() {
            RequestView::Report(n) => told(states, steps - 1).push(n),
            _ => told(states, steps - 1),
        }
    }
}

/// How many bytes were sent in the first steps.
pub open spec fn sent_bytes(events: Seq<UploadEvent>, steps: int) -> nat
    decreases steps,
{
    if steps <= 0 {
        0
    } else {
        sent_bytes(events, steps - 1) + match events[steps - 1] {
            UploadEvent::Sent(n) => n as nat,
            _ => 0nat,
        }
    }
}

/// The server said so much of the incomplete file.
pub open spec fn size_was_told(events: Seq<UploadEvent>, size: u64) -> bool {
    exists|i: int| 0 <= i < events.len() && #[trigger] events[i] == UploadEvent::Size(Ok(Some(size)))
}

/// The values rise, from one on.
pub open spec fn rise(values: Seq<u64>) -> bool {
    &&& forall|i: int, j: int| 0 <= i < j < values.len() ==> values[i] < values[j]
    &&& forall|i: int| 0 <= i < values.len() ==> #[trigger] values[i] > 0
}

/// The last value is `n`; there is none for zero.
pub open spec fn end_at(values: Seq<u64>, n: u64) -> bool {
    if n == 0 {
        values.len() == 0
    } else {
        values.len() > 0 && values.last() == n
    }
}

/// What holds of an upload that has told these values and has sent so many bytes.
spec fn on_course(upload: Upload, values: Seq<u64>, sent: nat) -> bool {
    &&& rise(values)
    &&& match upload.phase {
        UploadPhase::Directory(_) | UploadPhase::Size => upload.offset == 0 && upload.sent == 0
            && sent == 0 && values.len() == 0,
        UploadPhase::Discard { .. } => sent == 0 && values.len() == 0,
        UploadPhase::ReportWhole | UploadPhase::Rest | UploadPhase::ReportResumed => sent == 0
            && values.len() == 0 && upload.offset > 0,
        UploadPhase::Seek { report, .. } => sent == 0 && values.len() == 0 && (report
            <==> upload.offset > 0),
        UploadPhase::Store => sent == 0 && end_at(values, upload.offset) && values.len() <= 1,
        UploadPhase::Send | UploadPhase::Close(_) | UploadPhase::Promote(_) => upload.sent
            == upload.offset + sent && end_at(values, upload.sent),
        UploadPhase::ReportSent => upload.sent == upload.offset + sent && upload.sent > 0 && (
        values.len() > 0 ==> values.last() < upload.sent),
        UploadPhase::Cleanup(_) => true,
        UploadPhase::Over(result) => result matches Ok(bytes) ==> bytes == upload.offset + sent
            && end_at(values, bytes),
    }
}

proof fn lemma_rise_push(values: Seq<u64>, n: u64)
    requires
        rise(values),
        n > 0,
        values.len() > 0 ==> values.last() < n,
    ensures
        rise(values.push(n)),
{
    let all = values.push(n);
    assert forall|i: int, j: int| 0 <= i < j < all.len() implies all[i] < all[j] by {
        if j == values.len() {
            assert(values[i] <= values.last());
        }
    }
}

proof fn lemma_step(
    upload: Upload,
    event: UploadEvent,
    then: Upload,
    values: Seq<u64>,
    sent: nat,
)
    requires
        upload.wf(),
        upload.expects(event),
        upload.becomes(event, then),
        on_course(upload, values, sent),
    ensures
        on_course(
            then,
            match upload.asks() {
                RequestView::Report(n) => values.push(n),
                _ => values,
            },
            sent + match event {
                UploadEvent::Sent(n) => n as nat,
                _ => 0nat,
            },
        ),
{
    if let RequestView::Report(n) = upload.asks() {
        lemma_rise_push(values, n);
    }
}

proof fn lemma_run(states: Seq<Upload>, events: Seq<UploadEvent>, steps: int)
    requires
        is_run(states, events),
        0 <= steps <= events.len(),
        on_course(states[0], Seq::empty(), 0),
        states[0].offset == 0,
    ensures
        on_course(states[steps], told(states, steps), sent_bytes(events, steps)),
        states[steps].offset == 0 || size_was_told(events, states[steps].offset),
    decreases steps,
{
    if steps > 0 {
        let before = steps - 1;
        lemma_run(states, events, before);
        assert(states[before].wf());
        lemma_step(
            states[before],
            events[before],
            states[before + 1],
            told(states, before),
            sent_bytes(events, before),
        );
        if let UploadEvent::Size(Ok(Some(size))) = events[before] {
            assert(size_was_told(events, size));
        }
    }
}

/// From its start to its end: the progress that is told rises with every value. An upload that
/// succeeds returns exactly the bytes that it sent and those that the server still had of an earlier
/// attempt, and the last value that was told is that count, while for an empty file nothing is told.
pub proof fn uploads_report_every_byte(states: Seq<Upload>, events: Seq<UploadEvent>)
    requires
        is_run(states, events),
        states[0].phase is Directory || states[0].phase is Size || states[0].phase is Store,
        states[0].offset == 0,
        states[0].sent == 0,
    ensures
        ({
            let end = states[events.len() as int];
            let values = told(states, events.len() as int);
            &&& forall|i: int, j: int| 0 <= i < j < values.len() ==> values[i] < values[j]
            &&& end.phase matches UploadPhase::Over(Ok(bytes)) ==> {
                &&& bytes == end.offset + sent_bytes(events, events.len() as int)
                &&& end.offset == 0 || size_was_told(events, end.offset)
                &&& end_at(values, bytes)
            }
        }),
{
    lemma_run(states, events, events.len() as int);
}

} // verus!
