//! Handing a listing over in batches while it arrives.

use vstd::prelude::*;

use crate::model::entry::{entry_views, EntryView, RemoteEntry};
use crate::net::error::NetError;
use crate::net::ftp::commands::batch_entries;
use crate::net::ftp::entries::{gathered, is_unsafe_name, listed_views, ListedFile, ListedView};
use crate::pieces::texts;

verus! {

/// How the delivery stands.
#[derive(Debug, PartialEq, Eq)]
pub struct Delivery {
    /// An unsafe name that a batch has brought to light.
    pub rejected: Option<NetError>,
    /// The receiver wants no more.
    pub declined: bool,
}

/// What to do with a batch of lines.
#[derive(Debug, PartialEq, Eq)]
pub enum DeliveryStep {
    /// Hand these entries to the receiver, and say with `answered` whether it wants more.
    Hand(Vec<RemoteEntry>),
    /// There is nothing to hand over; read on.
    GoOn,
    /// Stop reading.
    Stop,
}

/// The entries that a batch of lines holds; none for one with an unsafe name.
pub open spec fn batch_of(lines: Seq<Seq<char>>, parsed: Seq<Option<ListedView>>) -> Option<
    Seq<EntryView>,
> {
    gathered(lines, parsed, Seq::empty(), usize::MAX as nat)
}

impl Delivery {
    pub fn new() -> (r: Self)
        ensures
            r.rejected is None,
            !r.declined,
    {
        Delivery { rejected: None, declined: false }
    }

    /// Nothing is handed over any more.
    pub open spec fn stopped(&self) -> bool {
        self.rejected is Some || self.declined
    }

    /// Whether the lines that follow are wanted.
    pub fn goes_on(&self) -> (r: bool)
        ensures
            r == !self.stopped(),
    {
        self.rejected.is_none() && !self.declined
    }

    /// What to do with a batch. After the receiver has declined, or a name was refused, nothing is
    /// handed over; and a batch without entries never is.
    pub fn offer(&mut self, lines: &Vec<String>, parsed: &Vec<Option<ListedFile>>) -> (r:
        DeliveryStep)
        requires
            parsed@.len() == lines@.len(),
        ensures
            final(self).declined == old(self).declined,
            old(self).stopped() ==> r == DeliveryStep::Stop && *final(self) == *old(self),
            !old(self).stopped() ==> match batch_of(texts(lines@), listed_views(parsed@)) {
                None => r == DeliveryStep::Stop && (final(self).rejected matches Some(e)
                    && is_unsafe_name(e)),
                Some(entries) => *final(self) == *old(self) && if entries.len() == 0 {
                    r == DeliveryStep::GoOn
                } else {
                    r matches DeliveryStep::Hand(batch) && entry_views(batch@) == entries
                },
            },
    {
        if !self.goes_on() {
            return DeliveryStep::Stop;
        }
        match batch_entries(lines, parsed) {
            Err(e) => {
                self.rejected = Some(e);
                DeliveryStep::Stop
            },
            Ok(entries) => {
                assert(entry_views(entries@).len() == entries@.len());
                if entries.len() == 0 {
                    DeliveryStep::GoOn
                } else {
                    DeliveryStep::Hand(entries)
                }
            },
        }
    }

    /// The receiver has answered to what it was handed.
    pub fn answered(&mut self, go_on: bool)
        ensures
            *final(self) == (Delivery {
                declined: old(self).declined || !go_on,
                ..*old(self)
            }),
    {
        if !go_on {
            self.declined = true;
        }
    }
}

/// The batches that are handed over, in their order, where the receiver answers to each of them in
/// turn. `stopped` says whether the delivery has stopped before.
pub open spec fn handed(
    batches: Seq<(Seq<Seq<char>>, Seq<Option<ListedView>>)>,
    answers: Seq<bool>,
    stopped: bool,
) -> Seq<Seq<EntryView>>
    decreases batches.len(),
{
    if batches.len() == 0 || stopped {
        Seq::empty()
    } else {
        match batch_of(batches[0].0, batches[0].1) {
            None => Seq::empty(),
            Some(entries) => if entries.len() == 0 {
                handed(batches.skip(1), answers, false)
            } else {
                seq![entries] + handed(
                    batches.skip(1),
                    answers.skip(1),
                    answers.len() == 0 || !answers[0],
                )
            },
        }
    }
}

/// No batch that is handed over is empty, and none follows the one that the receiver has declined.
pub proof fn nothing_follows_a_refusal(
    batches: Seq<(Seq<Seq<char>>, Seq<Option<ListedView>>)>,
    answers: Seq<bool>,
    stopped: bool,
)
    ensures
        ({
            let given = handed(batches, answers, stopped);
            &&& forall|i: int| 0 <= i < given.len() ==> (#[trigger] given[i]).len() > 0
            &&& forall|i: int|
                0 <= i < answers.len() && !(#[trigger] answers[i]) ==> given.len() <= i + 1
            &&& given.len() <= answers.len() + 1
        }),
    decreases batches.len(),
{
    if batches.len() > 0 && !stopped {
        if let Some(entries) = batch_of(batches[0].0, batches[0].1) {
            if entries.len() == 0 {
                nothing_follows_a_refusal(batches.skip(1), answers, false);
            } else {
                let declined = answers.len() == 0 || !answers[0];
                nothing_follows_a_refusal(batches.skip(1), answers.skip(1), declined);
                let given = handed(batches, answers, stopped);
                let later = handed(batches.skip(1), answers.skip(1), declined);
                assert forall|i: int| 0 <= i < given.len() implies (#[trigger] given[i]).len()
                    > 0 by {
                    if i > 0 {
                        assert(given[i] == later[i - 1]);
                    }
                }
                assert forall|i: int| 0 <= i < answers.len() && !(#[trigger] answers[i]) implies given.len()
                    <= i + 1 by {
                    if i > 0 {
                        assert(answers.skip(1)[i - 1] == answers[i]);
                    }
                }
                assert(answers.len() == 0 ==> later.len() == 0);
            }
        }
    }
}

} // verus!
