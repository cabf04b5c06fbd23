//! Promoting a complete staged upload to its destination.
//!
//! Most servers replace an existing file in a rename. For one that refuses an occupied target the
//! old file is moved aside first, and moved back if the new one cannot take its place.

use vstd::prelude::*;

use crate::net::error::NetError;
use crate::net::ftp::transport::{ftp_error, FtpFailure};
use crate::net::staging::RemoteStagingPaths;
use crate::text::plus;

verus! {

/// How a promotion ends.
#[derive(Debug, PartialEq, Eq)]
pub enum PromotionEnd {
    /// The new file is at the destination.
    Promoted,
    /// The destination is as it was.
    Refused(String),
    /// The old file could not be moved back and remains at the backup path.
    Displaced(String),
}

pub ghost enum EndView {
    Promoted,
    Refused(Seq<char>),
    Displaced(Seq<char>),
}

impl View for PromotionEnd {
    type V = EndView;

    open spec fn view(&self) -> EndView {
        match *self {
            PromotionEnd::Promoted => EndView::Promoted,
            PromotionEnd::Refused(text) => EndView::Refused(text@),
            PromotionEnd::Displaced(text) => EndView::Displaced(text@),
        }
    }
}

#[derive(Debug, PartialEq, Eq)]
pub enum PromotionPhase {
    /// Rename the new file over the destination.
    Direct,
    /// That was refused; move the old file aside.
    Aside { direct: String },
    /// Rename the new file to the free destination.
    Again,
    /// That was refused too; move the old file back.
    Rollback { promote: String },
    /// Remove the old file, which is no longer needed.
    DropBackup,
    /// Remove the new file, which found no place.
    DropTemporary(PromotionEnd),
    Over(PromotionEnd),
}

pub ghost enum PhaseView {
    Direct,
    Aside { direct: Seq<char> },
    Again,
    Rollback { promote: Seq<char> },
    DropBackup,
    DropTemporary(EndView),
    Over(EndView),
}

impl View for PromotionPhase {
    type V = PhaseView;

    open spec fn view(&self) -> PhaseView {
        match *self {
            PromotionPhase::Direct => PhaseView::Direct,
            PromotionPhase::Aside { direct } => PhaseView::Aside { direct: direct@ },
            PromotionPhase::Again => PhaseView::Again,
            PromotionPhase::Rollback { promote } => PhaseView::Rollback { promote: promote@ },
            PromotionPhase::DropBackup => PhaseView::DropBackup,
            PromotionPhase::DropTemporary(end) => PhaseView::DropTemporary(end@),
            PromotionPhase::Over(end) => PhaseView::Over(end@),
        }
    }
}

/// What the promotion asks the server to do.
#[derive(Debug, PartialEq, Eq)]
pub enum PromotionStep {
    Rename { from: String, to: String },
    /// A failure to remove is of no consequence.
    Remove(String),
    Finished,
}

pub ghost enum CommandView {
    Rename { from: Seq<char>, to: Seq<char> },
    Remove(Seq<char>),
    Finished,
}

impl View for PromotionStep {
    type V = CommandView;

    open spec fn view(&self) -> CommandView {
        match *self {
            PromotionStep::Rename { from, to } => CommandView::Rename { from: from@, to: to@ },
            PromotionStep::Remove(path) => CommandView::Remove(path@),
            PromotionStep::Finished => CommandView::Finished,
        }
    }
}

/// The text of a promotion whose rollback failed.
pub open spec fn displaced_text(promote: Seq<char>, rollback: Seq<char>, backup: Seq<char>) -> Seq<
    char,
> {
    "upload finalization failed ("@ + promote
        + "); restoring the previous destination also failed ("@ + rollback
        + "); previous data remains at "@ + backup
}

pub ghost struct PromotionView {
    pub temporary: Seq<char>,
    pub backup: Seq<char>,
    pub destination: Seq<char>,
    pub preserve: bool,
    pub phase: PhaseView,
}

impl PromotionView {
    pub open spec fn command(self) -> CommandView {
        match self.phase {
            PhaseView::Direct | PhaseView::Again => CommandView::Rename {
                from: self.temporary,
                to: self.destination,
            },
            PhaseView::Aside { .. } => CommandView::Rename {
                from: self.destination,
                to: self.backup,
            },
            PhaseView::Rollback { .. } => CommandView::Rename {
                from: self.backup,
                to: self.destination,
            },
            PhaseView::DropBackup => CommandView::Remove(self.backup),
            PhaseView::DropTemporary(_) => CommandView::Remove(self.temporary),
            PhaseView::Over(_) => CommandView::Finished,
        }
    }

    /// A promotion that failed removes the new file, unless it is kept for a later attempt.
    pub open spec fn given_up(self, end: EndView) -> PhaseView {
        if self.preserve {
            PhaseView::Over(end)
        } else {
            PhaseView::DropTemporary(end)
        }
    }

    /// The promotion after the server's answer; the text is that of a failure.
    pub open spec fn answered(self, failure: Option<Seq<char>>) -> PromotionView {
        let phase = match self.phase {
            PhaseView::Direct => match failure {
                None => PhaseView::Over(EndView::Promoted),
                Some(text) => PhaseView::Aside { direct: text },
            },
            PhaseView::Aside { direct } => match failure {
                None => PhaseView::Again,
                Some(_) => self.given_up(EndView::Refused(direct)),
            },
            PhaseView::Again => match failure {
                None => PhaseView::DropBackup,
                Some(text) => PhaseView::Rollback { promote: text },
            },
            PhaseView::Rollback { promote } => match failure {
                None => self.given_up(EndView::Refused(promote)),
                Some(text) => self.given_up(
                    EndView::Displaced(displaced_text(promote, text, self.backup)),
                ),
            },
            PhaseView::DropBackup => PhaseView::Over(EndView::Promoted),
            PhaseView::DropTemporary(end) => PhaseView::Over(end),
            PhaseView::Over(end) => PhaseView::Over(end),
        };
        PromotionView { phase, ..self }
    }

    /// How many answers are still to come, at most.
    pub open spec fn remaining(self) -> nat {
        match self.phase {
            PhaseView::Direct => 5,
            PhaseView::Aside { .. } => 4,
            PhaseView::Again => 3,
            PhaseView::Rollback { .. } => 2,
            PhaseView::DropBackup | PhaseView::DropTemporary(_) => 1,
            PhaseView::Over(_) => 0,
        }
    }

    /// The files of the server and the end of the promotion, where the server answers as given: its
    /// n-th answer from here on is a failure with the n-th text, or a success.
    pub open spec fn run(
        self,
        files: Map<Seq<char>, Seq<u8>>,
        answers: spec_fn(nat) -> Option<Seq<char>>,
    ) -> (Map<Seq<char>, Seq<u8>>, EndView)
        decreases self.remaining(),
    {
        match self.phase {
            PhaseView::Over(end) => (files, end),
            _ => self.answered(answers(self.remaining())).run(
                performed(files, self.command(), answers(self.remaining()) is None),
                answers,
            ),
        }
    }
}

/// The files of a server after a command. One that fails changes nothing.
pub open spec fn performed(
    files: Map<Seq<char>, Seq<u8>>,
    command: CommandView,
    succeeded: bool,
) -> Map<Seq<char>, Seq<u8>> {
    match command {
        CommandView::Rename { from, to } => if succeeded && files.contains_key(from) {
            files.remove(from).insert(to, files[from])
        } else {
            files
        },
        CommandView::Remove(path) => if succeeded {
            files.remove(path)
        } else {
            files
        },
        CommandView::Finished => files,
    }
}

/// Whatever the server answers: a promotion that succeeds leaves the whole new file at the
/// destination, one that is refused leaves the old file there, and only if moving it back fails too
/// is it found at the backup path. No other file is touched.
pub proof fn promotion_never_loses_the_old_file(
    start: PromotionView,
    files: Map<Seq<char>, Seq<u8>>,
    answers: spec_fn(nat) -> Option<Seq<char>>,
)
    requires
        start.phase == PhaseView::Direct,
        start.temporary != start.destination,
        start.backup != start.destination,
        start.temporary != start.backup,
        files.contains_key(start.temporary),
        !files.contains_key(start.backup),
    ensures
        ({
            let (after, end) = start.run(files, answers);
            &&& end == EndView::Promoted ==> after.contains_key(start.destination)
                && after[start.destination] == files[start.temporary] && !after.contains_key(
                start.temporary,
            )
            &&& end is Refused && files.contains_key(start.destination) ==> after.contains_key(
                start.destination,
            ) && after[start.destination] == files[start.destination]
            &&& end is Displaced && files.contains_key(start.destination) ==> after.contains_key(
                start.backup,
            ) && after[start.backup] == files[start.destination]
            &&& end is Refused && start.preserve ==> after.contains_key(start.temporary)
                && after[start.temporary] == files[start.temporary]
            &&& forall|path: Seq<char>|
                path != start.temporary && path != start.backup && path != start.destination ==> (
                #[trigger] after.contains_key(path) <==> files.contains_key(path)) && (
                files.contains_key(path) ==> after[path] == files[path])
        }),
{
    reveal_with_fuel(PromotionView::run, 7);
}

/// A promotion under way.
#[derive(Debug, PartialEq, Eq)]
pub struct Promotion {
    pub temporary: String,
    pub backup: String,
    pub destination: String,
    pub preserve: bool,
    pub phase: PromotionPhase,
}

impl View for Promotion {
    type V = PromotionView;

    open spec fn view(&self) -> PromotionView {
        PromotionView {
            temporary: self.temporary@,
            backup: self.backup@,
            destination: self.destination@,
            preserve: self.preserve,
            phase: self.phase@,
        }
    }
}

impl Promotion {
    pub fn new(staging: &RemoteStagingPaths, destination: &str, preserve: bool) -> (r: Self)
        ensures
            r@ == (PromotionView {
                temporary: staging.temporary@,
                backup: staging.backup@,
                destination: destination@,
                preserve,
                phase: PhaseView::Direct,
            }),
    {
        Promotion {
            temporary: staging.temporary.clone(),
            backup: staging.backup.clone(),
            destination: destination.to_owned(),
            preserve,
            phase: PromotionPhase::Direct,
        }
    }

    /// What to do next.
    pub fn command(&self) -> (r: PromotionStep)
        ensures
            r@ == self@.command(),
    {
        match &self.phase {
            PromotionPhase::Direct | PromotionPhase::Again => PromotionStep::Rename {
                from: self.temporary.clone(),
                to: self.destination.clone(),
            },
            PromotionPhase::Aside { .. } => PromotionStep::Rename {
                from: self.destination.clone(),
                to: self.backup.clone(),
            },
            PromotionPhase::Rollback { .. } => PromotionStep::Rename {
                from: self.backup.clone(),
                to: self.destination.clone(),
            },
            PromotionPhase::DropBackup => PromotionStep::Remove(self.backup.clone()),
            PromotionPhase::DropTemporary(_) => PromotionStep::Remove(self.temporary.clone()),
            PromotionPhase::Over(_) => PromotionStep::Finished,
        }
    }

    fn given_up(preserve: bool, end: PromotionEnd) -> (r: PromotionPhase)
        ensures
            r@ == (if preserve {
                PhaseView::Over(end@)
            } else {
                PhaseView::DropTemporary(end@)
            }),
    {
        if preserve {
            PromotionPhase::Over(end)
        } else {
            PromotionPhase::DropTemporary(end)
        }
    }

    /// The server has answered.
    pub fn answer(self, outcome: Result<(), FtpFailure>) -> (r: Self)
        ensures
            r@ == self@.answered(
                match outcome {
                    Ok(_) => None,
                    Err(failure) => Some(failure.text@),
                },
            ),
    {
        let preserve: bool = self.preserve;
        let phase: PromotionPhase = match self.phase {
            PromotionPhase::Direct => match outcome {
                Ok(()) => PromotionPhase::Over(PromotionEnd::Promoted),
                Err(failure) => PromotionPhase::Aside { direct: failure.text },
            },
            PromotionPhase::Aside { direct } => match outcome {
                Ok(()) => PromotionPhase::Again,
                Err(_) => Self::given_up(preserve, PromotionEnd::Refused(direct)),
            },
            PromotionPhase::Again => match outcome {
                Ok(()) => PromotionPhase::DropBackup,
                Err(failure) => PromotionPhase::Rollback { promote: failure.text },
            },
            PromotionPhase::Rollback { promote } => match outcome {
                Ok(()) => Self::given_up(preserve, PromotionEnd::Refused(promote)),
                Err(failure) => {
                    let a: String = plus(
                        plus("upload finalization failed (".to_owned(), promote.as_str()),
                        "); restoring the previous destination also failed (",
                    );
                    let b: String = plus(
                        plus(a, failure.text.as_str()),
                        "); previous data remains at ",
                    );
                    let text: String = plus(b, self.backup.as_str());
                    Self::given_up(preserve, PromotionEnd::Displaced(text))
                },
            },
            PromotionPhase::DropBackup => PromotionPhase::Over(PromotionEnd::Promoted),
            PromotionPhase::DropTemporary(end) => PromotionPhase::Over(end),
            PromotionPhase::Over(end) => PromotionPhase::Over(end),
        };
        Promotion {
            temporary: self.temporary,
            backup: self.backup,
            destination: self.destination,
            preserve,
            phase,
        }
    }

    /// The result of a promotion that is over.
    pub fn result(self) -> (r: Result<(), NetError>)
        requires
            self.phase is Over,
        ensures
            match self@.phase->Over_0 {
                EndView::Promoted => r is Ok,
                EndView::Refused(text) | EndView::Displaced(text) => r matches Err(e) && ftp_error(
                    e,
                    text,
                ),
            },
    {
        match self.phase {
            PromotionPhase::Over(PromotionEnd::Refused(text)) => Err(NetError::Ftp(text)),
            PromotionPhase::Over(PromotionEnd::Displaced(text)) => Err(NetError::Ftp(text)),
            _ => Ok(()),
        }
    }
}

} // verus!
