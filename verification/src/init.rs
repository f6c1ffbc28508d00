//! Initialising a repository, one request at a time.
//!
//! The library decides, the driver acts: [`begin`] hands out the first
//! [`Request`], the driver carries it out on the directory that is to
//! become the work tree and reports a [`Reply`], and
//! [`create_repository`] answers with the next request or with the end
//! result.  Nothing is created before the target is known to be absent
//! or an empty directory, and nothing is undone where a step fails.
//!
//! The rule is [`step`].  What it makes of a file tree, for every tree
//! and every target, is proved in [`crate::model`].

use crate::layout::{default_entry_at, default_layout, Entry, LayoutEntry, LAYOUT_LEN};
use vstd::prelude::*;

verus! {

/// Why a target cannot become a repository.
#[derive(Debug, Clone, Copy, PartialEq, Eq, Structural)]
pub enum Precondition {
    /// Something that is no directory stands at the target.
    NotADirectory,
    /// The target is a directory that holds something already.
    DirectoryNotEmpty,
}

impl Precondition {
    /// The reason in words.
    pub open spec fn text(self) -> Seq<char> {
        match self {
            Precondition::NotADirectory => "not a directory"@,
            Precondition::DirectoryNotEmpty => "directory not empty"@,
        }
    }

    /// The reason in words.
    pub fn message(&self) -> (message: String)
        ensures
            message@ == self.text(),
    {
        match self {
            Precondition::NotADirectory => "not a directory".to_owned(),
            Precondition::DirectoryNotEmpty => "directory not empty".to_owned(),
        }
    }
}

/// Why an initialisation ended without a repository.  `E` is the
/// driver's error type.
#[derive(Debug, PartialEq, Eq)]
pub enum InitError<E> {
    /// The target is unsuitable; nothing was created.
    Precondition(Precondition),
    /// An operation of the driver failed with this error.
    Io(E),
}

/// What the session is waiting to learn.
#[derive(Debug, Clone, Copy, PartialEq, Eq, Structural)]
pub enum Stage {
    /// Whether anything stands at the target.
    Presence,
    /// Whether the target is a directory.
    Kind,
    /// Whether the target directory is empty.
    Emptiness,
    /// That the target directory was created.
    Root,
    /// That the layout entry with this index was created.
    Entry(usize),
}

/// An initialisation under way.
#[derive(Debug)]
pub struct Session {
    stage: Stage,
}

impl Session {
    #[verifier::type_invariant]
    spec fn within_layout(self) -> bool {
        self.stage matches Stage::Entry(index) ==> index < LAYOUT_LEN
    }
}

impl View for Session {
    type V = Stage;

    closed spec fn view(&self) -> Stage {
        self.stage
    }
}

impl Session {
    /// What the session is waiting to learn.
    pub fn stage(&self) -> (stage: Stage)
        ensures
            stage == self@,
    {
        self.stage
    }
}

/// What the driver is to do next.
#[derive(Debug, PartialEq, Eq)]
pub enum Request {
    /// Report whether anything stands at the target.
    IsPresent,
    /// Report whether the target is a directory.
    IsDirectory,
    /// Report whether the target directory holds nothing.
    IsEmpty,
    /// Create the target directory; its parent must exist.
    MakeRoot,
    /// Create this entry below the target.
    Make(LayoutEntry),
}

/// The model of [`Request`].
pub enum Wanted {
    IsPresent,
    IsDirectory,
    IsEmpty,
    MakeRoot,
    Make(Entry),
}

impl View for Request {
    type V = Wanted;

    open spec fn view(&self) -> Wanted {
        match self {
            Request::IsPresent => Wanted::IsPresent,
            Request::IsDirectory => Wanted::IsDirectory,
            Request::IsEmpty => Wanted::IsEmpty,
            Request::MakeRoot => Wanted::MakeRoot,
            Request::Make(entry) => Wanted::Make(entry@),
        }
    }
}

/// What the driver reports of a request.
#[derive(Debug)]
pub enum Reply<E> {
    /// The answer to a question.
    Flag(bool),
    /// The creation succeeded.
    Done,
    /// The operation failed.
    Failed(E),
}

/// How an initialisation goes on.
#[derive(Debug)]
pub enum Progress<E> {
    /// The driver is to carry out the request and to report with the
    /// session.
    Ask(Session, Request),
    /// The initialisation is over.
    Finished(Result<(), InitError<E>>),
}

/// The model of [`Progress`].
pub enum Outcome<E> {
    Ask(Stage, Wanted),
    Finished(Result<(), InitError<E>>),
}

impl<E> View for Progress<E> {
    type V = Outcome<E>;

    open spec fn view(&self) -> Outcome<E> {
        match self {
            Progress::Ask(session, request) => Outcome::Ask(session@, request@),
            Progress::Finished(result) => Outcome::Finished(*result),
        }
    }
}

/// The request that a session at `stage` is waiting on.
pub open spec fn wanted(stage: Stage) -> Wanted {
    match stage {
        Stage::Presence => Wanted::IsPresent,
        Stage::Kind => Wanted::IsDirectory,
        Stage::Emptiness => Wanted::IsEmpty,
        Stage::Root => Wanted::MakeRoot,
        Stage::Entry(index) => Wanted::Make(default_layout()[index as int]),
    }
}

/// Going on at `stage`.
pub open spec fn ask<E>(stage: Stage) -> Outcome<E> {
    Outcome::Ask(stage, wanted(stage))
}

/// Going on with the layout entry at `index`, or the end where the
/// layout is complete.
pub open spec fn build_from<E>(index: int) -> Outcome<E> {
    if 0 <= index < LAYOUT_LEN {
        ask(Stage::Entry(index as usize))
    } else {
        Outcome::Finished(Ok(()))
    }
}

/// The rule of the initialisation: what follows `reply` at `stage`.
///
/// A failure ends it at once.  The target is probed before anything is
/// created: an absent target is created, a present one must be a
/// directory and empty.  Then the layout entries follow in order.  A
/// reply that does not answer the pending request changes nothing: the
/// request is made again.
pub open spec fn step<E>(stage: Stage, reply: Reply<E>) -> Outcome<E> {
    match reply {
        Reply::Failed(error) => Outcome::Finished(Err(InitError::Io(error))),
        Reply::Flag(flag) => match stage {
            Stage::Presence => if flag {
                ask(Stage::Kind)
            } else {
                ask(Stage::Root)
            },
            Stage::Kind => if flag {
                ask(Stage::Emptiness)
            } else {
                Outcome::Finished(Err(InitError::Precondition(Precondition::NotADirectory)))
            },
            Stage::Emptiness => if flag {
                build_from(0)
            } else {
                Outcome::Finished(Err(InitError::Precondition(Precondition::DirectoryNotEmpty)))
            },
            _ => ask(stage),
        },
        Reply::Done => match stage {
            Stage::Root => build_from(0),
            Stage::Entry(index) => build_from(index + 1),
            _ => ask(stage),
        },
    }
}

/// Starts an initialisation: the first thing to learn is whether the
/// target exists.
pub fn begin() -> (start: (Session, Request))
    ensures
        start.0@ == Stage::Presence,
        start.1@ == wanted(Stage::Presence),
{
    (Session { stage: Stage::Presence }, Request::IsPresent)
}

fn ask_at<E>(stage: Stage) -> (progress: Progress<E>)
    requires
        stage matches Stage::Entry(index) ==> index < LAYOUT_LEN,
    ensures
        progress@ == ask::<E>(stage),
{
    let request = match stage {
        Stage::Presence => Request::IsPresent,
        Stage::Kind => Request::IsDirectory,
        Stage::Emptiness => Request::IsEmpty,
        Stage::Root => Request::MakeRoot,
        Stage::Entry(index) => Request::Make(default_entry_at(index)),
    };
    Progress::Ask(Session { stage }, request)
}

fn build_at<E>(index: usize) -> (progress: Progress<E>)
    requires
        index <= LAYOUT_LEN,
    ensures
        progress@ == build_from::<E>(index as int),
{
    if index < LAYOUT_LEN {
        ask_at(Stage::Entry(index))
    } else {
        Progress::Finished(Ok(()))
    }
}

/// Takes the driver's reply to the pending request of `session` and
/// says how the initialisation goes on, by the rule [`step`].
pub fn create_repository<E>(session: Session, reply: Reply<E>) -> (progress: Progress<E>)
    ensures
        progress@ == step(session@, reply),
{
    proof {
        use_type_invariant(&session);
    }
    let stage = session.stage;
    match reply {
        Reply::Failed(error) => Progress::Finished(Err(InitError::Io(error))),
        Reply::Flag(flag) => match stage {
            Stage::Presence => if flag {
                ask_at(Stage::Kind)
            } else {
                ask_at(Stage::Root)
            },
            Stage::Kind => if flag {
                ask_at(Stage::Emptiness)
            } else {
                Progress::Finished(Err(InitError::Precondition(Precondition::NotADirectory)))
            },
            Stage::Emptiness => if flag {
                build_at(0)
            } else {
                Progress::Finished(Err(InitError::Precondition(Precondition::DirectoryNotEmpty)))
            },
            _ => ask_at(stage),
        },
        Reply::Done => match stage {
            Stage::Root => build_at(0),
            Stage::Entry(index) => build_at(index + 1),
            _ => ask_at(stage),
        },
    }
}

} // verus!
