//! What an engine asks of the transport.

use vstd::prelude::*;

use crate::error::Error;
use crate::location::store_path::StorePath;

verus! {

/// The views of a list of texts.
pub open spec fn texts_view(texts: Seq<String>) -> Seq<Seq<char>> {
    Seq::new(texts.len(), |i: int| texts[i]@)
}

/// The views of a list of paths.
pub open spec fn paths_view(paths: Seq<StorePath>) -> Seq<Seq<Seq<char>>> {
    Seq::new(paths.len(), |i: int| paths[i]@)
}

/// Who writes a log entry.
#[derive(Debug, PartialEq, Eq)]
pub struct Signature {
    pub name: String,
    pub email: String,
}

/// What a `Signature` stands for.
pub struct SignatureView {
    pub name: Seq<char>,
    pub email: Seq<char>,
}

impl View for Signature {
    type V = SignatureView;

    open spec fn view(&self) -> SignatureView {
        SignatureView { name: self.name@, email: self.email@ }
    }
}

/// A log entry to be written.
#[derive(Debug, PartialEq, Eq)]
pub struct Commit {
    /// The files to stage, and no others, each by its place in the
    /// repository.
    pub pathspecs: Vec<StorePath>,
    /// Author and committer of the entry.
    pub signature: Signature,
    /// The message of the entry.
    pub message: String,
    /// The entries that the new one follows: the head, or none.
    pub parents: Vec<String>,
    /// The reference that moves to the new entry.
    pub reference: String,
}

/// What a `Commit` stands for.
pub struct CommitView {
    pub pathspecs: Seq<Seq<Seq<char>>>,
    pub signature: SignatureView,
    pub message: Seq<char>,
    pub parents: Seq<Seq<char>>,
    pub reference: Seq<char>,
}

impl View for Commit {
    type V = CommitView;

    open spec fn view(&self) -> CommitView {
        CommitView {
            pathspecs: paths_view(self.pathspecs@),
            signature: self.signature@,
            message: self.message@,
            parents: texts_view(self.parents@),
            reference: self.reference@,
        }
    }
}

/// One step for the transport to perform.
#[derive(Debug, PartialEq, Eq)]
pub enum Operation {
    /// Create the directory `path`; its parent exists.
    CreateDirectory { path: StorePath },
    /// Clone the repository at `remote` into `path`.
    Clone { remote: String, path: StorePath },
    /// Initialize an empty repository at `path`.
    Init { path: StorePath },
    /// Register `url` as the remote named `name`.
    AddRemote { name: String, url: String },
    /// Delete the remote named `name`.
    DeleteRemote { name: String },
    /// Retrieve the latest state of the log from the remote named `remote`,
    /// leaving the working state as it is.
    Fetch { remote: String },
    /// Put `content` in place of whatever the file `path` holds, creating the
    /// file where there is none.
    WriteFile { path: StorePath, content: Vec<u8> },
    /// Write a log entry.
    Commit { commit: Commit },
    /// Publish the log to the remote named `remote`.
    Push { remote: String },
}

/// What an `Operation` stands for.
pub enum OperationView {
    CreateDirectory { path: Seq<Seq<char>> },
    Clone { remote: Seq<char>, path: Seq<Seq<char>> },
    Init { path: Seq<Seq<char>> },
    AddRemote { name: Seq<char>, url: Seq<char> },
    DeleteRemote { name: Seq<char> },
    Fetch { remote: Seq<char> },
    WriteFile { path: Seq<Seq<char>>, content: Seq<u8> },
    Commit { commit: CommitView },
    Push { remote: Seq<char> },
}

impl View for Operation {
    type V = OperationView;

    open spec fn view(&self) -> OperationView {
        match *self {
            Operation::CreateDirectory { path } => OperationView::CreateDirectory { path: path@ },
            Operation::Clone { remote, path } => OperationView::Clone {
                remote: remote@,
                path: path@,
            },
            Operation::Init { path } => OperationView::Init { path: path@ },
            Operation::AddRemote { name, url } => OperationView::AddRemote {
                name: name@,
                url: url@,
            },
            Operation::DeleteRemote { name } => OperationView::DeleteRemote { name: name@ },
            Operation::Fetch { remote } => OperationView::Fetch { remote: remote@ },
            Operation::WriteFile { path, content } => OperationView::WriteFile {
                path: path@,
                content: content@,
            },
            Operation::Commit { commit } => OperationView::Commit { commit: commit@ },
            Operation::Push { remote } => OperationView::Push { remote: remote@ },
        }
    }
}

/// The views of a list of operations.
pub open spec fn operations_view(operations: Seq<Operation>) -> Seq<OperationView> {
    Seq::new(operations.len(), |i: int| operations[i]@)
}

/// The view of an operation that may have been refused.
pub open spec fn outcome_view(outcome: Result<Operation, Error>) -> Result<OperationView, Error> {
    match outcome {
        Ok(operation) => Ok(operation@),
        Err(e) => Err(e),
    }
}

/// The view of a list of operations that may have been refused.
pub open spec fn outcomes_view(outcome: Result<Vec<Operation>, Error>) -> Result<
    Seq<OperationView>,
    Error,
> {
    match outcome {
        Ok(operations) => Ok(operations_view(operations@)),
        Err(e) => Err(e),
    }
}

/// What an engine decided in one call: the operations that the transport
/// performs, in order and until one fails, and how the call ends once all of
/// them are done. A failure of the call itself leaves the operations before
/// it in force.
#[derive(Debug, PartialEq, Eq)]
pub struct Round {
    /// The operations to perform, first to last.
    pub operations: Vec<Operation>,
    /// The result of the call when every operation succeeded.
    pub outcome: Result<(), Error>,
}

/// What a `Round` stands for.
pub struct RoundView {
    pub operations: Seq<OperationView>,
    pub outcome: Result<(), Error>,
}

impl View for Round {
    type V = RoundView;

    open spec fn view(&self) -> RoundView {
        RoundView { operations: operations_view(self.operations@), outcome: self.outcome }
    }
}

} // verus!
