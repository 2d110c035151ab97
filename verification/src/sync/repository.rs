//! The engine's picture of the versioned log.

use vstd::prelude::*;

use crate::error::Error;
use crate::sync::operation::OperationView;

verus! {

/// The name of the one remote of a repository.
pub open spec fn remote_name() -> Seq<char> {
    "origin"@
}

/// The view of an optional text.
pub open spec fn text_view(text: Option<String>) -> Option<Seq<char>> {
    match text {
        Some(t) => Some(t@),
        None => None,
    }
}

/// The file in which one instance publishes its diff.
#[derive(Debug, PartialEq, Eq)]
pub struct InstanceFile {
    /// The name of the instance, which is also the name of the file.
    pub instance: String,
    /// What the file holds.
    pub content: Vec<u8>,
}

/// What an `InstanceFile` stands for.
pub struct InstanceFileView {
    pub instance: Seq<char>,
    pub content: Seq<u8>,
}

impl View for InstanceFile {
    type V = InstanceFileView;

    open spec fn view(&self) -> InstanceFileView {
        InstanceFileView { instance: self.instance@, content: self.content@ }
    }
}

/// The state of the repository, as far as the engine decides by it.
#[derive(Debug, PartialEq, Eq)]
pub struct Repository {
    /// The endpoint of the remote, where one is configured.
    pub remote: Option<String>,
    /// The name of the head entry of the log, where the log has an entry.
    pub head: Option<String>,
    /// The instance files in the log.
    pub files: Vec<InstanceFile>,
}

/// What a `Repository` stands for.
pub struct RepositoryView {
    pub remote: Option<Seq<char>>,
    pub head: Option<Seq<char>>,
    pub files: Seq<InstanceFileView>,
}

impl View for Repository {
    type V = RepositoryView;

    open spec fn view(&self) -> RepositoryView {
        RepositoryView {
            remote: text_view(self.remote),
            head: text_view(self.head),
            files: Seq::new(self.files@.len(), |i: int| self.files@[i]@),
        }
    }
}

impl RepositoryView {
    /// What adding the remote `url` comes to: the registration under the
    /// conventional name, or a refusal where a remote is configured.
    pub open spec fn add_remote(self, url: Seq<char>) -> Result<OperationView, Error> {
        if self.remote is Some {
            Err(Error::RemoteAlreadyExists)
        } else {
            Ok(OperationView::AddRemote { name: remote_name(), url })
        }
    }

    /// The repository after `add_remote` with `url`.
    pub open spec fn with_remote(self, url: Seq<char>) -> Self {
        if self.remote is Some {
            self
        } else {
            RepositoryView { remote: Some(url), ..self }
        }
    }

    /// What removing the remote comes to: its deletion, or the failure of
    /// the transport where none is configured.
    pub open spec fn remove_remote(self) -> Result<OperationView, Error> {
        if self.remote is Some {
            Ok(OperationView::DeleteRemote { name: remote_name() })
        } else {
            Err(Error::Transport)
        }
    }

    /// The repository after `remove_remote`.
    pub open spec fn without_remote(self) -> Self {
        RepositoryView { remote: None, ..self }
    }

    /// What changing the remote to `url` comes to: removing the remote, then
    /// adding `url`.
    pub open spec fn change_remote(self, url: Seq<char>) -> Result<Seq<OperationView>, Error> {
        match self.remove_remote() {
            Ok(removal) => match self.without_remote().add_remote(url) {
                Ok(addition) => Ok(seq![removal, addition]),
                Err(e) => Err(e),
            },
            Err(e) => Err(e),
        }
    }

    /// The repository after `change_remote` with `url`.
    pub open spec fn with_changed_remote(self, url: Seq<char>) -> Self {
        if self.remove_remote() is Ok {
            self.without_remote().with_remote(url)
        } else {
            self
        }
    }
}

/// Adding a remote twice with no removal in between fails the second time:
/// whatever the first call came to, the second is refused because a remote
/// exists, and it leaves the repository as the first call left it.
pub proof fn law_second_add_remote_is_refused(
    repo: RepositoryView,
    first: Seq<char>,
    second: Seq<char>,
)
    ensures
        repo.with_remote(first).add_remote(second) == Err::<OperationView, Error>(
            Error::RemoteAlreadyExists,
        ),
        repo.with_remote(first).with_remote(second) == repo.with_remote(first),
{
}

/// After a change of the remote that succeeded, the new endpoint is the
/// configured remote and nothing else of the repository has changed; the
/// operations were the deletion of the old remote and the registration of
/// the new one.
pub proof fn law_change_remote_leaves_the_new_remote(repo: RepositoryView, url: Seq<char>)
    requires
        repo.change_remote(url) is Ok,
    ensures
        repo.with_changed_remote(url) == (RepositoryView { remote: Some(url), ..repo }),
        repo.change_remote(url) == Ok::<Seq<OperationView>, Error>(
            seq![
                OperationView::DeleteRemote { name: remote_name() },
                OperationView::AddRemote { name: remote_name(), url },
            ],
        ),
{
}

/// A change of the remote fails only where no remote is configured, and
/// then none is configured afterwards.
pub proof fn law_change_remote_fails_without_remote(repo: RepositoryView, url: Seq<char>)
    ensures
        repo.change_remote(url) is Err <==> repo.remote is None,
        repo.change_remote(url) is Err ==> repo.with_changed_remote(url).remote is None,
{
}

/// The identity under which log entries are written.
#[derive(Debug, PartialEq, Eq)]
pub struct Config {
    /// The configured name, if there is one.
    pub name: Option<String>,
    /// The configured email address, if there is one.
    pub email: Option<String>,
}

/// What a `Config` stands for.
pub struct ConfigView {
    pub name: Option<Seq<char>>,
    pub email: Option<Seq<char>>,
}

impl View for Config {
    type V = ConfigView;

    open spec fn view(&self) -> ConfigView {
        ConfigView { name: text_view(self.name), email: text_view(self.email) }
    }
}

} // verus!
