//! The engine that keeps the log in a git repository.
//!
//! Every instance owns one file of the repository, named by the instance,
//! and writes no other. History is linear: an entry follows the head, or
//! nothing where the log is empty.

use vstd::prelude::*;
use vstd::string::StringExecFns;

use crate::error::Error;
use crate::location::location::Location;
use crate::location::store_path::StorePath;
use crate::sync::engine::SyncEngine;
use crate::sync::operation::{
    operations_view, outcome_view, outcomes_view, Commit, CommitView, Operation, OperationView, Round, RoundView, Signature,
    SignatureView,
};
use crate::sync::order::is_collection_order;
use crate::sync::repository::{
    remote_name, Config, ConfigView, InstanceFileView, Repository, RepositoryView,
};
use crate::sync::syncable::{Syncable, UtcTimestamp};

verus! {

/// The reference that a new entry moves.
pub open spec fn reference_name() -> Seq<char> {
    "HEAD"@
}

/// The synchronization folder below `root`.
pub open spec fn sync_folder_of(root: Seq<Seq<char>>) -> Seq<Seq<char>> {
    root.push("sync"@)
}

/// The repository below `root`.
pub open spec fn repo_path_of(root: Seq<Seq<char>>) -> Seq<Seq<char>> {
    sync_folder_of(root).push("repository"@)
}

/// The file of the instance `instance` in the repository at `repo_path`.
pub open spec fn instance_path_of(repo_path: Seq<Seq<char>>, instance: Seq<char>) -> Seq<
    Seq<char>,
> {
    repo_path.push(instance)
}

/// The file of the instance `instance` as an entry names it: by its place in
/// the repository.
pub open spec fn staged_path_of(instance: Seq<char>) -> Seq<Seq<char>> {
    seq![instance]
}

/// The message of an entry that the instance `instance` writes.
pub open spec fn commit_message_of(instance: Seq<char>) -> Seq<char> {
    "Updates from instance "@ + instance
}

/// The view of an optional text that is borrowed.
pub open spec fn borrowed_view(text: Option<&str>) -> Option<Seq<char>> {
    match text {
        Some(t) => Some(t@),
        None => None,
    }
}

/// The operations that set a repository up below `root`: the
/// synchronization folder is created, then the repository is cloned from
/// `remote` or, without a remote, initialized empty.
pub open spec fn setup_of(root: Seq<Seq<char>>, remote: Option<Seq<char>>) -> Seq<OperationView> {
    seq![
        OperationView::CreateDirectory { path: sync_folder_of(root) },
        match remote {
            Some(url) => OperationView::Clone { remote: url, path: repo_path_of(root) },
            None => OperationView::Init { path: repo_path_of(root) },
        },
    ]
}

/// Synchronization engine that uses git internally.
pub struct GitSyncEngine {
    /// The repository, as it was when the engine was opened.
    repo: Repository,
    /// Path to the repository's home.
    repo_path: StorePath,
    /// Default git configuration.
    config: Config,
}

/// What a `GitSyncEngine` stands for.
pub struct GitSyncEngineView {
    pub repo: RepositoryView,
    pub repo_path: Seq<Seq<char>>,
    pub config: ConfigView,
}

impl View for GitSyncEngine {
    type V = GitSyncEngineView;

    closed spec fn view(&self) -> GitSyncEngineView {
        GitSyncEngineView { repo: self.repo@, repo_path: self.repo_path@, config: self.config@ }
    }
}

impl GitSyncEngineView {
    /// The entry that stages `pathspecs` for the instance `instance`: it is
    /// signed with the configured identity and follows the head, or nothing
    /// where the log is empty. Without a configured name or email address no
    /// entry can be written.
    pub open spec fn commit_of(
        self,
        pathspecs: Seq<Seq<Seq<char>>>,
        instance: Seq<char>,
    ) -> Result<CommitView, Error> {
        match (self.config.name, self.config.email) {
            (Some(name), Some(email)) => Ok(
                CommitView {
                    pathspecs,
                    signature: SignatureView { name, email },
                    message: commit_message_of(instance),
                    parents: match self.repo.head {
                        Some(head) => seq![head],
                        None => Seq::empty(),
                    },
                    reference: reference_name(),
                },
            ),
            _ => Err(Error::Transport),
        }
    }

    /// The operation that fetches from the remote, where there is one.
    pub open spec fn fetch_of(self) -> Seq<OperationView> {
        if self.repo.remote is Some {
            seq![OperationView::Fetch { remote: remote_name() }]
        } else {
            Seq::empty()
        }
    }

    /// The operation that pushes to the remote, where there is one.
    pub open spec fn push_of(self) -> Seq<OperationView> {
        if self.repo.remote is Some {
            seq![OperationView::Push { remote: remote_name() }]
        } else {
            Seq::empty()
        }
    }

    /// The end of a round in which the instance `instance` publishes
    /// `content`: its file is overwritten, that file alone is committed, and
    /// the log is pushed. Where no entry can be written the round fails with
    /// the file already overwritten.
    pub open spec fn publication_of(self, instance: Seq<char>, content: Seq<u8>) -> RoundView {
        let path = instance_path_of(self.repo_path, instance);
        let write = OperationView::WriteFile { path, content };
        match self.commit_of(seq![staged_path_of(instance)], instance) {
            Ok(commit) => RoundView {
                operations: seq![write, OperationView::Commit { commit }] + self.push_of(),
                outcome: Ok(()),
            },
            Err(e) => RoundView { operations: seq![write], outcome: Err(e) },
        }
    }
}

/// History is linear: an entry follows the head and nothing else, and the
/// first entry of a log follows nothing.
pub proof fn law_history_is_linear(
    engine: GitSyncEngineView,
    pathspecs: Seq<Seq<Seq<char>>>,
    instance: Seq<char>,
)
    requires
        engine.commit_of(pathspecs, instance) is Ok,
    ensures
        engine.repo.head is None ==> engine.commit_of(pathspecs, instance)->Ok_0.parents.len() == 0,
        engine.repo.head is Some ==> engine.commit_of(pathspecs, instance)->Ok_0.parents
            == seq![engine.repo.head->Some_0],
{
}

/// An instance writes and stages its own file and no other: whatever it
/// publishes, the one file that a round writes is the file named by the
/// instance, in the repository, and the entry stages that file alone.
pub proof fn law_round_touches_own_file_only(
    engine: GitSyncEngineView,
    instance: Seq<char>,
    content: Seq<u8>,
)
    ensures
        ({
            let round = engine.publication_of(instance, content);
            let own = instance_path_of(engine.repo_path, instance);
            &&& round.operations[0] == (OperationView::WriteFile { path: own, content })
            &&& forall|i: int|
                1 <= i < round.operations.len() ==> !(#[trigger] round.operations[i]
                    is WriteFile)
            &&& forall|i: int|
                0 <= i < round.operations.len() ==> (#[trigger] round.operations[i]
                    matches OperationView::Commit { commit } ==> commit.pathspecs == seq![
                    staged_path_of(instance),
                ])
        }),
{
}

/// `syncable` was asked to decode the file `file`, and `outcome` is what it
/// returned.
pub open spec fn decoded<S: Syncable>(
    syncable: &S,
    file: InstanceFileView,
    outcome: Result<S::Diff, Error>,
) -> bool {
    exists|name: &str, bytes: &[u8]|
        name@ == file.instance && bytes@ == file.content && #[trigger] call_ensures(
            S::deserialize_diff,
            (syncable, name, bytes),
            outcome,
        )
}

/// `diffs` are what `syncable` decoded from the files at the first positions
/// of `order`, one by one.
pub open spec fn collected<S: Syncable>(
    syncable: &S,
    files: Seq<InstanceFileView>,
    order: Seq<usize>,
    diffs: Seq<S::Diff>,
) -> bool {
    &&& diffs.len() <= order.len()
    &&& forall|k: int|
        0 <= k < diffs.len() ==> decoded(
            syncable,
            files[order[k] as int],
            Ok::<S::Diff, Error>(#[trigger] diffs[k]),
        )
}

/// The round `round` is empty and failed with what `syncable` returned in
/// place of the diff of the file at position `at` of `order`.
pub open spec fn failed_to_collect<S: Syncable>(
    syncable: &S,
    files: Seq<InstanceFileView>,
    order: Seq<usize>,
    at: int,
    round: RoundView,
) -> bool {
    &&& 0 <= at < order.len()
    &&& round.operations.len() == 0
    &&& round.outcome is Err
    &&& decoded(syncable, files[order[at] as int], Err::<S::Diff, Error>(round.outcome->Err_0))
}

/// What became of a round after `syncable` had decoded `merged`, the diffs
/// of all other instances. The local changes since `base` are taken, then
/// `merged` is handed to `syncable`, then the local diff is encoded and
/// published. The first of these that `syncable` fails ends the round, empty
/// and with that failure.
pub open spec fn concluded<S: Syncable>(
    engine: GitSyncEngineView,
    syncable: &S,
    current_instance: &str,
    context: &S::Context,
    base: UtcTimestamp,
    merged: Vec<S::Diff>,
    round: RoundView,
) -> bool {
    let nothing = round.operations.len() == 0 && round.outcome is Err;
    let e = round.outcome->Err_0;
    ||| nothing && call_ensures(S::diff_since, (syncable, base), Err::<S::Diff, Error>(e))
    ||| exists|local: S::Diff| #[trigger]
        call_ensures(S::diff_since, (syncable, base), Ok::<S::Diff, Error>(local)) && {
            ||| nothing && call_ensures(
                S::merge_diffs,
                (syncable, merged),
                Err::<(), Error>(e),
            )
            ||| call_ensures(S::merge_diffs, (syncable, merged), Ok::<(), Error>(())) && {
                ||| nothing && call_ensures(
                    S::serialize_diff,
                    (syncable, local, current_instance, context),
                    Err::<Vec<u8>, Error>(e),
                )
                ||| exists|content: Vec<u8>| #[trigger]
                    call_ensures(
                        S::serialize_diff,
                        (syncable, local, current_instance, context),
                        Ok::<Vec<u8>, Error>(content),
                    ) && round == engine.publication_of(current_instance@, content@)
            }
        }
}

/// `round` is a round of the instance `current_instance` on the repository
/// of `engine`: the files of the other instances were decoded by ascending
/// instance name, and either one of them failed to decode, which ended the
/// round, or all were decoded and the round went on with them.
pub open spec fn is_round<S: Syncable>(
    engine: GitSyncEngineView,
    syncable: &S,
    current_instance: &str,
    context: &S::Context,
    base: UtcTimestamp,
    round: RoundView,
) -> bool {
    exists|order: Seq<usize>, merged: Vec<S::Diff>|
        #![trigger collected(syncable, engine.repo.files, order, merged@)]
        {
            &&& is_collection_order(engine.repo.files, current_instance@, order)
            &&& collected(syncable, engine.repo.files, order, merged@)
            &&& if merged@.len() < order.len() {
                failed_to_collect(syncable, engine.repo.files, order, merged@.len() as int, round)
            } else {
                concluded(engine, syncable, current_instance, context, base, merged, round)
            }
        }
}

/// A round that failed before it asked anything of the transport.
fn failed(e: Error) -> (round: Round)
    ensures
        round@ == (RoundView { operations: Seq::empty(), outcome: Err(e) }),
{
    let round = Round { operations: Vec::new(), outcome: Err(e) };
    assert(round@.operations =~= Seq::empty());
    round
}

impl GitSyncEngine {
    /// The operations that set a repository up below `root`.
    pub fn setup(root: &StorePath, remote: Option<&str>) -> (operations: Vec<Operation>)
        ensures
            operations_view(operations@) == setup_of(root@, borrowed_view(remote)),
    {
        let mut operations: Vec<Operation> = Vec::new();
        operations.push(Operation::CreateDirectory { path: Self::sync_folder(root) });
        let repo_path = Self::sync_repo_path(root);
        match remote {
            Some(url) => {
                operations.push(Operation::Clone { remote: url.to_owned(), path: repo_path });
            },
            None => {
                operations.push(Operation::Init { path: repo_path });
            },
        }
        assert(operations_view(operations@) =~= setup_of(root@, borrowed_view(remote)));
        operations
    }

    /// Makes sure that the root location exists and says how to set the
    /// repository up below it. The engine is opened once the operations are
    /// done. Where the location cannot be created, its failure is passed on.
    pub fn create<L: Location>(loc: &L, remote: Option<&str>) -> (operations: Result<
        Vec<Operation>,
        Error,
    >)
        ensures
            match operations {
                Ok(steps) => call_ensures(L::create_if_absent, (loc,), Ok::<(), Error>(()))
                    && exists|root: StorePath| #[trigger]
                    call_ensures(L::root, (loc,), root) && operations_view(steps@) == setup_of(
                        root@,
                        borrowed_view(remote),
                    ),
                Err(e) => call_ensures(L::create_if_absent, (loc,), Err::<(), Error>(e)),
            },
    {
        let made = loc.create_if_absent();
        match made {
            Ok(()) => {
                assert(made->Ok_0 == ());
                assert(made == Ok::<(), Error>(()));
            },
            Err(e) => {
                return Err(e);
            },
        }
        let root = loc.root();
        Ok(Self::setup(&root, remote))
    }

    /// The engine for the repository below `root`, whose state is `repo` and
    /// whose configuration is `config`.
    pub fn at(root: &StorePath, repo: Repository, config: Config) -> (engine: Self)
        ensures
            engine@ == (GitSyncEngineView {
                repo: repo@,
                repo_path: repo_path_of(root@),
                config: config@,
            }),
    {
        GitSyncEngine { repo, repo_path: Self::sync_repo_path(root), config }
    }

    /// The engine for the repository below the root of `loc`.
    pub fn open<L: Location>(loc: &L, repo: Repository, config: Config) -> (engine: Self)
        ensures
            exists|root: StorePath| #[trigger]
                call_ensures(L::root, (loc,), root) && engine@ == (GitSyncEngineView {
                    repo: repo@,
                    repo_path: repo_path_of(root@),
                    config: config@,
                }),
    {
        let root = loc.root();
        Self::at(&root, repo, config)
    }

    /// The operation that retrieves the latest state of the log. A round
    /// starts with it; the engine is opened anew on what it brought.
    pub fn pull_remote(&self) -> (operations: Vec<Operation>)
        ensures
            operations_view(operations@) == self@.fetch_of(),
    {
        let mut operations: Vec<Operation> = Vec::new();
        if self.repo.remote.is_some() {
            operations.push(Operation::Fetch { remote: "origin".to_owned() });
        }
        assert(operations_view(operations@) =~= self@.fetch_of());
        operations
    }

    /// The operation that publishes the log to the remote.
    pub fn push_remote(&self) -> (operations: Vec<Operation>)
        ensures
            operations_view(operations@) == self@.push_of(),
    {
        let mut operations: Vec<Operation> = Vec::new();
        if self.repo.remote.is_some() {
            operations.push(Operation::Push { remote: "origin".to_owned() });
        }
        assert(operations_view(operations@) =~= self@.push_of());
        operations
    }

    /// The entry that stages exactly the files `pathspecs`, each named by its
    /// place in the repository, for `current_instance`.
    pub fn commit_files(&self, pathspecs: Vec<StorePath>, current_instance: &str) -> (commit:
        Result<Commit, Error>)
        ensures
            match commit {
                Ok(c) => Ok::<CommitView, Error>(c@),
                Err(e) => Err(e),
            } == self@.commit_of(crate::sync::operation::paths_view(pathspecs@), current_instance@),
    {
        let name = match &self.config.name {
            Some(name) => name.clone(),
            None => {
                return Err(Error::Transport);
            },
        };
        let email = match &self.config.email {
            Some(email) => email.clone(),
            None => {
                return Err(Error::Transport);
            },
        };
        let signature = Signature { name, email };

        let message = String::from_str("Updates from instance ").concat(current_instance);

        let mut parents: Vec<String> = Vec::new();
        match &self.repo.head {
            Some(head) => {
                parents.push(head.clone());
            },
            None => {},
        }

        let commit = Commit {
            pathspecs,
            signature,
            message,
            parents,
            reference: "HEAD".to_owned(),
        };
        proof {
            let expected = self@.commit_of(
                crate::sync::operation::paths_view(pathspecs@),
                current_instance@,
            );
            assert(expected is Ok);
            assert(commit@.parents =~= expected->Ok_0.parents);
        }
        Ok(commit)
    }

    /// The end of a round: `content` is what `current_instance` publishes.
    pub fn publish(&self, current_instance: &str, content: Vec<u8>) -> (round: Round)
        ensures
            round@ == self@.publication_of(current_instance@, content@),
    {
        let path = self.sync_instance_path(current_instance);
        let mut operations: Vec<Operation> = Vec::new();
        operations.push(Operation::WriteFile { path, content });

        let mut pathspecs: Vec<StorePath> = Vec::new();
        pathspecs.push(StorePath::new(current_instance));
        assert(crate::sync::operation::paths_view(pathspecs@) =~= seq![
            staged_path_of(current_instance@),
        ]);
        match self.commit_files(pathspecs, current_instance) {
            Ok(commit) => {
                operations.push(Operation::Commit { commit });
                let mut push = self.push_remote();
                let ghost written = operations@;
                let ghost pushed = push@;
                operations.append(&mut push);
                let round = Round { operations, outcome: Ok(()) };
                assert(round@.operations =~= operations_view(written) + operations_view(pushed));
                assert(operations_view(written) =~= seq![written[0]@, written[1]@]);
                round
            },
            Err(e) => {
                let round = Round { operations, outcome: Err(e) };
                assert(round@.operations =~= seq![operations@[0]@]);
                round
            },
        }
    }

    /// The synchronization folder below `root`.
    pub fn sync_folder(root: &StorePath) -> (path: StorePath)
        ensures
            path@ == sync_folder_of(root@),
    {
        root.join("sync")
    }

    /// The repository below `root`.
    pub fn sync_repo_path(root: &StorePath) -> (path: StorePath)
        ensures
            path@ == repo_path_of(root@),
    {
        Self::sync_folder(root).join("repository")
    }

    /// The file of the instance `instance`.
    pub fn sync_instance_path(&self, instance: &str) -> (path: StorePath)
        ensures
            path@ == instance_path_of(self@.repo_path, instance@),
    {
        self.repo_path.join(instance)
    }
}

impl SyncEngine for GitSyncEngine {
    open spec fn remote(&self) -> Option<Seq<char>> {
        self@.repo.remote
    }

    /// Reads the diffs of the other instances by ascending instance name,
    /// takes the local changes since `base`, hands the remote diffs to
    /// `syncable` in that order, and publishes the encoded local diff. A
    /// failure of `syncable` ends the round at once, with nothing asked of
    /// the transport. Whatever `syncable` returns, a round that asks
    /// anything of the transport is the publication of some content.
    fn perform_sync<S: Syncable>(
        &self,
        current_instance: &str,
        syncable: &S,
        context: &S::Context,
        base: UtcTimestamp,
    ) -> (round: Round)
        ensures
            is_round(self@, syncable, current_instance, context, base, round@),
            round@.operations.len() == 0 ==> round@.outcome is Err,
            round@.operations.len() > 0 ==> exists|content: Seq<u8>|
                round@ == #[trigger] self@.publication_of(current_instance@, content),
    {
        let ghost files = self@.repo.files;
        let order = self.repo.collection_order(current_instance);
        let mut remote_diffs: Vec<S::Diff> = Vec::new();
        let mut k: usize = 0;
        while k < order.len()
            invariant
                k <= order@.len(),
                k == remote_diffs@.len(),
                files == self@.repo.files,
                is_collection_order(files, current_instance@, order@),
                files.len() == self.repo.files@.len(),
                collected(syncable, files, order@, remote_diffs@),
            decreases order@.len() - k,
        {
            let position: usize = order[k];
            assert(order@[k as int] < files.len());
            let file = &self.repo.files[position];
            let ghost before = remote_diffs;
            let name = file.instance.as_str();
            let bytes = file.content.as_slice();
            let outcome = syncable.deserialize_diff(name, bytes);
            assert(decoded(syncable, files[order@[k as int] as int], outcome));
            match outcome {
                Ok(diff) => {
                    remote_diffs.push(diff);
                    assert forall|j: int| 0 <= j < remote_diffs@.len() implies decoded(
                        syncable,
                        files[order@[j] as int],
                        Ok::<S::Diff, Error>(#[trigger] remote_diffs@[j]),
                    ) by {
                        if j < k {
                            assert(remote_diffs@[j] == before@[j]);
                        }
                    }
                },
                Err(e) => {
                    let round = failed(e);
                    assert(failed_to_collect(syncable, files, order@, k as int, round@));
                    assert(is_round(self@, syncable, current_instance, context, base, round@));
                    return round;
                },
            }
            k += 1;
        }

        let ghost merged = remote_diffs;
        let local_diff = match syncable.diff_since(base) {
            Ok(diff) => diff,
            Err(e) => {
                let round = failed(e);
                assert(concluded(self@, syncable, current_instance, context, base, merged, round@));
                assert(is_round(self@, syncable, current_instance, context, base, round@));
                return round;
            },
        };
        let ghost local = local_diff;

        let merging = syncable.merge_diffs(remote_diffs);
        match merging {
            Ok(()) => {
                assert(merging->Ok_0 == ());
                assert(merging == Ok::<(), Error>(()));
            },
            Err(e) => {
                let round = failed(e);
                assert(concluded(self@, syncable, current_instance, context, base, merged, round@));
                assert(is_round(self@, syncable, current_instance, context, base, round@));
                return round;
            },
        }

        let encoding = syncable.serialize_diff(local_diff, current_instance, context);
        let round = match encoding {
            Ok(content) => self.publish(current_instance, content),
            Err(e) => failed(e),
        };
        assert(concluded(self@, syncable, current_instance, context, base, merged, round@));
        assert(is_round(self@, syncable, current_instance, context, base, round@));
        round
    }

    fn add_remote(&mut self, remote: &str) -> (operation: Result<Operation, Error>)
        ensures
            outcome_view(operation) == old(self)@.repo.add_remote(remote@),
            final(self)@ == (GitSyncEngineView {
                repo: old(self)@.repo.with_remote(remote@),
                ..old(self)@
            }),
    {
        if self.repo.remote.is_some() {
            return Err(Error::RemoteAlreadyExists);
        }
        self.repo.remote = Some(remote.to_owned());
        Ok(Operation::AddRemote { name: "origin".to_owned(), url: remote.to_owned() })
    }

    /// Without a configured remote the call fails as the transport would.
    fn remove_remote(&mut self) -> (operation: Result<Operation, Error>)
        ensures
            outcome_view(operation) == old(self)@.repo.remove_remote(),
            final(self)@ == (GitSyncEngineView {
                repo: if old(self)@.repo.remove_remote() is Ok {
                    old(self)@.repo.without_remote()
                } else {
                    old(self)@.repo
                },
                ..old(self)@
            }),
    {
        if self.repo.remote.is_none() {
            return Err(Error::Transport);
        }
        self.repo.remote = None;
        Ok(Operation::DeleteRemote { name: "origin".to_owned() })
    }

    /// The two steps are not undone: where the second cannot be taken, the
    /// first stays taken.
    fn change_remote(&mut self, remote: &str) -> (operations: Result<Vec<Operation>, Error>)
        ensures
            outcomes_view(operations) == old(self)@.repo.change_remote(remote@),
            final(self)@ == (GitSyncEngineView {
                repo: old(self)@.repo.with_changed_remote(remote@),
                ..old(self)@
            }),
    {
        let removal = match self.remove_remote() {
            Ok(operation) => operation,
            Err(e) => {
                return Err(e);
            },
        };
        let addition = match self.add_remote(remote) {
            Ok(operation) => operation,
            Err(e) => {
                return Err(e);
            },
        };
        let mut operations: Vec<Operation> = Vec::new();
        operations.push(removal);
        operations.push(addition);
        assert(operations_view(operations@) =~= seq![removal@, addition@]);
        Ok(operations)
    }
}

} // verus!
