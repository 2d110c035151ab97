use std::cell::RefCell;

use libbdgt::error::Error;
use libbdgt::location::StorePath;
use libbdgt::model::Changelog;
use libbdgt::storage::{Account, Category};
use libbdgt::sync::{
    Config, GitSyncEngine, InstanceFile, Operation, Repository, Syncable, SyncEngine, UtcTimestamp,
};

/// A store that keeps everything in memory.
struct Store {
    /// Local changes that were not published yet.
    pending: RefCell<Changelog>,
    /// Everything that was merged into the store, in order.
    merged: RefCell<Vec<Changelog>>,
    /// The instances whose diffs were decoded, in order.
    decoded: RefCell<Vec<String>>,
    /// The moments that diffs were asked since.
    bases: RefCell<Vec<UtcTimestamp>>,
    broken: bool,
}

impl Store {
    fn new() -> Self {
        Store {
            pending: RefCell::new(Changelog::new()),
            merged: RefCell::new(Vec::new()),
            decoded: RefCell::new(Vec::new()),
            bases: RefCell::new(Vec::new()),
            broken: false,
        }
    }

    fn add_account(&self, account: Account) {
        self.pending.borrow_mut().accounts.added.push(account);
    }

    fn accounts(&self) -> Vec<Account> {
        let mut all = self.pending.borrow().accounts.added.clone();
        for diff in self.merged.borrow().iter() {
            all.extend(diff.accounts.added.iter().cloned());
        }
        all
    }
}

impl Syncable for Store {
    type Diff = Changelog;
    type Context = ();

    fn diff_since(&self, base: UtcTimestamp) -> Result<Changelog, Error> {
        if self.broken {
            return Err(Error::Storage);
        }
        self.bases.borrow_mut().push(base);
        Ok(self.pending.borrow().clone())
    }

    fn merge_diffs(&self, diffs: Vec<Changelog>) -> Result<(), Error> {
        self.merged.borrow_mut().extend(diffs);
        Ok(())
    }

    fn serialize_diff(
        &self,
        diff: Changelog,
        _instance: &str,
        _context: &(),
    ) -> Result<Vec<u8>, Error> {
        diff.to_vec()
    }

    fn deserialize_diff(&self, instance: &str, bytes: &[u8]) -> Result<Changelog, Error> {
        self.decoded.borrow_mut().push(instance.to_string());
        Changelog::from_slice(bytes)
    }
}

/// What stands for the repository and its remote: the files, and the log
/// entries with their parents.
struct Log {
    files: Vec<InstanceFile>,
    entries: Vec<(String, Vec<String>, String)>,
    pushes: usize,
}

impl Log {
    fn new() -> Self {
        Log { files: Vec::new(), entries: Vec::new(), pushes: 0 }
    }

    fn head(&self) -> Option<String> {
        self.entries.last().map(|entry| entry.0.clone())
    }

    fn engine(&self) -> GitSyncEngine {
        let repo = Repository {
            remote: Some("file:///srv/log.git".to_string()),
            head: self.head(),
            files: self
                .files
                .iter()
                .map(|f| InstanceFile { instance: f.instance.clone(), content: f.content.clone() })
                .collect(),
        };
        let config = Config { name: Some("N".to_string()), email: Some("n@e".to_string()) };
        GitSyncEngine::at(&StorePath::new("/root"), repo, config)
    }

    fn perform(&mut self, operations: Vec<Operation>) {
        for operation in operations {
            match operation {
                Operation::WriteFile { path, content } => {
                    let name = path.components.last().unwrap().clone();
                    assert_eq!(path.components[..3], ["/root", "sync", "repository"]);
                    self.files.retain(|f| f.instance != name);
                    self.files.push(InstanceFile { instance: name, content });
                }
                Operation::Commit { commit } => {
                    assert_eq!(commit.parents, self.head().into_iter().collect::<Vec<_>>());
                    let id = format!("entry-{}", self.entries.len());
                    self.entries.push((id, commit.parents, commit.message));
                }
                Operation::Push { remote } => {
                    assert_eq!(remote, "origin");
                    self.pushes += 1;
                }
                other => panic!("a round does not ask for {:?}", other),
            }
        }
    }

    fn sync(&mut self, instance: &str, store: &Store) -> Result<(), Error> {
        let engine = self.engine();
        let base = UtcTimestamp { seconds: 1_700_000_000, nanoseconds: 0 };
        let round = engine.perform_sync(instance, store, &(), base);
        self.perform(round.operations);
        round.outcome
    }

    fn file(&self, instance: &str) -> Vec<u8> {
        self.files.iter().find(|f| f.instance == instance).unwrap().content.clone()
    }
}

fn account(name: &str) -> Account {
    Account { record: name.as_bytes().to_vec() }
}

#[test]
fn one_account_travels_from_a_to_b() {
    let mut log = Log::new();

    let a = Store::new();
    a.add_account(account("cash"));
    assert_eq!(log.sync("A", &a), Ok(()));

    let mut expected = Changelog::new();
    expected.accounts.added.push(account("cash"));
    let published = Changelog::from_slice(&log.file("A")).unwrap();
    assert_eq!(published, expected);
    assert_eq!(published.accounts.added, vec![account("cash")]);
    assert!(published.accounts.changed.is_empty());
    assert!(published.accounts.removed.is_empty());
    assert_eq!(published.categories, Changelog::new().categories);
    assert_eq!(published.transactions, Changelog::new().transactions);
    assert_eq!(published.plans, Changelog::new().plans);

    let b = Store::new();
    assert_eq!(log.sync("B", &b), Ok(()));
    assert_eq!(b.merged.borrow().len(), 1);
    assert_eq!(b.merged.borrow()[0].accounts.added, vec![account("cash")]);
    assert_eq!(b.accounts(), vec![account("cash")]);
}

#[test]
fn a_third_instance_receives_both_diffs_in_name_order() {
    let mut log = Log::new();

    let b = Store::new();
    b.pending.borrow_mut().categories.added.push(Category { record: b"food".to_vec() });
    assert_eq!(log.sync("B", &b), Ok(()));

    let a = Store::new();
    a.add_account(account("cash"));
    assert_eq!(log.sync("A", &a), Ok(()));

    let c = Store::new();
    assert_eq!(log.sync("C", &c), Ok(()));

    assert_eq!(*c.decoded.borrow(), vec!["A".to_string(), "B".to_string()]);
    let merged = c.merged.borrow();
    assert_eq!(merged.len(), 2);
    assert_eq!(merged[0].accounts.added, vec![account("cash")]);
    assert!(merged[0].categories.added.is_empty());
    assert_eq!(merged[1].categories.added, vec![Category { record: b"food".to_vec() }]);
    assert!(merged[1].accounts.added.is_empty());
    assert_eq!(c.accounts(), vec![account("cash")]);
}

#[test]
fn an_instance_does_not_read_its_own_file() {
    let mut log = Log::new();
    let a = Store::new();
    a.add_account(account("cash"));
    assert_eq!(log.sync("A", &a), Ok(()));
    assert_eq!(log.sync("A", &a), Ok(()));
    assert!(a.decoded.borrow().is_empty());
    assert_eq!(*a.merged.borrow(), vec![]);
}

#[test]
fn first_round_writes_an_entry_without_parents() {
    let mut log = Log::new();
    let store = Store::new();
    let engine = log.engine();
    let base = UtcTimestamp { seconds: 0, nanoseconds: 0 };
    let round = engine.perform_sync("A", &store, &(), base);
    assert_eq!(round.outcome, Ok(()));
    match &round.operations[1] {
        Operation::Commit { commit } => {
            assert!(commit.parents.is_empty());
            assert_eq!(commit.message, "Updates from instance A");
            assert_eq!(commit.reference, "HEAD");
            assert_eq!(commit.pathspecs.len(), 1);
            assert_eq!(commit.pathspecs[0].components, ["A"]);
        }
        other => panic!("expected a commit, found {:?}", other),
    }
    log.perform(round.operations);
    assert_eq!(log.entries.len(), 1);
    assert!(log.entries[0].1.is_empty());
    assert_eq!(log.pushes, 1);
}

#[test]
fn history_is_linear() {
    let mut log = Log::new();
    let a = Store::new();
    let b = Store::new();
    assert_eq!(log.sync("A", &a), Ok(()));
    assert_eq!(log.sync("B", &b), Ok(()));
    assert_eq!(log.sync("A", &a), Ok(()));
    assert_eq!(log.entries.len(), 3);
    assert_eq!(log.entries[1].1, vec!["entry-0".to_string()]);
    assert_eq!(log.entries[2].1, vec!["entry-1".to_string()]);
    assert_eq!(log.entries[1].2, "Updates from instance B");
}

#[test]
fn a_round_overwrites_the_file_of_the_instance() {
    let mut log = Log::new();
    let a = Store::new();
    a.add_account(account("cash"));
    assert_eq!(log.sync("A", &a), Ok(()));
    a.pending.replace(Changelog::new());
    assert_eq!(log.sync("A", &a), Ok(()));
    assert_eq!(log.files.len(), 1);
    assert_eq!(Changelog::from_slice(&log.file("A")), Ok(Changelog::new()));
}

#[test]
fn the_base_is_handed_to_the_store() {
    let mut log = Log::new();
    let a = Store::new();
    assert_eq!(log.sync("A", &a), Ok(()));
    assert_eq!(*a.bases.borrow(), vec![UtcTimestamp { seconds: 1_700_000_000, nanoseconds: 0 }]);
}

#[test]
fn a_failing_store_ends_the_round_before_the_transport() {
    let log = Log::new();
    let mut store = Store::new();
    store.broken = true;
    let base = UtcTimestamp { seconds: 0, nanoseconds: 0 };
    let round = log.engine().perform_sync("A", &store, &(), base);
    assert_eq!(round.operations, vec![]);
    assert_eq!(round.outcome, Err(Error::Storage));
}

#[test]
fn a_malformed_remote_diff_ends_the_round() {
    let mut log = Log::new();
    log.files.push(InstanceFile { instance: "B".to_string(), content: vec![1, 2, 3] });
    let store = Store::new();
    store.add_account(account("cash"));
    assert_eq!(log.sync("A", &store), Err(Error::Serialization));
    assert_eq!(log.files.len(), 1);
    assert!(log.entries.is_empty());
    assert!(store.merged.borrow().is_empty());
}
