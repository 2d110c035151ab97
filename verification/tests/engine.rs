use std::cell::Cell;

use libbdgt::error::Error;
use libbdgt::location::{Location, StorePath};
use libbdgt::sync::{
    Commit, Config, GitSyncEngine, InstanceFile, Operation, Repository, Round, Signature,
    SyncEngine,
};

struct Place {
    present: Cell<bool>,
    writable: bool,
}

impl Place {
    fn new() -> Self {
        Place { present: Cell::new(false), writable: true }
    }
}

impl Location for Place {
    fn root(&self) -> StorePath {
        StorePath::new("/data")
    }

    fn is_present(&self) -> bool {
        self.present.get()
    }

    fn create_if_absent(&self) -> Result<(), Error> {
        if !self.writable {
            return Err(Error::Io);
        }
        self.present.set(true);
        Ok(())
    }
}

fn path(components: &[&str]) -> StorePath {
    StorePath { components: components.iter().map(|c| c.to_string()).collect() }
}

fn identity() -> Config {
    Config { name: Some("Alice".to_string()), email: Some("alice@example.org".to_string()) }
}

fn repository(remote: Option<&str>, head: Option<&str>) -> Repository {
    Repository {
        remote: remote.map(|r| r.to_string()),
        head: head.map(|h| h.to_string()),
        files: Vec::new(),
    }
}

fn engine(remote: Option<&str>, head: Option<&str>) -> GitSyncEngine {
    GitSyncEngine::at(&StorePath::new("/data"), repository(remote, head), identity())
}

#[test]
fn layout_below_the_root() {
    let root = StorePath::new("/data");
    assert_eq!(GitSyncEngine::sync_folder(&root), path(&["/data", "sync"]));
    assert_eq!(GitSyncEngine::sync_repo_path(&root), path(&["/data", "sync", "repository"]));
    assert_eq!(
        engine(None, None).sync_instance_path("laptop"),
        path(&["/data", "sync", "repository", "laptop"])
    );
}

#[test]
fn setup_without_remote_initializes() {
    let operations = GitSyncEngine::setup(&StorePath::new("/data"), None);
    assert_eq!(
        operations,
        vec![
            Operation::CreateDirectory { path: path(&["/data", "sync"]) },
            Operation::Init { path: path(&["/data", "sync", "repository"]) },
        ]
    );
}

#[test]
fn setup_with_remote_clones() {
    let operations = GitSyncEngine::setup(&StorePath::new("/data"), Some("ssh://host/log.git"));
    assert_eq!(
        operations,
        vec![
            Operation::CreateDirectory { path: path(&["/data", "sync"]) },
            Operation::Clone {
                remote: "ssh://host/log.git".to_string(),
                path: path(&["/data", "sync", "repository"]),
            },
        ]
    );
}

#[test]
fn create_makes_the_root_and_plans_the_setup() {
    let place = Place::new();
    let operations = GitSyncEngine::create(&place, None).unwrap();
    assert!(place.is_present());
    assert_eq!(operations, GitSyncEngine::setup(&StorePath::new("/data"), None));
}

#[test]
fn create_passes_the_failure_of_the_location_on() {
    let place = Place { present: Cell::new(false), writable: false };
    assert_eq!(GitSyncEngine::create(&place, Some("url")), Err(Error::Io));
}

#[test]
fn open_places_the_repository_below_the_root_of_the_location() {
    let opened = GitSyncEngine::open(&Place::new(), repository(None, None), identity());
    assert_eq!(
        opened.sync_instance_path("phone"),
        path(&["/data", "sync", "repository", "phone"])
    );
}

#[test]
fn first_commit_has_no_parent() {
    let commit = engine(None, None).commit_files(vec![path(&["f"])], "laptop").unwrap();
    assert_eq!(
        commit,
        Commit {
            pathspecs: vec![path(&["f"])],
            signature: Signature {
                name: "Alice".to_string(),
                email: "alice@example.org".to_string(),
            },
            message: "Updates from instance laptop".to_string(),
            parents: vec![],
            reference: "HEAD".to_string(),
        }
    );
}

#[test]
fn later_commit_follows_the_head_alone() {
    let commit = engine(None, Some("4f2a")).commit_files(vec![], "phone").unwrap();
    assert_eq!(commit.parents, vec!["4f2a".to_string()]);
    assert_eq!(commit.message, "Updates from instance phone");
    assert!(commit.pathspecs.is_empty());
}

#[test]
fn commit_needs_a_name_and_an_email() {
    let nameless = Config { name: None, email: Some("a@b".to_string()) };
    let engine = GitSyncEngine::at(&StorePath::new("/d"), repository(None, None), nameless);
    assert_eq!(engine.commit_files(vec![], "x"), Err(Error::Transport));

    let mailless = Config { name: Some("A".to_string()), email: None };
    let engine = GitSyncEngine::at(&StorePath::new("/d"), repository(None, None), mailless);
    assert_eq!(engine.commit_files(vec![], "x"), Err(Error::Transport));
}

#[test]
fn fetch_and_push_need_a_remote() {
    assert_eq!(engine(None, None).pull_remote(), vec![]);
    assert_eq!(engine(None, None).push_remote(), vec![]);
    assert_eq!(
        engine(Some("url"), None).pull_remote(),
        vec![Operation::Fetch { remote: "origin".to_string() }]
    );
    assert_eq!(
        engine(Some("url"), None).push_remote(),
        vec![Operation::Push { remote: "origin".to_string() }]
    );
}

#[test]
fn publish_writes_commits_and_pushes() {
    let round = engine(Some("url"), Some("c0ffee")).publish("laptop", vec![1, 2, 3]);
    let file = path(&["/data", "sync", "repository", "laptop"]);
    assert_eq!(
        round,
        Round {
            operations: vec![
                Operation::WriteFile { path: file, content: vec![1, 2, 3] },
                Operation::Commit {
                    commit: Commit {
                        pathspecs: vec![path(&["laptop"])],
                        signature: Signature {
                            name: "Alice".to_string(),
                            email: "alice@example.org".to_string(),
                        },
                        message: "Updates from instance laptop".to_string(),
                        parents: vec!["c0ffee".to_string()],
                        reference: "HEAD".to_string(),
                    },
                },
                Operation::Push { remote: "origin".to_string() },
            ],
            outcome: Ok(()),
        }
    );
}

#[test]
fn publish_without_remote_does_not_push() {
    let round = engine(None, None).publish("laptop", vec![]);
    assert_eq!(round.operations.len(), 2);
    assert_eq!(round.outcome, Ok(()));
}

#[test]
fn publish_without_identity_fails_with_the_file_written() {
    let anonymous = Config { name: None, email: None };
    let engine = GitSyncEngine::at(&StorePath::new("/d"), repository(Some("u"), None), anonymous);
    let round = engine.publish("laptop", vec![9]);
    assert_eq!(
        round,
        Round {
            operations: vec![Operation::WriteFile {
                path: path(&["/d", "sync", "repository", "laptop"]),
                content: vec![9],
            }],
            outcome: Err(Error::Transport),
        }
    );
}

#[test]
fn add_remote_registers_origin() {
    let mut engine = engine(None, None);
    assert_eq!(
        engine.add_remote("ssh://host/log.git"),
        Ok(Operation::AddRemote {
            name: "origin".to_string(),
            url: "ssh://host/log.git".to_string(),
        })
    );
    assert_eq!(
        engine.pull_remote(),
        vec![Operation::Fetch { remote: "origin".to_string() }]
    );
}

#[test]
fn second_add_remote_fails() {
    let mut engine = engine(None, None);
    assert!(engine.add_remote("first").is_ok());
    assert_eq!(engine.add_remote("second"), Err(Error::RemoteAlreadyExists));
    assert_eq!(engine.add_remote("first"), Err(Error::RemoteAlreadyExists));
}

#[test]
fn add_remote_after_remove_remote_succeeds() {
    let mut engine = engine(Some("old"), None);
    assert_eq!(engine.add_remote("new"), Err(Error::RemoteAlreadyExists));
    assert_eq!(
        engine.remove_remote(),
        Ok(Operation::DeleteRemote { name: "origin".to_string() })
    );
    assert_eq!(
        engine.add_remote("new"),
        Ok(Operation::AddRemote { name: "origin".to_string(), url: "new".to_string() })
    );
}

#[test]
fn remove_remote_without_remote_fails() {
    let mut engine = engine(None, None);
    assert_eq!(engine.remove_remote(), Err(Error::Transport));
}

#[test]
fn change_remote_removes_then_adds() {
    let mut engine = engine(Some("old"), None);
    assert_eq!(
        engine.change_remote("new"),
        Ok(vec![
            Operation::DeleteRemote { name: "origin".to_string() },
            Operation::AddRemote { name: "origin".to_string(), url: "new".to_string() },
        ])
    );
    assert_eq!(engine.add_remote("other"), Err(Error::RemoteAlreadyExists));
    assert_eq!(
        engine.change_remote("newer"),
        Ok(vec![
            Operation::DeleteRemote { name: "origin".to_string() },
            Operation::AddRemote { name: "origin".to_string(), url: "newer".to_string() },
        ])
    );
}

#[test]
fn change_remote_without_remote_fails_and_leaves_none() {
    let mut engine = engine(None, None);
    assert_eq!(engine.change_remote("new"), Err(Error::Transport));
    assert_eq!(engine.pull_remote(), vec![]);
}

#[test]
fn instance_file_holds_name_and_content() {
    let file = InstanceFile { instance: "laptop".to_string(), content: vec![1] };
    assert_eq!(file.instance, "laptop");
    assert_eq!(file.content, vec![1]);
}
