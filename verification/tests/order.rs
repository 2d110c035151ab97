use libbdgt::sync::order::{rank, same_text, Rank};
use libbdgt::sync::{InstanceFile, Repository};

fn repository(names: &[&str]) -> Repository {
    Repository {
        remote: None,
        head: None,
        files: names
            .iter()
            .map(|name| InstanceFile { instance: name.to_string(), content: Vec::new() })
            .collect(),
    }
}

#[test]
fn rank_follows_the_first_difference() {
    assert_eq!(rank(b"abc", b"abd"), Rank::Before);
    assert_eq!(rank(b"abd", b"abc"), Rank::After);
    assert_eq!(rank(b"b", b"abc"), Rank::After);
}

#[test]
fn rank_puts_a_prefix_first() {
    assert_eq!(rank(b"ab", b"abc"), Rank::Before);
    assert_eq!(rank(b"abc", b"ab"), Rank::After);
    assert_eq!(rank(b"", b"a"), Rank::Before);
}

#[test]
fn rank_of_equal_bytes() {
    assert_eq!(rank(b"", b""), Rank::Same);
    assert_eq!(rank(b"laptop", b"laptop"), Rank::Same);
}

#[test]
fn rank_agrees_with_the_order_of_strings() {
    let names = ["", "a", "A", "ab", "b", "\u{e9}", "z", "zz", "\u{1f600}", "10", "9"];
    for a in names {
        for b in names {
            let expected = if a < b {
                Rank::Before
            } else if a == b {
                Rank::Same
            } else {
                Rank::After
            };
            assert_eq!(rank(a.as_bytes(), b.as_bytes()), expected);
        }
    }
}

#[test]
fn same_text_compares_whole_texts() {
    assert!(same_text("phone", "phone"));
    assert!(!same_text("phone", "phones"));
    assert!(!same_text("phone", "Phone"));
    assert!(same_text("", ""));
}

#[test]
fn collection_order_is_ascending_by_name() {
    let repo = repository(&["laptop", "desktop", "phone", "archive"]);
    assert_eq!(repo.collection_order("tablet"), vec![3, 1, 0, 2]);
}

#[test]
fn collection_order_leaves_the_own_file_out() {
    let repo = repository(&["laptop", "desktop", "phone"]);
    assert_eq!(repo.collection_order("laptop"), vec![1, 2]);
    assert_eq!(repo.collection_order("desktop"), vec![0, 2]);
    assert_eq!(repo.collection_order("phone"), vec![1, 0]);
}

#[test]
fn collection_order_of_an_empty_log() {
    let repo = repository(&[]);
    assert_eq!(repo.collection_order("laptop"), Vec::<usize>::new());
}

#[test]
fn collection_order_with_only_the_own_file() {
    let repo = repository(&["laptop"]);
    assert_eq!(repo.collection_order("laptop"), Vec::<usize>::new());
}

#[test]
fn collection_order_keeps_equal_names_as_they_stand() {
    let repo = repository(&["b", "a", "b", "a"]);
    assert_eq!(repo.collection_order("c"), vec![1, 3, 0, 2]);
}
