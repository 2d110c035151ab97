//! The order in which the diffs of other instances are applied.
//!
//! Instance names are ordered as Rust orders strings: by the bytes of their
//! UTF-8 encoding, the first difference deciding, a proper prefix first.

use vstd::prelude::*;

use crate::sync::repository::{InstanceFileView, Repository};

verus! {

/// `a` and `b` agree on their first `k` bytes, and there `a` ends while `b`
/// goes on, or `a` has the smaller byte.
pub open spec fn parts_at(a: Seq<u8>, b: Seq<u8>, k: int) -> bool {
    &&& 0 <= k <= a.len()
    &&& k <= b.len()
    &&& forall|j: int| 0 <= j < k ==> a[j] == b[j]
    &&& (k == a.len() && k < b.len()) || (k < a.len() && k < b.len() && a[k] < b[k])
}

/// `a` comes before `b` in the lexicographic order of bytes.
pub open spec fn precedes(a: Seq<u8>, b: Seq<u8>) -> bool {
    exists|k: int| parts_at(a, b, k)
}

/// The bytes by which an instance name is ordered.
pub open spec fn name_key(name: Seq<char>) -> Seq<u8> {
    vstd::utf8::encode_utf8(name)
}

/// How one sequence of bytes stands to another.
#[derive(Clone, Copy, Debug, PartialEq, Eq, Structural)]
pub enum Rank {
    /// It comes first.
    Before,
    /// The two are equal.
    Same,
    /// It comes second.
    After,
}

/// Nothing comes before itself, and of two sequences at most one comes
/// before the other.
pub proof fn lemma_precedes_asymmetric(a: Seq<u8>, b: Seq<u8>)
    requires
        precedes(a, b),
    ensures
        a != b,
        !precedes(b, a),
{
    let k = choose|k: int| parts_at(a, b, k);
    if precedes(b, a) {
        let m = choose|m: int| parts_at(b, a, m);
        if k < m {
            assert(b[k] == a[k]);
        } else if m < k {
            assert(a[m] == b[m]);
        }
    }
}

/// What comes before a sequence comes before all that this sequence comes
/// before.
pub proof fn lemma_precedes_transitive(a: Seq<u8>, b: Seq<u8>, c: Seq<u8>)
    requires
        precedes(a, b),
        precedes(b, c),
    ensures
        precedes(a, c),
{
    let k = choose|k: int| parts_at(a, b, k);
    let m = choose|m: int| parts_at(b, c, m);
    if k <= m {
        assert(parts_at(a, c, k));
    } else {
        assert(parts_at(a, c, m));
    }
}

/// Two names with the same key are the same name.
pub proof fn lemma_name_key_injective(a: Seq<char>, b: Seq<char>)
    requires
        name_key(a) == name_key(b),
    ensures
        a == b,
{
    vstd::utf8::encode_utf8_decode_utf8(a);
    vstd::utf8::encode_utf8_decode_utf8(b);
}

/// Compares two sequences of bytes lexicographically.
pub fn rank(a: &[u8], b: &[u8]) -> (r: Rank)
    ensures
        r == Rank::Before <==> precedes(a@, b@),
        r == Rank::Same <==> a@ == b@,
        r == Rank::After <==> precedes(b@, a@),
{
    let a_len: usize = a.len();
    let b_len: usize = b.len();
    let mut k: usize = 0;
    while k < a_len && k < b_len
        invariant
            k <= a_len,
            k <= b_len,
            a_len == a@.len(),
            b_len == b@.len(),
            forall|j: int| 0 <= j < k ==> a@[j] == b@[j],
        decreases a_len - k,
    {
        if a[k] < b[k] {
            proof {
                assert(parts_at(a@, b@, k as int));
                lemma_precedes_asymmetric(a@, b@);
            }
            return Rank::Before;
        }
        if b[k] < a[k] {
            proof {
                assert(parts_at(b@, a@, k as int));
                lemma_precedes_asymmetric(b@, a@);
            }
            return Rank::After;
        }
        k += 1;
    }
    if a_len < b_len {
        proof {
            assert(parts_at(a@, b@, k as int));
            lemma_precedes_asymmetric(a@, b@);
        }
        Rank::Before
    } else if b_len < a_len {
        proof {
            assert(parts_at(b@, a@, k as int));
            lemma_precedes_asymmetric(b@, a@);
        }
        Rank::After
    } else {
        proof {
            assert(a@ =~= b@);
            if precedes(a@, b@) {
                lemma_precedes_asymmetric(a@, b@);
            }
        }
        Rank::Same
    }
}

/// Whether two texts are the same.
pub fn same_text(a: &str, b: &str) -> (same: bool)
    ensures
        same == (a@ == b@),
{
    let r = rank(a.as_bytes(), b.as_bytes());
    proof {
        if name_key(a@) == name_key(b@) {
            lemma_name_key_injective(a@, b@);
        }
    }
    r == Rank::Same
}

/// The file at position `i` is read before the one at position `j`: its
/// instance name comes first, or the names are equal and it stands first.
pub open spec fn read_before(files: Seq<InstanceFileView>, i: int, j: int) -> bool {
    let a = name_key(files[i].instance);
    let b = name_key(files[j].instance);
    precedes(a, b) || (a == b && i < j)
}

/// `order` lists the positions of the files in `files` that belong to
/// instances other than `current`, each once, by ascending instance name.
pub open spec fn is_collection_order(
    files: Seq<InstanceFileView>,
    current: Seq<char>,
    order: Seq<usize>,
) -> bool {
    &&& forall|k: int|
        0 <= k < order.len() ==> (#[trigger] order[k]) < files.len() && files[order[k] as int].instance
            != current
    &&& forall|i: int|
        0 <= i < files.len() && (#[trigger] files[i]).instance != current ==> exists|k: int|
            0 <= k < order.len() && order[k] == i
    &&& forall|x: int, y: int|
        0 <= x < y < order.len() ==> read_before(files, #[trigger] order[x] as int, #[trigger] order[y] as int)
}

/// Two lists of positions that are both in reading order and hold the same
/// positions are the same list.
proof fn lemma_same_positions_same_order(
    files: Seq<InstanceFileView>,
    first: Seq<usize>,
    second: Seq<usize>,
)
    requires
        forall|x: int, y: int|
            0 <= x < y < first.len() ==> read_before(
                files,
                #[trigger] first[x] as int,
                #[trigger] first[y] as int,
            ),
        forall|x: int, y: int|
            0 <= x < y < second.len() ==> read_before(
                files,
                #[trigger] second[x] as int,
                #[trigger] second[y] as int,
            ),
        forall|k: int| 0 <= k < first.len() ==> second.contains(#[trigger] first[k]),
        forall|k: int| 0 <= k < second.len() ==> first.contains(#[trigger] second[k]),
    ensures
        first == second,
    decreases first.len(),
{
    lemma_order_strict(files);
    if first.len() == 0 {
        if second.len() > 0 {
            assert(first.contains(second[0]));
        }
        assert(first =~= second);
    } else {
        let fl = first[first.len() - 1];
        assert(second.contains(fl));
        let sl = second[second.len() - 1];
        assert(first.contains(sl));
        let ks = choose|k: int| 0 <= k < second.len() && second[k] == fl;
        let kf = choose|k: int| 0 <= k < first.len() && first[k] == sl;
        if ks < second.len() - 1 {
            assert(read_before(files, second[ks] as int, second[second.len() - 1] as int));
            if kf < first.len() - 1 {
                assert(read_before(files, first[kf] as int, first[first.len() - 1] as int));
            }
        }
        assert(fl == sl);
        let f = first.drop_last();
        let s = second.drop_last();
        assert forall|k: int| 0 <= k < f.len() implies s.contains(#[trigger] f[k]) by {
            assert(f[k] == first[k]);
            assert(second.contains(first[k]));
            let m = choose|m: int| 0 <= m < second.len() && second[m] == first[k];
            assert(read_before(files, first[k] as int, first[first.len() - 1] as int));
            assert(s[m] == second[m]);
        }
        assert forall|k: int| 0 <= k < s.len() implies f.contains(#[trigger] s[k]) by {
            assert(s[k] == second[k]);
            assert(first.contains(second[k]));
            let m = choose|m: int| 0 <= m < first.len() && first[m] == second[k];
            assert(read_before(files, second[k] as int, second[second.len() - 1] as int));
            assert(f[m] == first[m]);
        }
        assert forall|x: int, y: int| 0 <= x < y < f.len() implies read_before(
            files,
            #[trigger] f[x] as int,
            #[trigger] f[y] as int,
        ) by {
            assert(read_before(files, first[x] as int, first[y] as int));
        }
        assert forall|x: int, y: int| 0 <= x < y < s.len() implies read_before(
            files,
            #[trigger] s[x] as int,
            #[trigger] s[y] as int,
        ) by {
            assert(read_before(files, second[x] as int, second[y] as int));
        }
        lemma_same_positions_same_order(files, f, s);
        assert(first =~= f.push(fl));
        assert(second =~= s.push(sl));
    }
}

/// There is one collection order and no other.
pub proof fn lemma_collection_order_unique(
    files: Seq<InstanceFileView>,
    current: Seq<char>,
    first: Seq<usize>,
    second: Seq<usize>,
)
    requires
        is_collection_order(files, current, first),
        is_collection_order(files, current, second),
    ensures
        first == second,
{
    assert forall|k: int| 0 <= k < first.len() implies second.contains(#[trigger] first[k]) by {
        let i = first[k] as int;
        assert(files[i].instance != current);
        let m = choose|m: int| 0 <= m < second.len() && second[m] == i;
        assert(second[m] == first[k]);
    }
    assert forall|k: int| 0 <= k < second.len() implies first.contains(#[trigger] second[k]) by {
        let i = second[k] as int;
        assert(files[i].instance != current);
        let m = choose|m: int| 0 <= m < first.len() && first[m] == i;
        assert(first[m] == second[k]);
    }
    lemma_same_positions_same_order(files, first, second);
}

/// No file is read before itself, and of two files at most one is read
/// before the other.
pub proof fn lemma_order_strict(files: Seq<InstanceFileView>)
    ensures
        forall|i: int, j: int| #[trigger] read_before(files, i, j) ==> i != j && !read_before(files, j, i),
{
    assert forall|i: int, j: int| #[trigger] read_before(files, i, j) implies i != j
        && !read_before(files, j, i) by {
        let a = name_key(files[i].instance);
        let b = name_key(files[j].instance);
        if precedes(a, b) {
            lemma_precedes_asymmetric(a, b);
        }
        if precedes(b, a) {
            lemma_precedes_asymmetric(b, a);
        }
    }
}

impl Repository {
    /// The positions of the files of the instances other than `current`, in
    /// the order in which their diffs are read: by ascending instance name.
    pub fn collection_order(&self, current: &str) -> (order: Vec<usize>)
        ensures
            is_collection_order(self@.files, current@, order@),
    {
        let ghost files = self@.files;
        let count: usize = self.files.len();
        let mut order: Vec<usize> = Vec::new();
        let mut i: usize = 0;
        while i < count
            invariant
                i <= count,
                count == self.files@.len(),
                files == self@.files,
                forall|k: int|
                    0 <= k < order@.len() ==> (#[trigger] order@[k]) < i && files[order@[k] as int].instance
                        != current@,
                forall|j: int|
                    0 <= j < i && (#[trigger] files[j]).instance != current@ ==> exists|k: int|
                        0 <= k < order@.len() && order@[k] == j,
                forall|x: int, y: int|
                    0 <= x < y < order@.len() ==> read_before(
                        files,
                        #[trigger] order@[x] as int,
                        #[trigger] order@[y] as int,
                    ),
            decreases count - i,
        {
            let name: &str = self.files[i].instance.as_str();
            if !same_text(name, current) {
                let listed: usize = order.len();
                let mut at: usize = 0;
                while at < listed
                    invariant
                        at <= listed,
                        listed == order@.len(),
                        i < count,
                        count == self.files@.len(),
                        files == self@.files,
                        name@ == files[i as int].instance,
                        forall|k: int| 0 <= k < order@.len() ==> (#[trigger] order@[k]) < i,
                        forall|k: int|
                            0 <= k < at ==> read_before(files, #[trigger] order@[k] as int, i as int),
                    ensures
                        at <= listed,
                        forall|k: int|
                            0 <= k < at ==> read_before(files, #[trigger] order@[k] as int, i as int),
                        at < listed ==> precedes(
                            name_key(files[i as int].instance),
                            name_key(files[order@[at as int] as int].instance),
                        ),
                    decreases listed - at,
                {
                    let other: &str = self.files[order[at]].instance.as_str();
                    let r = rank(name.as_bytes(), other.as_bytes());
                    if r == Rank::Before {
                        break ;
                    }
                    at += 1;
                }
                let ghost before = order@;
                order.insert(at, i);
                proof {
                    assert forall|x: int, y: int| 0 <= x < y < order@.len() implies read_before(
                        files,
                        #[trigger] order@[x] as int,
                        #[trigger] order@[y] as int,
                    ) by {
                        if y < at {
                        } else if y == at {
                        } else if x < at {
                            assert(read_before(files, before[x] as int, before[y - 1] as int));
                        } else if x == at {
                            let key = name_key(files[i as int].instance);
                            let key_at = name_key(files[before[at as int] as int].instance);
                            let key_y = name_key(files[before[y - 1] as int].instance);
                            if y - 1 > at {
                                assert(read_before(
                                    files,
                                    before[at as int] as int,
                                    before[y - 1] as int,
                                ));
                                if precedes(key_at, key_y) {
                                    lemma_precedes_transitive(key, key_at, key_y);
                                }
                            }
                        } else {
                            assert(read_before(files, before[x - 1] as int, before[y - 1] as int));
                        }
                    }
                    assert forall|j: int|
                        0 <= j < i + 1 && (#[trigger] files[j]).instance != current@ implies exists|
                        k: int,
                    | 0 <= k < order@.len() && order@[k] == j by {
                        if j < i {
                            let k = choose|k: int| 0 <= k < before.len() && before[k] == j;
                            if k < at {
                                assert(order@[k] == j);
                            } else {
                                assert(order@[k + 1] == j);
                            }
                        } else {
                            assert(order@[at as int] == j);
                        }
                    }
                    assert forall|k: int| 0 <= k < order@.len() implies (#[trigger] order@[k]) < i
                        + 1 && files[order@[k] as int].instance != current@ by {
                        if k < at {
                            assert(order@[k] == before[k]);
                        } else if k > at {
                            assert(order@[k] == before[k - 1]);
                        }
                    }
                }
            }
            i += 1;
        }
        order
    }
}

} // verus!
