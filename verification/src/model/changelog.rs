//! Additions, changes and removals of records, per kind of entity.

use vstd::prelude::*;

use crate::error::Error;
use crate::model::codec::{
    changes, decoding, encoding, law_decoded_bytes_are_the_encoding,
    law_decoding_inverts_encoding, law_encoding_is_injective, limit, parse_changes, put_header,
    put_list, records_fit, records_view, take_header, take_list, ChangelogView, ChangesView,
};
use crate::storage::{Account, Category, Plan, Record, Transaction};

verus! {

/// The changes to the entities of one kind, each list in the order in which
/// its producer found them. Nothing keeps an entity from occurring twice.
#[derive(Clone, Debug, PartialEq, Eq)]
pub struct SimpleChangelog<T> {
    /// Added items.
    pub added: Vec<T>,
    /// Changed items.
    pub changed: Vec<T>,
    /// Removed items.
    pub removed: Vec<T>,
}

impl<T> SimpleChangelog<T> {
    /// All three lists are empty.
    pub open spec fn is_empty(&self) -> bool {
        &&& self.added@ == Seq::<T>::empty()
        &&& self.changed@ == Seq::<T>::empty()
        &&& self.removed@ == Seq::<T>::empty()
    }

    /// Each list of `self` is the list of `first` followed by that of
    /// `second`, every item kept and in order.
    pub open spec fn is_concat_of(&self, first: &Self, second: &Self) -> bool {
        &&& self.added@ == first.added@ + second.added@
        &&& self.changed@ == first.changed@ + second.changed@
        &&& self.removed@ == first.removed@ + second.removed@
    }

    /// Each list of `self` is as long as those of `first` and `second`
    /// together.
    pub open spec fn has_lengths_of(&self, first: &Self, second: &Self) -> bool {
        &&& self.added@.len() == first.added@.len() + second.added@.len()
        &&& self.changed@.len() == first.changed@.len() + second.changed@.len()
        &&& self.removed@.len() == first.removed@.len() + second.removed@.len()
    }

    /// Creates a changelog without changes.
    pub fn new() -> (changes: Self)
        ensures
            changes.is_empty(),
    {
        SimpleChangelog { added: Vec::new(), changed: Vec::new(), removed: Vec::new() }
    }
}

impl<T: Record> View for SimpleChangelog<T> {
    type V = ChangesView;

    open spec fn view(&self) -> ChangesView {
        ChangesView {
            added: records_view(self.added@),
            changed: records_view(self.changed@),
            removed: records_view(self.removed@),
        }
    }
}

/// Records that memory holds can be encoded.
proof fn lemma_records_fit<T: Record>(records: &Vec<T>)
    ensures
        records_fit(records_view(records@)),
{
    assert(records.len() <= usize::MAX);
    assert forall|i: int| 0 <= i < records@.len() implies (#[trigger] records_view(
        records@,
    )[i]).len() <= limit() by {
        records@[i].lemma_bounded();
    }
}

impl<T: Record> SimpleChangelog<T> {
    /// What the changes hold can be encoded.
    pub proof fn lemma_fits(&self)
        ensures
            self@.fits(),
    {
        lemma_records_fit(&self.added);
        lemma_records_fit(&self.changed);
        lemma_records_fit(&self.removed);
    }

    /// Writes the encoding of the changes behind `out`.
    pub(crate) fn write_to(&self, out: &mut Vec<u8>)
        ensures
            final(out)@ == old(out)@ + changes(self@),
    {
        put_header(out, 0x53, 3);
        put_list(out, &self.added);
        put_list(out, &self.changed);
        put_list(out, &self.removed);
        assert(out@ =~= old(out)@ + changes(self@));
    }

    /// Reads the changes that are encoded at the position `at` of `bytes`.
    /// Returns them and the position behind them.
    pub(crate) fn read_from(bytes: &[u8], at: usize) -> (read: Option<(Self, usize)>)
        requires
            at <= bytes@.len(),
        ensures
            match read {
                Some((found, next)) => at <= next <= bytes@.len() && parse_changes(
                    bytes@.skip(at as int),
                ) == Some((found@, bytes@.skip(next as int))),
                None => parse_changes(bytes@.skip(at as int)) is None,
            },
    {
        reveal(parse_changes);
        let (count, start) = match take_header(bytes, at, 0x53) {
            Some(header) => header,
            None => {
                return None;
            },
        };
        if count != 3 {
            return None;
        }
        let (added, next) = match take_list::<T>(bytes, start) {
            Some(list) => list,
            None => {
                return None;
            },
        };
        let (changed, next) = match take_list::<T>(bytes, next) {
            Some(list) => list,
            None => {
                return None;
            },
        };
        let (removed, next) = match take_list::<T>(bytes, next) {
            Some(list) => list,
            None => {
                return None;
            },
        };
        Some((SimpleChangelog { added, changed, removed }, next))
    }
}

/// The changes of a data store: one changelog per kind of entity.
#[derive(Clone, Debug, PartialEq, Eq)]
pub struct Changelog {
    /// Accounts changelog.
    pub accounts: SimpleChangelog<Account>,
    /// Categories changelog.
    pub categories: SimpleChangelog<Category>,
    /// Transactions changelog.
    pub transactions: SimpleChangelog<Transaction>,
    /// Plans changelog.
    pub plans: SimpleChangelog<Plan>,
}

impl View for Changelog {
    type V = ChangelogView;

    open spec fn view(&self) -> ChangelogView {
        ChangelogView {
            accounts: self.accounts@,
            categories: self.categories@,
            transactions: self.transactions@,
            plans: self.plans@,
        }
    }
}

impl Changelog {
    /// No kind of entity has a change.
    pub open spec fn is_empty(&self) -> bool {
        &&& self.accounts.is_empty()
        &&& self.categories.is_empty()
        &&& self.transactions.is_empty()
        &&& self.plans.is_empty()
    }

    /// `self` is `first` followed by `second`, list by list.
    pub open spec fn is_concat_of(&self, first: &Self, second: &Self) -> bool {
        &&& self.accounts.is_concat_of(&first.accounts, &second.accounts)
        &&& self.categories.is_concat_of(&first.categories, &second.categories)
        &&& self.transactions.is_concat_of(&first.transactions, &second.transactions)
        &&& self.plans.is_concat_of(&first.plans, &second.plans)
    }

    /// Each list of `self` is as long as those of `first` and `second`
    /// together.
    pub open spec fn has_lengths_of(&self, first: &Self, second: &Self) -> bool {
        &&& self.accounts.has_lengths_of(&first.accounts, &second.accounts)
        &&& self.categories.has_lengths_of(&first.categories, &second.categories)
        &&& self.transactions.has_lengths_of(&first.transactions, &second.transactions)
        &&& self.plans.has_lengths_of(&first.plans, &second.plans)
    }

    /// Creates an empty changelog.
    pub fn new() -> (changelog: Self)
        ensures
            changelog.is_empty(),
    {
        Changelog {
            accounts: SimpleChangelog::new(),
            categories: SimpleChangelog::new(),
            transactions: SimpleChangelog::new(),
            plans: SimpleChangelog::new(),
        }
    }

    /// Appends another changelog to the current one: every list of
    /// `changelog` goes behind the list of the same name. Nothing is dropped,
    /// reordered or merged, and the call always succeeds.
    pub fn append(&mut self, changelog: Changelog) -> (done: Result<(), Error>)
        ensures
            done == Ok::<(), Error>(()),
            final(self).is_concat_of(old(self), &changelog),
            final(self).has_lengths_of(old(self), &changelog),
    {
        let mut changelog = changelog;

        self.accounts.added.append(&mut changelog.accounts.added);
        self.accounts.changed.append(&mut changelog.accounts.changed);
        self.accounts.removed.append(&mut changelog.accounts.removed);

        self.categories.added.append(&mut changelog.categories.added);
        self.categories.changed.append(&mut changelog.categories.changed);
        self.categories.removed.append(&mut changelog.categories.removed);

        self.transactions.added.append(&mut changelog.transactions.added);
        self.transactions.changed.append(&mut changelog.transactions.changed);
        self.transactions.removed.append(&mut changelog.transactions.removed);

        self.plans.added.append(&mut changelog.plans.added);
        self.plans.changed.append(&mut changelog.plans.changed);
        self.plans.removed.append(&mut changelog.plans.removed);

        Ok(())
    }

    /// Creates a changelog from its binary representation. The bytes are
    /// accepted if and only if they are the encoding of a changelog, and
    /// that changelog is returned: the same records in the same order.
    pub fn from_slice(binary_changelog: &[u8]) -> (changelog: Result<Changelog, Error>)
        ensures
            match changelog {
                Ok(found) => encoding(found@) == binary_changelog@,
                Err(e) => e == Error::Serialization && forall|c: ChangelogView|
                    c.fits() ==> #[trigger] encoding(c) != binary_changelog@,
            },
    {
        let found = Self::read(binary_changelog);
        proof {
            if decoding(binary_changelog@) is Some {
                law_decoded_bytes_are_the_encoding(binary_changelog@);
            } else {
                assert forall|c: ChangelogView| c.fits() implies #[trigger] encoding(c)
                    != binary_changelog@ by {
                    law_decoding_inverts_encoding(c);
                }
            }
        }
        match found {
            Some(changelog) => Ok(changelog),
            None => Err(Error::Serialization),
        }
    }

    /// Reads the changelog that `bytes` encodes from its first to its last
    /// byte.
    fn read(bytes: &[u8]) -> (read: Option<Changelog>)
        ensures
            match read {
                Some(found) => decoding(bytes@) == Some(found@),
                None => decoding(bytes@) is None,
            },
    {
        reveal(decoding);
        assert(bytes@.skip(0) =~= bytes@);
        let (count, start) = match take_header(bytes, 0, 0x53) {
            Some(header) => header,
            None => {
                return None;
            },
        };
        if count != 4 {
            return None;
        }
        let (accounts, next) = match SimpleChangelog::<Account>::read_from(bytes, start) {
            Some(changes) => changes,
            None => {
                return None;
            },
        };
        let (categories, next) = match SimpleChangelog::<Category>::read_from(bytes, next) {
            Some(changes) => changes,
            None => {
                return None;
            },
        };
        let (transactions, next) = match SimpleChangelog::<Transaction>::read_from(bytes, next) {
            Some(changes) => changes,
            None => {
                return None;
            },
        };
        let (plans, next) = match SimpleChangelog::<Plan>::read_from(bytes, next) {
            Some(changes) => changes,
            None => {
                return None;
            },
        };
        if next != bytes.len() {
            return None;
        }
        Some(Changelog { accounts, categories, transactions, plans })
    }

    /// Converts the changelog into its binary representation. The call
    /// always succeeds.
    pub fn to_vec(&self) -> (binary_changelog: Result<Vec<u8>, Error>)
        ensures
            binary_changelog is Ok,
            binary_changelog->Ok_0@ == encoding(self@),
    {
        let mut out: Vec<u8> = Vec::new();
        put_header(&mut out, 0x53, 4);
        self.accounts.write_to(&mut out);
        self.categories.write_to(&mut out);
        self.transactions.write_to(&mut out);
        self.plans.write_to(&mut out);
        assert(out@ =~= encoding(self@));
        Ok(out)
    }

    /// What a changelog holds can be encoded.
    pub proof fn lemma_fits(&self)
        ensures
            self@.fits(),
    {
        self.accounts.lemma_fits();
        self.categories.lemma_fits();
        self.transactions.lemma_fits();
        self.plans.lemma_fits();
    }

    /// Round trip: a changelog that was read from the binary representation
    /// of `self` holds what `self` holds, the same records in the same
    /// order.
    pub proof fn law_round_trip(&self, decoded: &Changelog)
        requires
            encoding(decoded@) == encoding(self@),
        ensures
            decoded@ == self@,
    {
        self.lemma_fits();
        decoded.lemma_fits();
        law_encoding_is_injective(decoded@, self@);
    }
}

} // verus!
