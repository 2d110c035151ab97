//! The binary encoding of a changelog.
//!
//! The encoding describes itself: every value starts with a tag that says
//! whether a byte string or a sequence follows, and with the number of bytes
//! or of items. A changelog is a sequence of its four kinds of entity, a kind
//! the sequence of its three lists, a list the sequence of its records, and
//! a record a byte string. Numbers are eight bytes, least significant first.

use vstd::bytes::{spec_u64_from_le_bytes, spec_u64_to_le_bytes};
use vstd::prelude::*;

use crate::storage::Record;

verus! {

/// The bytes of each of `records`.
pub open spec fn records_view<T: Record>(records: Seq<T>) -> Seq<Seq<u8>> {
    Seq::new(records.len(), |i: int| records[i].bytes())
}

/// The records of one kind of entity, each as its bytes.
pub struct ChangesView {
    pub added: Seq<Seq<u8>>,
    pub changed: Seq<Seq<u8>>,
    pub removed: Seq<Seq<u8>>,
}

/// The records of a changelog, each as its bytes.
pub struct ChangelogView {
    pub accounts: ChangesView,
    pub categories: ChangesView,
    pub transactions: ChangesView,
    pub plans: ChangesView,
}

/// The tag of a byte string.
pub open spec fn blob_tag() -> u8 {
    0x42
}

/// The tag of a sequence.
pub open spec fn sequence_tag() -> u8 {
    0x53
}

/// The greatest number that the encoding can hold.
pub open spec fn limit() -> nat {
    0xffff_ffff_ffff_ffff
}

/// The start of a value: its tag and its number of bytes or items.
pub open spec fn header(tag: u8, count: nat) -> Seq<u8> {
    seq![tag] + spec_u64_to_le_bytes(count as u64)
}

/// The encoding of a record.
pub open spec fn blob(content: Seq<u8>) -> Seq<u8> {
    header(blob_tag(), content.len()) + content
}

/// The encodings of `records`, one after the other.
pub open spec fn blobs(records: Seq<Seq<u8>>) -> Seq<u8>
    decreases records.len(),
{
    if records.len() == 0 {
        Seq::empty()
    } else {
        blob(records[0]) + blobs(records.drop_first())
    }
}

/// The encoding of a list of records.
pub open spec fn list(records: Seq<Seq<u8>>) -> Seq<u8> {
    header(sequence_tag(), records.len()) + blobs(records)
}

/// The encoding of the changes to one kind of entity.
pub open spec fn changes(c: ChangesView) -> Seq<u8> {
    header(sequence_tag(), 3) + list(c.added) + list(c.changed) + list(c.removed)
}

/// The encoding of a changelog.
pub open spec fn encoding(c: ChangelogView) -> Seq<u8> {
    header(sequence_tag(), 4) + changes(c.accounts) + changes(c.categories) + changes(
        c.transactions,
    ) + changes(c.plans)
}

/// The list and each of its records are short enough to be encoded.
pub open spec fn records_fit(records: Seq<Seq<u8>>) -> bool {
    &&& records.len() <= limit()
    &&& forall|i: int| 0 <= i < records.len() ==> (#[trigger] records[i]).len() <= limit()
}

impl ChangesView {
    /// Every list can be encoded.
    pub open spec fn fits(self) -> bool {
        records_fit(self.added) && records_fit(self.changed) && records_fit(self.removed)
    }
}

impl ChangelogView {
    /// Every list can be encoded.
    pub open spec fn fits(self) -> bool {
        self.accounts.fits() && self.categories.fits() && self.transactions.fits()
            && self.plans.fits()
    }
}

/// What `bytes` holds behind a header with the tag `tag`: the number in the
/// header and the bytes that follow it.
pub open spec fn parse_header(bytes: Seq<u8>, tag: u8) -> Option<(nat, Seq<u8>)> {
    if bytes.len() >= 9 && bytes[0] == tag {
        Some((spec_u64_from_le_bytes(bytes.subrange(1, 9)) as nat, bytes.skip(9)))
    } else {
        None
    }
}

/// The record at the start of `bytes` and the bytes behind it.
pub open spec fn parse_blob(bytes: Seq<u8>) -> Option<(Seq<u8>, Seq<u8>)> {
    match parse_header(bytes, blob_tag()) {
        Some((length, rest)) => if length <= rest.len() {
            Some((rest.take(length as int), rest.skip(length as int)))
        } else {
            None
        },
        None => None,
    }
}

/// The `count` records at the start of `bytes` and the bytes behind them.
pub open spec fn parse_blobs(bytes: Seq<u8>, count: nat) -> Option<(Seq<Seq<u8>>, Seq<u8>)>
    decreases count,
{
    if count == 0 {
        Some((Seq::empty(), bytes))
    } else {
        match parse_blob(bytes) {
            Some((first, rest)) => match parse_blobs(rest, (count - 1) as nat) {
                Some((others, behind)) => Some((seq![first] + others, behind)),
                None => None,
            },
            None => None,
        }
    }
}

/// The list of records at the start of `bytes` and the bytes behind it.
pub open spec fn parse_list(bytes: Seq<u8>) -> Option<(Seq<Seq<u8>>, Seq<u8>)> {
    match parse_header(bytes, sequence_tag()) {
        Some((count, rest)) => parse_blobs(rest, count),
        None => None,
    }
}

/// The changes to one kind of entity at the start of `bytes` and the bytes
/// behind them.
#[verifier::opaque]
pub open spec fn parse_changes(bytes: Seq<u8>) -> Option<(ChangesView, Seq<u8>)> {
    match parse_header(bytes, sequence_tag()) {
        Some((count, rest)) => if count == 3 {
            match parse_list(rest) {
                Some((added, rest)) => match parse_list(rest) {
                    Some((changed, rest)) => match parse_list(rest) {
                        Some((removed, rest)) => Some((ChangesView { added, changed, removed }, rest)),
                        None => None,
                    },
                    None => None,
                },
                None => None,
            }
        } else {
            None
        },
        None => None,
    }
}

/// The changelog that `bytes` is the encoding of, if it is one.
#[verifier::opaque]
pub open spec fn decoding(bytes: Seq<u8>) -> Option<ChangelogView> {
    match parse_header(bytes, sequence_tag()) {
        Some((count, rest)) => if count == 4 {
            match parse_changes(rest) {
                Some((accounts, rest)) => match parse_changes(rest) {
                    Some((categories, rest)) => match parse_changes(rest) {
                        Some((transactions, rest)) => match parse_changes(rest) {
                            Some((plans, rest)) => if rest.len() == 0 {
                                Some(ChangelogView { accounts, categories, transactions, plans })
                            } else {
                                None
                            },
                            None => None,
                        },
                        None => None,
                    },
                    None => None,
                },
                None => None,
            }
        } else {
            None
        },
        None => None,
    }
}

/// A header is read back as it was written.
pub proof fn lemma_parse_header_of_header(tag: u8, count: nat, rest: Seq<u8>)
    requires
        count <= limit(),
    ensures
        parse_header(header(tag, count) + rest, tag) == Some((count, rest)),
{
    vstd::bytes::lemma_auto_spec_u64_to_from_le_bytes();
    let bytes = header(tag, count) + rest;
    assert(bytes.subrange(1, 9) =~= spec_u64_to_le_bytes(count as u64));
    assert(bytes.skip(9) =~= rest);
}

/// What is read as a header was written as one.
pub proof fn lemma_header_of_parse_header(bytes: Seq<u8>, tag: u8)
    requires
        parse_header(bytes, tag) is Some,
    ensures
        ({
            let (count, rest) = parse_header(bytes, tag)->Some_0;
            bytes == header(tag, count) + rest && count <= limit()
        }),
{
    vstd::bytes::lemma_auto_spec_u64_to_from_le_bytes();
    let (count, rest) = parse_header(bytes, tag)->Some_0;
    let number = bytes.subrange(1, 9);
    assert(spec_u64_to_le_bytes(spec_u64_from_le_bytes(number)) == number);
    assert(bytes =~= header(tag, count) + rest);
}

/// A record is read back as it was written.
pub proof fn lemma_parse_blob_of_blob(content: Seq<u8>, rest: Seq<u8>)
    requires
        content.len() <= limit(),
    ensures
        parse_blob(blob(content) + rest) == Some((content, rest)),
{
    lemma_parse_header_of_header(blob_tag(), content.len(), content + rest);
    assert(blob(content) + rest =~= header(blob_tag(), content.len()) + (content + rest));
    assert((content + rest).take(content.len() as int) =~= content);
    assert((content + rest).skip(content.len() as int) =~= rest);
}

/// What is read as a record was written as one.
pub proof fn lemma_blob_of_parse_blob(bytes: Seq<u8>)
    requires
        parse_blob(bytes) is Some,
    ensures
        ({
            let (content, rest) = parse_blob(bytes)->Some_0;
            bytes == blob(content) + rest && content.len() <= limit()
        }),
{
    lemma_header_of_parse_header(bytes, blob_tag());
    let (length, body) = parse_header(bytes, blob_tag())->Some_0;
    let (content, rest) = parse_blob(bytes)->Some_0;
    assert(body =~= content + rest);
    assert(bytes =~= blob(content) + rest);
}

/// Records are read back as they were written.
pub proof fn lemma_parse_blobs_of_blobs(records: Seq<Seq<u8>>, rest: Seq<u8>)
    requires
        records_fit(records),
    ensures
        parse_blobs(blobs(records) + rest, records.len()) == Some((records, rest)),
    decreases records.len(),
{
    if records.len() == 0 {
        assert(blobs(records) + rest =~= rest);
        assert(records =~= Seq::empty());
    } else {
        let others = records.drop_first();
        assert(records[0].len() <= limit());
        assert forall|i: int| 0 <= i < others.len() implies (#[trigger] others[i]).len()
            <= limit() by {
            assert(others[i] == records[i + 1]);
        }
        lemma_parse_blob_of_blob(records[0], blobs(others) + rest);
        assert(blobs(records) + rest =~= blob(records[0]) + (blobs(others) + rest));
        lemma_parse_blobs_of_blobs(others, rest);
        assert(seq![records[0]] + others =~= records);
    }
}

/// What is read as records was written as records.
pub proof fn lemma_blobs_of_parse_blobs(bytes: Seq<u8>, count: nat)
    requires
        parse_blobs(bytes, count) is Some,
        count <= limit(),
    ensures
        ({
            let (records, rest) = parse_blobs(bytes, count)->Some_0;
            bytes == blobs(records) + rest && records.len() == count && records_fit(records)
        }),
    decreases count,
{
    let (records, rest) = parse_blobs(bytes, count)->Some_0;
    if count == 0 {
        assert(bytes =~= blobs(records) + rest);
    } else {
        lemma_blob_of_parse_blob(bytes);
        let (first, middle) = parse_blob(bytes)->Some_0;
        lemma_blobs_of_parse_blobs(middle, (count - 1) as nat);
        let (others, behind) = parse_blobs(middle, (count - 1) as nat)->Some_0;
        assert(records == seq![first] + others);
        assert(records.drop_first() =~= others);
        assert(bytes =~= blobs(records) + rest);
        assert forall|i: int| 0 <= i < records.len() implies (#[trigger] records[i]).len()
            <= limit() by {
            if i > 0 {
                assert(records[i] == others[i - 1]);
            }
        }
    }
}

/// A list is read back as it was written.
pub proof fn lemma_parse_list_of_list(records: Seq<Seq<u8>>, rest: Seq<u8>)
    requires
        records_fit(records),
    ensures
        parse_list(list(records) + rest) == Some((records, rest)),
{
    lemma_parse_header_of_header(sequence_tag(), records.len(), blobs(records) + rest);
    assert(list(records) + rest =~= header(sequence_tag(), records.len()) + (blobs(records)
        + rest));
    lemma_parse_blobs_of_blobs(records, rest);
}

/// What is read as a list was written as one.
pub proof fn lemma_list_of_parse_list(bytes: Seq<u8>)
    requires
        parse_list(bytes) is Some,
    ensures
        ({
            let (records, rest) = parse_list(bytes)->Some_0;
            bytes == list(records) + rest && records_fit(records)
        }),
{
    lemma_header_of_parse_header(bytes, sequence_tag());
    let (count, body) = parse_header(bytes, sequence_tag())->Some_0;
    lemma_blobs_of_parse_blobs(body, count);
    let (records, rest) = parse_list(bytes)->Some_0;
    assert(bytes =~= list(records) + rest);
}

/// The changes to one kind are read back as they were written.
pub proof fn lemma_parse_changes_of_changes(c: ChangesView, rest: Seq<u8>)
    requires
        c.fits(),
    ensures
        parse_changes(changes(c) + rest) == Some((c, rest)),
{
    reveal(parse_changes);
    let third = list(c.removed) + rest;
    let second = list(c.changed) + third;
    let first = list(c.added) + second;
    lemma_parse_header_of_header(sequence_tag(), 3, first);
    assert(changes(c) + rest =~= header(sequence_tag(), 3) + first);
    lemma_parse_list_of_list(c.added, second);
    lemma_parse_list_of_list(c.changed, third);
    lemma_parse_list_of_list(c.removed, rest);
}

/// What is read as the changes to one kind was written as such.
pub proof fn lemma_changes_of_parse_changes(bytes: Seq<u8>)
    requires
        parse_changes(bytes) is Some,
    ensures
        ({
            let (c, rest) = parse_changes(bytes)->Some_0;
            bytes == changes(c) + rest && c.fits()
        }),
{
    reveal(parse_changes);
    lemma_header_of_parse_header(bytes, sequence_tag());
    let (count, first) = parse_header(bytes, sequence_tag())->Some_0;
    lemma_list_of_parse_list(first);
    let (added, second) = parse_list(first)->Some_0;
    lemma_list_of_parse_list(second);
    let (changed, third) = parse_list(second)->Some_0;
    lemma_list_of_parse_list(third);
    let (c, rest) = parse_changes(bytes)->Some_0;
    assert(bytes =~= changes(c) + rest);
}

/// Round trip: the encoding of a changelog decodes to that changelog, the
/// same records in the same order.
pub proof fn law_decoding_inverts_encoding(c: ChangelogView)
    requires
        c.fits(),
    ensures
        decoding(encoding(c)) == Some(c),
{
    reveal(decoding);
    let none = Seq::<u8>::empty();
    let fourth = changes(c.plans) + none;
    let third = changes(c.transactions) + fourth;
    let second = changes(c.categories) + third;
    let first = changes(c.accounts) + second;
    lemma_parse_header_of_header(sequence_tag(), 4, first);
    assert(encoding(c) =~= header(sequence_tag(), 4) + first);
    lemma_parse_changes_of_changes(c.accounts, second);
    lemma_parse_changes_of_changes(c.categories, third);
    lemma_parse_changes_of_changes(c.transactions, fourth);
    lemma_parse_changes_of_changes(c.plans, none);
}

/// Bytes decode to a changelog only if they are its encoding.
pub proof fn law_decoded_bytes_are_the_encoding(bytes: Seq<u8>)
    requires
        decoding(bytes) is Some,
    ensures
        encoding(decoding(bytes)->Some_0) == bytes,
        decoding(bytes)->Some_0.fits(),
{
    reveal(decoding);
    lemma_header_of_parse_header(bytes, sequence_tag());
    let (count, first) = parse_header(bytes, sequence_tag())->Some_0;
    lemma_changes_of_parse_changes(first);
    let (accounts, second) = parse_changes(first)->Some_0;
    lemma_changes_of_parse_changes(second);
    let (categories, third) = parse_changes(second)->Some_0;
    lemma_changes_of_parse_changes(third);
    let (transactions, fourth) = parse_changes(third)->Some_0;
    lemma_changes_of_parse_changes(fourth);
    let (plans, rest) = parse_changes(fourth)->Some_0;
    let c = decoding(bytes)->Some_0;
    assert(rest =~= Seq::<u8>::empty());
    assert(fourth =~= changes(plans));
    assert(bytes =~= encoding(c));
}

/// No two changelogs have the same encoding.
pub proof fn law_encoding_is_injective(first: ChangelogView, second: ChangelogView)
    requires
        first.fits(),
        second.fits(),
        encoding(first) == encoding(second),
    ensures
        first == second,
{
    law_decoding_inverts_encoding(first);
    law_decoding_inverts_encoding(second);
}

/// Records written one after the other are written as one run.
pub proof fn lemma_blobs_of_concat(first: Seq<Seq<u8>>, second: Seq<Seq<u8>>)
    ensures
        blobs(first + second) == blobs(first) + blobs(second),
    decreases first.len(),
{
    if first.len() == 0 {
        assert(first + second =~= second);
        assert(blobs(first) + blobs(second) =~= blobs(second));
    } else {
        lemma_blobs_of_concat(first.drop_first(), second);
        assert((first + second).drop_first() =~= first.drop_first() + second);
        assert(blobs(first + second) =~= blobs(first) + blobs(second));
    }
}

/// `done` put in front of the records that a reading brought.
pub open spec fn preceded_by(done: Seq<Seq<u8>>, read: Option<(Seq<Seq<u8>>, Seq<u8>)>) -> Option<
    (Seq<Seq<u8>>, Seq<u8>),
> {
    match read {
        Some((records, rest)) => Some((done + records, rest)),
        None => None,
    }
}

/// Writes the header of a value behind `out`.
pub(crate) fn put_header(out: &mut Vec<u8>, tag: u8, count: usize)
    ensures
        final(out)@ == old(out)@ + header(tag, count as nat),
{
    out.push(tag);
    let mut number = vstd::bytes::u64_to_le_bytes(count as u64);
    out.append(&mut number);
    assert(out@ =~= old(out)@ + header(tag, count as nat));
}

/// Writes a record behind `out`.
pub(crate) fn put_blob(out: &mut Vec<u8>, content: &Vec<u8>)
    ensures
        final(out)@ == old(out)@ + blob(content@),
{
    put_header(out, 0x42, content.len());
    let ghost start = out@;
    let count: usize = content.len();
    let mut i: usize = 0;
    while i < count
        invariant
            i <= count,
            count == content@.len(),
            out@ == start + content@.take(i as int),
        decreases count - i,
    {
        out.push(content[i]);
        i += 1;
        assert(out@ =~= start + content@.take(i as int));
    }
    assert(content@.take(count as int) =~= content@);
    assert(out@ =~= old(out)@ + blob(content@));
}

/// Reads the header of a value with the tag `tag` at the position `at`.
/// Returns the number in the header and the position behind it.
pub(crate) fn take_header(bytes: &[u8], at: usize, tag: u8) -> (read: Option<(u64, usize)>)
    requires
        at <= bytes@.len(),
    ensures
        match read {
            Some((count, next)) => at <= next <= bytes@.len() && parse_header(
                bytes@.skip(at as int),
                tag,
            ) == Some((count as nat, bytes@.skip(next as int))),
            None => parse_header(bytes@.skip(at as int), tag) is None,
        },
{
    if bytes.len() - at < 9 {
        return None;
    }
    if bytes[at] != tag {
        return None;
    }
    let number = vstd::slice::slice_subrange(bytes, at + 1, at + 9);
    let count = vstd::bytes::u64_from_le_bytes(number);
    proof {
        assert(bytes@.skip(at as int).subrange(1, 9) =~= number@);
        assert(bytes@.skip(at as int).skip(9) =~= bytes@.skip(at + 9));
    }
    Some((count, at + 9))
}

/// Reads the record at the position `at`. Returns its content and the
/// position behind it.
pub(crate) fn take_blob(bytes: &[u8], at: usize) -> (read: Option<(Vec<u8>, usize)>)
    requires
        at <= bytes@.len(),
    ensures
        match read {
            Some((content, next)) => at <= next <= bytes@.len() && parse_blob(
                bytes@.skip(at as int),
            ) == Some((content@, bytes@.skip(next as int))),
            None => parse_blob(bytes@.skip(at as int)) is None,
        },
{
    let (length, start) = match take_header(bytes, at, 0x42) {
        Some(header) => header,
        None => {
            return None;
        },
    };
    let left: usize = bytes.len() - start;
    if length > left as u64 {
        return None;
    }
    let end: usize = start + length as usize;
    let content = vstd::slice::slice_to_vec(vstd::slice::slice_subrange(bytes, start, end));
    proof {
        let rest = bytes@.skip(start as int);
        assert(rest.take(length as int) =~= content@);
        assert(rest.skip(length as int) =~= bytes@.skip(end as int));
    }
    Some((content, end))
}

/// Writes a list of records behind `out`.
pub(crate) fn put_list<T: Record>(out: &mut Vec<u8>, records: &Vec<T>)
    ensures
        final(out)@ == old(out)@ + list(records_view(records@)),
{
    let ghost all = records_view(records@);
    put_header(out, 0x53, records.len());
    let ghost start = out@;
    let count: usize = records.len();
    let mut i: usize = 0;
    while i < count
        invariant
            i <= count,
            count == records@.len(),
            all == records_view(records@),
            out@ == start + blobs(all.take(i as int)),
        decreases count - i,
    {
        put_blob(out, records[i].as_bytes());
        proof {
            lemma_blobs_of_concat(all.take(i as int), seq![all[i as int]]);
            assert(all.take(i + 1) =~= all.take(i as int) + seq![all[i as int]]);
            assert(seq![all[i as int]].drop_first() =~= Seq::<Seq<u8>>::empty());
            assert(blobs(Seq::<Seq<u8>>::empty()) =~= Seq::<u8>::empty());
            assert(blobs(seq![all[i as int]]) =~= blob(all[i as int]));
        }
        i += 1;
    }
    assert(all.take(count as int) =~= all);
    assert(out@ =~= old(out)@ + list(all));
}

/// Reads the list of records at the position `at`. Returns the records and
/// the position behind them.
pub(crate) fn take_list<T: Record>(bytes: &[u8], at: usize) -> (read: Option<(Vec<T>, usize)>)
    requires
        at <= bytes@.len(),
    ensures
        match read {
            Some((records, next)) => at <= next <= bytes@.len() && parse_list(
                bytes@.skip(at as int),
            ) == Some((records_view(records@), bytes@.skip(next as int))),
            None => parse_list(bytes@.skip(at as int)) is None,
        },
{
    let (count, start) = match take_header(bytes, at, 0x53) {
        Some(header) => header,
        None => {
            return None;
        },
    };
    let ghost body = bytes@.skip(start as int);
    let mut records: Vec<T> = Vec::new();
    let mut position: usize = start;
    let mut done: u64 = 0;
    assert(preceded_by(records_view(records@), parse_blobs(body, count as nat)) =~= parse_blobs(
        body,
        count as nat,
    )) by {
        let read = parse_blobs(body, count as nat);
        if read is Some {
            assert(records_view(records@) + read->Some_0.0 =~= read->Some_0.0);
        }
    }
    while done < count
        invariant
            done <= count,
            at <= position <= bytes@.len(),
            parse_header(bytes@.skip(at as int), sequence_tag()) == Some((count as nat, body)),
            parse_blobs(body, count as nat) == preceded_by(
                records_view(records@),
                parse_blobs(bytes@.skip(position as int), (count - done) as nat),
            ),
        decreases count - done,
    {
        let ghost before = records_view(records@);
        let ghost here = bytes@.skip(position as int);
        match take_blob(bytes, position) {
            Some((content, next)) => {
                records.push(T::from_bytes(content));
                proof {
                    let behind = parse_blobs(bytes@.skip(next as int), (count - done - 1) as nat);
                    assert(records_view(records@) =~= before + seq![content@]);
                    if behind is Some {
                        assert(before + (seq![content@] + behind->Some_0.0) =~= records_view(
                            records@,
                        ) + behind->Some_0.0);
                    }
                }
                position = next;
            },
            None => {
                return None;
            },
        }
        done += 1;
    }
    proof {
        assert(records_view(records@) + Seq::<Seq<u8>>::empty() =~= records_view(records@));
    }
    Some((records, position))
}

} // verus!
