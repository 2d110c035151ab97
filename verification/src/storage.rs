//! The records that a storage backend exchanges with other instances.
//!
//! The synchronization core moves these records and never looks inside:
//! each is the backend's own encoding of one entity.

use vstd::prelude::*;

verus! {

/// A record that is carried as bytes.
pub trait Record: Sized {
    /// The bytes of the record.
    spec fn bytes(&self) -> Seq<u8>;

    /// A record is no longer than memory can hold.
    proof fn lemma_bounded(&self)
        ensures
            self.bytes().len() <= usize::MAX,
    ;

    /// Wraps the encoding of an entity.
    fn from_bytes(bytes: Vec<u8>) -> (record: Self)
        ensures
            record.bytes() == bytes@,
    ;

    /// The encoding of the entity.
    fn as_bytes(&self) -> (bytes: &Vec<u8>)
        ensures
            bytes@ == self.bytes(),
    ;
}

/// An account, as its backend encoded it.
#[derive(Clone, Debug, PartialEq, Eq)]
pub struct Account {
    /// The encoded entity.
    pub record: Vec<u8>,
}

/// A category, as its backend encoded it.
#[derive(Clone, Debug, PartialEq, Eq)]
pub struct Category {
    /// The encoded entity.
    pub record: Vec<u8>,
}

/// A transaction, as its backend encoded it.
#[derive(Clone, Debug, PartialEq, Eq)]
pub struct Transaction {
    /// The encoded entity.
    pub record: Vec<u8>,
}

/// A plan, as its backend encoded it.
#[derive(Clone, Debug, PartialEq, Eq)]
pub struct Plan {
    /// The encoded entity.
    pub record: Vec<u8>,
}

impl Record for Account {
    open spec fn bytes(&self) -> Seq<u8> {
        self.record@
    }

    proof fn lemma_bounded(&self) {
        assert(self.record.len() <= usize::MAX);
    }

    fn from_bytes(bytes: Vec<u8>) -> (record: Self) {
        Account { record: bytes }
    }

    fn as_bytes(&self) -> (bytes: &Vec<u8>) {
        &self.record
    }
}

impl Record for Category {
    open spec fn bytes(&self) -> Seq<u8> {
        self.record@
    }

    proof fn lemma_bounded(&self) {
        assert(self.record.len() <= usize::MAX);
    }

    fn from_bytes(bytes: Vec<u8>) -> (record: Self) {
        Category { record: bytes }
    }

    fn as_bytes(&self) -> (bytes: &Vec<u8>) {
        &self.record
    }
}

impl Record for Transaction {
    open spec fn bytes(&self) -> Seq<u8> {
        self.record@
    }

    proof fn lemma_bounded(&self) {
        assert(self.record.len() <= usize::MAX);
    }

    fn from_bytes(bytes: Vec<u8>) -> (record: Self) {
        Transaction { record: bytes }
    }

    fn as_bytes(&self) -> (bytes: &Vec<u8>) {
        &self.record
    }
}

impl Record for Plan {
    open spec fn bytes(&self) -> Seq<u8> {
        self.record@
    }

    proof fn lemma_bounded(&self) {
        assert(self.record.len() <= usize::MAX);
    }

    fn from_bytes(bytes: Vec<u8>) -> (record: Self) {
        Plan { record: bytes }
    }

    fn as_bytes(&self) -> (bytes: &Vec<u8>) {
        &self.record
    }
}

} // verus!
