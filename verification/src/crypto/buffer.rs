//! A byte buffer for secrets that leaves no residue.

use vstd::prelude::*;

verus! {

/// The sequence of `len` zero bytes.
pub open spec fn zeroes(len: nat) -> Seq<u8> {
    Seq::new(len, |i: int| 0u8)
}

/// Construction of a value that invalidates its source.
pub trait DestructiveFrom<T>: Sized {
    /// The bytes that a source holds.
    spec fn source_bytes(value: &T) -> Seq<u8>;

    /// The bytes that a constructed value holds.
    spec fn taken_bytes(&self) -> Seq<u8>;

    /// Constructs the value from the bytes of `value` and erases `value`:
    /// the source keeps its length and every byte of it is zero, so that no
    /// second owner of the secret is left.
    fn destructive_from(value: &mut T) -> (made: Self)
        ensures
            made.taken_bytes() == Self::source_bytes(&*old(value)),
            Self::source_bytes(&*final(value)) == zeroes(
                Self::source_bytes(&*old(value)).len(),
            ),
    ;
}

/// Owner of sensitive bytes.
///
/// The bytes are overwritten with zeroes when the buffer is dropped.
pub struct CryptoBuffer {
    /// Raw internal data.
    data: Vec<u8>,
}

impl View for CryptoBuffer {
    type V = Seq<u8>;

    closed spec fn view(&self) -> Seq<u8> {
        self.data@
    }
}

impl CryptoBuffer {
    /// Creates an empty buffer.
    pub fn new() -> (buffer: Self)
        ensures
            buffer@ == Seq::<u8>::empty(),
    {
        CryptoBuffer { data: Vec::new() }
    }

    /// Returns the stored bytes, read-only.
    pub fn as_bytes(&self) -> (bytes: &[u8])
        ensures
            bytes@ == self@,
    {
        self.data.as_slice()
    }

    /// Erases the stored bytes: each becomes zero and the buffer keeps its
    /// length. This is what happens when the buffer is dropped, made
    /// available for a buffer that is still in use. Like the destructor it
    /// cannot panic.
    pub fn wipe(&mut self)
        ensures
            final(self)@ == zeroes(old(self)@.len()),
        opens_invariants none
        no_unwind
    {
        fill_zero(&mut self.data);
    }

    /// Overwrites every byte of `data` with zero; the length stays.
    pub fn destroy_data(data: &mut [u8])
        ensures
            final(data)@ == zeroes(old(data)@.len()),
    {
        let len: usize = data.len();
        let mut i: usize = 0;
        while i < len
            invariant
                i <= len,
                data@.len() == len,
                forall|j: int| 0 <= j < i ==> data@[j] == 0u8,
            decreases len - i,
        {
            data[i] = 0u8;
            i += 1;
        }
        assert(data@ =~= zeroes(len as nat));
    }
}

/// `<[u8]>::fill` with zero, on the whole of `data`: every element becomes
/// zero and none is added or removed. Filling bytes cannot panic and touches
/// nothing but `data`, which is what a destructor has to promise.
#[verifier::external_body]
fn fill_zero(data: &mut Vec<u8>)
    ensures
        final(data)@ == zeroes(old(data)@.len()),
    opens_invariants none
    no_unwind
{
    data.fill(0u8);
}

impl Drop for CryptoBuffer {
    fn drop(&mut self)
        ensures
            final(self)@ == zeroes(old(self)@.len()),
        opens_invariants none
        no_unwind
    {
        self.wipe();
    }
}

impl Default for CryptoBuffer {
    fn default() -> (buffer: Self)
        ensures
            buffer@ == Seq::<u8>::empty(),
    {
        CryptoBuffer::new()
    }
}

impl From<Vec<u8>> for CryptoBuffer {
    /// Takes ownership of `value`; no byte is copied.
    fn from(value: Vec<u8>) -> (buffer: Self)
        ensures
            buffer@ == value@,
    {
        CryptoBuffer { data: value }
    }
}

impl vstd::std_specs::convert::FromSpecImpl<Vec<u8>> for CryptoBuffer {
    open spec fn obeys_from_spec() -> bool {
        true
    }

    closed spec fn from_spec(value: Vec<u8>) -> Self {
        CryptoBuffer { data: value }
    }
}

impl<'a> From<&'a [u8]> for CryptoBuffer {
    /// Copies `value`; the source is left as it is.
    fn from(value: &'a [u8]) -> (buffer: Self)
        ensures
            buffer@ == value@,
    {
        CryptoBuffer { data: vstd::slice::slice_to_vec(value) }
    }
}

impl<'a> vstd::std_specs::convert::FromSpecImpl<&'a [u8]> for CryptoBuffer {
    /// The source fixes the bytes of the copy, which `from` states, and not
    /// the allocation that holds them.
    open spec fn obeys_from_spec() -> bool {
        false
    }

    closed spec fn from_spec(value: &'a [u8]) -> Self {
        choose|buffer: CryptoBuffer| buffer@ == value@
    }
}

/// `String::into_bytes`: the UTF-8 encoding of `text`, in the allocation
/// that `text` owned.
#[verifier::external_body]
fn string_into_bytes(text: String) -> (bytes: Vec<u8>)
    ensures
        bytes@ == vstd::utf8::encode_utf8(text@),
{
    text.into_bytes()
}

/// `String::from_utf8`: the string whose UTF-8 encoding is `bytes`, in the
/// allocation that `bytes` owned, or nothing where `bytes` is not UTF-8.
#[verifier::external_body]
fn string_from_utf8(bytes: Vec<u8>) -> (text: Option<String>)
    ensures
        text is Some <==> vstd::utf8::valid_utf8(bytes@),
        text matches Some(t) ==> vstd::utf8::encode_utf8(t@) == bytes@,
{
    String::from_utf8(bytes).ok()
}

/// A run of zero bytes is the UTF-8 encoding of as many NUL characters.
proof fn lemma_zeroes_are_utf8(len: nat)
    ensures
        vstd::utf8::valid_utf8(zeroes(len)),
{
    let chars = Seq::new(len, |i: int| 0u8 as char);
    assert(vstd::utf8::is_ascii_chars(chars));
    vstd::utf8::is_ascii_chars_encode_utf8(chars);
    assert(vstd::utf8::encode_utf8(chars) =~= zeroes(len));
    vstd::utf8::encode_utf8_valid_utf8(chars);
}

impl DestructiveFrom<String> for CryptoBuffer {
    /// The bytes of a string are its UTF-8 encoding.
    open spec fn source_bytes(value: &String) -> Seq<u8> {
        vstd::utf8::encode_utf8(value@)
    }

    open spec fn taken_bytes(&self) -> Seq<u8> {
        self@
    }

    /// Copies the bytes of `value` into a new buffer, then overwrites the
    /// storage of `value` with zeroes in place. Afterwards `value` has the
    /// length it had and every byte of it is zero.
    fn destructive_from(value: &mut String) -> (buffer: Self) {
        let buffer = CryptoBuffer { data: value.as_str().as_bytes_vec() };

        let mut source = String::new();
        core::mem::swap(value, &mut source);
        let mut bytes = string_into_bytes(source);
        CryptoBuffer::destroy_data(bytes.as_mut_slice());
        proof {
            lemma_zeroes_are_utf8(bytes@.len());
        }
        match string_from_utf8(bytes) {
            Some(erased) => {
                *value = erased;
            },
            None => {},
        }
        buffer
    }
}

} // verus!
