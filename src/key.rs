use vstd::prelude::*;

verus! {

/// Fixed bytes of an `EntryKey` besides its variable-length contents:
/// the headers of its four owned buffers.
pub const ENTRY_KEY_FIXED_BYTES: u64 = 96;

/// The identity of a query request. Two keys are equal iff all four fields
/// are equal.
#[derive(Clone, Debug, PartialEq, Eq, Hash)]
pub struct EntryKey {
    /// Principal of the requester, as bytes.
    pub source: Vec<u8>,
    /// Principal of the target program, as bytes.
    pub receiver: Vec<u8>,
    /// Name of the invoked entry point.
    pub method_name: String,
    /// Argument of the call.
    pub method_payload: Vec<u8>,
}

pub struct EntryKeyView {
    pub source: Seq<u8>,
    pub receiver: Seq<u8>,
    pub method_name: Seq<char>,
    pub method_payload: Seq<u8>,
}

impl View for EntryKey {
    type V = EntryKeyView;

    open spec fn view(&self) -> EntryKeyView {
        EntryKeyView {
            source: self.source@,
            receiver: self.receiver@,
            method_name: self.method_name@,
            method_payload: self.method_payload@,
        }
    }
}

/// Storage footprint of a key: the exact length of each field (the method
/// name counted in UTF-8 bytes) plus the fixed part.
pub open spec fn key_bytes(k: EntryKeyView) -> nat {
    (ENTRY_KEY_FIXED_BYTES + k.source.len() + k.receiver.len() + vstd::utf8::encode_utf8(
        k.method_name,
    ).len() + k.method_payload.len()) as nat
}

/// Whether two byte sequences are equal.
pub fn bytes_equal(a: &Vec<u8>, b: &Vec<u8>) -> (r: bool)
    ensures
        r == (a@ == b@),
{
    if a.len() != b.len() {
        return false;
    }
    let mut i: usize = 0;
    while i < a.len()
        invariant
            a@.len() == b@.len(),
            0 <= i <= a@.len(),
            a@.subrange(0, i as int) == b@.subrange(0, i as int),
        decreases a@.len() - i,
    {
        if a[i] != b[i] {
            assert(a@[i as int] != b@[i as int]);
            return false;
        }
        assert(a@.subrange(0, i + 1) == a@.subrange(0, i as int).push(a@[i as int]));
        assert(b@.subrange(0, i + 1) == b@.subrange(0, i as int).push(b@[i as int]));
        i = i + 1;
    }
    assert(a@ == a@.subrange(0, a@.len() as int));
    assert(b@ == b@.subrange(0, b@.len() as int));
    true
}

impl EntryKey {
    /// Builds a key from its four fields.
    pub fn new(source: Vec<u8>, receiver: Vec<u8>, method_name: String, method_payload: Vec<u8>) -> (r:
        EntryKey)
        ensures
            r.source@ == source@,
            r.receiver@ == receiver@,
            r.method_name@ == method_name@,
            r.method_payload@ == method_payload@,
    {
        EntryKey { source, receiver, method_name, method_payload }
    }

    /// Whether `self` and `other` are the same key, field by field.
    pub fn same_key(&self, other: &EntryKey) -> (r: bool)
        ensures
            r == (self@ == other@),
    {
        bytes_equal(&self.source, &other.source) && bytes_equal(&self.receiver, &other.receiver)
            && self.method_name == other.method_name && bytes_equal(
            &self.method_payload,
            &other.method_payload,
        )
    }

    /// Storage footprint of this key.
    pub fn count_bytes(&self) -> (r: u128)
        ensures
            r == key_bytes(self@),
            r < 0x10_0000_0000_0000_0000,
    {
        let name: &[u8] = self.method_name.as_str().as_bytes();
        let name_len = name.len();
        ENTRY_KEY_FIXED_BYTES as u128 + self.source.len() as u128 + self.receiver.len() as u128
            + name_len as u128 + self.method_payload.len() as u128
    }
}

} // verus!
