use vstd::prelude::*;

verus! {

/// A URI paired with the public key expected to sign the responses coming
/// from that URI. Identity equality uses both fields. Immutable once
/// constructed.
#[derive(Clone, Debug)]
pub struct KeyedUri {
    pub pubkey: Vec<u8>,
    pub uri: String,
}

/// The mathematical value of a [`KeyedUri`]: its public key bytes and the
/// characters of its URI.
pub struct KeyedUriView {
    pub pubkey: Seq<u8>,
    pub uri: Seq<char>,
}

impl View for KeyedUri {
    type V = KeyedUriView;

    open spec fn view(&self) -> KeyedUriView {
        KeyedUriView { pubkey: self.pubkey@, uri: self.uri@ }
    }
}

/// Whether a sequence of `KeyedUri` values holds one with the given value.
pub open spec fn uri_list_has(l: Seq<KeyedUri>, u: KeyedUriView) -> bool {
    exists|i: int| 0 <= i < l.len() && l[i]@ == u
}

/// Byte-wise equality of two vectors.
pub fn bytes_eq(a: &Vec<u8>, b: &Vec<u8>) -> (r: bool)
    ensures
        r == (a@ == b@),
{
    if a.len() != b.len() {
        return false;
    }
    let mut i: usize = 0;
    while i < a.len()
        invariant
            i <= a.len(),
            a.len() == b.len(),
            forall|j: int| 0 <= j < i ==> a@[j] == b@[j],
        decreases a.len() - i,
    {
        if a[i] != b[i] {
            return false;
        }
        i += 1;
    }
    proof {
        assert(a@ =~= b@);
    }
    true
}

impl KeyedUri {
    /// Builds the pair from its two fields.
    pub fn new(pubkey: Vec<u8>, uri: String) -> (r: KeyedUri)
        ensures
            r@ == (KeyedUriView { pubkey: pubkey@, uri: uri@ }),
    {
        KeyedUri { pubkey, uri }
    }

    /// An owned copy with the same value.
    pub fn duplicate(&self) -> (r: KeyedUri)
        ensures
            r@ == self@,
    {
        let mut pk: Vec<u8> = Vec::new();
        let mut i: usize = 0;
        while i < self.pubkey.len()
            invariant
                i <= self.pubkey@.len(),
                pk@ =~= self.pubkey@.subrange(0, i as int),
            decreases self.pubkey@.len() - i,
        {
            pk.push(self.pubkey[i]);
            i += 1;
        }
        proof {
            assert(pk@ =~= self.pubkey@);
        }
        KeyedUri { pubkey: pk, uri: self.uri.clone() }
    }

    /// Identity equality: both the public key and the URI agree.
    pub fn same(&self, other: &KeyedUri) -> (r: bool)
        ensures
            r == (self@ == other@),
    {
        let r = bytes_eq(&self.pubkey, &other.pubkey) && self.uri == other.uri;
        r
    }
}

/// Whether `l` holds a `KeyedUri` equal to `u`, by identity equality.
pub fn uri_list_contains(l: &Vec<KeyedUri>, u: &KeyedUri) -> (r: bool)
    ensures
        r == uri_list_has(l@, u@),
{
    let mut i: usize = 0;
    while i < l.len()
        invariant
            i <= l.len(),
            forall|j: int| 0 <= j < i ==> l@[j]@ != u@,
        decreases l.len() - i,
    {
        if l[i].same(u) {
            return true;
        }
        i += 1;
    }
    false
}

} // verus!
