//! Account and contract addresses, held as the bytes of their string key.

use vstd::prelude::*;

verus! {

/// An account or contract address, identified by the bytes of its string key
/// (for a Stellar address, the `G...`/`C...` strkey).
#[derive(Clone, Debug, PartialEq, Eq)]
pub struct Address {
    pub strkey: Vec<u8>,
}

impl View for Address {
    type V = Seq<u8>;

    open spec fn view(&self) -> Seq<u8> {
        self.strkey@
    }
}

impl Address {
    /// The address whose string key is `strkey`.
    pub fn new(strkey: Vec<u8>) -> (a: Address)
        ensures
            a@ == strkey@,
    {
        Address { strkey }
    }

    /// Whether two addresses are the same.
    pub fn same_as(&self, other: &Address) -> (r: bool)
        ensures
            r == (self@ == other@),
    {
        bytes_equal(&self.strkey, &other.strkey)
    }

    /// A copy of this address.
    pub fn duplicate(&self) -> (a: Address)
        ensures
            a@ == self@,
    {
        Address { strkey: copy_bytes(&self.strkey) }
    }
}

/// Whether two byte strings are equal.
pub fn bytes_equal(a: &Vec<u8>, b: &Vec<u8>) -> (r: bool)
    ensures
        r == (a@ == b@),
{
    if a.len() != b.len() {
        return false;
    }
    let n = a.len();
    let mut i: usize = 0;
    while i < n
        invariant
            n == a.len(),
            n == b.len(),
            i <= n,
            forall|j: int| 0 <= j < i ==> a@[j] == b@[j],
        decreases n - i,
    {
        if a[i] != b[i] {
            return false;
        }
        i = i + 1;
    }
    assert(a@ =~= b@);
    true
}

/// A copy of a byte string.
pub fn copy_bytes(a: &Vec<u8>) -> (r: Vec<u8>)
    ensures
        r@ == a@,
{
    let mut r: Vec<u8> = Vec::new();
    let n = a.len();
    let mut i: usize = 0;
    while i < n
        invariant
            n == a.len(),
            i <= n,
            r@ == a@.subrange(0, i as int),
        decreases n - i,
    {
        r.push(a[i]);
        i = i + 1;
        assert(r@ =~= a@.subrange(0, i as int));
    }
    assert(r@ =~= a@);
    r
}

} // verus!
