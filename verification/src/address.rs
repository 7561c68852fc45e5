use vstd::prelude::*;

verus! {

/// An account or contract address, held as the bytes of its canonical
/// encoding. Two addresses are the same exactly when their bytes are.
#[derive(Debug, PartialEq, Eq, Hash)]
pub struct Address {
    bytes: Vec<u8>,
}

impl View for Address {
    type V = Seq<u8>;

    closed spec fn view(&self) -> Seq<u8> {
        self.bytes@
    }
}

impl Address {
    /// Wraps the canonical encoding of an address.
    pub fn new(bytes: Vec<u8>) -> (a: Address)
        ensures
            a@ == bytes@,
    {
        Address { bytes }
    }

    /// The canonical encoding this address was made from.
    pub fn as_bytes(&self) -> (b: &Vec<u8>)
        ensures
            b@ == self@,
    {
        &self.bytes
    }

    /// Whether `self` and `other` name the same address.
    pub fn same_as(&self, other: &Address) -> (r: bool)
        ensures
            r == (self@ == other@),
    {
        let n = self.bytes.len();
        if n != other.bytes.len() {
            return false;
        }
        let mut i: usize = 0;
        while i < n
            invariant
                n == self.bytes@.len(),
                n == other.bytes@.len(),
                i <= n,
                forall|j: int| 0 <= j < i ==> self.bytes@[j] == other.bytes@[j],
            decreases n - i,
        {
            if self.bytes[i] != other.bytes[i] {
                return false;
            }
            i = i + 1;
        }
        assert(self.bytes@ =~= other.bytes@);
        true
    }

    /// A second copy of this address.
    pub fn duplicate(&self) -> (a: Address)
        ensures
            a@ == self@,
    {
        let n = self.bytes.len();
        let mut bytes: Vec<u8> = Vec::with_capacity(n);
        let mut i: usize = 0;
        while i < n
            invariant
                n == self.bytes@.len(),
                i <= n,
                bytes@ =~= self.bytes@.subrange(0, i as int),
            decreases n - i,
        {
            bytes.push(self.bytes[i]);
            i = i + 1;
        }
        Address { bytes }
    }
}

} // verus!
