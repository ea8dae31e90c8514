use vstd::prelude::*;

verus! {

broadcast use vstd::array::group_array_axioms;

/// The order of the Goldilocks field, `2^64 - 2^32 + 1`.
pub const GOLDILOCKS_ORDER: u64 = 0xFFFF_FFFF_0000_0001u64;

/// The field element that a `u64` stands for, as its canonical representative.
pub open spec fn field_value(x: u64) -> u64 {
    (x % GOLDILOCKS_ORDER) as u64
}

/// The element `0` or `1` that a boolean is written as.
pub open spec fn spec_from_bool(b: bool) -> u64 {
    if b { 1 } else { 0 }
}

/// Writes a boolean as the field element `1` or `0`.
pub fn from_bool(b: bool) -> (r: u64)
    ensures
        r == spec_from_bool(b),
{
    if b { 1 } else { 0 }
}

/// Whether the field element that `x` stands for is not zero.
pub fn is_nonzero(x: u64) -> (r: bool)
    ensures
        r == (field_value(x) != 0),
{
    x % GOLDILOCKS_ORDER != 0
}

/// Four field elements: a Poseidon digest, a Merkle root or a key of the
/// rollup's trees.
#[derive(Clone, Copy, Debug, PartialEq, Eq)]
pub struct HashOut {
    pub elements: [u64; 4],
}

impl HashOut {
    /// The all-zero hash.
    pub fn zero() -> (r: Self)
        ensures
            r.elements@ == seq![0u64, 0u64, 0u64, 0u64],
    {
        HashOut { elements: [0, 0, 0, 0] }
    }

    /// Reads four consecutive elements starting at `start`.
    pub fn read_at(inputs: &[u64], start: usize) -> (r: Self)
        requires
            start + 4 <= inputs@.len(),
        ensures
            r.elements@ == inputs@.subrange(start as int, start + 4),
    {
        let r = HashOut {
            elements: [inputs[start], inputs[start + 1], inputs[start + 2], inputs[start + 3]],
        };
        assert(r.elements@ =~= inputs@.subrange(start as int, start + 4));
        r
    }

    /// Appends the four elements to `out`.
    pub fn write(&self, out: &mut Vec<u64>)
        ensures
            final(out)@ == old(out)@ + self.elements@,
    {
        out.push(self.elements[0]);
        out.push(self.elements[1]);
        out.push(self.elements[2]);
        out.push(self.elements[3]);
        assert(out@ =~= old(out)@ + self.elements@);
    }
}

/// Whether two hashes stand for the same four field elements.
pub open spec fn same_field_hash(a: HashOut, b: HashOut) -> bool {
    forall|i: int| 0 <= i < 4 ==> field_value(#[trigger] a.elements@[i]) == field_value(b.elements@[i])
}

impl HashOut {
    /// Compares two hashes as field elements.
    pub fn field_eq(&self, other: &HashOut) -> (r: bool)
        ensures
            r == same_field_hash(*self, *other),
    {
        let mut i: usize = 0;
        while i < 4
            invariant
                i <= 4,
                forall|j: int|
                    0 <= j < i ==> field_value(#[trigger] self.elements@[j]) == field_value(
                        other.elements@[j],
                    ),
            decreases 4 - i,
        {
            if self.elements[i] % GOLDILOCKS_ORDER != other.elements[i] % GOLDILOCKS_ORDER {
                return false;
            }
            i = i + 1;
        }
        true
    }
}

impl Default for HashOut {
    fn default() -> (r: Self)
        ensures
            r.elements@ == seq![0u64, 0u64, 0u64, 0u64],
    {
        HashOut::zero()
    }
}

/// The address of a rollup account: a hash of four field elements.
#[derive(Clone, Copy, Debug, PartialEq, Eq)]
pub struct Address(pub HashOut);

impl Default for Address {
    fn default() -> (r: Self)
        ensures
            r.0.elements@ == seq![0u64, 0u64, 0u64, 0u64],
    {
        Address(HashOut::zero())
    }
}

/// Two hashes with the same elements are the same hash.
pub proof fn lemma_hash_out_eq(a: HashOut, b: HashOut)
    requires
        a.elements@ == b.elements@,
    ensures
        a == b,
{
    assert(a.elements@[0] == b.elements@[0]);
    assert(a.elements =~= b.elements);
}

} // verus!
