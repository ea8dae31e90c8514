use vstd::prelude::*;

verus! {

broadcast use vstd::array::group_array_axioms;

/// Where a value sits.
#[derive(Clone, Copy, Debug, PartialEq, Eq, Hash)]
pub enum Target {
    Wire { row: usize, column: usize },
    VirtualTarget { index: usize },
}

/// A target constrained to hold `0` or `1`.
#[derive(Clone, Copy, Debug, PartialEq, Eq)]
pub struct BoolTarget {
    pub target: Target,
}

/// Four targets that hold a hash.
#[derive(Clone, Copy, Debug, PartialEq, Eq)]
pub struct HashOutTarget {
    pub elements: [Target; 4],
}

impl HashOutTarget {
    /// Reads four consecutive targets starting at `start`.
    pub fn read_at(inputs: &[Target], start: usize) -> (r: Self)
        requires
            start + 4 <= inputs@.len(),
        ensures
            r.elements@ == inputs@.subrange(start as int, start + 4),
    {
        let r = HashOutTarget {
            elements: [inputs[start], inputs[start + 1], inputs[start + 2], inputs[start + 3]],
        };
        assert(r.elements@ =~= inputs@.subrange(start as int, start + 4));
        r
    }

    /// Appends the four targets to `out`.
    pub fn write(&self, out: &mut Vec<Target>)
        ensures
            final(out)@ == old(out)@ + self.elements@,
    {
        out.push(self.elements[0]);
        out.push(self.elements[1]);
        out.push(self.elements[2]);
        out.push(self.elements[3]);
        assert(out@ =~= old(out)@ + self.elements@);
    }
}

/// The targets of an account address.
#[derive(Clone, Copy, Debug, PartialEq, Eq)]
pub struct AddressTarget(pub HashOutTarget);

/// Two hash targets with the same targets are the same.
pub proof fn lemma_hash_out_target_eq(a: HashOutTarget, b: HashOutTarget)
    requires
        a.elements@ == b.elements@,
    ensures
        a == b,
{
    assert(a.elements@[0] == b.elements@[0]);
    assert(a.elements =~= b.elements);
}

} // verus!
