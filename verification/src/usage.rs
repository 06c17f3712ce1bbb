//! The canonical usage record shared by all backends, and the wrapper type
//! that carries the final merged list back to the caller.

use vstd::prelude::*;

verus! {

/// One resolved usage of a symbol: a source location plus the rendered line
/// and the character offsets to highlight in it.
#[derive(Debug)]
pub struct AddressableUsage {
    /// Absolute or cwd-relative path of the file containing the usage.
    pub path: String,
    /// 1-based line number of the usage.
    pub line_number: usize,
    /// The rendered text for this usage (may carry a prefix annotation).
    pub line: String,
    /// Offsets into `line` marking the characters to highlight.
    pub indices: Vec<usize>,
}

/// Two usage records are duplicates exactly when all four fields agree.
/// Equality on the full record, not just on `(path, line_number)`, is
/// deliberate: two backends may render the same location differently, and
/// differently rendered records must both survive the merge.
pub open spec fn usage_eq(a: AddressableUsage, b: AddressableUsage) -> bool {
    &&& a.path@ == b.path@
    &&& a.line_number == b.line_number
    &&& a.line@ == b.line@
    &&& a.indices@ == b.indices@
}

impl PartialEq for AddressableUsage {
    fn eq(&self, other: &Self) -> (r: bool) {
        self.path == other.path && self.line_number == other.line_number
            && self.line == other.line && indices_eq(&self.indices, &other.indices)
    }
}

impl Eq for AddressableUsage {

}

impl vstd::std_specs::cmp::PartialEqSpecImpl for AddressableUsage {
    open spec fn obeys_eq_spec() -> bool {
        true
    }

    open spec fn eq_spec(&self, other: &Self) -> bool {
        usage_eq(*self, *other)
    }
}

/// Element-wise comparison of two index vectors.
fn indices_eq(a: &Vec<usize>, b: &Vec<usize>) -> (r: bool)
    ensures
        r == (a@ =~= b@),
{
    if a.len() != b.len() {
        return false;
    }
    for i in iter: 0..a.len()
        invariant
            a@.len() == b@.len(),
            forall|j: int| 0 <= j < i ==> a@[j] == b@[j],
    {
        if a[i] != b[i] {
            return false;
        }
    }
    true
}

impl AddressableUsage {
    /// An explicit copy of the record, field by field.
    pub fn duplicate(&self) -> (r: Self)
        ensures
            usage_eq(r, *self),
    {
        let mut indices: Vec<usize> = Vec::new();
        for i in iter: 0..self.indices.len()
            invariant
                indices@.len() == i,
                forall|j: int| 0 <= j < i ==> indices@[j] == self.indices@[j],
        {
            indices.push(self.indices[i]);
        }
        proof {
            assert(indices@ =~= self.indices@);
        }
        AddressableUsage {
            path: self.path.clone(),
            line_number: self.line_number,
            line: self.line.clone(),
            indices,
        }
    }
}

/// The merged, ordered result list handed back to the caller, together with
/// its record count.
#[derive(Debug)]
pub struct Usages {
    usages: Vec<AddressableUsage>,
}

impl View for Usages {
    type V = Seq<AddressableUsage>;

    closed spec fn view(&self) -> Seq<AddressableUsage> {
        self.usages@
    }
}

impl Usages {
    pub fn new(usages: Vec<AddressableUsage>) -> (r: Self)
        ensures
            r@ == usages@,
    {
        Usages { usages }
    }

    pub fn len(&self) -> (n: usize)
        ensures
            n == self@.len(),
    {
        self.usages.len()
    }

    pub fn is_empty(&self) -> (b: bool)
        ensures
            b == (self@.len() == 0),
    {
        self.usages.len() == 0
    }

    pub fn get(&self, i: usize) -> (r: &AddressableUsage)
        requires
            i < self@.len(),
        ensures
            *r == self@[i as int],
    {
        &self.usages[i]
    }

    pub fn into_vec(self) -> (r: Vec<AddressableUsage>)
        ensures
            r@ == self@,
    {
        self.usages
    }
}

} // verus!
