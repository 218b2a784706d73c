use vstd::prelude::*;
use vstd::string::StrSliceExecFns;

verus! {

/// A value the assertion library can compare.
///
/// `eq_spec` is the mathematical equality that contracts speak of and
/// `equals` is its executable counterpart. The three lemmas oblige every
/// implementation to make `eq_spec` an equivalence relation; this is what
/// keeps a lookup among pairwise-unequal keys unambiguous.
pub trait Equatable: Sized {
    spec fn eq_spec(&self, other: &Self) -> bool;

    fn equals(&self, other: &Self) -> (r: bool)
        ensures
            r == self.eq_spec(other),
    ;

    proof fn lemma_eq_reflexive(&self)
        ensures
            self.eq_spec(self),
    ;

    proof fn lemma_eq_symmetric(&self, other: &Self)
        ensures
            self.eq_spec(other) == other.eq_spec(self),
    ;

    proof fn lemma_eq_transitive(&self, mid: &Self, other: &Self)
        requires
            self.eq_spec(mid),
            mid.eq_spec(other),
        ensures
            self.eq_spec(other),
    ;
}

impl Equatable for i32 {
    open spec fn eq_spec(&self, other: &Self) -> bool {
        *self == *other
    }

    fn equals(&self, other: &Self) -> (r: bool) {
        *self == *other
    }

    proof fn lemma_eq_reflexive(&self) {
    }

    proof fn lemma_eq_symmetric(&self, other: &Self) {
    }

    proof fn lemma_eq_transitive(&self, mid: &Self, other: &Self) {
    }
}

impl Equatable for u64 {
    open spec fn eq_spec(&self, other: &Self) -> bool {
        *self == *other
    }

    fn equals(&self, other: &Self) -> (r: bool) {
        *self == *other
    }

    proof fn lemma_eq_reflexive(&self) {
    }

    proof fn lemma_eq_symmetric(&self, other: &Self) {
    }

    proof fn lemma_eq_transitive(&self, mid: &Self, other: &Self) {
    }
}

/// Character-by-character string comparison: two string slices are equal
/// exactly when their character sequences are.
fn str_eq(a: &str, b: &str) -> (r: bool)
    ensures
        r == (a@ == b@),
{
    let a_len = a.unicode_len();
    let b_len = b.unicode_len();
    if a_len != b_len {
        return false;
    }
    let mut i: usize = 0;
    while i < a_len
        invariant
            i <= a_len,
            a_len == a@.len(),
            a_len == b@.len(),
            forall|j: int| 0 <= j < i ==> a@[j] == b@[j],
        decreases a_len - i,
    {
        if a.get_char(i) != b.get_char(i) {
            return false;
        }
        i += 1;
    }
    proof {
        assert(a@ =~= b@);
    }
    true
}

impl<'a> Equatable for &'a str {
    open spec fn eq_spec(&self, other: &Self) -> bool {
        (*self)@ == (*other)@
    }

    fn equals(&self, other: &Self) -> (r: bool) {
        str_eq(*self, *other)
    }

    proof fn lemma_eq_reflexive(&self) {
    }

    proof fn lemma_eq_symmetric(&self, other: &Self) {
    }

    proof fn lemma_eq_transitive(&self, mid: &Self, other: &Self) {
    }
}

impl Equatable for String {
    open spec fn eq_spec(&self, other: &Self) -> bool {
        self@ == other@
    }

    fn equals(&self, other: &Self) -> (r: bool) {
        str_eq(self.as_str(), other.as_str())
    }

    proof fn lemma_eq_reflexive(&self) {
    }

    proof fn lemma_eq_symmetric(&self, other: &Self) {
    }

    proof fn lemma_eq_transitive(&self, mid: &Self, other: &Self) {
    }
}

} // verus!
