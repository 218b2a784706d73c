use vstd::prelude::*;
use crate::equate::Equatable;
use crate::failure::AssertionFailure;
use crate::render::Renderable;
use crate::render::angled;
use crate::render::push_angled;

verus! {

/// A value currently under test, with context: the wrapper borrows the
/// subject and never mutates it, and optionally carries a human-supplied
/// label that failure messages are prefixed with.
pub struct Subject<'s, T> {
    subject: &'s T,
    description: Option<&'s str>,
}

/// Wraps a value under test for chained assertions on it.
pub fn assert_that<'s, T>(subject: &'s T) -> (s: Subject<'s, T>)
    ensures
        s.subject_view() == *subject,
        s.description_view() is None,
{
    Subject { subject, description: None }
}

impl<'s, T> Subject<'s, T> {
    /// The value under test.
    pub closed spec fn subject_view(&self) -> T {
        *self.subject
    }

    /// The characters of the label, where one was supplied.
    pub closed spec fn description_view(&self) -> Option<Seq<char>> {
        match self.description {
            Some(d) => Some(d@),
            None => None,
        }
    }

    /// Labels the subject: the label prefixes every failure message raised
    /// through this wrapper or one derived from it.
    pub fn named(self, description: &'s str) -> (s: Subject<'s, T>)
        ensures
            s.subject_view() == self.subject_view(),
            s.description_view() == Some(description@),
    {
        Subject { subject: self.subject, description: Some(description) }
    }

    /// The borrowed subject, for the extension operations of this crate.
    pub(crate) fn subject_ref(&self) -> (r: &'s T)
        ensures
            *r == self.subject_view(),
    {
        self.subject
    }

    /// The borrowed label, for the extension operations of this crate.
    pub(crate) fn description_ref(&self) -> (r: Option<&'s str>)
        ensures
            (match r {
                Some(d) => Some(d@),
                None => None::<Seq<char>>,
            }) == self.description_view(),
    {
        self.description
    }

    /// Rebinds the wrapper to a part of the current subject, keeping the
    /// label, so that further assertions can drill into an extracted value.
    pub(crate) fn rebind<U>(&self, subject: &'s U) -> (s: Subject<'s, U>)
        ensures
            s.subject_view() == *subject,
            s.description_view() == self.description_view(),
    {
        Subject { subject, description: self.description }
    }
}

/// The expected-side text of an equality check: the rendered expected value
/// in angle brackets.
pub open spec fn equality_expected_text<T: Renderable>(expected: T) -> Seq<char> {
    angled(expected)
}

/// The actual-side text of an equality check: the rendered subject in angle
/// brackets.
pub open spec fn equality_actual_text<T: Renderable>(subject: T) -> Seq<char> {
    angled(subject)
}

impl<'s, T: Equatable + Renderable> Subject<'s, T> {
    /// Asserts that the subject equals the expected value. Passes exactly
    /// when the two are equal; on failure the report shows both renderings.
    pub fn is_equal_to(&self, expected: &T) -> (r: Result<(), AssertionFailure>)
        ensures
            r is Ok <==> self.subject_view().eq_spec(expected),
            r matches Err(f) ==> {
                &&& f.complete()
                &&& f.description_view() == self.description_view()
                &&& f.expected_view() == Some(equality_expected_text(*expected))
                &&& f.actual_view() == Some(equality_actual_text(self.subject_view()))
            },
    {
        if self.subject.equals(expected) {
            Ok(())
        } else {
            let mut expected_text = String::new();
            push_angled(&mut expected_text, expected);
            let mut actual_text = String::new();
            push_angled(&mut actual_text, self.subject);
            proof {
                assert(expected_text@ =~= equality_expected_text(*expected));
                assert(actual_text@ =~= equality_actual_text(self.subject_view()));
            }
            Err(
                AssertionFailure::from_subject(self).with_expected(expected_text).with_actual(
                    actual_text,
                ),
            )
        }
    }
}

} // verus!
