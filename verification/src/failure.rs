use vstd::prelude::*;
use crate::subject::Subject;
use vstd::string::StringExecFns;

verus! {

/// One assertion violation: an expected description, an actual description,
/// and the label of the subject that was checked, assembled into a fixed
/// multi-line message. Both descriptions must be supplied before the message
/// is rendered; rendering a failure is terminal for the test that raised it,
/// so the caller outside the library aborts with the message and never
/// continues past it.
pub struct AssertionFailure {
    description: Option<String>,
    expected: Option<String>,
    actual: Option<String>,
}

/// The assembled failure message: the optional label, then the expected and
/// actual descriptions on their own indented lines.
pub open spec fn failure_message(
    description: Option<Seq<char>>,
    expected: Seq<char>,
    actual: Seq<char>,
) -> Seq<char> {
    (match description {
        Some(d) => d + ": "@,
        None => Seq::empty(),
    }) + "\n\texpected: "@ + expected + "\n\t but was: "@ + actual
}

impl AssertionFailure {
    /// The characters of the subject label carried over from the wrapper.
    pub closed spec fn description_view(&self) -> Option<Seq<char>> {
        match self.description {
            Some(d) => Some(d@),
            None => None,
        }
    }

    /// The characters of the expected description, once supplied.
    pub closed spec fn expected_view(&self) -> Option<Seq<char>> {
        match self.expected {
            Some(e) => Some(e@),
            None => None,
        }
    }

    /// The characters of the actual description, once supplied.
    pub closed spec fn actual_view(&self) -> Option<Seq<char>> {
        match self.actual {
            Some(a) => Some(a@),
            None => None,
        }
    }

    /// Both descriptions have been supplied, so the message is defined.
    pub open spec fn complete(&self) -> bool {
        self.expected_view() is Some && self.actual_view() is Some
    }

    /// Starts a failure from a wrapper, capturing its label.
    pub fn from_subject<'s, T>(subject: &Subject<'s, T>) -> (f: Self)
        ensures
            f.description_view() == subject.description_view(),
            f.expected_view() is None,
            f.actual_view() is None,
    {
        let description: Option<String> = match subject.description_ref() {
            Some(d) => Some(d.to_owned()),
            None => None,
        };
        AssertionFailure { description, expected: None, actual: None }
    }

    /// Supplies the expected description, which must not have been supplied
    /// before.
    pub fn with_expected(self, expected: String) -> (f: Self)
        requires
            self.expected_view() is None,
        ensures
            f.description_view() == self.description_view(),
            f.expected_view() == Some(expected@),
            f.actual_view() == self.actual_view(),
    {
        AssertionFailure { expected: Some(expected), ..self }
    }

    /// Supplies the actual description, which must not have been supplied
    /// before.
    pub fn with_actual(self, actual: String) -> (f: Self)
        requires
            self.actual_view() is None,
        ensures
            f.description_view() == self.description_view(),
            f.expected_view() == self.expected_view(),
            f.actual_view() == Some(actual@),
    {
        AssertionFailure { actual: Some(actual), ..self }
    }

    /// Whether the message is defined, for callers outside verified code.
    pub fn is_complete(&self) -> (r: bool)
        ensures
            r == self.complete(),
    {
        self.expected.is_some() && self.actual.is_some()
    }

    /// Renders the message. The caller that finalizes a failure treats it as
    /// fatal: it aborts the running test with this text.
    pub fn message(&self) -> (r: String)
        requires
            self.complete(),
        ensures
            r@ == failure_message(
                self.description_view(),
                self.expected_view().unwrap(),
                self.actual_view().unwrap(),
            ),
    {
        let mut out = String::new();
        match &self.description {
            Some(d) => {
                out.append(d.as_str());
                out.append(": ");
            },
            None => {},
        }
        out.append("\n\texpected: ");
        match &self.expected {
            Some(e) => out.append(e.as_str()),
            None => {},
        }
        out.append("\n\t but was: ");
        match &self.actual {
            Some(a) => out.append(a.as_str()),
            None => {},
        }
        proof {
            assert(out@ =~= failure_message(
                self.description_view(),
                self.expected_view().unwrap(),
                self.actual_view().unwrap(),
            ));
        }
        out
    }
}

} // verus!
