//! A fluent assertion library for test code.
//!
//! A caller wraps a value under test with [`assert_that`], optionally labels
//! it with [`Subject::named`], and chains predicate checks on it. A passing
//! check returns quietly (for extraction-style checks, with a new wrapper over
//! the extracted value); a failing check returns an [`AssertionFailure`]
//! carrying an expected and an actual description, which render into a fixed
//! multi-line message. The dictionary assertions of [`HashMapAssertions`] are
//! the representative check family.

mod dict;
mod equate;
mod failure;
mod hashmap;
mod render;
mod subject;

pub use dict::Dictionary;
pub use equate::Equatable;
pub use failure::AssertionFailure;
pub use hashmap::HashMapAssertions;
pub use render::Renderable;
pub use subject::Subject;
pub use subject::assert_that;
