use vstd::prelude::*;
use crate::dict::Dictionary;
use crate::dict::contains_entry;
use crate::dict::key_index;
use crate::dict::lemma_matching_key_unique;
use crate::dict::seq_has_key;
use crate::dict::unique_keys;
use crate::dict::value_of;
use crate::equate::Equatable;
use crate::failure::AssertionFailure;
use crate::render::Renderable;
use crate::render::angled;
use crate::render::push_angled;
use crate::render::push_char;
use crate::subject::Subject;
use vstd::string::StringExecFns;

verus! {

/// The assertion operations available when the wrapped subject is a
/// dictionary whose keys and values can be compared and rendered. Each
/// operation checks a predicate over the subject and either passes, handing
/// back the wrapper context (for `contains_key`, a new wrapper over the
/// associated value, for further chaining), or produces the assertion
/// failure it raises.
pub trait HashMapAssertions<'s, K: Equatable + Renderable, V: Equatable + Renderable> {
    fn has_length(&self, expected: usize) -> Result<(), AssertionFailure>;

    fn contains_key(&self, expected_key: &K) -> Result<Subject<'s, V>, AssertionFailure>;

    fn contains_key_with_value(&self, expected_key: &K, expected_value: &V) -> Result<
        (),
        AssertionFailure,
    >;
}

/// The expected-side text of a failed length check.
pub open spec fn length_expected_text(expected: usize) -> Seq<char> {
    "hashmap to have length "@ + angled(expected)
}

/// The actual-side text of a failed length check: the observed length.
pub open spec fn length_actual_text(actual: usize) -> Seq<char> {
    angled(actual)
}

/// The keys of all entries, rendered in order and separated by commas.
pub open spec fn joined_keys<K: Renderable, V>(pairs: Seq<(K, V)>) -> Seq<char>
    decreases pairs.len(),
{
    if pairs.len() == 0 {
        Seq::empty()
    } else if pairs.len() == 1 {
        pairs[0].0.render_spec()
    } else {
        joined_keys(pairs.drop_last()) + ", "@ + pairs.last().0.render_spec()
    }
}

/// The rendered key listing, in brackets.
pub open spec fn keys_listing<K: Renderable, V>(pairs: Seq<(K, V)>) -> Seq<char> {
    seq!['['] + joined_keys(pairs) + seq![']']
}

/// The expected-side text of a failed key-presence check.
pub open spec fn key_expected_text<K: Renderable>(key: K) -> Seq<char> {
    "hashmap to contain key "@ + angled(key)
}

/// The actual-side text of a failed key-presence check: every current key.
pub open spec fn keys_actual_text<K: Renderable, V>(pairs: Seq<(K, V)>) -> Seq<char> {
    seq!['<'] + keys_listing(pairs) + seq!['>']
}

/// The expected-side text of a failed entry check.
pub open spec fn entry_expected_text<K: Renderable, V: Renderable>(key: K, value: V) -> Seq<
    char,
> {
    "hashmap containing key "@ + angled(key) + " with value "@ + angled(value)
}

/// The actual-side text of an entry check that found the key bound to a
/// different value.
pub open spec fn wrong_value_actual_text<K: Renderable, V: Renderable>(
    key: K,
    actual_value: V,
) -> Seq<char> {
    "key "@ + angled(key) + " with value "@ + angled(actual_value) + " instead"@
}

/// The actual-side text of an entry check that found no matching key.
pub open spec fn missing_key_actual_text<K: Renderable, V>(pairs: Seq<(K, V)>) -> Seq<char> {
    "no matching key, keys are <"@ + keys_listing(pairs) + ">"@
}

/// Appends the bracketed key listing of the dictionary.
fn push_keys_listing<K: Equatable + Renderable, V>(out: &mut String, d: &Dictionary<K, V>)
    ensures
        final(out)@ == old(out)@ + keys_listing(d.pairs()),
{
    push_char(out, '[');
    let n = d.len();
    let mut i: usize = 0;
    while i < n
        invariant
            i <= n,
            n == d.pairs().len(),
            out@ == old(out)@ + seq!['['] + joined_keys(d.pairs().subrange(0, i as int)),
        decreases n - i,
    {
        if i > 0 {
            out.append(", ");
        }
        let key = d.key_at(i);
        let rendered = key.render();
        out.append(rendered.as_str());
        proof {
            let prefix = d.pairs().subrange(0, i as int);
            let extended = d.pairs().subrange(0, i + 1);
            assert(extended.drop_last() =~= prefix);
            assert(extended.last() == d.pairs()[i as int]);
            assert(out@ =~= old(out)@ + seq!['['] + joined_keys(extended));
        }
        i += 1;
    }
    push_char(out, ']');
    proof {
        assert(d.pairs().subrange(0, d.pairs().len() as int) =~= d.pairs());
        assert(final(out)@ =~= old(out)@ + keys_listing(d.pairs()));
    }
}

impl<'s, K: Equatable + Renderable, V: Equatable + Renderable> HashMapAssertions<
    's,
    K,
    V,
> for Subject<'s, Dictionary<K, V>> {
    /// Asserts that the dictionary holds exactly `expected` entries. Passes
    /// exactly when the length matches; on failure the report shows the
    /// expected length and the observed length.
    fn has_length(&self, expected: usize) -> (r: Result<(), AssertionFailure>)
        ensures
            r is Ok <==> self.subject_view().pairs().len() == expected,
            r matches Err(f) ==> {
                &&& f.complete()
                &&& f.description_view() == self.description_view()
                &&& f.expected_view() == Some(length_expected_text(expected))
                &&& f.actual_view() == Some(
                    length_actual_text(self.subject_view().pairs().len() as usize),
                )
            },
    {
        let d = self.subject_ref();
        let len = d.len();
        if len == expected {
            Ok(())
        } else {
            let mut expected_text = String::new();
            expected_text.append("hashmap to have length ");
            push_angled(&mut expected_text, &expected);
            let mut actual_text = String::new();
            push_angled(&mut actual_text, &len);
            proof {
                assert(expected_text@ =~= length_expected_text(expected));
                assert(actual_text@ =~= length_actual_text(
                    self.subject_view().pairs().len() as usize,
                ));
            }
            Err(
                AssertionFailure::from_subject(self).with_expected(expected_text).with_actual(
                    actual_text,
                ),
            )
        }
    }

    /// Asserts that the dictionary holds an entry for `expected_key`. On a
    /// pass, returns a new wrapper over the associated value, with the same
    /// label, for further chained assertions; on failure the report lists
    /// every current key.
    fn contains_key(&self, expected_key: &K) -> (r: Result<Subject<'s, V>, AssertionFailure>)
        ensures
            r is Ok <==> seq_has_key(self.subject_view().pairs(), *expected_key),
            r matches Ok(sub) ==> {
                &&& sub.subject_view() == value_of(self.subject_view().pairs(), *expected_key)
                &&& sub.description_view() == self.description_view()
            },
            r matches Err(f) ==> {
                &&& f.complete()
                &&& f.description_view() == self.description_view()
                &&& f.expected_view() == Some(key_expected_text(*expected_key))
                &&& f.actual_view() == Some(keys_actual_text(self.subject_view().pairs()))
            },
    {
        let d = self.subject_ref();
        match d.get(expected_key) {
            Some(value) => Ok(self.rebind(value)),
            None => {
                let mut expected_text = String::new();
                expected_text.append("hashmap to contain key ");
                push_angled(&mut expected_text, expected_key);
                let mut actual_text = String::new();
                push_char(&mut actual_text, '<');
                push_keys_listing(&mut actual_text, d);
                push_char(&mut actual_text, '>');
                proof {
                    assert(expected_text@ =~= key_expected_text(*expected_key));
                    assert(actual_text@ =~= keys_actual_text(self.subject_view().pairs()));
                }
                Err(
                    AssertionFailure::from_subject(self).with_expected(expected_text).with_actual(
                        actual_text,
                    ),
                )
            },
        }
    }

    /// Asserts that the dictionary holds an entry binding `expected_key` to
    /// `expected_value`. The two failure cases carry distinct reports: a
    /// present key bound to a different value shows that value, an absent
    /// key shows every current key.
    fn contains_key_with_value(&self, expected_key: &K, expected_value: &V) -> (r: Result<
        (),
        AssertionFailure,
    >)
        ensures
            r is Ok <==> contains_entry(
                self.subject_view().pairs(),
                *expected_key,
                *expected_value,
            ),
            r matches Err(f) ==> {
                &&& f.complete()
                &&& f.description_view() == self.description_view()
                &&& f.expected_view() == Some(
                    entry_expected_text(*expected_key, *expected_value),
                )
                &&& seq_has_key(self.subject_view().pairs(), *expected_key)
                    ==> f.actual_view() == Some(
                    wrong_value_actual_text(
                        *expected_key,
                        value_of(self.subject_view().pairs(), *expected_key),
                    ),
                )
                &&& !seq_has_key(self.subject_view().pairs(), *expected_key)
                    ==> f.actual_view() == Some(
                    missing_key_actual_text(self.subject_view().pairs()),
                )
            },
    {
        let d = self.subject_ref();
        let ghost pairs = self.subject_view().pairs();
        match d.get(expected_key) {
            Some(value) => {
                if value.equals(expected_value) {
                    proof {
                        use_type_invariant(d);
                        let witness = key_index(pairs, *expected_key);
                        assert(0 <= witness < pairs.len() && pairs[witness].0.eq_spec(
                            expected_key,
                        ));
                        assert(pairs[witness].1.eq_spec(expected_value));
                        assert(contains_entry(pairs, *expected_key, *expected_value));
                    }
                    Ok(())
                } else {
                    proof {
                        use_type_invariant(d);
                        if contains_entry(pairs, *expected_key, *expected_value) {
                            let witness = choose|i: int|
                                0 <= i < pairs.len() && (#[trigger] pairs[i]).0.eq_spec(
                                    expected_key,
                                ) && pairs[i].1.eq_spec(expected_value);
                            lemma_matching_key_unique(pairs, *expected_key, witness);
                            assert(false);
                        }
                    }
                    let mut expected_text = String::new();
                    expected_text.append("hashmap containing key ");
                    push_angled(&mut expected_text, expected_key);
                    expected_text.append(" with value ");
                    push_angled(&mut expected_text, expected_value);
                    let mut actual_text = String::new();
                    actual_text.append("key ");
                    push_angled(&mut actual_text, expected_key);
                    actual_text.append(" with value ");
                    push_angled(&mut actual_text, value);
                    actual_text.append(" instead");
                    proof {
                        assert(expected_text@ =~= entry_expected_text(
                            *expected_key,
                            *expected_value,
                        ));
                        assert(actual_text@ =~= wrong_value_actual_text(
                            *expected_key,
                            value_of(pairs, *expected_key),
                        ));
                    }
                    Err(
                        AssertionFailure::from_subject(self).with_expected(
                            expected_text,
                        ).with_actual(actual_text),
                    )
                }
            },
            None => {
                proof {
                    if contains_entry(pairs, *expected_key, *expected_value) {
                        let witness = choose|i: int|
                            0 <= i < pairs.len() && (#[trigger] pairs[i]).0.eq_spec(expected_key)
                                && pairs[i].1.eq_spec(expected_value);
                        assert(seq_has_key(pairs, *expected_key));
                    }
                }
                let mut expected_text = String::new();
                expected_text.append("hashmap containing key ");
                push_angled(&mut expected_text, expected_key);
                expected_text.append(" with value ");
                push_angled(&mut expected_text, expected_value);
                let mut actual_text = String::new();
                actual_text.append("no matching key, keys are <");
                push_keys_listing(&mut actual_text, d);
                actual_text.append(">");
                proof {
                    assert(expected_text@ =~= entry_expected_text(
                        *expected_key,
                        *expected_value,
                    ));
                    assert(actual_text@ =~= missing_key_actual_text(pairs));
                }
                Err(
                    AssertionFailure::from_subject(self).with_expected(expected_text).with_actual(
                        actual_text,
                    ),
                )
            },
        }
    }
}

/// Chaining `contains_key` with an equality assertion on the value it
/// extracts decides exactly what `contains_key_with_value` decides on the
/// same dictionary, and exactly what direct equality on the looked-up value
/// decides: for a present key, the extracted value equals the expected value
/// precisely when some entry holds both.
pub proof fn lemma_chained_equality_matches_direct<K: Equatable, V: Equatable>(
    pairs: Seq<(K, V)>,
    key: K,
    value: V,
)
    requires
        unique_keys(pairs),
        seq_has_key(pairs, key),
    ensures
        value_of(pairs, key).eq_spec(&value) <==> contains_entry(pairs, key, value),
{
    let index = key_index(pairs, key);
    assert(0 <= index < pairs.len() && pairs[index].0.eq_spec(&key));
    if value_of(pairs, key).eq_spec(&value) {
        assert(pairs[index].1.eq_spec(&value));
        assert(contains_entry(pairs, key, value));
    }
    if contains_entry(pairs, key, value) {
        let witness = choose|i: int|
            0 <= i < pairs.len() && (#[trigger] pairs[i]).0.eq_spec(&key) && pairs[i].1.eq_spec(
                &value,
            );
        lemma_matching_key_unique(pairs, key, witness);
    }
}

/// Repeating a passing assertion on an unmodified subject passes again: the
/// outcome of each assertion operation is a function of the subject's
/// entries alone, so any two outcomes the contracts admit for the same
/// entries agree.
pub proof fn lemma_assertions_repeatable<K: Equatable, V: Equatable>(
    pairs: Seq<(K, V)>,
    expected_len: usize,
    key: K,
    value: V,
    first_length_ok: bool,
    second_length_ok: bool,
    first_key_ok: bool,
    second_key_ok: bool,
    first_entry_ok: bool,
    second_entry_ok: bool,
)
    requires
        first_length_ok == (pairs.len() == expected_len),
        second_length_ok == (pairs.len() == expected_len),
        first_key_ok == seq_has_key(pairs, key),
        second_key_ok == seq_has_key(pairs, key),
        first_entry_ok == contains_entry(pairs, key, value),
        second_entry_ok == contains_entry(pairs, key, value),
    ensures
        first_length_ok == second_length_ok,
        first_key_ok == second_key_ok,
        first_entry_ok == second_entry_ok,
{
}

/// The key listing of a failure message lists every key: the rendering of
/// the key at any index occurs contiguously in the joined listing. (That no
/// other key occurs is the listing's definition: it is built from the
/// entries' keys alone.)
pub proof fn lemma_keys_listing_lists_every_key<K: Renderable, V>(pairs: Seq<(K, V)>, i: int)
    requires
        0 <= i < pairs.len(),
    ensures
        exists|lo: int|
            0 <= lo && lo + pairs[i].0.render_spec().len() <= joined_keys(pairs).len()
                && #[trigger] joined_keys(pairs).subrange(
                lo,
                lo + pairs[i].0.render_spec().len() as int,
            ) == pairs[i].0.render_spec(),
    decreases pairs.len(),
{
    let rendered = pairs[i].0.render_spec();
    if i == pairs.len() - 1 {
        if pairs.len() == 1 {
            let lo: int = 0;
            assert(joined_keys(pairs).subrange(lo, lo + rendered.len() as int) =~= rendered);
            assert(0 <= lo && lo + rendered.len() <= joined_keys(pairs).len() && joined_keys(
                pairs,
            ).subrange(lo, lo + rendered.len() as int) == rendered);
        } else {
            let prefix = joined_keys(pairs.drop_last());
            reveal_strlit(", ");
            let lo: int = prefix.len() as int + 2;
            assert(pairs.last() == pairs[i]);
            assert(joined_keys(pairs) == prefix + ", "@ + rendered);
            assert(joined_keys(pairs).subrange(lo, lo + rendered.len() as int) =~= rendered);
            assert(0 <= lo && lo + rendered.len() <= joined_keys(pairs).len() && joined_keys(
                pairs,
            ).subrange(lo, lo + rendered.len() as int) == rendered);
        }
    } else {
        lemma_keys_listing_lists_every_key(pairs.drop_last(), i);
        assert(pairs.drop_last()[i] == pairs[i]);
        let shorter = joined_keys(pairs.drop_last());
        let lo = choose|lo: int|
            0 <= lo && lo + rendered.len() <= shorter.len() && #[trigger] shorter.subrange(
                lo,
                lo + rendered.len() as int,
            ) == rendered;
        assert(joined_keys(pairs) == shorter + ", "@ + pairs.last().0.render_spec());
        assert(joined_keys(pairs).subrange(lo, lo + rendered.len() as int) =~= shorter.subrange(
            lo,
            lo + rendered.len() as int,
        ));
        assert(0 <= lo && lo + rendered.len() <= joined_keys(pairs).len() && joined_keys(
            pairs,
        ).subrange(lo, lo + rendered.len() as int) == rendered);
    }
}

} // verus!
