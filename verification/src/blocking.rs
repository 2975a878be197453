use vstd::prelude::*;

verus! {

/// A value that can be taken out once.
pub struct OnceExtractor<T> {
    value: Option<T>,
}

impl<T> OnceExtractor<T> {
    /// The value still held, if it was not taken yet.
    pub closed spec fn spec_value(&self) -> Option<T> {
        self.value
    }

    pub fn new(value: T) -> (r: Self)
        ensures
            r.spec_value() == Some(value),
    {
        OnceExtractor { value: Some(value) }
    }

    /// Takes the value out: the value on the first call, `None` after.
    pub fn extract(&mut self) -> (r: Option<T>)
        ensures
            r == old(self).spec_value(),
            final(self).spec_value() is None,
    {
        self.value.take()
    }

    /// Takes the value out, which must not have been taken yet.
    pub fn extract_unchecked(&mut self) -> (r: T)
        requires
            old(self).spec_value() is Some,
        ensures
            r == old(self).spec_value()->Some_0,
            final(self).spec_value() is None,
    {
        self.extract().unwrap()
    }
}

impl<T> From<T> for OnceExtractor<T> {
    fn from(value: T) -> (r: Self)
        ensures
            r.spec_value() == Some(value),
    {
        OnceExtractor::new(value)
    }
}

impl<T> vstd::std_specs::convert::FromSpecImpl<T> for OnceExtractor<T> {
    open spec fn obeys_from_spec() -> bool {
        true
    }

    closed spec fn from_spec(v: T) -> Self {
        OnceExtractor { value: Some(v) }
    }
}

/// The value is taken once: of a run of `extract` calls on an extractor made with `v`
/// (the extractor before each call in `states`, the results in `results`), the first
/// gives `Some(v)` and every later one `None`.
pub proof fn lemma_extract_once<T>(v: T, states: Seq<OnceExtractor<T>>, results: Seq<Option<T>>)
    requires
        states.len() == results.len() + 1,
        states[0].spec_value() == Some(v),
        forall|i: int| 0 <= i < results.len() ==> #[trigger] results[i] == states[i].spec_value()
            && states[i + 1].spec_value() is None,
    ensures
        results.len() > 0 ==> results[0] == Some(v),
        forall|i: int| 0 < i < results.len() ==> #[trigger] results[i] is None,
{
    assert forall|i: int| 0 < i < results.len() implies #[trigger] results[i] is None by {
        assert(results[i - 1] == states[i - 1].spec_value());
    }
}

} // verus!
