use vstd::prelude::*;

verus! {

/// A computation `T` together with data about it, which is handed out beside the
/// computation's output once it completes.
pub struct MetadataFuture<TMeta, T> {
    meta: Option<TMeta>,
    inner: T,
}

impl<TMeta, T> MetadataFuture<TMeta, T> {
    /// The data, while the computation has not completed.
    pub closed spec fn spec_meta(&self) -> Option<TMeta> {
        self.meta
    }

    /// The computation.
    pub closed spec fn spec_inner(&self) -> T {
        self.inner
    }

    pub fn new(meta: TMeta, fut: T) -> (r: Self)
        ensures
            r.spec_meta() == Some(meta),
            r.spec_inner() == fut,
    {
        MetadataFuture { meta: Some(meta), inner: fut }
    }

    /// The data; only while the computation has not completed.
    pub fn get_meta(&self) -> (r: &TMeta)
        requires
            self.spec_meta() is Some,
        ensures
            *r == self.spec_meta()->Some_0,
    {
        self.meta.as_ref().unwrap()
    }

    /// Completes with `output` of the computation: the data beside the output.
    /// It completes once, so the data must still be there.
    pub fn complete<TOut>(&mut self, output: TOut) -> (r: (TMeta, TOut))
        requires
            old(self).spec_meta() is Some,
        ensures
            r == (old(self).spec_meta()->Some_0, output),
            final(self).spec_meta() is None,
            final(self).spec_inner() == old(self).spec_inner(),
    {
        let meta = self.meta.take().unwrap();
        (meta, output)
    }

    /// The computation, to drive it on.
    pub fn inner_mut(&mut self) -> (r: &mut T)
        ensures
            *r == old(self).spec_inner(),
            final(self).spec_inner() == *final(r),
            final(self).spec_meta() == old(self).spec_meta(),
    {
        &mut self.inner
    }

    /// Whether the computation has completed.
    pub fn is_completed(&self) -> (r: bool)
        ensures
            r == (self.spec_meta() is None),
    {
        self.meta.is_none()
    }
}

} // verus!
