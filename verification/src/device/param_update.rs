use vstd::prelude::*;

use crate::params::UntypedDeviceParamsWithVariables;

verus! {

/// Data validated from device parameters, together with the parameters that should
/// replace the stored ones, when validation repaired them.
#[derive(Debug)]
pub struct WithInfallibleParamUpdate<T> {
    pub data: T,
    pub update: Option<UntypedDeviceParamsWithVariables>,
}

impl<T> WithInfallibleParamUpdate<T> {
    /// The data, when the stored parameters need no change.
    pub fn into_data_if_no_changes(self) -> (r: Option<T>)
        ensures
            self.update is None ==> r == Some(self.data),
            self.update is Some ==> r is None,
    {
        if self.update.is_none() {
            Some(self.data)
        } else {
            None
        }
    }

    /// Applies the update to stored parameters: they are replaced when there is
    /// an update, and the data is returned.
    pub fn apply_to(self, params: &mut UntypedDeviceParamsWithVariables) -> (r: T)
        ensures
            r == self.data,
            match self.update {
                Some(p) => *final(params) == p,
                None => *final(params) == *old(params),
            },
    {
        if let Some(parameters) = self.update {
            *params = parameters;
        }
        self.data
    }
}

/// What a validator may return: data alone, or data with a parameter update.
pub trait IntoParamValidatorOk<T>: Sized {
    spec fn spec_into_ok(self) -> WithInfallibleParamUpdate<T>;

    fn into_ok(self) -> (r: WithInfallibleParamUpdate<T>)
        ensures
            r == self.spec_into_ok(),
    ;
}

impl<T> IntoParamValidatorOk<T> for WithInfallibleParamUpdate<T> {
    open spec fn spec_into_ok(self) -> WithInfallibleParamUpdate<T> {
        self
    }

    fn into_ok(self) -> (r: WithInfallibleParamUpdate<T>) {
        self
    }
}

impl<T> IntoParamValidatorOk<T> for (T, Option<UntypedDeviceParamsWithVariables>) {
    open spec fn spec_into_ok(self) -> WithInfallibleParamUpdate<T> {
        WithInfallibleParamUpdate { data: self.0, update: self.1 }
    }

    fn into_ok(self) -> (r: WithInfallibleParamUpdate<T>) {
        WithInfallibleParamUpdate { data: self.0, update: self.1 }
    }
}

impl<T: core::fmt::Debug> IntoParamValidatorOk<T> for T {
    open spec fn spec_into_ok(self) -> WithInfallibleParamUpdate<T> {
        WithInfallibleParamUpdate { data: self, update: None }
    }

    fn into_ok(self) -> (r: WithInfallibleParamUpdate<T>) {
        WithInfallibleParamUpdate { data: self, update: None }
    }
}

/// Data without an update.
pub fn without_update<T>(data: T) -> (r: WithInfallibleParamUpdate<T>)
    ensures
        r.data == data,
        r.update is None,
{
    WithInfallibleParamUpdate { data, update: None }
}

} // verus!
