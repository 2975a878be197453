use vstd::prelude::*;

verus! {

/// Declares `std::io::Error` to Verus; its value is only carried along.
#[verifier::external_type_specification]
#[verifier::external_body]
pub struct ExIoError(std::io::Error);

/// Why a device could not be spawned; `TValidation` is the error type of parameter validation.
#[derive(Debug)]
pub enum SpawnError<TValidation> {
    Io(std::io::Error),
    Validation(TValidation),
}

/// Why a device of a recipe could not be started.
#[derive(Debug)]
pub enum StartDeviceError<TValidation> {
    Io(std::io::Error),
    Validation(TValidation),
    UnknownDeviceType,
}

impl<TValidation> StartDeviceError<TValidation> {
    /// A spawn error as a start error, variant by variant.
    pub fn from_spawn_error(value: SpawnError<TValidation>) -> (r: Self)
        ensures
            match value {
                SpawnError::Io(e) => r == StartDeviceError::<TValidation>::Io(e),
                SpawnError::Validation(v) => r == StartDeviceError::<TValidation>::Validation(v),
            },
    {
        match value {
            SpawnError::Io(io) => StartDeviceError::Io(io),
            SpawnError::Validation(v) => StartDeviceError::Validation(v),
        }
    }
}

/// Error of a variable that a device could not resolve.
#[derive(Debug, PartialEq, Eq)]
pub struct DeviceSpawnerError {
    pub variable_name: String,
}

} // verus!
