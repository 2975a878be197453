use vstd::prelude::*;

use super::error::{ActorError, ActorErrorUnknownDevice};
use super::DeviceId;

verus! {

/// A message that devices handle: what a successful answer carries, and the device's
/// own error.
pub trait ActorMessage {
    type Output;
    type Error;
}

/// A handler that is given a registration through which its request can be aborted.
#[derive(Clone)]
pub struct WithAbort<TFn>(TFn);

impl<TFn> WithAbort<TFn> {
    /// The handler function.
    pub closed spec fn spec_handler(&self) -> TFn {
        self.0
    }

    pub fn new(t: TFn) -> (r: Self)
        ensures
            r.spec_handler() == t,
    {
        WithAbort(t)
    }

    /// The handler function, to call it.
    pub fn handler(&self) -> (r: &TFn)
        ensures
            *r == self.spec_handler(),
    {
        &self.0
    }
}

/// The second step of a handler: the answer is computed by `0` without access to the
/// device's state, so that long work does not hold up other messages to the device.
pub struct Step2<T>(pub T);

/// Which device a request is for: a given one, or else the only device that handles
/// the message type.
#[derive(Debug, Clone, Copy, PartialEq, Eq)]
pub enum DynamicIdentifier {
    DeviceId(DeviceId),
    Unspecified,
}

impl DynamicIdentifier {
    /// The identifier read from an optional `device_id` field.
    pub fn from_device_id(device_id: Option<DeviceId>) -> (r: DynamicIdentifier)
        ensures
            match device_id {
                Some(d) => r == DynamicIdentifier::DeviceId(d),
                None => r == DynamicIdentifier::Unspecified,
            },
    {
        match device_id {
            Some(d) => DynamicIdentifier::DeviceId(d),
            None => DynamicIdentifier::Unspecified,
        }
    }

    /// The device given, if any.
    pub fn device_id(&self) -> (r: Option<DeviceId>)
        ensures
            match *self {
                DynamicIdentifier::DeviceId(d) => r == Some(d),
                DynamicIdentifier::Unspecified => r is None,
            },
    {
        match self {
            DynamicIdentifier::DeviceId(d) => Some(*d),
            DynamicIdentifier::Unspecified => None,
        }
    }
}

impl Default for DynamicIdentifier {
    fn default() -> (r: Self)
        ensures
            r == DynamicIdentifier::Unspecified,
    {
        DynamicIdentifier::Unspecified
    }
}

/// The answer to a request that no device could take: the unknown-device error for the
/// nil identifier, with `details`.
pub fn respond_with_unknown_device<TCustom>(details: String) -> (r: ActorError<TCustom>)
    ensures
        r matches ActorError::UnknownDevice(ActorErrorUnknownDevice::UnknownDeviceId { device_id, details: d })
            && device_id == DeviceId(0) && d == details,
{
    ActorError::UnknownDevice(
        ActorErrorUnknownDevice::UnknownDeviceId { device_id: DeviceId::nil(), details },
    )
}

} // verus!
