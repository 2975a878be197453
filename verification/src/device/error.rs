use vstd::prelude::*;

use super::DeviceId;

verus! {

/// Why a request could not be routed to a device.
#[derive(Debug, PartialEq, Eq)]
pub enum ActorErrorUnknownDevice {
    /// No device with this id has a message queue.
    UnknownDeviceId { device_id: DeviceId, details: String },
    /// The request named no device and not exactly one device handles the message type.
    AmbiguousHandler { msg_type: &'static str, possibilities: Vec<DeviceId> },
}

/// The system is too loaded to accept a request.
#[derive(Debug, PartialEq, Eq)]
pub enum ActorErrorBusy {
    /// The queue of the device is full.
    ExceededQueueCapacity(DeviceId),
    /// No thread was available for blocking work.
    SpawnBlocking,
}

/// Error of a request to a device; `Custom` carries the device's own error.
#[derive(Debug, PartialEq, Eq)]
pub enum ActorError<TCustom> {
    UnknownDevice(ActorErrorUnknownDevice),
    UnknownMessageType(&'static str),
    Custom(TCustom),
    Busy(ActorErrorBusy),
    Aborted,
    Timeout,
}

/// Error of a message sent without waiting for an answer through a weak sender.
#[derive(Debug, PartialEq, Eq)]
pub enum ActorWeakTellError {
    UnknownDevice(ActorErrorUnknownDevice),
    Busy(ActorErrorBusy),
}

/// What `map_custom` makes of `e`: the same error, with `Custom(x)` replaced by
/// `Custom(y)` for some `y` that `mapper` may return for `x`.
pub open spec fn is_mapped_error<T, U, F: FnOnce(T) -> U>(
    e: ActorError<T>,
    mapper: F,
    r: ActorError<U>,
) -> bool {
    match e {
        ActorError::UnknownDevice(d) => r == ActorError::<U>::UnknownDevice(d),
        ActorError::UnknownMessageType(m) => r == ActorError::<U>::UnknownMessageType(m),
        ActorError::Custom(x) => r matches ActorError::Custom(y) && mapper.ensures((x,), y),
        ActorError::Busy(b) => r == ActorError::<U>::Busy(b),
        ActorError::Aborted => r == ActorError::<U>::Aborted,
        ActorError::Timeout => r == ActorError::<U>::Timeout,
    }
}

impl<TCustom> ActorError<TCustom> {
    /// Replaces the device's own error with `mapper` applied to it; every other error stays.
    pub fn map_custom<TCustomNew, F: FnOnce(TCustom) -> TCustomNew>(self, mapper: F) -> (r:
        ActorError<TCustomNew>)
        requires
            self matches ActorError::Custom(x) ==> mapper.requires((x,)),
        ensures
            is_mapped_error(self, mapper, r),
    {
        match self {
            ActorError::UnknownDevice(x) => ActorError::UnknownDevice(x),
            ActorError::UnknownMessageType(x) => ActorError::UnknownMessageType(x),
            ActorError::Custom(x) => ActorError::Custom(mapper(x)),
            ActorError::Busy(x) => ActorError::Busy(x),
            ActorError::Aborted => ActorError::Aborted,
            ActorError::Timeout => ActorError::Timeout,
        }
    }

    /// A device error, from anything that converts into the device's error type.
    pub fn custom<X>(custom: X) -> (r: Self)
        where TCustom: From<X>
        ensures
            r matches ActorError::Custom(c) && call_ensures(<TCustom as From<X>>::from, (custom,), c),
    {
        ActorError::Custom(<TCustom as From<X>>::from(custom))
    }

    /// The error for a request that could not be routed.
    pub fn from_unknown_device(e: ActorErrorUnknownDevice) -> (r: Self)
        ensures
            r == ActorError::<TCustom>::UnknownDevice(e),
    {
        ActorError::UnknownDevice(e)
    }

    /// The error for a request that the system was too loaded to accept.
    pub fn from_busy(e: ActorErrorBusy) -> (r: Self)
        ensures
            r == ActorError::<TCustom>::Busy(e),
    {
        ActorError::Busy(e)
    }

    /// The error of a weak sender as an error of a request.
    pub fn from_weak_tell_error(e: ActorWeakTellError) -> (r: Self)
        ensures
            match e {
                ActorWeakTellError::UnknownDevice(x) => r == ActorError::<TCustom>::UnknownDevice(x),
                ActorWeakTellError::Busy(x) => r == ActorError::<TCustom>::Busy(x),
            },
    {
        match e {
            ActorWeakTellError::UnknownDevice(x) => ActorError::UnknownDevice(x),
            ActorWeakTellError::Busy(x) => ActorError::Busy(x),
        }
    }
}

/// Maps the device error inside the error of a request's result.
pub trait ActorErrorResultExtensions<T, TErr>: Sized {
    spec fn spec_result(&self) -> Result<T, ActorError<TErr>>;

    /// `Ok` stays; an error is mapped as `ActorError::map_custom` maps it.
    fn map_actor_error<TErrNew, F: FnOnce(TErr) -> TErrNew>(self, mapper: F) -> (r: Result<
        T,
        ActorError<TErrNew>,
    >)
        requires
            self.spec_result() matches Err(ActorError::Custom(x)) ==> mapper.requires((x,)),
        ensures
            match self.spec_result() {
                Ok(v) => r == Ok::<T, ActorError<TErrNew>>(v),
                Err(e) => r matches Err(e2) && is_mapped_error(e, mapper, e2),
            },
    ;
}

impl<T, TErr> ActorErrorResultExtensions<T, TErr> for Result<T, ActorError<TErr>> {
    open spec fn spec_result(&self) -> Result<T, ActorError<TErr>> {
        *self
    }

    fn map_actor_error<TErrNew, F: FnOnce(TErr) -> TErrNew>(self, mapper: F) -> (r: Result<
        T,
        ActorError<TErrNew>,
    >) {
        match self {
            Ok(v) => Ok(v),
            Err(e) => Err(e.map_custom(mapper)),
        }
    }
}

/// Mapping the device's error with a function that returns its argument changes
/// nothing.
pub proof fn lemma_identity_mapping_keeps_error<T, F: FnOnce(T) -> T>(
    e: ActorError<T>,
    mapper: F,
    r: ActorError<T>,
)
    requires
        is_mapped_error(e, mapper, r),
        forall|x: T, y: T| #[trigger] mapper.ensures((x,), y) ==> y == x,
    ensures
        r == e,
{
}

/// Mapping the device's error with `f` and then with `g` is mapping it with `h`, when
/// `f`, `g` and `h` compute the functions `fs`, `gs` and `gs` after `fs`.
pub proof fn lemma_mapping_composes<T, U, V, F: FnOnce(T) -> U, G: FnOnce(U) -> V, H: FnOnce(T) -> V>(
    e: ActorError<T>,
    f: F,
    g: G,
    h: H,
    fs: spec_fn(T) -> U,
    gs: spec_fn(U) -> V,
    r1: ActorError<U>,
    r2: ActorError<V>,
    r3: ActorError<V>,
)
    requires
        forall|x: T, y: U| #[trigger] f.ensures((x,), y) ==> y == fs(x),
        forall|y: U, z: V| #[trigger] g.ensures((y,), z) ==> z == gs(y),
        forall|x: T, z: V| #[trigger] h.ensures((x,), z) ==> z == gs(fs(x)),
        is_mapped_error(e, f, r1),
        is_mapped_error(r1, g, r2),
        is_mapped_error(e, h, r3),
    ensures
        r2 == r3,
{
}

} // verus!
