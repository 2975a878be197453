use vstd::prelude::*;

use super::error::{ActorError, ActorErrorBusy, ActorErrorUnknownDevice, ActorWeakTellError};
use super::DeviceId;

verus! {

/// The text of the error when the queue behind a weak sender was dropped.
pub open spec fn dropped_queue_details() -> Seq<char> {
    "Channel from WeakUntypedActorMessageSender was dropped already"@
}

/// The text of the error when a message is told to a device that is gone.
pub open spec fn gone_device_details() -> Seq<char> {
    "Device existed but is no longer available"@
}

/// The error of a weak sender whose device's queue was dropped.
pub fn dropped_queue_error(device_id: DeviceId) -> (r: ActorErrorUnknownDevice)
    ensures
        r matches ActorErrorUnknownDevice::UnknownDeviceId { device_id: d, details }
            && d == device_id && details@ == dropped_queue_details(),
{
    ActorErrorUnknownDevice::UnknownDeviceId {
        device_id,
        details: "Channel from WeakUntypedActorMessageSender was dropped already".to_owned(),
    }
}

/// What sending a message to the queue of `device_id` gives: accepted, or the queue is full.
pub fn send_outcome(device_id: DeviceId, accepted: bool) -> (r: Result<(), ActorErrorBusy>)
    ensures
        accepted ==> r is Ok,
        !accepted ==> r == Err::<(), ActorErrorBusy>(ActorErrorBusy::ExceededQueueCapacity(device_id)),
{
    if accepted {
        Ok(())
    } else {
        Err(ActorErrorBusy::ExceededQueueCapacity(device_id))
    }
}

/// What telling a message through a weak sender gives: when the device's queue is
/// still there (`queue_alive`), the outcome of sending (`accepted`); else the device is gone.
pub fn weak_tell_outcome(device_id: DeviceId, queue_alive: bool, accepted: bool) -> (r: Result<
    (),
    ActorWeakTellError,
>)
    ensures
        queue_alive && accepted ==> r is Ok,
        queue_alive && !accepted ==> r == Err::<(), ActorWeakTellError>(
            ActorWeakTellError::Busy(ActorErrorBusy::ExceededQueueCapacity(device_id)),
        ),
        !queue_alive ==> (r matches Err(
            ActorWeakTellError::UnknownDevice(ActorErrorUnknownDevice::UnknownDeviceId { device_id: d, details }),
        ) && d == device_id && details@ == gone_device_details()),
{
    if queue_alive {
        match send_outcome(device_id, accepted) {
            Ok(()) => Ok(()),
            Err(e) => Err(ActorWeakTellError::Busy(e)),
        }
    } else {
        Err(
            ActorWeakTellError::UnknownDevice(
                ActorErrorUnknownDevice::UnknownDeviceId {
                    device_id,
                    details: "Device existed but is no longer available".to_owned(),
                },
            ),
        )
    }
}

/// The error of a request that the device dropped without answering: it handles no
/// messages of the type named `msg_type`.
pub fn unanswered_request<TCustom>(msg_type: &'static str) -> (r: ActorError<TCustom>)
    ensures
        r == ActorError::<TCustom>::UnknownMessageType(msg_type),
{
    ActorError::UnknownMessageType(msg_type)
}

} // verus!
