use pilatus::device::error::ActorErrorUnknownDevice;
use pilatus::device::registry::{ActorSystemState, DeviceReleaser};
use pilatus::device::DeviceId;

const I32_MESSAGE: u64 = 1;
const STRING_MESSAGE: u64 = 2;

fn sorted(mut ids: Vec<DeviceId>) -> Vec<DeviceId> {
    ids.sort();
    ids
}

#[test]
fn get_devices_for_messages() {
    let mut state = ActorSystemState::<&'static str>::new();
    let a = DeviceId(1);
    let b = DeviceId(2);
    state.register(a, "a");
    state.register(b, "b");
    state.publish_message(a, I32_MESSAGE);
    state.publish_message(b, I32_MESSAGE);
    state.publish_message(b, STRING_MESSAGE);
    state.publish_message(b, STRING_MESSAGE);

    assert_eq!(vec![a, b], sorted(state.list_devices_for_message_type(I32_MESSAGE)));
    assert_eq!(vec![b], state.list_devices_for_message_type(STRING_MESSAGE));
    assert_eq!(vec![b], state.list_devices_for_message_types(&[I32_MESSAGE, STRING_MESSAGE]));
    assert!(state.list_devices_for_message_types(&[]).is_empty());
    assert!(state.list_devices_for_message_type(3).is_empty());
}

#[test]
fn single_handler_takes_requests_without_device() {
    let mut state = ActorSystemState::<&'static str>::new();
    let a = DeviceId(7);
    state.register(a, "queue of a");
    state.publish_message(a, I32_MESSAGE);
    assert_eq!(
        &"queue of a",
        state.get_sender_or_single_handler(None, I32_MESSAGE, "I32Message").unwrap()
    );
    assert_eq!(&"queue of a", state.get_sender_or_single_handler(Some(a), 99, "Other").unwrap());
}

#[test]
fn ambiguous_handlers_are_listed() {
    let mut state = ActorSystemState::<&'static str>::new();
    state.register(DeviceId(1), "a");
    state.register(DeviceId(2), "b");
    state.publish_message(DeviceId(1), I32_MESSAGE);
    state.publish_message(DeviceId(2), I32_MESSAGE);
    match state.get_sender_or_single_handler(None, I32_MESSAGE, "I32Message") {
        Err(ActorErrorUnknownDevice::AmbiguousHandler { msg_type, possibilities }) => {
            assert_eq!("I32Message", msg_type);
            assert_eq!(vec![DeviceId(1), DeviceId(2)], sorted(possibilities));
        }
        other => panic!("unexpected {other:?}"),
    }
    match state.get_sender_or_single_handler(None, STRING_MESSAGE, "StringMessage") {
        Err(ActorErrorUnknownDevice::AmbiguousHandler { possibilities, .. }) => {
            assert!(possibilities.is_empty())
        }
        other => panic!("unexpected {other:?}"),
    }
}

#[test]
fn handle_unknown_device() {
    let state = ActorSystemState::<&'static str>::new();
    let id = DeviceId(42);
    assert_eq!(
        ActorErrorUnknownDevice::UnknownDeviceId {
            device_id: id,
            details: "No message queue for this device".to_string()
        },
        state.get_device(id).err().unwrap()
    );
    assert_eq!(
        ActorErrorUnknownDevice::UnknownDeviceId { device_id: id, details: "Unknown Id".to_string() },
        state.get_device_for_weak_sender(id).err().unwrap()
    );
}

#[test]
fn remove_message_lookup_device() {
    let mut state = ActorSystemState::<&'static str>::new();
    let id = DeviceId(5);
    let releaser = DeviceReleaser::new(id);
    state.register(id, "queue");
    releaser.publish_message(&mut state, I32_MESSAGE);
    releaser.publish_message(&mut state, STRING_MESSAGE);
    assert_eq!(vec![id], state.list_devices_for_message_type(I32_MESSAGE));
    releaser.revoke_message_responsibility(&mut state, &[I32_MESSAGE, STRING_MESSAGE]);
    assert!(state.list_devices_for_message_type(I32_MESSAGE).is_empty());
    assert!(state.list_devices_for_message_type(STRING_MESSAGE).is_empty());
    assert!(state.get_sender_or_single_handler(None, I32_MESSAGE, "I32Message").is_err());
}

#[test]
fn remove_device_after_drop() {
    let mut state = ActorSystemState::<&'static str>::new();
    let id = DeviceId(9);
    state.register(id, "queue");
    assert!(state.get_device(id).is_ok());
    DeviceReleaser::new(id).release(&mut state);
    match state.get_device(id) {
        Err(ActorErrorUnknownDevice::UnknownDeviceId { details, .. }) => {
            assert_eq!("No message queue for this device", details)
        }
        other => panic!("unexpected {other:?}"),
    }
}

#[test]
fn forgetting_senders_keeps_handlers() {
    let mut state = ActorSystemState::<&'static str>::new();
    state.register(DeviceId(1), "a");
    state.publish_message(DeviceId(1), I32_MESSAGE);
    state.forget_senders();
    assert!(state.get_device(DeviceId(1)).is_err());
    assert_eq!(vec![DeviceId(1)], state.list_devices_for_message_type(I32_MESSAGE));
}

#[test]
fn revoke_after_publish_restores_handlers() {
    let mut state = ActorSystemState::<&'static str>::new();
    state.publish_message(DeviceId(1), I32_MESSAGE);
    state.publish_message(DeviceId(2), I32_MESSAGE);
    state.revoke_message_responsibility(DeviceId(2), &[I32_MESSAGE]);
    assert_eq!(vec![DeviceId(1)], state.list_devices_for_message_type(I32_MESSAGE));
}
