use pilatus::archive::{classify_import_entry, ImportEntryError};
use pilatus::device::error::{ActorError, ActorErrorBusy, ActorErrorUnknownDevice, ActorWeakTellError};
use pilatus::device::sender::{dropped_queue_error, send_outcome, unanswered_request, weak_tell_outcome};
use pilatus::device::DeviceId;
use pilatus::logo::first_logo_file;
use pilatus::name::Name;
use pilatus::text::parse_i32_str;

#[test]
fn a_suggestion_continues_its_own_numbering() {
    let mut first = Name::parse("cam").unwrap().suggest_unique();
    let suggested = first.next().unwrap();
    assert_eq!("cam_1", suggested.as_str());
    let mut again = suggested.suggest_unique();
    assert_eq!("cam_1", again.next().unwrap().as_str());
    assert_eq!("cam_2", again.next().unwrap().as_str());
}

#[test]
fn number_texts_parse_back() {
    for n in [0, 7, -7, 10, 1234567, i32::MAX, i32::MIN] {
        assert_eq!(Some(n), parse_i32_str(&n.to_string()));
    }
}

#[test]
fn identity_mapping_keeps_errors() {
    let e: ActorError<u8> = ActorError::UnknownMessageType("M");
    assert_eq!(ActorError::UnknownMessageType("M"), e.map_custom(|x| x));
    let e: ActorError<u8> = ActorError::Custom(3);
    assert_eq!(ActorError::Custom(3), e.map_custom(|x| x));
}

#[test]
fn telling_through_weak_senders() {
    let id = DeviceId(4);
    assert_eq!(Ok(()), weak_tell_outcome(id, true, true));
    assert_eq!(
        Err(ActorWeakTellError::Busy(ActorErrorBusy::ExceededQueueCapacity(id))),
        weak_tell_outcome(id, true, false)
    );
    assert_eq!(
        Err(ActorWeakTellError::UnknownDevice(ActorErrorUnknownDevice::UnknownDeviceId {
            device_id: id,
            details: "Device existed but is no longer available".to_string()
        })),
        weak_tell_outcome(id, false, true)
    );
    assert_eq!(Err(ActorErrorBusy::ExceededQueueCapacity(id)), send_outcome(id, false));
    assert_eq!(
        ActorErrorUnknownDevice::UnknownDeviceId {
            device_id: id,
            details: "Channel from WeakUntypedActorMessageSender was dropped already".to_string()
        },
        dropped_queue_error(id)
    );
    assert_eq!(ActorError::<()>::UnknownMessageType("I32Message"), unanswered_request("I32Message"));
}

#[test]
fn the_first_logo_file_is_taken() {
    let entries = vec![None, Some("readme.txt".to_string()), Some("log".to_string()), Some("logo.png".to_string()), Some("logo2.png".to_string())];
    assert_eq!(Some(3), first_logo_file(&entries));
    assert_eq!(None, first_logo_file(&vec![Some("a".to_string()), None]));
    assert_eq!(Some(0), first_logo_file(&vec![Some("logo".to_string())]));
}

#[test]
fn counter_length_after_fills_and_removals() {
    let mut c = pilatus::occurrence_counter::OccuranceCounter::from_items(vec![1u32, 1, 2]);
    c.extend(vec![3, 3]);
    let mut found = 0;
    for x in [1u32, 1, 1, 4, 3, 2] {
        if c.remove(x) {
            found += 1;
        }
    }
    assert_eq!(5 - found, c.len());
    assert_eq!(1, c.len());
}

#[test]
fn device_types_are_written_as_debug_text() {
    let one = vec![(DeviceId(2), "a\"b\\c\n\u{1}".to_string())];
    let m = pilatus::runner::stopped_message(DeviceId(1), "t", &one);
    assert!(m.ends_with(&format!(", {:?}))", "a\"b\\c\n\u{1}")), "{m}");
    assert!(m.ends_with("\"a\\\"b\\\\c\\n\\u{1}\"))"));
}

#[test]
fn device_files_must_stay_below_their_folder() {
    let dev = "r1/01234567-89ab-cdef-0123-456789abcdef";
    assert!(matches!(classify_import_entry(dev), Err(ImportEntryError::InvalidDevicePath)));
    assert!(matches!(classify_import_entry(&format!("{dev}/../x")), Err(ImportEntryError::InvalidDevicePath)));
    assert!(classify_import_entry(&format!("{dev}/a/b.txt")).is_ok());
}
