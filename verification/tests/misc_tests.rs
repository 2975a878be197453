use pilatus::archive::{
    classify_import_entry, export_entry_path, json_size_exceeded, recipe_entry_name, ImportEntry,
    ImportEntryError, MAX_JSON_FILE_SIZE,
};
use pilatus::blocking::OnceExtractor;
use pilatus::content::{compare_buffers, ContentStep};
use pilatus::device::active_state::ActiveState;
use pilatus::device::error::{ActorError, ActorErrorBusy, ActorErrorResultExtensions, ActorErrorUnknownDevice};
use pilatus::device::handler::{respond_with_unknown_device, DynamicIdentifier, Step2, WithAbort};
use pilatus::device::spawner::{SpawnError, StartDeviceError};
use pilatus::device::DeviceId;
use pilatus::import::{error_for_duplicate_device, Duplicate, Replace};
use pilatus::logfile::{files_to_delete, LogFileWriter};
use pilatus::metadata_future::MetadataFuture;
use pilatus::name::{NameValidationError, RecipeId};
use pilatus::occurrence_counter::OccuranceCounter;
use pilatus::recipe::{pair_device_files, ChangeDeviceParamsTransactionError, FilePairing};
use pilatus::text::parse_i32_str;

fn has_same_content(a: &[u8], b: &[u8], chunk: usize) -> bool {
    let (mut pa, mut pb) = (0usize, 0usize);
    loop {
        let ea = (pa + chunk.min(4096)).min(a.len());
        let eb = (pb + chunk.min(4096)).min(b.len());
        match compare_buffers(&a[pa..ea], &b[pb..eb]) {
            ContentStep::Same => return true,
            ContentStep::Different => return false,
            ContentStep::Consume(n) => {
                pa += n;
                pb += n;
            }
        }
    }
}

#[test]
fn content_with_multiple_lengths() {
    assert!(!has_same_content(&[0; 4097], &[0; 4096], 4096));
}

#[test]
fn content_with_diff_in_first_page() {
    let mut b = [0; 4098];
    b[0] = 1;
    assert!(!has_same_content(&[0; 4098], &b, 4096));
}

#[test]
fn content_with_diff_in_last_page() {
    let mut b = [0; 4098];
    *b.last_mut().unwrap() = 1;
    assert!(!has_same_content(&[0; 4098], &b, 4096));
}

#[test]
fn content_with_multiple_same_pages() {
    assert!(has_same_content(&[0; 4098], &[0; 4098], 4096));
}

#[test]
fn content_with_different_chunk_sizes() {
    let data: Vec<u8> = (0..10000u32).map(|x| (x % 255) as u8).collect();
    let (mut pa, mut pb) = (0usize, 0usize);
    let result = loop {
        let ea = (pa + 10).min(data.len());
        let eb = (pb + 11).min(data.len());
        match compare_buffers(&data[pa..ea], &data[pb..eb]) {
            ContentStep::Same => break true,
            ContentStep::Different => break false,
            ContentStep::Consume(n) => {
                pa += n;
                pb += n;
            }
        }
    };
    assert!(result);
}

#[test]
fn compare_step_consumes_the_shorter_buffer() {
    assert_eq!(ContentStep::Consume(2), compare_buffers(&[1, 2], &[1, 2, 3]));
    assert_eq!(ContentStep::Different, compare_buffers(&[1, 2], &[1, 3, 3]));
    assert_eq!(ContentStep::Different, compare_buffers(&[], &[1]));
    assert_eq!(ContentStep::Same, compare_buffers(&[], &[]));
}

#[test]
fn occurance_counter_counts_items() {
    let mut c = OccuranceCounter::from_items(vec![1u32, 2, 2, 3]);
    assert_eq!(4, c.len());
    assert!(c.remove(2));
    assert!(c.remove(2));
    assert!(!c.remove(2));
    assert!(!c.remove(9));
    assert_eq!(2, c.len());
    c.extend(vec![9]);
    assert!(c.remove(9));
    assert_eq!(2, c.len());
    let empty = OccuranceCounter::<u64>::new();
    assert_eq!(0, empty.len());
}

#[test]
fn once_extractor_gives_its_value_once() {
    let mut e = OnceExtractor::new(42);
    assert_eq!(Some(42), e.extract());
    assert_eq!(None, e.extract());
    let mut f = OnceExtractor::new("x");
    assert_eq!("x", f.extract_unchecked());
    let mut g: OnceExtractor<i32> = 5.into();
    assert_eq!(Some(5), g.extract());
    assert_eq!(None, g.extract());
}

#[test]
fn metadata_future_hands_out_its_data_on_completion() {
    let mut f = MetadataFuture::new((DeviceId(3), "camera".to_string()), 17u8);
    assert_eq!(&(DeviceId(3), "camera".to_string()), f.get_meta());
    *f.inner_mut() += 1;
    assert!(!f.is_completed());
    let (meta, out) = f.complete("done");
    assert_eq!((DeviceId(3), "camera".to_string()), meta);
    assert_eq!("done", out);
    assert!(f.is_completed());
}

#[test]
fn keep_newest_files() {
    let files = vec![
        (30i128, "file3.log".to_string()),
        (10, "file1.log".to_string()),
        (20, "file2.log".to_string()),
        (40, "pilatus-logs".to_string()),
    ];
    assert_eq!(vec!["file2.log".to_string(), "file1.log".to_string()], files_to_delete(files, 2));
}

#[test]
fn equally_old_files_are_ordered_by_listing() {
    let files = vec![(5i128, "a".to_string()), (5, "b".to_string()), (5, "c".to_string())];
    assert_eq!(vec!["b".to_string(), "a".to_string()], files_to_delete(files.clone(), 1));
    assert!(files_to_delete(files, 3).is_empty());
}

#[test]
fn old_logs_are_deleted_on_first_and_every_256th_flush() {
    let mut w = LogFileWriter::new((), "logs".to_string(), 5);
    assert_eq!("logs", w.directory());
    assert_eq!(5, w.files_to_keep());
    let mut deleting = Vec::new();
    for i in 0..600 {
        if w.count_flush() {
            deleting.push(i);
        }
    }
    assert_eq!(vec![0, 256, 512], deleting);
}

#[test]
fn archive_entries_are_classified_by_name() {
    assert!(matches!(classify_import_entry("variables.json"), Ok(ImportEntry::Variables)));
    match classify_import_entry("my recipe/recipe.json") {
        Ok(ImportEntry::Recipe(id)) => assert_eq!("my recipe", id.as_str()),
        other => panic!("unexpected {other:?}"),
    }
    match classify_import_entry("r1/01234567-89ab-cdef-0123-456789abcdef/sub/a.png") {
        Ok(ImportEntry::DeviceFile { recipe_id, device_id, folder, relative }) => {
            assert_eq!("01234567-89ab-cdef-0123-456789abcdef", folder);
            assert_eq!("r1", recipe_id.as_str());
            assert_eq!(DeviceId(0x0123456789abcdef0123456789abcdef), device_id);
            assert_eq!(vec!["sub".to_string(), "a.png".to_string()], relative);
        }
        other => panic!("unexpected {other:?}"),
    }
}

#[test]
fn archive_entries_outside_folders_are_refused() {
    assert!(matches!(classify_import_entry(""), Err(ImportEntryError::NotInSubfolder)));
    match classify_import_entry("r1") {
        Err(ImportEntryError::NotInDeviceFolder(id)) => assert_eq!("r1", id.as_str()),
        other => panic!("unexpected {other:?}"),
    }
    assert!(matches!(classify_import_entry("r1/notes.txt"), Err(ImportEntryError::InvalidDeviceId)));
    assert!(matches!(classify_import_entry("r1/recipe.json/x"), Err(ImportEntryError::InvalidDeviceId)));
    match classify_import_entry("bad!/recipe.json") {
        Err(ImportEntryError::InvalidRecipeId(e)) => {
            assert_eq!(vec![NameValidationError::InvalidCharacter('!')], e)
        }
        other => panic!("unexpected {other:?}"),
    }
}

#[test]
fn archive_names_of_export() {
    let id = RecipeId::parse("r1").unwrap();
    let name = recipe_entry_name(&id);
    assert_eq!("r1/recipe.json", name);
    assert!(matches!(classify_import_entry(&name), Ok(ImportEntry::Recipe(_))));
    assert_eq!(
        Some("r1/dev/a.txt".to_string()),
        export_entry_path(&id, "/data/recipes", "/data/recipes/dev/a.txt")
    );
    assert_eq!(None, export_entry_path(&id, "/data/recipes", "/elsewhere/a.txt"));
    assert!(json_size_exceeded(MAX_JSON_FILE_SIZE));
    assert!(!json_size_exceeded(MAX_JSON_FILE_SIZE - 1));
}

#[test]
fn device_ids_as_text() {
    let id = DeviceId(0x0123456789abcdef0123456789abcdef);
    let text = id.to_text();
    assert_eq!("01234567-89ab-cdef-0123-456789abcdef", text);
    assert_eq!(Some(id), DeviceId::parse(&text));
    assert_eq!(None, DeviceId::parse("no uuid"));
    assert_eq!("00000000-0000-0000-0000-000000000000", DeviceId::nil().to_text());
    let random = DeviceId::new_v4();
    assert_eq!(4, (random.0 >> 76) & 0xf);
    assert_eq!(Some(random), DeviceId::parse(&random.to_text()));
}

#[test]
fn duplicate_devices_in_recipes() {
    let r1 = RecipeId::parse("r1").unwrap();
    let r2 = RecipeId::parse("r2").unwrap();
    let pairs = vec![(DeviceId(1), r1.clone()), (DeviceId(2), r1.clone())];
    assert!(error_for_duplicate_device(&pairs).is_ok());
    let pairs = vec![(DeviceId(1), r1.clone()), (DeviceId(2), r1.clone()), (DeviceId(1), r2.clone())];
    let e = error_for_duplicate_device(&pairs).err().unwrap();
    assert_eq!(DeviceId(1), e.device_id);
    assert_eq!("r2", e.recipe_id.as_str());
    assert_eq!("r1", e.other_recipe_id.as_str());
}

#[test]
fn duplicate_strategy_renames_copied_devices() {
    let mut d = Duplicate::new();
    assert!(d.renames("tmp").is_empty());
    d.record_duplicates(&vec![(DeviceId(1), DeviceId(2)), (DeviceId(1), DeviceId(3))]);
    let renames = d.renames("tmp");
    assert_eq!(
        vec![(
            "tmp/00000000-0000-0000-0000-000000000001".to_string(),
            "tmp/00000000-0000-0000-0000-000000000003".to_string()
        )],
        renames
    );
}

#[test]
fn replace_strategy_deletes_replaced_devices() {
    let mut r = Replace::new();
    r.record_replaced(&vec![DeviceId(1), DeviceId(1)]);
    assert_eq!(
        Some(vec!["recipes/00000000-0000-0000-0000-000000000001".to_string()]),
        r.deletion_candidates("recipes")
    );
    assert_eq!(None, r.deletion_candidates("/"));
    assert!(r.deletion_candidates("/data/recipes").is_some());
}

#[test]
fn device_files_are_paired_by_relative_path() {
    let backup = vec!["b/dev/z.txt".to_string(), "b/dev/a.txt".to_string()];
    let running = vec!["r/dev/a.txt".to_string(), "r/dev/z.txt".to_string()];
    match pair_device_files("b/dev", backup, "r/dev", running) {
        FilePairing::Compare(pairs) => assert_eq!(
            vec![
                ("b/dev/a.txt".to_string(), "r/dev/a.txt".to_string()),
                ("b/dev/z.txt".to_string(), "r/dev/z.txt".to_string())
            ],
            pairs
        ),
        other => panic!("unexpected {other:?}"),
    }
    assert!(matches!(
        pair_device_files("b", vec!["b/x".to_string()], "r", vec!["r/y".to_string()]),
        FilePairing::Differs
    ));
    assert!(matches!(
        pair_device_files("b", vec!["b/x".to_string()], "r", vec![]),
        FilePairing::Differs
    ));
    assert!(matches!(
        pair_device_files("b", vec!["c/x".to_string()], "r", vec!["r/x".to_string()]),
        FilePairing::OutsideRoot
    ));
    assert!(matches!(pair_device_files("b", vec![], "r", vec![]), FilePairing::Compare(p) if p.is_empty()));
}

#[test]
fn actor_errors_map_only_the_device_error() {
    let e: ActorError<i32> = ActorError::custom(4);
    assert_eq!(ActorError::Custom("4".to_string()), e.map_custom(|x| x.to_string()));
    let e: ActorError<i32> = ActorError::Timeout;
    assert_eq!(ActorError::<String>::Timeout, e.map_custom(|x| x.to_string()));
    let e: ActorError<i32> = ActorError::Busy(ActorErrorBusy::ExceededQueueCapacity(DeviceId(1)));
    assert_eq!(
        ActorError::<String>::Busy(ActorErrorBusy::ExceededQueueCapacity(DeviceId(1))),
        e.map_custom(|x| x.to_string())
    );
    let r: Result<u8, ActorError<i32>> = Err(ActorError::Custom(1));
    assert_eq!(Err(ActorError::Custom(2i64)), r.map_actor_error(|x| x as i64 + 1));
    let r: Result<u8, ActorError<i32>> = Ok(3);
    assert_eq!(Ok(3), r.map_actor_error(|x| x as i64));
}

#[test]
fn unknown_device_answer_names_the_nil_device() {
    let e: ActorError<()> = respond_with_unknown_device("gone".to_string());
    assert_eq!(
        ActorError::UnknownDevice(ActorErrorUnknownDevice::UnknownDeviceId {
            device_id: DeviceId(0),
            details: "gone".to_string()
        }),
        e
    );
}

#[test]
fn dynamic_identifiers() {
    assert_eq!(DynamicIdentifier::Unspecified, DynamicIdentifier::default());
    assert_eq!(DynamicIdentifier::Unspecified, DynamicIdentifier::from_device_id(None));
    let d = DynamicIdentifier::from_device_id(Some(DeviceId(8)));
    assert_eq!(DynamicIdentifier::DeviceId(DeviceId(8)), d);
    assert_eq!(Some(DeviceId(8)), d.device_id());
    let handler = WithAbort::new(|x: u8| x + 1);
    assert_eq!(3, (handler.handler())(2));
    let Step2(v) = Step2(5);
    assert_eq!(5, v);
}

#[test]
fn errors_of_starting_devices() {
    let e: StartDeviceError<String> = StartDeviceError::from_spawn_error(SpawnError::Validation("bad".to_string()));
    assert!(matches!(e, StartDeviceError::Validation(ref s) if s == "bad"));
    let e: ChangeDeviceParamsTransactionError<&str> = ChangeDeviceParamsTransactionError::from_transaction("t");
    assert!(matches!(e, ChangeDeviceParamsTransactionError::Transaction("t")));
    let s = ActiveState::new(vec![1, 2], true);
    assert_eq!(&vec![1, 2], s.recipes());
    assert!(s.has_uncommitted_changes());
}

#[test]
fn numbers_are_parsed_like_std() {
    assert_eq!(Some(42), parse_i32_str("42"));
    assert_eq!(Some(-7), parse_i32_str("-7"));
    assert_eq!(Some(5), parse_i32_str("+5"));
    assert_eq!(None, parse_i32_str("2147483648"));
    assert_eq!(Some(i32::MIN), parse_i32_str("-2147483648"));
    assert_eq!(None, parse_i32_str(""));
    assert_eq!(None, parse_i32_str("1a"));
}

#[test]
fn recipe_runner_shares_its_implementation() {
    let runner = pilatus::runner::RecipeRunner::new(std::sync::Arc::new(17u8));
    let copy = runner.clone();
    assert_eq!(17, **copy.inner());
    assert!(std::sync::Arc::ptr_eq(runner.inner(), copy.inner()));
}
