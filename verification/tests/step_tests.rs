use pilatus::archive::{export_variables, ImportState, VariablesError};
use pilatus::device::DeviceId;
use pilatus::import::{import_decision, ImportDecision};
use pilatus::name::RecipeId;
use pilatus::params::{json_copy, JsonValue};
use pilatus::recipe::params_update_plan;
use pilatus::runner::stopped_message;

fn id(s: &str) -> RecipeId {
    RecipeId::parse(s).unwrap()
}

#[test]
fn import_of_the_active_recipe_is_refused() {
    let d = import_decision(&id("a"), &vec![id("b"), id("a")], vec![id("b")], vec![], &vec![]);
    assert!(matches!(d, ImportDecision::ContainsActiveRecipe));
}

#[test]
fn import_conflicts_are_reported() {
    match import_decision(&id("a"), &vec![id("b")], vec![id("b")], vec!["v".to_string()], &vec![]) {
        ImportDecision::Conflicts { failed, variable_conflicts } => {
            assert_eq!("b", failed[0].as_str());
            assert_eq!(vec!["v".to_string()], variable_conflicts);
        }
        other => panic!("unexpected {other:?}"),
    }
}

#[test]
fn import_with_duplicate_devices_is_refused_else_finalized() {
    let pairs = vec![(DeviceId(1), id("a")), (DeviceId(1), id("b"))];
    match import_decision(&id("x"), &vec![id("b")], vec![], vec![], &pairs) {
        ImportDecision::DuplicateDevice(e) => {
            assert_eq!(DeviceId(1), e.device_id);
            assert_eq!("b", e.recipe_id.as_str());
            assert_eq!("a", e.other_recipe_id.as_str());
        }
        other => panic!("unexpected {other:?}"),
    }
    let pairs = vec![(DeviceId(1), id("a")), (DeviceId(2), id("b"))];
    assert!(matches!(import_decision(&id("x"), &vec![id("b")], vec![], vec![], &pairs), ImportDecision::Finalize));
}

#[test]
fn exported_variables_are_resolved_once() {
    let known = vec![
        ("a".to_string(), JsonValue::Number("1".to_string())),
        ("b".to_string(), JsonValue::String("x".to_string())),
        ("a".to_string(), JsonValue::Null),
    ];
    let used = vec!["b".to_string(), "a".to_string(), "b".to_string()];
    let v = export_variables(&used, &known).unwrap();
    assert_eq!(2, v.len());
    assert_eq!("b", v[0].0);
    assert!(matches!(&v[0].1, JsonValue::String(s) if s == "x"));
    assert_eq!("a", v[1].0);
    assert!(matches!(&v[1].1, JsonValue::Number(n) if n == "1"));
    assert_eq!(Err("c".to_string()), export_variables(&vec!["a".to_string(), "c".to_string()], &known).map(|_| ()));
}

#[test]
fn variable_changes_split_by_active_recipe() {
    let usages = vec![
        (id("a"), "cam".to_string(), DeviceId(1)),
        (id("b"), "cam".to_string(), DeviceId(2)),
    ];
    let (others, update_active) = params_update_plan(&id("a"), usages, false);
    assert_eq!(1, others.len());
    assert_eq!("b", others[0].0.as_str());
    assert!(update_active);
    let (others, update_active) = params_update_plan(&id("z"), vec![(id("b"), "t".to_string(), DeviceId(3))], false);
    assert_eq!(1, others.len());
    assert!(!update_active);
    assert!(params_update_plan(&id("z"), vec![], true).1);
}

#[test]
fn stopped_messages_name_or_count_the_rest() {
    let one = vec![(DeviceId(2), "baz".to_string())];
    assert_eq!(
        "Device 00000000-0000-0000-0000-000000000001 of Type 'foo' stopped, 1 remaining ((00000000-0000-0000-0000-000000000002, \"baz\"))",
        stopped_message(DeviceId(1), "foo", &one)
    );
    assert_eq!(
        "Device 00000000-0000-0000-0000-000000000001 of Type 'foo' stopped, 0 remaining",
        stopped_message(DeviceId(1), "foo", &vec![])
    );
    let two = vec![(DeviceId(2), "a".to_string()), (DeviceId(3), "b".to_string())];
    assert!(stopped_message(DeviceId(1), "foo", &two).ends_with("stopped, 2 remaining"));
}

#[test]
fn import_state_keeps_last_variables_and_one_recipe_per_id() {
    let mut s: ImportState<u8, u8, String> = ImportState::new();
    s.add_recipe(id("a"), 1);
    s.add_recipe(id("b"), 2);
    s.add_recipe(id("a"), 3);
    s.set_variables(Err("bad".to_string()));
    s.set_variables(Ok(9));
    let (recipes, vars) = s.finish().ok().unwrap();
    assert_eq!(9, vars);
    assert_eq!(2, recipes.len());
    assert!(recipes.iter().any(|(r, v)| r.as_str() == "a" && *v == 3));
    let missing: ImportState<u8, u8, String> = ImportState::new();
    assert!(matches!(missing.finish(), Err(VariablesError::Missing)));
    let mut invalid: ImportState<u8, u8, String> = ImportState::new();
    invalid.set_variables(Ok(1));
    invalid.set_variables(Err("bad".to_string()));
    assert!(matches!(invalid.finish(), Err(VariablesError::Invalid(e)) if e == "bad"));
}

#[test]
fn json_documents_are_copied() {
    let v = JsonValue::Array(vec![JsonValue::Bool(true), JsonValue::Object(vec![("k".to_string(), JsonValue::Null)])]);
    let c = json_copy(&v);
    assert_eq!(format!("{v:?}"), format!("{c:?}"));
}
