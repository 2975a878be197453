use vstd::prelude::*;
use vstd::string::*;

verus! {

/// A JSON document as device parameters hold it. Objects keep their entries in
/// the order of their keys; numbers are kept as their JSON text, since the
/// parameter logic never reads them.
#[derive(Debug)]
pub enum JsonValue {
    Null,
    Bool(bool),
    Number(String),
    String(String),
    Array(Vec<JsonValue>),
    Object(Vec<(String, JsonValue)>),
}

/// The key that marks an object as a reference to a variable.
pub open spec fn var_keyword() -> Seq<char> {
    seq!['_', '_', 'v', 'a', 'r']
}

/// The value stored under `key` in the entries of an object.
pub open spec fn entries_get(entries: Seq<(String, JsonValue)>, key: Seq<char>) -> Option<JsonValue>
    decreases entries.len(),
{
    if entries.len() == 0 {
        None
    } else if entries[0].0@ == key {
        Some(entries[0].1)
    } else {
        entries_get(entries.drop_first(), key)
    }
}

/// Whether the value under `__var` names a variable: a non-empty string.
pub open spec fn is_variable_name(v: JsonValue) -> bool {
    v matches JsonValue::String(s) && s@.len() > 0
}

/// The first malformed variable reference in `v`, in document order: an object
/// with a `__var` key that has other keys too or whose `__var` is not a non-empty string.
pub open spec fn first_invalid(v: JsonValue) -> Option<JsonValue>
    decreases v, 0int,
{
    match v {
        JsonValue::Array(list) => first_invalid_in_list(list@),
        JsonValue::Object(entries) => match entries_get(entries@, var_keyword()) {
            Some(var_name) => if entries@.len() > 1 || !is_variable_name(var_name) {
                Some(v)
            } else {
                None
            },
            None => first_invalid_in_entries(entries@),
        },
        _ => None,
    }
}

/// The first malformed variable reference in the elements of a list.
pub open spec fn first_invalid_in_list(list: Seq<JsonValue>) -> Option<JsonValue>
    decreases list, 1int,
{
    if list.len() == 0 {
        None
    } else {
        match first_invalid_in_list(list.drop_last()) {
            Some(e) => Some(e),
            None => first_invalid(list.last()),
        }
    }
}

/// The first malformed variable reference in the values of an object.
pub open spec fn first_invalid_in_entries(entries: Seq<(String, JsonValue)>) -> Option<JsonValue>
    decreases entries, 1int,
{
    if entries.len() == 0 {
        None
    } else {
        match first_invalid_in_entries(entries.drop_last()) {
            Some(e) => Some(e),
            None => first_invalid(entries.last().1),
        }
    }
}


proof fn lemma_first_invalid_in_list_prefix(list: Seq<JsonValue>, k: int)
    requires
        0 <= k <= list.len(),
        first_invalid_in_list(list.take(k)) is Some,
    ensures
        first_invalid_in_list(list) == first_invalid_in_list(list.take(k)),
    decreases list.len(),
{
    if k == list.len() {
        assert(list.take(k) =~= list);
    } else {
        assert(list.drop_last().take(k) =~= list.take(k));
        lemma_first_invalid_in_list_prefix(list.drop_last(), k);
    }
}

proof fn lemma_first_invalid_in_entries_prefix(entries: Seq<(String, JsonValue)>, k: int)
    requires
        0 <= k <= entries.len(),
        first_invalid_in_entries(entries.take(k)) is Some,
    ensures
        first_invalid_in_entries(entries) == first_invalid_in_entries(entries.take(k)),
    decreases entries.len(),
{
    if k == entries.len() {
        assert(entries.take(k) =~= entries);
    } else {
        assert(entries.drop_last().take(k) =~= entries.take(k));
        lemma_first_invalid_in_entries_prefix(entries.drop_last(), k);
    }
}

/// The value under `key` is that of the first entry with that key.
pub proof fn lemma_entries_get_first(entries: Seq<(String, JsonValue)>, key: Seq<char>, i: int)
    requires
        0 <= i <= entries.len(),
        forall|j: int| 0 <= j < i ==> (#[trigger] entries[j]).0@ != key,
    ensures
        i < entries.len() && entries[i].0@ == key ==> entries_get(entries, key) == Some(entries[i].1),
        i == entries.len() ==> entries_get(entries, key) is None,
    decreases i,
{
    if i > 0 {
        assert(entries[0].0@ != key);
        assert forall|j: int| 0 <= j < i - 1 implies (#[trigger] entries.drop_first()[j]).0@ != key by {
            assert(entries.drop_first()[j] == entries[j + 1]);
        }
        lemma_entries_get_first(entries.drop_first(), key, i - 1);
    }
}

/// The position of the first entry with `key`.
pub fn entry_index(entries: &Vec<(String, JsonValue)>, key: &str) -> (r: Option<usize>)
    ensures
        match r {
            Some(i) => i < entries@.len() && entries@[i as int].0@ == key@ && entries_get(entries@, key@)
                == Some(entries@[i as int].1) && forall|j: int| 0 <= j < i ==> (#[trigger] entries@[j]).0@ != key@,
            None => entries_get(entries@, key@) is None && forall|j: int|
                0 <= j < entries@.len() ==> (#[trigger] entries@[j]).0@ != key@,
        },
{
    let mut i: usize = 0;
    while i < entries.len()
        invariant
            i <= entries@.len(),
            forall|j: int| 0 <= j < i ==> (#[trigger] entries@[j]).0@ != key@,
        decreases entries.len() - i,
    {
        if crate::text::str_equal(entries[i].0.as_str(), key) {
            proof {
                lemma_entries_get_first(entries@, key@, i as int);
            }
            return Some(i);
        }
        i = i + 1;
    }
    proof {
        lemma_entries_get_first(entries@, key@, i as int);
    }
    None
}

proof fn lemma_entries_valid_iff(entries: Seq<(String, JsonValue)>)
    ensures
        (first_invalid_in_entries(entries) is None) <==> forall|i: int|
            0 <= i < entries.len() ==> (#[trigger] first_invalid(entries[i].1)) is None,
        forall|k: int|
            0 <= k < entries.len() && (forall|i: int| 0 <= i < k ==> (#[trigger] first_invalid(entries[i].1)) is None)
                && first_invalid(entries[k].1) is Some ==> first_invalid_in_entries(entries) == first_invalid(
                entries[k].1,
            ),
    decreases entries.len(),
{
    if entries.len() > 0 {
        let init = entries.drop_last();
        lemma_entries_valid_iff(init);
        assert forall|i: int| 0 <= i < init.len() implies init[i] == entries[i] by {}
        assert forall|k: int|
            0 <= k < entries.len() && (forall|i: int| 0 <= i < k ==> (#[trigger] first_invalid(entries[i].1)) is None)
                && first_invalid(entries[k].1) is Some implies first_invalid_in_entries(entries) == first_invalid(
            entries[k].1,
        ) by {
            if k < entries.len() - 1 {
                assert(init[k] == entries[k]);
                assert forall|i: int| 0 <= i < k implies (#[trigger] first_invalid(init[i].1)) is None by {
                    assert(init[i] == entries[i]);
                }
            } else {
                assert forall|i: int| 0 <= i < init.len() implies (#[trigger] first_invalid(init[i].1)) is None by {
                    assert(init[i] == entries[i]);
                }
            }
        }
        if first_invalid_in_entries(entries) is None {
            assert forall|i: int| 0 <= i < entries.len() implies (#[trigger] first_invalid(entries[i].1)) is None by {
                if i < entries.len() - 1 {
                    assert(init[i] == entries[i]);
                }
            }
        }
    }
}

/// An object without a `__var` key is malformed exactly when one of its values is,
/// and then its first malformed reference is that of the first malformed value.
pub proof fn lemma_object_checked_through_values(entries: Vec<(String, JsonValue)>)
    requires
        entries_get(entries@, seq!['_', '_', 'v', 'a', 'r']) is None,
    ensures
        (first_invalid(JsonValue::Object(entries)) is None) <==> forall|i: int|
            0 <= i < entries@.len() ==> (#[trigger] first_invalid(entries@[i].1)) is None,
        forall|k: int|
            0 <= k < entries@.len() && (forall|i: int| 0 <= i < k ==> (#[trigger] first_invalid(entries@[i].1)) is None)
                && first_invalid(entries@[k].1) is Some ==> first_invalid(JsonValue::Object(entries))
                == first_invalid(entries@[k].1),
{
    assert(var_keyword() =~= seq!['_', '_', 'v', 'a', 'r']);
    lemma_entries_valid_iff(entries@);
}

proof fn lemma_list_valid_iff(list: Seq<JsonValue>)
    ensures
        (first_invalid_in_list(list) is None) <==> forall|i: int|
            0 <= i < list.len() ==> (#[trigger] first_invalid(list[i])) is None,
        forall|k: int|
            0 <= k < list.len() && (forall|i: int| 0 <= i < k ==> (#[trigger] first_invalid(list[i])) is None)
                && first_invalid(list[k]) is Some ==> first_invalid_in_list(list) == first_invalid(list[k]),
    decreases list.len(),
{
    if list.len() > 0 {
        let init = list.drop_last();
        lemma_list_valid_iff(init);
        assert forall|k: int|
            0 <= k < list.len() && (forall|i: int| 0 <= i < k ==> (#[trigger] first_invalid(list[i])) is None)
                && first_invalid(list[k]) is Some implies first_invalid_in_list(list) == first_invalid(list[k]) by {
            if k < list.len() - 1 {
                assert(init[k] == list[k]);
                assert forall|i: int| 0 <= i < k implies (#[trigger] first_invalid(init[i])) is None by {
                    assert(init[i] == list[i]);
                }
            } else {
                assert forall|i: int| 0 <= i < init.len() implies (#[trigger] first_invalid(init[i])) is None by {
                    assert(init[i] == list[i]);
                }
            }
        }
        if first_invalid_in_list(list) is None {
            assert forall|i: int| 0 <= i < list.len() implies (#[trigger] first_invalid(list[i])) is None by {
                if i < list.len() - 1 {
                    assert(init[i] == list[i]);
                }
            }
        }
    }
}

/// An array is malformed exactly when one of its elements is, whatever kind of
/// value each element is, and then its first malformed reference is that of the
/// first malformed element.
pub proof fn lemma_array_checked_through_elements(list: Vec<JsonValue>)
    ensures
        (first_invalid(JsonValue::Array(list)) is None) <==> forall|i: int|
            0 <= i < list@.len() ==> (#[trigger] first_invalid(list@[i])) is None,
        forall|k: int|
            0 <= k < list@.len() && (forall|i: int| 0 <= i < k ==> (#[trigger] first_invalid(list@[i])) is None)
                && first_invalid(list@[k]) is Some ==> first_invalid(JsonValue::Array(list)) == first_invalid(
                list@[k],
            ),
{
    lemma_list_valid_iff(list@);
}

/// The variable names of an array are those of its elements, one after the other,
/// whatever kind of value each element is: an empty array has none, and appending
/// `x` appends the names of `x`.
pub proof fn lemma_array_names_concatenate(a: Vec<JsonValue>, b: Vec<JsonValue>, x: JsonValue)
    requires
        b@ == a@.push(x),
    ensures
        var_names(JsonValue::Array(b)) == var_names(JsonValue::Array(a)) + var_names(x),
        a@.len() == 0 ==> var_names(JsonValue::Array(a)) == Seq::<Seq<char>>::empty(),
{
    assert(b@.drop_last() =~= a@);
    assert(b@.last() == x);
}

/// The variable names of an object without a `__var` key are those of its values, one
/// after the other: appending an entry appends the names of its value.
pub proof fn lemma_object_names_concatenate(
    a: Vec<(String, JsonValue)>,
    b: Vec<(String, JsonValue)>,
    e: (String, JsonValue),
)
    requires
        b@ == a@.push(e),
        entries_get(b@, seq!['_', '_', 'v', 'a', 'r']) is None,
    ensures
        entries_get(a@, seq!['_', '_', 'v', 'a', 'r']) is None,
        var_names(JsonValue::Object(b)) == var_names(JsonValue::Object(a)) + var_names(e.1),
{
    assert(var_keyword() =~= seq!['_', '_', 'v', 'a', 'r']);
    assert(b@.drop_last() =~= a@);
    assert(b@.last() == e);
    lemma_entries_get_prefix_none(b@, a@.len() as int, var_keyword());
}

/// A key that no entry has is not found in a prefix either.
proof fn lemma_entries_get_prefix_none(entries: Seq<(String, JsonValue)>, n: int, key: Seq<char>)
    requires
        0 <= n <= entries.len(),
        entries_get(entries, key) is None,
    ensures
        entries_get(entries.take(n), key) is None,
    decreases entries.len(),
{
    if n > 0 {
        assert(entries.take(n)[0] == entries[0]);
        assert(entries.take(n).drop_first() =~= entries.drop_first().take(n - 1));
        lemma_entries_get_prefix_none(entries.drop_first(), n - 1, key);
    }
}

/// Whether `key` is the text `__var`.
fn is_var_keyword(key: &String) -> (r: bool)
    ensures
        r == (key@ == var_keyword()),
{
    let s = key.as_str();
    if s.unicode_len() != 5 {
        return false;
    }
    let r = s.get_char(0) == '_' && s.get_char(1) == '_' && s.get_char(2) == 'v' && s.get_char(3)
        == 'a' && s.get_char(4) == 'r';
    assert(r ==> s@ =~= var_keyword());
    r
}

/// The value stored under `__var` in the entries of an object.
fn get_var_entry(entries: &Vec<(String, JsonValue)>) -> (r: Option<&JsonValue>)
    ensures
        match r {
            Some(x) => entries_get(entries@, var_keyword()) == Some(*x),
            None => entries_get(entries@, var_keyword()) is None,
        },
{
    let mut i: usize = 0;
    assert(entries@.skip(0) =~= entries@);
    while i < entries.len()
        invariant
            i <= entries@.len(),
            entries_get(entries@, var_keyword()) == entries_get(entries@.skip(i as int), var_keyword()),
        decreases entries.len() - i,
    {
        assert(entries@.skip(i as int)[0] == entries@[i as int]);
        if is_var_keyword(&entries[i].0) {
            return Some(&entries[i].1);
        }
        assert(entries@.skip(i as int).drop_first() =~= entries@.skip(i + 1));
        i = i + 1;
    }
    None
}

/// Checks that every object with a `__var` key has no other key and a non-empty
/// string under `__var`; otherwise returns the first object, in document order, that does not.
#[verifier::loop_isolation(false)]
pub fn check_recursive(v: &JsonValue) -> (r: Result<(), &JsonValue>)
    ensures
        match r {
            Ok(()) => first_invalid(*v) is None,
            Err(e) => first_invalid(*v) == Some(*e),
        },
    decreases v,
{
    match v {
        JsonValue::Array(list) => {
            let mut i: usize = 0;
            assert(list@.take(0) =~= seq![]);
            while i < list.len()
                invariant
                    i <= list@.len(),
                    first_invalid_in_list(list@.take(i as int)) is None,
                decreases list.len() - i,
            {
                assert(list@.take(i + 1).drop_last() =~= list@.take(i as int));
                proof {
                    assert(decreases_to!(*v => list@[i as int]));
                }
                match check_recursive(&list[i]) {
                    Ok(()) => {},
                    Err(e) => {
                        assert(list@.take(i + 1).last() == list@[i as int]);
                        assert(first_invalid_in_list(list@.take(i + 1)) == Some(*e));
                        proof {
                            lemma_first_invalid_in_list_prefix(list@, i + 1);
                        }
                        return Err(e);
                    },
                }
                i = i + 1;
            }
            assert(list@.take(list@.len() as int) =~= list@);
            Ok(())
        },
        JsonValue::Object(entries) => {
            match get_var_entry(entries) {
                Some(var_name) => {
                    let named = match var_name {
                        JsonValue::String(x) => x.as_str().unicode_len() > 0,
                        _ => false,
                    };
                    if entries.len() > 1 || !named {
                        Err(v)
                    } else {
                        Ok(())
                    }
                },
                None => {
                    let mut i: usize = 0;
                    assert(entries@.take(0) =~= seq![]);
                    while i < entries.len()
                        invariant
                            i <= entries@.len(),
                            first_invalid_in_entries(entries@.take(i as int)) is None,
                        decreases entries.len() - i,
                    {
                        assert(entries@.take(i + 1).drop_last() =~= entries@.take(i as int));
                        proof {
                            assert(decreases_to!(*v => entries@[i as int].1));
                        }
                        match check_recursive(&entries[i].1) {
                            Ok(()) => {},
                            Err(e) => {
                                assert(entries@.take(i + 1).last() == entries@[i as int]);
                                assert(first_invalid_in_entries(entries@.take(i + 1)) == Some(*e));
                                proof {
                                    lemma_first_invalid_in_entries_prefix(entries@, i + 1);
                                }
                                return Err(e);
                            },
                        }
                        i = i + 1;
                    }
                    assert(entries@.take(entries@.len() as int) =~= entries@);
                    Ok(())
                },
            }
        },
        _ => Ok(()),
    }
}


/// The names of all variables that `v` refers to, in document order: the string
/// under `__var` of every object that has that key with a string value.
pub open spec fn var_names(v: JsonValue) -> Seq<Seq<char>>
    decreases v, 0int,
{
    match v {
        JsonValue::Array(list) => var_names_in_list(list@),
        JsonValue::Object(entries) => match entries_get(entries@, var_keyword()) {
            Some(JsonValue::String(x)) => seq![x@],
            _ => var_names_in_entries(entries@),
        },
        _ => seq![],
    }
}

/// The variable names in the elements of a list.
pub open spec fn var_names_in_list(list: Seq<JsonValue>) -> Seq<Seq<char>>
    decreases list, 1int,
{
    if list.len() == 0 {
        seq![]
    } else {
        var_names_in_list(list.drop_last()) + var_names(list.last())
    }
}

/// The variable names in the values of an object.
pub open spec fn var_names_in_entries(entries: Seq<(String, JsonValue)>) -> Seq<Seq<char>>
    decreases entries, 1int,
{
    if entries.len() == 0 {
        seq![]
    } else {
        var_names_in_entries(entries.drop_last()) + var_names(entries.last().1)
    }
}

/// A `smallvec::SmallVec` of names, the buffer in which variable names are
/// collected. Verus refuses to declare `SmallVec` itself (its parameter is
/// bounded by a trait of `smallvec`), so the vector is held here, hidden.
#[verifier::external_body]
pub struct NameList {
    inner: smallvec::SmallVec<[String; 8]>,
}

/// The names, as text, that a small vector of names holds, in order.
pub uninterp spec fn name_list_contents(v: NameList) -> Seq<Seq<char>>;

/// Calls `smallvec::SmallVec::new`: the new vector holds no names.
#[verifier::external_body]
fn name_list_new() -> (r: NameList)
    ensures
        name_list_contents(r) == Seq::<Seq<char>>::empty(),
{
    NameList { inner: smallvec::SmallVec::new() }
}

/// Calls `smallvec::SmallVec::push`: the name is appended at the end.
#[verifier::external_body]
fn name_list_push(v: &mut NameList, name: String)
    ensures
        name_list_contents(*final(v)) == name_list_contents(*old(v)).push(name@),
{
    v.inner.push(name)
}

/// Calls `smallvec::SmallVec::into_vec`: the same names, in the same order.
#[verifier::external_body]
fn name_list_into_vec(v: NameList) -> (r: Vec<String>)
    ensures
        r@.map_values(|s: String| s@) == name_list_contents(v),
{
    v.inner.into_vec()
}

/// Appends the names of the variables that `value` refers to.
#[verifier::loop_isolation(false)]
fn add_variable_names(value: &JsonValue, found: &mut NameList)
    ensures
        name_list_contents(*final(found)) == name_list_contents(*old(found)) + var_names(*value),
    decreases value,
{
    match value {
        JsonValue::Array(list) => {
            let ghost start = name_list_contents(*found);
            let mut i: usize = 0;
            assert(list@.take(0) =~= seq![]);
            assert(start + var_names_in_list(list@.take(0)) =~= start);
            while i < list.len()
                invariant
                    i <= list@.len(),
                    name_list_contents(*found) == start + var_names_in_list(list@.take(i as int)),
                decreases list.len() - i,
            {
                assert(list@.take(i + 1).drop_last() =~= list@.take(i as int));
                assert(list@.take(i + 1).last() == list@[i as int]);
                proof {
                    assert(decreases_to!(*value => list@[i as int]));
                }
                add_variable_names(&list[i], found);
                i = i + 1;
                assert(name_list_contents(*found) =~= start + var_names_in_list(list@.take(i as int)));
            }
            assert(list@.take(list@.len() as int) =~= list@);
        },
        JsonValue::Object(entries) => {
            match get_var_entry(entries) {
                Some(JsonValue::String(x)) => {
                    name_list_push(found, x.clone());
                },
                _ => {
                    let ghost start = name_list_contents(*found);
                    let mut i: usize = 0;
                    assert(entries@.take(0) =~= seq![]);
                    assert(start + var_names_in_entries(entries@.take(0)) =~= start);
                    while i < entries.len()
                        invariant
                            i <= entries@.len(),
                            name_list_contents(*found) == start + var_names_in_entries(
                                entries@.take(i as int),
                            ),
                        decreases entries.len() - i,
                    {
                        assert(entries@.take(i + 1).drop_last() =~= entries@.take(i as int));
                        assert(entries@.take(i + 1).last() == entries@[i as int]);
                        proof {
                            assert(decreases_to!(*value => entries@[i as int].1));
                        }
                        add_variable_names(&entries[i].1, found);
                        i = i + 1;
                        assert(name_list_contents(*found) =~= start + var_names_in_entries(
                            entries@.take(i as int),
                        ));
                    }
                    assert(entries@.take(entries@.len() as int) =~= entries@);
                },
            }
        },
        _ => {
            assert(name_list_contents(*found) =~= name_list_contents(*found) + var_names(*value));
        },
    }
}

/// Whether two JSON documents are the same: same kind, same texts, and the same
/// elements or entries in the same order.
pub open spec fn json_equal(a: JsonValue, b: JsonValue) -> bool
    decreases a,
{
    match (a, b) {
        (JsonValue::Null, JsonValue::Null) => true,
        (JsonValue::Bool(x), JsonValue::Bool(y)) => x == y,
        (JsonValue::Number(x), JsonValue::Number(y)) => x@ == y@,
        (JsonValue::String(x), JsonValue::String(y)) => x@ == y@,
        (JsonValue::Array(x), JsonValue::Array(y)) => x@.len() == y@.len() && forall|i: int|
            0 <= i < x@.len() ==> json_equal(#[trigger] x@[i], y@[i]),
        (JsonValue::Object(x), JsonValue::Object(y)) => x@.len() == y@.len() && forall|i: int|
            0 <= i < x@.len() ==> (#[trigger] x@[i]).0@ == y@[i].0@ && json_equal(x@[i].1, y@[i].1),
        _ => false,
    }
}

/// A copy of a JSON document.
#[verifier::loop_isolation(false)]
pub fn json_copy(v: &JsonValue) -> (r: JsonValue)
    ensures
        json_equal(r, *v),
    decreases v,
{
    match v {
        JsonValue::Null => JsonValue::Null,
        JsonValue::Bool(b) => JsonValue::Bool(*b),
        JsonValue::Number(n) => JsonValue::Number(n.clone()),
        JsonValue::String(x) => JsonValue::String(x.clone()),
        JsonValue::Array(list) => {
            let mut out: Vec<JsonValue> = Vec::new();
            let mut i: usize = 0;
            while i < list.len()
                invariant
                    i <= list@.len(),
                    out@.len() == i,
                    forall|j: int| 0 <= j < i ==> json_equal(#[trigger] out@[j], list@[j]),
                decreases list.len() - i,
            {
                proof {
                    assert(decreases_to!(*v => list@[i as int]));
                }
                let e = json_copy(&list[i]);
                out.push(e);
                i = i + 1;
            }
            JsonValue::Array(out)
        },
        JsonValue::Object(entries) => {
            let mut out: Vec<(String, JsonValue)> = Vec::new();
            let mut i: usize = 0;
            while i < entries.len()
                invariant
                    i <= entries@.len(),
                    out@.len() == i,
                    forall|j: int|
                        0 <= j < i ==> (#[trigger] out@[j]).0@ == entries@[j].0@ && json_equal(
                            out@[j].1,
                            entries@[j].1,
                        ),
                decreases entries.len() - i,
            {
                proof {
                    assert(decreases_to!(*v => entries@[i as int].1));
                }
                let key = entries[i].0.clone();
                let e = json_copy(&entries[i].1);
                out.push((key, e));
                i = i + 1;
            }
            JsonValue::Object(out)
        },
    }
}

/// Device parameters that may refer to variables. Every object with a `__var`
/// key has no other key and a non-empty string under it.
#[derive(Debug)]
pub struct UntypedDeviceParamsWithVariables {
    value: JsonValue,
}

impl UntypedDeviceParamsWithVariables {
    /// The JSON document.
    pub closed spec fn spec_value(&self) -> JsonValue {
        self.value
    }

    #[verifier::type_invariant]
    closed spec fn inv(self) -> bool {
        first_invalid(self.value) is None
    }

    /// Accepts `value` when all its variable references are well formed;
    /// otherwise gives it back.
    pub fn from_value(value: JsonValue) -> (r: Result<UntypedDeviceParamsWithVariables, JsonValue>)
        ensures
            r is Ok <==> first_invalid(value) is None,
            r matches Ok(p) ==> p.spec_value() == value,
            r matches Err(v) ==> v == value,
    {
        let ok = check_recursive(&value).is_ok();
        if ok {
            Ok(UntypedDeviceParamsWithVariables { value })
        } else {
            Err(value)
        }
    }

    /// The JSON document.
    pub fn value(&self) -> (r: &JsonValue)
        ensures
            *r == self.spec_value(),
            first_invalid(*r) is None,
    {
        proof {
            use_type_invariant(self);
        }
        &self.value
    }

    /// Gives the JSON document back.
    pub fn into_value(self) -> (r: JsonValue)
        ensures
            r == self.spec_value(),
    {
        self.value
    }

    /// The names of the variables these parameters refer to, in document order.
    pub fn variables_names(&self) -> (r: Vec<String>)
        ensures
            r@.map_values(|s: String| s@) == var_names(self.spec_value()),
    {
        let mut found = name_list_new();
        add_variable_names(&self.value, &mut found);
        assert(name_list_contents(found) =~= var_names(self.value));
        name_list_into_vec(found)
    }
}

} // verus!
