use vstd::prelude::*;

use crate::config::{path_component_seq, path_component_texts, path_join, path_joined, path_strip_prefix, path_stripped};
use crate::device::{uuid_parsed, DeviceId};
use crate::name::{is_valid_name, name_errors, NameValidationError, RecipeId};
use crate::params::{entries_get, entry_index, json_copy, json_equal, JsonValue};
use crate::text::str_equal;

verus! {

/// The largest JSON file of an archive that is read, in bytes.
pub const MAX_JSON_FILE_SIZE: usize = 104857600;

/// An entry of a recipe archive, by its name: the variables, the recipe of a recipe
/// folder, or a file of a device of a recipe.
#[derive(Debug)]
pub enum ImportEntry {
    Variables,
    Recipe(RecipeId),
    /// `folder` is the device folder's name as the entry writes it, `device_id` what it reads as.
    DeviceFile { recipe_id: RecipeId, device_id: DeviceId, folder: String, relative: Vec<String> },
}

/// Why the name of an archive entry is refused.
#[derive(Debug)]
pub enum ImportEntryError {
    /// Only the variables may stand outside a recipe folder.
    NotInSubfolder,
    /// The recipe folder's name is no valid recipe id.
    InvalidRecipeId(Vec<NameValidationError>),
    /// The folder below a recipe folder is no device id.
    InvalidDeviceId,
    /// The recipe's own files, other than `recipe.json`, must be in a device folder.
    NotInDeviceFolder(RecipeId),
    /// The path of a device file is not a file path below the device folder: it is
    /// empty or leads out of the folder with `..`.
    InvalidDevicePath,
}

/// Whether `rest` is the path of a file below a device folder: at least one
/// component, and none of them `..`.
pub open spec fn is_device_file_path(rest: Seq<Seq<char>>) -> bool {
    rest.len() > 0 && !rest.contains(".."@)
}

/// What an archive entry named `filename` is, given the components of its path.
pub open spec fn entry_outcome(filename: Seq<char>, r: Result<ImportEntry, ImportEntryError>) -> bool {
    let comps = path_component_seq(filename);
    if filename == "variables.json"@ {
        r matches Ok(ImportEntry::Variables)
    } else if comps.len() == 0 {
        r matches Err(ImportEntryError::NotInSubfolder)
    } else if !is_valid_name(comps[0]) {
        r matches Err(ImportEntryError::InvalidRecipeId(e)) && e@ == name_errors(comps[0])
    } else if comps.len() == 1 {
        r matches Err(ImportEntryError::NotInDeviceFolder(id)) && id@ == comps[0]
    } else if comps[1] == "recipe.json"@ && comps.len() == 2 {
        r matches Ok(ImportEntry::Recipe(id)) && id@ == comps[0]
    } else if uuid_parsed(comps[1]) is None {
        r matches Err(ImportEntryError::InvalidDeviceId)
    } else if !is_device_file_path(comps.skip(2)) {
        r matches Err(ImportEntryError::InvalidDevicePath)
    } else {
        r matches Ok(ImportEntry::DeviceFile { recipe_id, device_id, folder, relative }) && recipe_id@
            == comps[0] && device_id == DeviceId(uuid_parsed(comps[1])->Some_0) && folder@ == comps[1]
            && relative@.map_values(|c: String| c@) == comps.skip(2)
    }
}

/// Tells what an archive entry is by its name: `variables.json` at the top, else
/// `<recipe id>/recipe.json`, else `<recipe id>/<device id>/<path of the file>`.
#[verifier::loop_isolation(false)]
pub fn classify_import_entry(filename: &str) -> (r: Result<ImportEntry, ImportEntryError>)
    ensures
        entry_outcome(filename@, r),
{
    if str_equal(filename, "variables.json") {
        return Ok(ImportEntry::Variables);
    }
    let mut comps = path_component_texts(filename);
    let ghost all = comps@.map_values(|c: String| c@);
    if comps.len() == 0 {
        return Err(ImportEntryError::NotInSubfolder);
    }
    let first = comps.remove(0);
    assert(first@ == all[0]);
    let recipe_id = match RecipeId::parse(first.as_str()) {
        Ok(id) => id,
        Err(e) => {
            return Err(ImportEntryError::InvalidRecipeId(e));
        },
    };
    if comps.len() == 0 {
        return Err(ImportEntryError::NotInDeviceFolder(recipe_id));
    }
    let second = comps.remove(0);
    assert(second@ == all[1]);
    if str_equal(second.as_str(), "recipe.json") && comps.len() == 0 {
        return Ok(ImportEntry::Recipe(recipe_id));
    }
    match DeviceId::parse(second.as_str()) {
        None => Err(ImportEntryError::InvalidDeviceId),
        Some(device_id) => {
            assert(comps@.map_values(|c: String| c@) =~= all.skip(2));
            if comps.len() == 0 {
                return Err(ImportEntryError::InvalidDevicePath);
            }
            let mut i: usize = 0;
            while i < comps.len()
                invariant
                    i <= comps@.len(),
                    forall|j: int| 0 <= j < i ==> (#[trigger] comps@[j])@ != ".."@,
                decreases comps.len() - i,
            {
                if str_equal(comps[i].as_str(), "..") {
                    assert(comps@.map_values(|c: String| c@)[i as int] == ".."@);
                    return Err(ImportEntryError::InvalidDevicePath);
                }
                i += 1;
            }
            let ghost rest = comps@.map_values(|c: String| c@);
            assert(!rest.contains(".."@)) by {
                if rest.contains(".."@) {
                    let j = choose|j: int| 0 <= j < rest.len() && #[trigger] rest[j] == ".."@;
                    assert(comps@[j]@ == ".."@);
                }
            }
            Ok(ImportEntry::DeviceFile { recipe_id, device_id, folder: second, relative: comps })
        },
    }
}

/// Whether a JSON file of an archive is refused as too large: reading it stopped at
/// the limit.
pub fn json_size_exceeded(consumed: usize) -> (r: bool)
    ensures
        r == (consumed == MAX_JSON_FILE_SIZE),
{
    consumed == MAX_JSON_FILE_SIZE
}

/// The name of the entry that holds the recipe `id` in an archive: `<id>/recipe.json`.
pub fn recipe_entry_name(id: &RecipeId) -> (r: String)
    ensures
        r@ == id@ + "/recipe.json"@,
{
    let mut r = id.as_str().to_owned();
    r.append("/recipe.json");
    r
}

/// The name, in an archive of recipe `id`, of the device file at `file` below the
/// recipe directory `recipe_dir`: its path relative to `recipe_dir`, below a folder
/// named after the recipe. `None` when `file` is not below `recipe_dir`.
pub fn export_entry_path(id: &RecipeId, recipe_dir: &str, file: &str) -> (r: Option<String>)
    ensures
        match path_stripped(file@, recipe_dir@) {
            Some(rest) => r matches Some(p) && p@ == path_joined(id@, rest),
            None => r is None,
        },
{
    match path_strip_prefix(file, recipe_dir) {
        Some(rest) => Some(path_join(id.as_str(), rest.as_str())),
        None => None,
    }
}

/// Why reading an archive did not give its variables.
#[derive(Debug)]
pub enum VariablesError<TParse> {
    /// The archive has no `variables.json`.
    Missing,
    /// The last `variables.json` could not be read.
    Invalid(TParse),
}

/// What has been read of an archive so far: its recipes by id, and the outcome of
/// reading the last `variables.json`. `TRecipe` is a read recipe, `TVariables` read
/// variables and `TParse` the error of reading them.
pub struct ImportState<TRecipe, TVariables, TParse> {
    recipes: Vec<(RecipeId, TRecipe)>,
    variables: Option<Result<TVariables, TParse>>,
}

/// The ids of `recipes`, as text.
pub open spec fn recipe_ids<T>(recipes: Seq<(RecipeId, T)>) -> Seq<Seq<char>> {
    recipes.map_values(|e: (RecipeId, T)| e.0@)
}

/// Where the recipe with id `id` stands in `recipes`.
pub open spec fn recipe_index<T>(recipes: Seq<(RecipeId, T)>, id: Seq<char>) -> int {
    choose|j: int| 0 <= j < recipes.len() && recipes[j].0@ == id
}

/// The recipes of a list without repeated ids, by id.
pub open spec fn recipe_map<T>(recipes: Seq<(RecipeId, T)>) -> Map<Seq<char>, T> {
    Map::new(
        |id: Seq<char>| recipe_ids(recipes).contains(id),
        |id: Seq<char>| recipes[recipe_index(recipes, id)].1,
    )
}

/// In a list without repeated ids, the recipe with the id at `j` stands at `j`.
proof fn lemma_recipe_index<T>(recipes: Seq<(RecipeId, T)>, j: int)
    requires
        recipe_ids(recipes).no_duplicates(),
        0 <= j < recipes.len(),
    ensures
        recipe_index(recipes, recipes[j].0@) == j,
{
    let id = recipes[j].0@;
    let k = recipe_index(recipes, id);
    assert(recipe_ids(recipes)[j] == id);
    assert(recipe_ids(recipes)[k] == id);
}

impl<TRecipe, TVariables, TParse> ImportState<TRecipe, TVariables, TParse> {
    /// No recipe id occurs twice.
    pub closed spec fn wf(&self) -> bool {
        recipe_ids(self.recipes@).no_duplicates()
    }

    /// The recipes read so far, by id.
    pub closed spec fn spec_recipes(&self) -> Map<Seq<char>, TRecipe> {
        recipe_map(self.recipes@)
    }

    /// The outcome of reading the last `variables.json` so far, if there was one.
    pub closed spec fn spec_variables(&self) -> Option<Result<TVariables, TParse>> {
        self.variables
    }

    /// Nothing read yet.
    pub fn new() -> (r: Self)
        ensures
            r.wf(),
            r.spec_recipes() == Map::<Seq<char>, TRecipe>::empty(),
            r.spec_variables() is None,
    {
        let r = ImportState { recipes: Vec::new(), variables: None };
        assert(r.spec_recipes() =~= Map::<Seq<char>, TRecipe>::empty());
        r
    }

    /// A `recipe.json` was read for `id`; it replaces a recipe read before for the same id.
    pub fn add_recipe(&mut self, id: RecipeId, recipe: TRecipe)
        requires
            old(self).wf(),
        ensures
            final(self).wf(),
            final(self).spec_recipes() == old(self).spec_recipes().insert(id@, recipe),
            final(self).spec_variables() == old(self).spec_variables(),
    {
        let ghost before = self.recipes@;
        let n = self.recipes.len();
        let mut i: usize = 0;
        while i < n
            invariant
                n == self.recipes@.len(),
                self.recipes@ == before,
                before == old(self).recipes@,
                recipe_ids(before).no_duplicates(),
                self.variables == old(self).variables,
                i <= n,
                forall|j: int| 0 <= j < i ==> self.recipes@[j].0@ != id@,
            decreases n - i,
        {
            if str_equal(self.recipes[i].0.as_str(), id.as_str()) {
                let ghost ids = recipe_ids(before);
                self.recipes.set(i, (id, recipe));
                proof {
                    let after = self.recipes@;
                    assert(recipe_ids(after) =~= ids);
                    assert forall|k: Seq<char>| #[trigger] ids.contains(k) implies recipe_map(after)[k]
                        == recipe_map(before).insert(id@, recipe)[k] by {
                        let j = choose|j: int| 0 <= j < ids.len() && ids[j] == k;
                        assert(before[j].0@ == k);
                        assert(recipe_ids(after)[j] == k);
                        assert(after[j].0@ == k);
                        lemma_recipe_index(before, j);
                        lemma_recipe_index(after, j);
                        assert(ids[i as int] == id@);
                        if j != i {
                            assert(k != id@);
                            assert(after[j] == before[j]);
                        }
                    }
                    assert(ids.contains(id@)) by {
                        assert(ids[i as int] == id@);
                    }
                    assert(recipe_map(after) =~= recipe_map(before).insert(id@, recipe));
                }
                return;
            }
            i += 1;
        }
        let ghost ids = recipe_ids(before);
        assert(!ids.contains(id@)) by {
            if ids.contains(id@) {
                let j = choose|j: int| 0 <= j < ids.len() && ids[j] == id@;
                assert(before[j].0@ == id@);
            }
        }
        self.recipes.push((id, recipe));
        proof {
            let after = self.recipes@;
            assert(recipe_ids(after) =~= ids.push(id@));
            assert forall|k: Seq<char>| #[trigger] recipe_ids(after).contains(k) <==> ids.contains(k) || k
                == id@ by {
                if k == id@ {
                    assert(recipe_ids(after)[before.len() as int] == id@);
                } else if ids.contains(k) {
                    let j = choose|j: int| 0 <= j < ids.len() && ids[j] == k;
                    assert(recipe_ids(after)[j] == k);
                }
            }
            assert forall|k: Seq<char>| #[trigger] recipe_ids(after).contains(k) implies recipe_map(after)[k]
                == recipe_map(before).insert(id@, recipe)[k] by {
                if k == id@ {
                    lemma_recipe_index(after, before.len() as int);
                } else {
                    let j = choose|j: int| 0 <= j < ids.len() && ids[j] == k;
                    assert(before[j].0@ == k);
                    lemma_recipe_index(before, j);
                    assert(after[j] == before[j]);
                    lemma_recipe_index(after, j);
                }
            }
            assert(recipe_map(after) =~= recipe_map(before).insert(id@, recipe));
        }
    }

    /// A `variables.json` was read with `outcome`; the last one counts.
    pub fn set_variables(&mut self, outcome: Result<TVariables, TParse>)
        ensures
            final(self).wf() == old(self).wf(),
            final(self).spec_recipes() == old(self).spec_recipes(),
            final(self).spec_variables() == Some(outcome),
    {
        self.variables = Some(outcome);
    }

    /// The archive is read: its recipes with distinct ids and its variables, or why
    /// there are no variables.
    pub fn finish(self) -> (r: Result<(Vec<(RecipeId, TRecipe)>, TVariables), VariablesError<TParse>>)
        requires
            self.wf(),
        ensures
            match self.spec_variables() {
                None => r matches Err(VariablesError::Missing),
                Some(Err(e)) => r matches Err(VariablesError::Invalid(x)) && x == e,
                Some(Ok(v)) => r matches Ok((recipes, vars)) && vars == v && recipe_ids(recipes@).no_duplicates()
                    && recipe_map(recipes@) == self.spec_recipes(),
            },
    {
        match self.variables {
            None => Err(VariablesError::Missing),
            Some(Err(e)) => Err(VariablesError::Invalid(e)),
            Some(Ok(v)) => Ok((self.recipes, v)),
        }
    }
}

/// The names of a list of variables, as text.
pub open spec fn variable_names(vars: Seq<(String, JsonValue)>) -> Seq<Seq<char>> {
    vars.map_values(|e: (String, JsonValue)| e.0@)
}

/// The texts of a list of names.
pub open spec fn texts(names: Seq<String>) -> Seq<Seq<char>> {
    names.map_values(|n: String| n@)
}

/// The variables that an exported recipe uses, with their values among `known`
/// (the first variable of a name counts): each used name once, in the order of first
/// use. Fails with a used name that is not known.
pub fn export_variables(used: &Vec<String>, known: &Vec<(String, JsonValue)>) -> (r: Result<
    Vec<(String, JsonValue)>,
    String,
>)
    ensures
        r is Ok <==> forall|i: int| 0 <= i < used@.len() ==> entries_get(known@, (#[trigger] used@[i])@) is Some,
        r matches Ok(v) ==> {
            &&& variable_names(v@).no_duplicates()
            &&& variable_names(v@).to_set() == texts(used@).to_set()
            &&& forall|k: int| 0 <= k < v@.len() ==> (entries_get(known@, (#[trigger] v@[k]).0@) matches Some(x)
                && json_equal(v@[k].1, x))
        },
        r matches Err(n) ==> texts(used@).contains(n@) && entries_get(known@, n@) is None,
{
    let mut out: Vec<(String, JsonValue)> = Vec::new();
    let mut i: usize = 0;
    while i < used.len()
        invariant
            i <= used@.len(),
            forall|j: int| 0 <= j < i ==> entries_get(known@, (#[trigger] used@[j])@) is Some,
            variable_names(out@).no_duplicates(),
            variable_names(out@).to_set() == texts(used@.take(i as int)).to_set(),
            forall|k: int| 0 <= k < out@.len() ==> (entries_get(known@, (#[trigger] out@[k]).0@) matches Some(x)
                && json_equal(out@[k].1, x)),
        decreases used.len() - i,
    {
        let name = used[i].as_str();
        let ghost before = out@;
        assert(texts(used@.take(i + 1)) =~= texts(used@.take(i as int)).push(name@));
        proof {
            texts(used@.take(i as int)).lemma_push_to_set_commute(name@);
        }
        match entry_index(known, name) {
            None => {
                assert(texts(used@).contains(name@)) by {
                    assert(texts(used@)[i as int] == name@);
                }
                return Err(used[i].clone());
            },
            Some(at) => {
                match entry_index(&out, name) {
                    Some(k) => {
                        assert(variable_names(out@)[k as int] == name@);
                        assert(variable_names(out@).to_set().contains(name@));
                        assert(texts(used@.take(i + 1)).to_set() =~= texts(used@.take(i as int)).to_set());
                    },
                    None => {
                        let value = json_copy(&known[at].1);
                        out.push((used[i].clone(), value));
                        proof {
                            assert(variable_names(out@) =~= variable_names(before).push(name@));
                            variable_names(before).lemma_push_to_set_commute(name@);
                            assert(!variable_names(before).contains(name@)) by {
                                if variable_names(before).contains(name@) {
                                    let j = choose|j: int| 0 <= j < before.len() && variable_names(before)[j] == name@;
                                    assert(before[j].0@ == name@);
                                }
                            }
                            assert forall|a: int, b: int| 0 <= a < b < variable_names(out@).len() implies
                                variable_names(out@)[a] != variable_names(out@)[b] by {
                                if b == before.len() {
                                    assert(variable_names(before)[a] == variable_names(out@)[a]);
                                }
                            }
                        }
                    },
                }
            },
        }
        i = i + 1;
    }
    assert(used@.take(used@.len() as int) =~= used@);
    Ok(out)
}

} // verus!
