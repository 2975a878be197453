use std::collections::{HashMap, HashSet};

use vstd::prelude::*;

use crate::config::{
    path_component_seq, path_components, path_is_relative, path_join, path_joined, path_relative,
};
use crate::device::{uuid_text, DeviceId};
use crate::name::RecipeId;
use crate::text::str_equal;

verus! {

broadcast use vstd::std_specs::hash::group_hash_axioms;

/// A device that belongs to two recipes after an import.
#[derive(Debug)]
pub struct ExistingDeviceInOtherRecipe {
    pub device_id: DeviceId,
    /// The recipe in which the device was met the second time.
    pub recipe_id: RecipeId,
    /// The recipe in which the device was met first.
    pub other_recipe_id: RecipeId,
}

/// Whether no device occurs twice among the first `n` pairs.
pub open spec fn distinct_devices_upto(pairs: Seq<(DeviceId, RecipeId)>, n: int) -> bool {
    forall|i: int, j: int| 0 <= i < j < n ==> pairs[i].0 != pairs[j].0
}

/// The first pair whose device occurred before, as (earlier index, index).
pub open spec fn first_duplicate(pairs: Seq<(DeviceId, RecipeId)>) -> Option<(int, int)> {
    if distinct_devices_upto(pairs, pairs.len() as int) {
        None
    } else {
        let j = choose|j: int|
            0 <= j < pairs.len() && #[trigger] distinct_devices_upto(pairs, j) && !distinct_devices_upto(
                pairs,
                j + 1,
            );
        let i = choose|i: int| 0 <= i < j && pairs[i].0 == pairs[j].0;
        Some((i, j))
    }
}

/// Checks that every device belongs to one recipe only. `pairs` lists each device
/// of each recipe with its recipe. The error names the first device met twice,
/// the recipe where it was met again and the recipe where it was met first.
pub fn error_for_duplicate_device(pairs: &Vec<(DeviceId, RecipeId)>) -> (r: Result<
    (),
    ExistingDeviceInOtherRecipe,
>)
    ensures
        match first_duplicate(pairs@) {
            None => r is Ok,
            Some((i, j)) => r matches Err(e) && e.device_id == pairs@[j].0 && e.recipe_id@
                == pairs@[j].1@ && e.other_recipe_id@ == pairs@[i].1@,
        },
{
    let mut known: HashMap<u128, usize> = HashMap::new();
    let mut j: usize = 0;
    while j < pairs.len()
        invariant
            j <= pairs@.len(),
            distinct_devices_upto(pairs@, j as int),
            forall|d: u128| #[trigger]
                known@.contains_key(d) ==> known@[d] < j && pairs@[known@[d] as int].0.0 == d,
            forall|i: int| 0 <= i < j ==> #[trigger] known@.contains_key(pairs@[i].0.0),
        decreases pairs.len() - j,
    {
        let did = pairs[j].0;
        match known.get(&did.0) {
            Some(i) => {
                let i = *i;
                proof {
                    assert(!distinct_devices_upto(pairs@, j + 1));
                    let jj = choose|jj: int|
                        0 <= jj < pairs@.len() && #[trigger] distinct_devices_upto(pairs@, jj)
                            && !distinct_devices_upto(pairs@, jj + 1);
                    if jj < j {
                        assert(distinct_devices_upto(pairs@, jj + 1));
                    }
                    if jj > j {
                        assert(!distinct_devices_upto(pairs@, jj));
                    }
                    assert(jj == j);
                    let ii = choose|ii: int| 0 <= ii < jj && pairs@[ii].0 == pairs@[jj].0;
                    if ii != i {
                        assert(pairs@[ii].0 == pairs@[i as int].0);
                    }
                }
                return Err(
                    ExistingDeviceInOtherRecipe {
                        device_id: did,
                        recipe_id: pairs[j].1.duplicate(),
                        other_recipe_id: pairs[i].1.duplicate(),
                    },
                );
            },
            None => {
                assert forall|i: int, k: int| 0 <= i < k < j + 1 implies pairs@[i].0
                    != pairs@[k].0 by {
                    if k == j {
                        assert(known@.contains_key(pairs@[i].0.0));
                    }
                }
                known.insert(did.0, j);
            },
        }
        j = j + 1;
    }
    Ok(())
}

/// `m` with each pair of `pairs` inserted in turn, so that a later pair of the same
/// device wins.
pub open spec fn with_pairs(m: Map<u128, u128>, pairs: Seq<(DeviceId, DeviceId)>) -> Map<u128, u128>
    decreases pairs.len(),
{
    if pairs.len() == 0 {
        m
    } else {
        with_pairs(m, pairs.drop_last()).insert(pairs.last().0.0, pairs.last().1.0)
    }
}

/// Whether `r` lists, in the order of `order`, the directory of each device below
/// `root` paired with the directory of the device it maps to.
pub open spec fn lists_directory_pairs(
    root: Seq<char>,
    order: Seq<(u128, u128)>,
    r: Seq<(String, String)>,
) -> bool {
    &&& r.len() == order.len()
    &&& forall|i: int|
        0 <= i < r.len() ==> (#[trigger] r[i]).0@ == path_joined(root, uuid_text(order[i].0))
            && r[i].1@ == path_joined(root, uuid_text(order[i].1))
}

/// Import strategy for a recipe whose id is taken: the recipe is added as a copy,
/// whose devices get new ids. The directories of the copied devices are renamed to
/// the new ids when the import is finalized.
pub struct Duplicate {
    device_id_map: HashMap<u128, u128>,
}

impl Duplicate {
    /// The new id of each copied device, by its old id.
    pub closed spec fn spec_map(&self) -> Map<u128, u128> {
        self.device_id_map@
    }

    pub fn new() -> (r: Self)
        ensures
            r.spec_map() == Map::<u128, u128>::empty(),
    {
        let r = Duplicate { device_id_map: HashMap::new() };
        assert(r.device_id_map@ =~= Map::empty());
        r
    }

    /// Records the new ids of copied devices, as pairs of old and new id.
    pub fn record_duplicates(&mut self, mapping: &Vec<(DeviceId, DeviceId)>)
        ensures
            final(self).spec_map() == with_pairs(old(self).spec_map(), mapping@),
    {
        let mut i: usize = 0;
        while i < mapping.len()
            invariant
                i <= mapping@.len(),
                self.spec_map() == with_pairs(old(self).spec_map(), mapping@.take(i as int)),
            decreases mapping.len() - i,
        {
            let (from, to) = mapping[i];
            self.device_id_map.insert(from.0, to.0);
            assert(mapping@.take(i + 1).drop_last() =~= mapping@.take(i as int));
            i += 1;
        }
        assert(mapping@.take(mapping@.len() as int) =~= mapping@);
    }

    /// The renames that finalize the import below `tmp_root`: for each copied device,
    /// its directory and the directory of its new id, in some order.
    pub fn renames(&self, tmp_root: &str) -> (r: Vec<(String, String)>)
        ensures
            exists|order: Seq<(u128, u128)>|
                #![trigger order.to_set()]
                order.no_duplicates() && order.to_set() == self.spec_map().kv_pairs()
                    && lists_directory_pairs(tmp_root@, order, r@),
    {
        let mut r: Vec<(String, String)> = Vec::new();
        for entry in it: self.device_id_map.iter()
            invariant
                lists_directory_pairs(tmp_root@, it.seq().take(it.index() as int).unref(), r@),
        {
            let (from, to) = entry;
            let a = path_join(tmp_root, DeviceId(*from).to_text().as_str());
            let b = path_join(tmp_root, DeviceId(*to).to_text().as_str());
            r.push((a, b));
        }
        r
    }
}

/// Import strategy for a recipe whose id is taken: the recipe replaces the existing
/// one. The directories of the replaced recipe's devices are deleted when the import
/// is finalized.
pub struct Replace {
    delete_devices: HashSet<u128>,
}

impl Replace {
    /// The devices whose directories are deleted.
    pub closed spec fn spec_devices(&self) -> Set<u128> {
        self.delete_devices@
    }

    pub fn new() -> (r: Self)
        ensures
            r.spec_devices() == Set::<u128>::empty(),
    {
        let r = Replace { delete_devices: HashSet::new() };
        assert(r.delete_devices@ =~= Set::empty());
        r
    }

    /// Records the devices of a replaced recipe.
    pub fn record_replaced(&mut self, devices: &Vec<DeviceId>)
        ensures
            final(self).spec_devices() == old(self).spec_devices() + devices@.map_values(
                |d: DeviceId| d.0,
            ).to_set(),
    {
        let mut i: usize = 0;
        while i < devices.len()
            invariant
                i <= devices@.len(),
                self.spec_devices() == old(self).spec_devices() + devices@.take(i as int).map_values(
                    |d: DeviceId| d.0,
                ).to_set(),
            decreases devices.len() - i,
        {
            let ghost before = devices@.take(i as int).map_values(|d: DeviceId| d.0);
            self.delete_devices.insert(devices[i].0);
            assert(devices@.take(i + 1).map_values(|d: DeviceId| d.0) =~= before.push(
                devices@[i as int].0,
            ));
            proof {
                before.lemma_push_to_set_commute(devices@[i as int].0);
            }
            i += 1;
            assert(self.spec_devices() =~= old(self).spec_devices() + devices@.take(i as int).map_values(
                |d: DeviceId| d.0,
            ).to_set());
        }
        assert(devices@.take(devices@.len() as int) =~= devices@);
    }
}

/// Whether directories below `root` may be deleted: the root is a relative path or
/// has more than one component, so that it is not the root of the file system.
pub open spec fn deletable_root(root: Seq<char>) -> bool {
    path_relative(root) || path_component_seq(root).len() > 1
}

/// Only the root of the file system itself is kept from deletion: a relative root,
/// or one with at least two components (such as `/recipes`), may be touched; a root
/// that may not is absolute and has at most one component.
pub proof fn lemma_only_file_system_root_is_kept(root: Seq<char>)
    ensures
        path_relative(root) ==> deletable_root(root),
        path_component_seq(root).len() >= 2 ==> deletable_root(root),
        !deletable_root(root) ==> !path_relative(root) && path_component_seq(root).len() <= 1,
{
}

impl Replace {
    /// The directories to delete below `recipe_root` when the import is finalized, one
    /// per replaced device, in some order; `None` when `recipe_root` may not be
    /// touched (see `deletable_root`).
    pub fn deletion_candidates(&self, recipe_root: &str) -> (r: Option<Vec<String>>)
        ensures
            match r {
                None => !deletable_root(recipe_root@),
                Some(v) => deletable_root(recipe_root@) && exists|order: Seq<u128>|
                    #![trigger order.to_set()]
                    order.no_duplicates() && order.to_set() == self.spec_devices() && v@.len()
                        == order.len() && forall|i: int|
                        0 <= i < v@.len() ==> (#[trigger] v@[i])@ == path_joined(
                            recipe_root@,
                            uuid_text(order[i]),
                        ),
            },
    {
        if !(path_is_relative(recipe_root) || path_components(recipe_root) > 1) {
            return None;
        }
        let mut r: Vec<String> = Vec::new();
        for id in it: self.delete_devices.iter()
            invariant
                r@.len() == it.index(),
                forall|i: int|
                    0 <= i < r@.len() ==> (#[trigger] r@[i])@ == path_joined(
                        recipe_root@,
                        uuid_text(*it.seq()[i]),
                    ),
        {
            r.push(path_join(recipe_root, DeviceId(*id).to_text().as_str()));
        }
        Some(r)
    }
}

/// How an import of recipes goes on once every recipe was offered to the merge strategy.
#[derive(Debug)]
pub enum ImportDecision {
    /// An imported recipe has the id of the active recipe, which cannot be replaced.
    ContainsActiveRecipe,
    /// Recipes the strategy could not add, and variables that clash with existing ones.
    Conflicts { failed: Vec<RecipeId>, variable_conflicts: Vec<String> },
    /// A device would belong to two recipes.
    DuplicateDevice(ExistingDeviceInOtherRecipe),
    /// Nothing stands in the way: the import is finalized.
    Finalize,
}

/// Decides an import: the active recipe may not be among the `imported` ones; then
/// recipes the strategy refused (`failed`) or clashing variables are conflicts; then
/// no device may belong to two recipes of the result (`pairs` lists every device of
/// every recipe with its recipe).
pub fn import_decision(
    active: &RecipeId,
    imported: &Vec<RecipeId>,
    failed: Vec<RecipeId>,
    variable_conflicts: Vec<String>,
    pairs: &Vec<(DeviceId, RecipeId)>,
) -> (r: ImportDecision)
    ensures
        (exists|i: int| 0 <= i < imported@.len() && (#[trigger] imported@[i])@ == active@) ==> r
            is ContainsActiveRecipe,
        !(exists|i: int| 0 <= i < imported@.len() && (#[trigger] imported@[i])@ == active@) ==> {
            if failed@.len() > 0 || variable_conflicts@.len() > 0 {
                r matches ImportDecision::Conflicts { failed: f, variable_conflicts: c } && f@ == failed@ && c@
                    == variable_conflicts@
            } else {
                match first_duplicate(pairs@) {
                    None => r is Finalize,
                    Some((i, j)) => r matches ImportDecision::DuplicateDevice(e) && e.device_id == pairs@[j].0
                        && e.recipe_id@ == pairs@[j].1@ && e.other_recipe_id@ == pairs@[i].1@,
                }
            }
        },
{
    let mut i: usize = 0;
    while i < imported.len()
        invariant
            i <= imported@.len(),
            forall|j: int| 0 <= j < i ==> (#[trigger] imported@[j])@ != active@,
        decreases imported.len() - i,
    {
        if str_equal(imported[i].as_str(), active.as_str()) {
            return ImportDecision::ContainsActiveRecipe;
        }
        i += 1;
    }
    if failed.len() > 0 || variable_conflicts.len() > 0 {
        return ImportDecision::Conflicts { failed, variable_conflicts };
    }
    match error_for_duplicate_device(pairs) {
        Ok(()) => ImportDecision::Finalize,
        Err(e) => ImportDecision::DuplicateDevice(e),
    }
}

} // verus!
