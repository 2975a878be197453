use vstd::prelude::*;

use crate::device::DeviceId;
use crate::name::RecipeId;
use crate::text::str_equal;

use crate::config::{path_not_after, path_same, path_strip_prefix, path_stripped, paths_equal, sort_paths};

verus! {

/// Why the parameters of a device in the active recipe could not be changed;
/// `TTransaction` is the error type of the recipe transaction.
#[derive(Debug)]
pub enum ChangeDeviceParamsTransactionError<TTransaction> {
    /// The transaction failed.
    Transaction(TTransaction),
    /// No strategy is registered for this device type and message type.
    UnknownModifier,
}

impl<TTransaction> ChangeDeviceParamsTransactionError<TTransaction> {
    /// A failed transaction as this error.
    pub fn from_transaction(error: TTransaction) -> (r: Self)
        ensures
            r == ChangeDeviceParamsTransactionError::Transaction(error),
    {
        ChangeDeviceParamsTransactionError::Transaction(error)
    }
}

/// What comparing the files of a running device with those of its backup comes to,
/// before any content is read.
#[derive(Debug)]
pub enum FilePairing {
    /// The file sets differ.
    Differs,
    /// A listed file is not below the directory it was listed from.
    OutsideRoot,
    /// The file sets agree; the contents of each pair (backup, running) remain to be compared.
    Compare(Vec<(String, String)>),
}

/// Whether `s` holds the paths of `files` in the order of paths.
pub open spec fn is_path_order(files: Seq<String>, s: Seq<String>) -> bool {
    &&& s.to_multiset() == files.to_multiset()
    &&& forall|i: int, j: int| 0 <= i < j < s.len() ==> path_not_after(#[trigger] s[i]@, #[trigger] s[j]@)
}

/// What is wrong with the pair of a backup file `a` below `backup_root` and a running
/// file `b` below `running_root`: `None` when both lie below their roots at the same
/// relative path, `Some(true)` when one is not below its root, `Some(false)` when the
/// relative paths differ.
pub open spec fn pair_fault(a: Seq<char>, b: Seq<char>, backup_root: Seq<char>, running_root: Seq<char>) -> Option<bool> {
    match (path_stripped(a, backup_root), path_stripped(b, running_root)) {
        (Some(x), Some(y)) => if path_same(x, y) {
            None
        } else {
            Some(false)
        },
        _ => Some(true),
    }
}

/// Whether the first `k` pairs of `sb` and `sr` are without fault.
pub open spec fn no_fault_before(sb: Seq<String>, sr: Seq<String>, backup_root: Seq<char>, running_root: Seq<char>, k: int) -> bool {
    forall|i: int| 0 <= i < k ==> #[trigger] pair_fault(sb[i]@, sr[i]@, backup_root, running_root) is None
}

/// Whether `r` is what pairing the sorted backup files `sb` with the sorted running
/// files `sr` gives: the fault of the first faulty pair, else every pair.
pub open spec fn pairing_outcome(sb: Seq<String>, sr: Seq<String>, backup_root: Seq<char>, running_root: Seq<char>, r: FilePairing) -> bool {
    match r {
        FilePairing::Compare(v) => no_fault_before(sb, sr, backup_root, running_root, sb.len() as int)
            && v@.len() == sb.len() && forall|i: int|
            0 <= i < v@.len() ==> (#[trigger] v@[i]).0 == sb[i] && v@[i].1 == sr[i],
        FilePairing::OutsideRoot => exists|k: int|
            0 <= k < sb.len() && no_fault_before(sb, sr, backup_root, running_root, k)
                && #[trigger] pair_fault(sb[k]@, sr[k]@, backup_root, running_root) == Some(true),
        FilePairing::Differs => exists|k: int|
            0 <= k < sb.len() && no_fault_before(sb, sr, backup_root, running_root, k)
                && #[trigger] pair_fault(sb[k]@, sr[k]@, backup_root, running_root) == Some(false),
    }
}

/// Pairs the files of a device's backup (below `backup_root`) with the files of the
/// running device (below `running_root`): both in the order of paths, pair by pair
/// at the same relative path. Different numbers of files differ at once.
pub fn pair_device_files(
    backup_root: &str,
    backup: Vec<String>,
    running_root: &str,
    running: Vec<String>,
) -> (r: FilePairing)
    ensures
        backup@.len() != running@.len() ==> r is Differs,
        backup@.len() == running@.len() ==> exists|sb: Seq<String>, sr: Seq<String>|
            #![trigger is_path_order(backup@, sb), is_path_order(running@, sr)]
            is_path_order(backup@, sb) && is_path_order(running@, sr) && pairing_outcome(
                sb,
                sr,
                backup_root@,
                running_root@,
                r,
            ),
{
    if backup.len() != running.len() {
        return FilePairing::Differs;
    }
    let ghost b0 = backup@;
    let ghost r0 = running@;
    let sb = sort_paths(backup);
    let sr = sort_paths(running);
    proof {
        b0.to_multiset_ensures();
        sb@.to_multiset_ensures();
        r0.to_multiset_ensures();
        sr@.to_multiset_ensures();
    }
    let n = sb.len();
    assert(sr@.len() == n);
    assert(is_path_order(b0, sb@) && is_path_order(r0, sr@));
    let mut pairs: Vec<(String, String)> = Vec::new();
    let mut i: usize = 0;
    while i < n
        invariant
            n == sb@.len(),
            n == sr@.len(),
            i <= n,
            b0 == backup@,
            r0 == running@,
            b0.len() == r0.len(),
            is_path_order(b0, sb@),
            is_path_order(r0, sr@),
            no_fault_before(sb@, sr@, backup_root@, running_root@, i as int),
            pairs@.len() == i,
            forall|j: int| 0 <= j < i ==> (#[trigger] pairs@[j]).0 == sb@[j] && pairs@[j].1 == sr@[j],
        decreases n - i,
    {
        let a = path_strip_prefix(sb[i].as_str(), backup_root);
        let b = path_strip_prefix(sr[i].as_str(), running_root);
        match (a, b) {
            (Some(x), Some(y)) => {
                if !paths_equal(x.as_str(), y.as_str()) {
                    assert(pair_fault(sb@[i as int]@, sr@[i as int]@, backup_root@, running_root@) == Some(false));
                    assert(is_path_order(b0, sb@) && is_path_order(r0, sr@));
                    return FilePairing::Differs;
                }
            },
            _ => {
                assert(pair_fault(sb@[i as int]@, sr@[i as int]@, backup_root@, running_root@) == Some(true));
                assert(is_path_order(b0, sb@) && is_path_order(r0, sr@));
                return FilePairing::OutsideRoot;
            },
        }
        let pa = sb[i].clone();
        let pb = sr[i].clone();
        pairs.push((pa, pb));
        i += 1;
    }
    assert(is_path_order(b0, sb@) && is_path_order(r0, sr@));
    FilePairing::Compare(pairs)
}

/// A device of a recipe whose parameters use a changed variable: the recipe, the
/// device type and the device.
pub type VariableUsage = (RecipeId, String, DeviceId);

/// Whether a usage lies in the recipe `active`.
pub open spec fn in_recipe(u: VariableUsage, active: Seq<char>) -> bool {
    u.0@ == active
}

/// What changing variables asks for: the usages outside the active recipe, whose
/// devices are validated with the new variables, and whether the active recipe must be
/// updated, which is so when a usage lies in it or the changed device is running.
pub fn params_update_plan(active: &RecipeId, usages: Vec<VariableUsage>, running: bool) -> (r: (
    Vec<VariableUsage>,
    bool,
))
    ensures
        r.0@ == usages@.filter(|u: VariableUsage| !in_recipe(u, active@)),
        r.1 == (running || exists|i: int| 0 <= i < usages@.len() && in_recipe(#[trigger] usages@[i], active@)),
{
    let ghost all = usages@;
    let mut others: Vec<VariableUsage> = Vec::new();
    let mut on_active = false;
    let mut rest = usages;
    let ghost n = all.len();
    proof {
        reveal(Seq::filter);
    }
    assert(all.take(0).filter(|u: VariableUsage| !in_recipe(u, active@)) =~= Seq::<VariableUsage>::empty());
    while rest.len() > 0
        invariant
            n == all.len(),
            rest@.len() <= n,
            rest@ == all.skip(n - rest@.len()),
            others@ == all.take(n - rest@.len()).filter(|u: VariableUsage| !in_recipe(u, active@)),
            on_active == exists|i: int| 0 <= i < n - rest@.len() && in_recipe(#[trigger] all[i], active@),
        decreases rest@.len(),
    {
        let ghost k = n - rest@.len();
        let u = rest.remove(0);
        assert(u == all[k]);
        assert(rest@ =~= all.skip(k + 1));
        assert(all.take(k + 1).drop_last() =~= all.take(k));
        assert(all.take(k + 1).last() == all[k]);
        if str_equal(u.0.as_str(), active.as_str()) {
            on_active = true;
        } else {
            others.push(u);
        }
        proof {
            reveal(Seq::filter);
        }
        assert(others@ =~= all.take(k + 1).filter(|u: VariableUsage| !in_recipe(u, active@)));
    }
    assert(all.take(n as int) =~= all);
    (others, on_active || running)
}

} // verus!
