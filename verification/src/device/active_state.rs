use vstd::prelude::*;

verus! {

/// The recipes together with whether the active recipe has changes that were not committed.
#[derive(Debug)]
pub struct ActiveState<TRecipes> {
    recipes: TRecipes,
    has_uncommitted_changes: bool,
}

impl<TRecipes> ActiveState<TRecipes> {
    pub closed spec fn spec_recipes(&self) -> TRecipes {
        self.recipes
    }

    pub closed spec fn spec_has_uncommitted_changes(&self) -> bool {
        self.has_uncommitted_changes
    }

    pub fn new(recipes: TRecipes, has_uncommitted_changes: bool) -> (r: Self)
        ensures
            r.spec_recipes() == recipes,
            r.spec_has_uncommitted_changes() == has_uncommitted_changes,
    {
        ActiveState { recipes, has_uncommitted_changes }
    }

    pub fn recipes(&self) -> (r: &TRecipes)
        ensures
            *r == self.spec_recipes(),
    {
        &self.recipes
    }

    pub fn has_uncommitted_changes(&self) -> (r: bool)
        ensures
            r == self.spec_has_uncommitted_changes(),
    {
        self.has_uncommitted_changes
    }
}

} // verus!
