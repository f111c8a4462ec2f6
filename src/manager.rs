use vstd::prelude::*;
use crate::recipe::{Recipe, RecipeView, recipes_view, strings_view};

verus! {

/// Some entry of `s` has the id.
pub open spec fn has_id(s: Seq<RecipeView>, id: u32) -> bool {
    exists|i: int| 0 <= i < s.len() && s[i].id == id
}

/// `i` is the first place in `s` that holds the id.
pub open spec fn first_with_id(s: Seq<RecipeView>, id: u32, i: int) -> bool {
    &&& 0 <= i < s.len()
    &&& s[i].id == id
    &&& forall|j: int| 0 <= j < i ==> s[j].id != id
}

/// The entry that a lookup of the id finds in `s`: the first one that has it.
pub open spec fn lookup(s: Seq<RecipeView>, id: u32) -> Option<RecipeView> {
    if has_id(s, id) {
        Some(s[choose|i: int| first_with_id(s, id, i)])
    } else {
        None
    }
}

/// `s` with the first entry that has `v`'s id replaced by `v`; `s` itself when
/// no entry has it.
pub open spec fn updated(s: Seq<RecipeView>, v: RecipeView) -> Seq<RecipeView> {
    if has_id(s, v.id) {
        s.update(choose|i: int| first_with_id(s, v.id, i), v)
    } else {
        s
    }
}

/// `s` without the entries that have the id, the others in their order.
pub open spec fn without_id(s: Seq<RecipeView>, id: u32) -> Seq<RecipeView> {
    s.filter(|r: RecipeView| r.id != id)
}

/// The largest id in `s`, or 0 when `s` is empty.
pub open spec fn max_id(s: Seq<RecipeView>) -> u32
    decreases s.len(),
{
    if s.len() == 0 {
        0
    } else {
        let m = max_id(s.drop_last());
        if s.last().id > m {
            s.last().id
        } else {
            m
        }
    }
}

/// The ids of `s` are 1, 2, ..., in order.
pub open spec fn ids_count_from_one(s: Seq<RecipeView>) -> bool {
    forall|i: int| 0 <= i < s.len() ==> s[i].id == i + 1
}

/// The recipe that an add with these fields and this id appends.
pub open spec fn fresh_entry(
    id: u32,
    name: String,
    ingredients: Vec<String>,
    instructions: Vec<String>,
    servings: u32,
) -> RecipeView {
    RecipeView {
        id,
        name: name@,
        ingredients: strings_view(ingredients@),
        instructions: strings_view(instructions@),
        servings,
    }
}

/// The first place of the id is unique.
pub proof fn lemma_first_unique(s: Seq<RecipeView>, id: u32, i: int, k: int)
    requires
        first_with_id(s, id, i),
        first_with_id(s, id, k),
    ensures
        i == k,
{
}

/// An id that is held has a first place.
pub proof fn lemma_first_exists(s: Seq<RecipeView>, id: u32)
    requires
        has_id(s, id),
    ensures
        exists|i: int| first_with_id(s, id, i),
    decreases s.len(),
{
    let p = s.drop_last();
    if has_id(p, id) {
        lemma_first_exists(p, id);
        let i = choose|i: int| first_with_id(p, id, i);
        assert forall|j: int| 0 <= j < i implies s[j].id != id by {
            assert(s[j] == p[j]);
        }
        assert(s[i] == p[i]);
        assert(first_with_id(s, id, i));
    } else {
        assert forall|j: int| 0 <= j < s.len() - 1 implies s[j].id != id by {
            assert(s[j] == p[j]);
        }
        assert(first_with_id(s, id, s.len() - 1));
    }
}

/// No entry of `s` has an id above `max_id(s)`.
proof fn lemma_max_id_bounds(s: Seq<RecipeView>)
    ensures
        forall|i: int| 0 <= i < s.len() ==> s[i].id <= max_id(s),
        s.len() > 0 ==> has_id(s, max_id(s)),
    decreases s.len(),
{
    if s.len() > 0 {
        let p = s.drop_last();
        lemma_max_id_bounds(p);
        assert forall|i: int| 0 <= i < s.len() implies s[i].id <= max_id(s) by {
            if i < p.len() {
                assert(s[i] == p[i]);
            }
        }
        if s.last().id <= max_id(p) && p.len() > 0 {
            let w = choose|i: int| 0 <= i < p.len() && p[i].id == max_id(p);
            assert(s[w] == p[w]);
        }
    }
}

/// Filtering the first `k + 1` entries of `s` is filtering the first `k` and
/// then taking entry `k` if it does not have the id.
proof fn lemma_without_id_extend(s: Seq<RecipeView>, id: u32, k: int)
    requires
        0 <= k < s.len(),
    ensures
        without_id(s.subrange(0, k + 1), id) == if s[k].id != id {
            without_id(s.subrange(0, k), id).push(s[k])
        } else {
            without_id(s.subrange(0, k), id)
        },
{
    reveal(Seq::filter);
    assert(s.subrange(0, k + 1).drop_last() =~= s.subrange(0, k));
}

/// Whether the first `k + 1` entries hold the id, from the first `k`.
proof fn lemma_has_id_extend(s: Seq<RecipeView>, id: u32, k: int)
    requires
        0 <= k < s.len(),
    ensures
        has_id(s.subrange(0, k + 1), id) == (has_id(s.subrange(0, k), id) || s[k].id == id),
{
    let a = s.subrange(0, k);
    let b = s.subrange(0, k + 1);
    if has_id(b, id) && s[k].id != id {
        let j = choose|j: int| 0 <= j < b.len() && b[j].id == id;
        assert(a[j] == b[j]);
    }
    if has_id(a, id) {
        let j = choose|j: int| 0 <= j < a.len() && a[j].id == id;
        assert(a[j] == b[j]);
    }
    if s[k].id == id {
        assert(b[k] == s[k]);
    }
}

/// The largest id of the first `k + 1` entries, from that of the first `k`.
proof fn lemma_max_id_extend(s: Seq<RecipeView>, k: int)
    requires
        0 <= k < s.len(),
    ensures
        max_id(s.subrange(0, k + 1)) == if s[k].id > max_id(s.subrange(0, k)) {
            s[k].id
        } else {
            max_id(s.subrange(0, k))
        },
{
    assert(s.subrange(0, k + 1).drop_last() =~= s.subrange(0, k));
}

/// An in-memory catalogue of recipes and the id that the next added recipe
/// receives.
pub struct RecipeManager {
    recipes: Vec<Recipe>,
    next_id: u32,
}

impl RecipeManager {
    /// The recipes held, in order.
    pub closed spec fn entries(&self) -> Seq<RecipeView> {
        recipes_view(self.recipes@)
    }

    /// The id that the next added recipe receives.
    pub closed spec fn upcoming_id(&self) -> u32 {
        self.next_id
    }

    /// The next id is positive and above every id held.
    pub open spec fn wf(&self) -> bool {
        &&& self.upcoming_id() >= 1
        &&& forall|i: int|
            0 <= i < self.entries().len() ==> #[trigger] self.entries()[i].id < self.upcoming_id()
    }

    /// Only adds have filled the catalogue since it was made: its ids are
    /// 1, 2, ..., and the next one follows the last.
    pub open spec fn numbered_from_one(&self) -> bool {
        &&& ids_count_from_one(self.entries())
        &&& self.upcoming_id() == self.entries().len() + 1
    }

    /// An empty catalogue whose first recipe gets id 1.
    pub fn new() -> (r: RecipeManager)
        ensures
            r.wf(),
            r.entries() == Seq::<RecipeView>::empty(),
            r.upcoming_id() == 1,
            r.numbered_from_one(),
    {
        let r = RecipeManager { recipes: Vec::new(), next_id: 1 };
        assert(r.entries() =~= Seq::<RecipeView>::empty());
        r
    }

    /// The id that the next added recipe receives.
    pub fn next_id(&self) -> (r: u32)
        ensures
            r == self.upcoming_id(),
    {
        self.next_id
    }

    /// Appends a recipe under the next id and returns that id.
    pub fn add_recipe(
        &mut self,
        name: String,
        ingredients: Vec<String>,
        instructions: Vec<String>,
        servings: u32,
    ) -> (r: u32)
        requires
            old(self).wf(),
            old(self).upcoming_id() < u32::MAX,
        ensures
            final(self).wf(),
            r == old(self).upcoming_id(),
            final(self).upcoming_id() == r + 1,
            final(self).entries() == old(self).entries().push(
                fresh_entry(r, name, ingredients, instructions, servings),
            ),
            forall|i: int| 0 <= i < old(self).entries().len() ==> old(self).entries()[i].id < r,
            !has_id(old(self).entries(), r),
            old(self).numbered_from_one() ==> final(self).numbered_from_one(),
    {
        let id = self.next_id;
        let recipe = Recipe::new(id, name, ingredients, instructions, servings);
        self.recipes.push(recipe);
        self.next_id = self.next_id + 1;
        assert(self.entries() =~= old(self).entries().push(
            fresh_entry(id, name, ingredients, instructions, servings),
        ));
        id
    }

    /// All recipes, in order.
    pub fn get_all_recipes(&self) -> (r: &Vec<Recipe>)
        ensures
            recipes_view(r@) == self.entries(),
    {
        &self.recipes
    }

    /// The first place that holds the id.
    fn position(&self, id: u32) -> (r: Option<usize>)
        ensures
            match r {
                Some(i) => first_with_id(self.entries(), id, i as int),
                None => !has_id(self.entries(), id),
            },
    {
        let mut i: usize = 0;
        while i < self.recipes.len()
            invariant
                0 <= i <= self.recipes.len(),
                forall|j: int| 0 <= j < i ==> self.entries()[j].id != id,
            decreases self.recipes.len() - i,
        {
            if self.recipes[i].id == id {
                return Some(i);
            }
            i = i + 1;
        }
        None
    }

    /// The first recipe with the id, if any.
    pub fn get_recipe(&self, id: u32) -> (r: Option<&Recipe>)
        ensures
            match r {
                Some(x) => lookup(self.entries(), id) == Some(x@),
                None => lookup(self.entries(), id) is None,
            },
    {
        match self.position(id) {
            Some(i) => {
                proof {
                    let k = choose|k: int| first_with_id(self.entries(), id, k);
                    lemma_first_unique(self.entries(), id, i as int, k);
                }
                Some(&self.recipes[i])
            },
            None => None,
        }
    }

    /// Replaces every field but the id of the first recipe with the id;
    /// returns whether there was one.
    pub fn update_recipe(
        &mut self,
        id: u32,
        name: String,
        ingredients: Vec<String>,
        instructions: Vec<String>,
        servings: u32,
    ) -> (r: bool)
        requires
            old(self).wf(),
        ensures
            final(self).wf(),
            r == has_id(old(self).entries(), id),
            final(self).entries() == updated(
                old(self).entries(),
                fresh_entry(id, name, ingredients, instructions, servings),
            ),
            final(self).entries().len() == old(self).entries().len(),
            forall|i: int|
                0 <= i < old(self).entries().len() ==> #[trigger] final(self).entries()[i].id
                    == old(self).entries()[i].id,
            final(self).upcoming_id() == old(self).upcoming_id(),
    {
        match self.position(id) {
            Some(i) => {
                let ghost v = fresh_entry(id, name, ingredients, instructions, servings);
                proof {
                    let k = choose|k: int| first_with_id(self.entries(), id, k);
                    lemma_first_unique(self.entries(), id, i as int, k);
                }
                let recipe = Recipe::new(id, name, ingredients, instructions, servings);
                self.recipes.set(i, recipe);
                assert(self.entries() =~= old(self).entries().update(i as int, v));
                true
            },
            None => false,
        }
    }

    /// Removes every recipe with the id; returns whether there was one.
    pub fn delete_recipe(&mut self, id: u32) -> (r: bool)
        requires
            old(self).wf(),
        ensures
            final(self).wf(),
            r == has_id(old(self).entries(), id),
            final(self).entries() == without_id(old(self).entries(), id),
            !r ==> final(self).entries() == old(self).entries(),
            !has_id(final(self).entries(), id),
            final(self).upcoming_id() == old(self).upcoming_id(),
    {
        let ghost s = self.entries();
        let ghost mut k: int = 0;
        let mut found = false;
        let mut i: usize = 0;
        while i < self.recipes.len()
            invariant
                0 <= i <= self.recipes.len(),
                0 <= k <= s.len(),
                self.next_id == old(self).next_id,
                self.wf(),
                self.entries().subrange(0, i as int) == without_id(s.subrange(0, k), id),
                self.entries().subrange(i as int, self.entries().len() as int) == s.subrange(
                    k,
                    s.len() as int,
                ),
                found == has_id(s.subrange(0, k), id),
            decreases self.recipes.len() - i,
        {
            proof {
                assert(self.entries().subrange(i as int, self.entries().len() as int).len() == s.subrange(
                    k,
                    s.len() as int,
                ).len());
                assert(s[k] == self.entries().subrange(i as int, self.entries().len() as int)[0]);
                lemma_without_id_extend(s, id, k);
                lemma_has_id_extend(s, id, k);
            }
            let ghost before = self.entries();
            if self.recipes[i].id == id {
                self.recipes.remove(i);
                found = true;
                assert(self.entries() =~= before.remove(i as int));
                assert(self.entries().subrange(0, i as int) =~= before.subrange(0, i as int));
                assert(self.entries().subrange(i as int, self.entries().len() as int)
                    =~= before.subrange(i + 1, before.len() as int));
                assert(s.subrange(k + 1, s.len() as int) =~= s.subrange(k, s.len() as int).subrange(
                    1,
                    s.len() - k,
                ));
            } else {
                assert(self.entries().subrange(0, i + 1) =~= before.subrange(0, i as int).push(
                    before[i as int],
                ));
                assert(s.subrange(k + 1, s.len() as int) =~= s.subrange(k, s.len() as int).subrange(
                    1,
                    s.len() - k,
                ));
                i = i + 1;
            }
            proof {
                k = k + 1;
            }
        }
        assert(self.entries().subrange(0, i as int) =~= self.entries());
        assert(s.subrange(0, k) =~= s);
        proof {
            lemma_lookup_after_delete(s, id);
            if !found {
                lemma_delete_absent(s, id);
            }
        }
        found
    }

    /// Takes a loaded list in place of the recipes held and sets the next id to
    /// one above the largest id in it (1 for an empty list). A list that holds
    /// the id `u32::MAX` leaves no id to hand out next: it is refused, the
    /// catalogue stays as it was, and the result is false.
    pub fn replace_recipes(&mut self, recipes: Vec<Recipe>) -> (r: bool)
        requires
            old(self).wf(),
        ensures
            final(self).wf(),
            r == forall|i: int| 0 <= i < recipes@.len() ==> #[trigger] recipes@[i].id < u32::MAX,
            r ==> final(self).entries() == recipes_view(recipes@),
            r ==> final(self).upcoming_id() == max_id(recipes_view(recipes@)) + 1,
            !r ==> final(self).entries() == old(self).entries(),
            !r ==> final(self).upcoming_id() == old(self).upcoming_id(),
    {
        let ghost s = recipes_view(recipes@);
        let mut largest: u32 = 0;
        let mut i: usize = 0;
        while i < recipes.len()
            invariant
                0 <= i <= recipes.len(),
                s == recipes_view(recipes@),
                largest == max_id(s.subrange(0, i as int)),
                forall|j: int| 0 <= j < i ==> #[trigger] recipes@[j].id < u32::MAX,
                self.wf(),
                self.entries() == old(self).entries(),
                self.upcoming_id() == old(self).upcoming_id(),
            decreases recipes.len() - i,
        {
            let id = recipes[i].id;
            if id == u32::MAX {
                return false;
            }
            proof {
                lemma_max_id_extend(s, i as int);
            }
            if id > largest {
                largest = id;
            }
            i = i + 1;
        }
        proof {
            assert(s.subrange(0, i as int) =~= s);
            lemma_max_id_bounds(s);
        }
        self.recipes = recipes;
        self.next_id = largest + 1;
        true
    }
}

/// A catalogue filled only by adds since it was made holds the ids 1, 2, ...,
/// N for its N recipes, in the order they were added, so they are distinct and
/// strictly increasing, and the next add receives N + 1.
pub proof fn lemma_added_ids_count_up(m: RecipeManager)
    requires
        m.numbered_from_one(),
    ensures
        forall|i: int| 0 <= i < m.entries().len() ==> #[trigger] m.entries()[i].id == i + 1,
        forall|i: int, j: int|
            0 <= i < j < m.entries().len() ==> m.entries()[i].id < m.entries()[j].id,
        m.upcoming_id() == m.entries().len() + 1,
{
}

/// After an update of an id that is held, a lookup of that id finds exactly the
/// fields just written.
pub proof fn lemma_lookup_after_update(s: Seq<RecipeView>, v: RecipeView)
    requires
        has_id(s, v.id),
    ensures
        lookup(updated(s, v), v.id) == Some(v),
{
    lemma_first_exists(s, v.id);
    let i = choose|i: int| first_with_id(s, v.id, i);
    let t = updated(s, v);
    assert(t == s.update(i, v));
    assert(first_with_id(t, v.id, i));
    let k = choose|k: int| first_with_id(t, v.id, k);
    lemma_first_unique(t, v.id, i, k);
}

/// After a delete of an id, a lookup of that id finds nothing.
pub proof fn lemma_lookup_after_delete(s: Seq<RecipeView>, id: u32)
    ensures
        lookup(without_id(s, id), id) is None,
{
    let t = without_id(s, id);
    assert forall|j: int| 0 <= j < t.len() implies t[j].id != id by {
        s.lemma_filter_pred(|r: RecipeView| r.id != id, j);
    }
}

/// Deleting an id that no recipe has leaves the list as it was.
pub proof fn lemma_delete_absent(s: Seq<RecipeView>, id: u32)
    requires
        !has_id(s, id),
    ensures
        without_id(s, id) == s,
    decreases s.len(),
{
    reveal(Seq::filter);
    if s.len() > 0 {
        let p = s.drop_last();
        if has_id(p, id) {
            let j = choose|j: int| 0 <= j < p.len() && p[j].id == id;
            assert(s[j] == p[j]);
        }
        lemma_delete_absent(p, id);
        assert(s.last().id != id);
        assert(p.push(s.last()) =~= s);
    }
}

/// After a load, the next id is above every id in the loaded list.
pub proof fn lemma_next_id_after_load(s: Seq<RecipeView>)
    ensures
        forall|i: int| 0 <= i < s.len() ==> #[trigger] s[i].id < max_id(s) + 1,
{
    lemma_max_id_bounds(s);
}

/// What a well-formed catalogue holds is always taken back by a load: no id
/// in it is `u32::MAX`, so `replace_recipes` of the exported list succeeds and
/// restores the same recipes in the same order.
pub proof fn lemma_export_reloads(m: RecipeManager)
    requires
        m.wf(),
    ensures
        forall|i: int| 0 <= i < m.entries().len() ==> #[trigger] m.entries()[i].id < u32::MAX,
{
}

} // verus!
