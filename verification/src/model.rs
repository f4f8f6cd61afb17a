//! Mathematical model of the repository: ghost records for every stored row,
//! and the spec-level queries that the executable operations are specified
//! against.
use vstd::prelude::*;

use crate::nutrition::{portion_totals, scaled_totals, totals_add, totals_sub, zero_totals, Macros, TotalsModel};
use crate::rank::ConsumableType;
use crate::store::{ConsumableRef, ConsumptionFilter};

verus! {

pub ghost struct UserModel {
    pub id: Seq<char>,
    pub username: Seq<char>,
    pub password_hash: Seq<char>,
}

pub ghost struct WeightModel {
    pub id: u64,
    pub user: Seq<char>,
    pub weight: u32,
    pub measured_at: u32,
}

pub ghost struct FoodModel {
    pub id: u64,
    pub user: Seq<char>,
    pub name: Seq<char>,
    pub macros: Macros,
    pub hidden_at: Option<u64>,
    pub starred_at: Option<u64>,
    pub created_at: u64,
}

pub ghost struct RecipeModel {
    pub id: u64,
    pub user: Seq<char>,
    pub name: Seq<char>,
    pub quantity: u16,
    pub hidden_at: Option<u64>,
    pub starred_at: Option<u64>,
    pub created_at: u64,
}

pub ghost struct IngredientModel {
    pub id: u64,
    pub user: Seq<char>,
    pub recipe_id: u64,
    pub food_id: u64,
    pub quantity: u16,
}

pub ghost struct ConsumptionModel {
    pub id: u64,
    pub user: Seq<char>,
    pub reference: ConsumableRef,
    pub quantity: u16,
    pub consumed_at: u32,
}

pub ghost struct SessionModel {
    pub key: Seq<char>,
    pub user: Seq<char>,
    pub created_at: u64,
}

/// The whole state of the repository.
pub ghost struct DbModel {
    pub users: Seq<UserModel>,
    pub weights: Seq<WeightModel>,
    pub foods: Seq<FoodModel>,
    pub recipes: Seq<RecipeModel>,
    pub ingredients: Seq<IngredientModel>,
    pub consumptions: Seq<ConsumptionModel>,
    pub sessions: Seq<SessionModel>,
    pub next_id: u64,
}

// ---------------------------------------------------------------------------
// Lookups: first match in store order. Row ids are unique (see `db_wf`), so
// the first match is the only one.

pub open spec fn find_weight(s: Seq<WeightModel>, id: u64) -> Option<WeightModel>
    decreases s.len(),
{
    if s.len() == 0 {
        None
    } else if s[0].id == id {
        Some(s[0])
    } else {
        find_weight(s.skip(1), id)
    }
}

pub open spec fn find_food(s: Seq<FoodModel>, id: u64) -> Option<FoodModel>
    decreases s.len(),
{
    if s.len() == 0 {
        None
    } else if s[0].id == id {
        Some(s[0])
    } else {
        find_food(s.skip(1), id)
    }
}

pub open spec fn find_recipe(s: Seq<RecipeModel>, id: u64) -> Option<RecipeModel>
    decreases s.len(),
{
    if s.len() == 0 {
        None
    } else if s[0].id == id {
        Some(s[0])
    } else {
        find_recipe(s.skip(1), id)
    }
}

pub open spec fn find_ingredient(s: Seq<IngredientModel>, id: u64) -> Option<IngredientModel>
    decreases s.len(),
{
    if s.len() == 0 {
        None
    } else if s[0].id == id {
        Some(s[0])
    } else {
        find_ingredient(s.skip(1), id)
    }
}

pub open spec fn find_consumption(s: Seq<ConsumptionModel>, id: u64) -> Option<ConsumptionModel>
    decreases s.len(),
{
    if s.len() == 0 {
        None
    } else if s[0].id == id {
        Some(s[0])
    } else {
        find_consumption(s.skip(1), id)
    }
}

pub open spec fn find_user(s: Seq<UserModel>, username: Seq<char>) -> Option<UserModel>
    decreases s.len(),
{
    if s.len() == 0 {
        None
    } else if s[0].username == username {
        Some(s[0])
    } else {
        find_user(s.skip(1), username)
    }
}

pub open spec fn session_lookup(s: Seq<SessionModel>, key: Seq<char>) -> Option<SessionModel>
    decreases s.len(),
{
    if s.len() == 0 {
        None
    } else if s[0].key == key {
        Some(s[0])
    } else {
        session_lookup(s.skip(1), key)
    }
}

/// First match among the user's weights for the given date.
pub open spec fn find_weight_by_date(
    s: Seq<WeightModel>,
    user: Seq<char>,
    measured_at: u32,
) -> Option<WeightModel>
    decreases s.len(),
{
    if s.len() == 0 {
        None
    } else if s[0].user == user && s[0].measured_at == measured_at {
        Some(s[0])
    } else {
        find_weight_by_date(s.skip(1), user, measured_at)
    }
}

// ---------------------------------------------------------------------------
// With unique ids, a first-match lookup finds the one row with that id, and
// finds nothing exactly when no row has it.

pub proof fn lemma_find_weight_properties(s: Seq<WeightModel>, id: u64)
    requires
        weight_ids_unique(s),
    ensures
        match find_weight(s, id) {
            Some(w) => w.id == id && exists|i: int| 0 <= i < s.len() && s[i] == w,
            None => forall|i: int| 0 <= i < s.len() ==> (#[trigger] s[i]).id != id,
        },
        forall|i: int|
            0 <= i < s.len() && (#[trigger] s[i]).id == id ==> find_weight(s, id) == Some(s[i]),
    decreases s.len(),
{
    if s.len() > 0 && s[0].id != id {
        assert(weight_ids_unique(s.skip(1)));
        lemma_find_weight_properties(s.skip(1), id);
        assert forall|i: int|
            0 <= i < s.len() && (#[trigger] s[i]).id == id implies find_weight(s, id) == Some(
            s[i],
        ) by {
            assert(s.skip(1)[i - 1] == s[i]);
        }
        if find_weight(s, id) is Some {
            let w = find_weight(s.skip(1), id)->Some_0;
            let i = choose|i: int| 0 <= i < s.skip(1).len() && s.skip(1)[i] == w;
            assert(s[i + 1] == w);
        }
    }
}

pub proof fn lemma_find_food_properties(s: Seq<FoodModel>, id: u64)
    requires
        food_ids_unique(s),
    ensures
        match find_food(s, id) {
            Some(f) => f.id == id && exists|i: int| 0 <= i < s.len() && s[i] == f,
            None => forall|i: int| 0 <= i < s.len() ==> (#[trigger] s[i]).id != id,
        },
        forall|i: int|
            0 <= i < s.len() && (#[trigger] s[i]).id == id ==> find_food(s, id) == Some(s[i]),
    decreases s.len(),
{
    if s.len() > 0 && s[0].id != id {
        assert(food_ids_unique(s.skip(1)));
        lemma_find_food_properties(s.skip(1), id);
        assert forall|i: int|
            0 <= i < s.len() && (#[trigger] s[i]).id == id implies find_food(s, id) == Some(
            s[i],
        ) by {
            assert(s.skip(1)[i - 1] == s[i]);
        }
        if find_food(s, id) is Some {
            let f = find_food(s.skip(1), id)->Some_0;
            let i = choose|i: int| 0 <= i < s.skip(1).len() && s.skip(1)[i] == f;
            assert(s[i + 1] == f);
        }
    }
}

pub proof fn lemma_find_recipe_properties(s: Seq<RecipeModel>, id: u64)
    requires
        recipe_ids_unique(s),
    ensures
        match find_recipe(s, id) {
            Some(r) => r.id == id && exists|i: int| 0 <= i < s.len() && s[i] == r,
            None => forall|i: int| 0 <= i < s.len() ==> (#[trigger] s[i]).id != id,
        },
        forall|i: int|
            0 <= i < s.len() && (#[trigger] s[i]).id == id ==> find_recipe(s, id) == Some(s[i]),
    decreases s.len(),
{
    if s.len() > 0 && s[0].id != id {
        assert(recipe_ids_unique(s.skip(1)));
        lemma_find_recipe_properties(s.skip(1), id);
        assert forall|i: int|
            0 <= i < s.len() && (#[trigger] s[i]).id == id implies find_recipe(s, id) == Some(
            s[i],
        ) by {
            assert(s.skip(1)[i - 1] == s[i]);
        }
        if find_recipe(s, id) is Some {
            let r = find_recipe(s.skip(1), id)->Some_0;
            let i = choose|i: int| 0 <= i < s.skip(1).len() && s.skip(1)[i] == r;
            assert(s[i + 1] == r);
        }
    }
}



pub proof fn lemma_find_user_properties(s: Seq<UserModel>, username: Seq<char>)
    requires
        usernames_unique(s),
    ensures
        match find_user(s, username) {
            Some(u) => u.username == username && exists|i: int| 0 <= i < s.len() && s[i] == u,
            None => forall|i: int| 0 <= i < s.len() ==> (#[trigger] s[i]).username != username,
        },
        forall|i: int|
            0 <= i < s.len() && (#[trigger] s[i]).username == username ==> find_user(s, username)
                == Some(s[i]),
    decreases s.len(),
{
    if s.len() > 0 && s[0].username != username {
        assert(usernames_unique(s.skip(1)));
        lemma_find_user_properties(s.skip(1), username);
        assert forall|i: int|
            0 <= i < s.len() && (#[trigger] s[i]).username == username implies find_user(
            s,
            username,
        ) == Some(s[i]) by {
            assert(s.skip(1)[i - 1] == s[i]);
        }
        if find_user(s, username) is Some {
            let u = find_user(s.skip(1), username)->Some_0;
            let i = choose|i: int| 0 <= i < s.skip(1).len() && s.skip(1)[i] == u;
            assert(s[i + 1] == u);
        }
    }
}

// ---------------------------------------------------------------------------
// User-scoped listings.

pub open spec fn weights_of(s: Seq<WeightModel>, user: Seq<char>) -> Seq<WeightModel>
    decreases s.len(),
{
    if s.len() == 0 {
        Seq::empty()
    } else if s.last().user == user {
        weights_of(s.drop_last(), user).push(s.last())
    } else {
        weights_of(s.drop_last(), user)
    }
}

pub open spec fn foods_of(s: Seq<FoodModel>, user: Seq<char>) -> Seq<FoodModel>
    decreases s.len(),
{
    if s.len() == 0 {
        Seq::empty()
    } else if s.last().user == user {
        foods_of(s.drop_last(), user).push(s.last())
    } else {
        foods_of(s.drop_last(), user)
    }
}

pub open spec fn recipes_of(s: Seq<RecipeModel>, user: Seq<char>) -> Seq<RecipeModel>
    decreases s.len(),
{
    if s.len() == 0 {
        Seq::empty()
    } else if s.last().user == user {
        recipes_of(s.drop_last(), user).push(s.last())
    } else {
        recipes_of(s.drop_last(), user)
    }
}

pub open spec fn ingredients_of_user(s: Seq<IngredientModel>, user: Seq<char>) -> Seq<IngredientModel>
    decreases s.len(),
{
    if s.len() == 0 {
        Seq::empty()
    } else if s.last().user == user {
        ingredients_of_user(s.drop_last(), user).push(s.last())
    } else {
        ingredients_of_user(s.drop_last(), user)
    }
}

pub open spec fn ingredients_of_recipe(s: Seq<IngredientModel>, recipe_id: u64) -> Seq<IngredientModel>
    decreases s.len(),
{
    if s.len() == 0 {
        Seq::empty()
    } else if s.last().recipe_id == recipe_id {
        ingredients_of_recipe(s.drop_last(), recipe_id).push(s.last())
    } else {
        ingredients_of_recipe(s.drop_last(), recipe_id)
    }
}

pub open spec fn consumption_selected(c: ConsumptionModel, user: Seq<char>, filter: ConsumptionFilter) -> bool {
    c.user == user && match filter {
        ConsumptionFilter::All => true,
        ConsumptionFilter::ConsumedAt(d) => c.consumed_at == d,
        ConsumptionFilter::FoodId(id) => c.reference == ConsumableRef::Food(id),
        ConsumptionFilter::RecipeId(id) => c.reference == ConsumableRef::Recipe(id),
    }
}

pub open spec fn consumptions_selected(
    s: Seq<ConsumptionModel>,
    user: Seq<char>,
    filter: ConsumptionFilter,
) -> Seq<ConsumptionModel>
    decreases s.len(),
{
    if s.len() == 0 {
        Seq::empty()
    } else if consumption_selected(s.last(), user, filter) {
        consumptions_selected(s.drop_last(), user, filter).push(s.last())
    } else {
        consumptions_selected(s.drop_last(), user, filter)
    }
}

// ---------------------------------------------------------------------------
// Derived macro totals.

/// The term one ingredient adds to its recipe's totals: the referenced food's
/// per-unit profile scaled by the ingredient quantity.
pub open spec fn ingredient_term(foods: Seq<FoodModel>, ing: IngredientModel) -> TotalsModel {
    match find_food(foods, ing.food_id) {
        Some(f) => scaled_totals(f.macros, ing.quantity),
        None => zero_totals(),
    }
}

/// Aggregate totals of a list of ingredients. An empty list yields zero.
pub open spec fn ingredients_totals(foods: Seq<FoodModel>, ings: Seq<IngredientModel>) -> TotalsModel
    decreases ings.len(),
{
    if ings.len() == 0 {
        zero_totals()
    } else {
        totals_add(
            ingredients_totals(foods, ings.drop_last()),
            ingredient_term(foods, ings.last()),
        )
    }
}

/// Derived totals of a whole recipe: the sum over its ingredients of the
/// food's profile scaled by the ingredient quantity.
pub open spec fn recipe_totals(db: DbModel, recipe_id: u64) -> TotalsModel {
    ingredients_totals(db.foods, ingredients_of_recipe(db.ingredients, recipe_id))
}

/// What a recipe read returns: the stored fields and the derived totals.
pub ghost struct RecipeOutModel {
    pub id: u64,
    pub user: Seq<char>,
    pub name: Seq<char>,
    pub quantity: u16,
    pub totals: TotalsModel,
    pub hidden_at: Option<u64>,
    pub starred_at: Option<u64>,
}

pub open spec fn recipe_out(db: DbModel, r: RecipeModel) -> RecipeOutModel {
    RecipeOutModel {
        id: r.id,
        user: r.user,
        name: r.name,
        quantity: r.quantity,
        totals: recipe_totals(db, r.id),
        hidden_at: r.hidden_at,
        starred_at: r.starred_at,
    }
}

/// The recipes of a user, each with its derived totals.
pub open spec fn recipes_out(db: DbModel, s: Seq<RecipeModel>, user: Seq<char>) -> Seq<RecipeOutModel>
    decreases s.len(),
{
    if s.len() == 0 {
        Seq::empty()
    } else if s.last().user == user {
        recipes_out(db, s.drop_last(), user).push(recipe_out(db, s.last()))
    } else {
        recipes_out(db, s.drop_last(), user)
    }
}

/// What an ingredient read returns: the stored fields, the referenced food's
/// name, and the ingredient's contribution to the recipe totals.
pub ghost struct IngredientOutModel {
    pub id: u64,
    pub user: Seq<char>,
    pub recipe_id: u64,
    pub food_id: u64,
    pub food_name: Seq<char>,
    pub quantity: u16,
    pub totals: TotalsModel,
}

pub open spec fn ingredient_out(db: DbModel, g: IngredientModel) -> IngredientOutModel {
    IngredientOutModel {
        id: g.id,
        user: g.user,
        recipe_id: g.recipe_id,
        food_id: g.food_id,
        food_name: match find_food(db.foods, g.food_id) {
            Some(f) => f.name,
            None => Seq::empty(),
        },
        quantity: g.quantity,
        totals: ingredient_term(db.foods, g),
    }
}

/// The ingredients of a recipe, each with its food name and totals.
pub open spec fn ingredients_out(db: DbModel, s: Seq<IngredientModel>, recipe_id: u64) -> Seq<
    IngredientOutModel,
>
    decreases s.len(),
{
    if s.len() == 0 {
        Seq::empty()
    } else if s.last().recipe_id == recipe_id {
        ingredients_out(db, s.drop_last(), recipe_id).push(ingredient_out(db, s.last()))
    } else {
        ingredients_out(db, s.drop_last(), recipe_id)
    }
}

/// What a consumption read returns: the event fields, the referenced
/// consumable's id and name, and the derived totals — the food's profile
/// scaled by the quantity, or the recipe's per-unit totals times the
/// quantity.
pub ghost struct ConsumptionOutModel {
    pub id: u64,
    pub user: Seq<char>,
    pub consumable_id: u64,
    pub consumable_name: Seq<char>,
    pub quantity: u16,
    pub totals: TotalsModel,
    pub consumed_at: u32,
}

pub open spec fn consumption_out(db: DbModel, c: ConsumptionModel) -> ConsumptionOutModel {
    match c.reference {
        ConsumableRef::Food(fid) => ConsumptionOutModel {
            id: c.id,
            user: c.user,
            consumable_id: fid,
            consumable_name: match find_food(db.foods, fid) {
                Some(f) => f.name,
                None => Seq::empty(),
            },
            quantity: c.quantity,
            totals: match find_food(db.foods, fid) {
                Some(f) => scaled_totals(f.macros, c.quantity),
                None => zero_totals(),
            },
            consumed_at: c.consumed_at,
        },
        ConsumableRef::Recipe(rid) => ConsumptionOutModel {
            id: c.id,
            user: c.user,
            consumable_id: rid,
            consumable_name: match find_recipe(db.recipes, rid) {
                Some(r) => r.name,
                None => Seq::empty(),
            },
            quantity: c.quantity,
            totals: match find_recipe(db.recipes, rid) {
                Some(r) => portion_totals(recipe_totals(db, rid), r.quantity, c.quantity),
                None => zero_totals(),
            },
            consumed_at: c.consumed_at,
        },
    }
}

/// The consumptions a listing returns for the given user and filter, each
/// with its resolved name and derived totals.
pub open spec fn consumptions_out(
    db: DbModel,
    s: Seq<ConsumptionModel>,
    user: Seq<char>,
    filter: ConsumptionFilter,
) -> Seq<ConsumptionOutModel>
    decreases s.len(),
{
    if s.len() == 0 {
        Seq::empty()
    } else if consumption_selected(s.last(), user, filter) {
        consumptions_out(db, s.drop_last(), user, filter).push(consumption_out(db, s.last()))
    } else {
        consumptions_out(db, s.drop_last(), user, filter)
    }
}

/// A summary row the ranking engine orders: one visible food or recipe with
/// its star state, creation time, and trailing-window consumption stats.
pub ghost struct ConsumableModel {
    pub ctype: ConsumableType,
    pub id: u64,
    pub name: Seq<char>,
    pub is_starred: bool,
    pub created_at: u64,
    pub last_consumed_at: Option<u32>,
    pub consumed_count: u64,
}

/// Whether a consumption event falls in the trailing seven-day window ending
/// today and references the given consumable.
pub open spec fn in_window(c: ConsumptionModel, rf: ConsumableRef, today: u32) -> bool {
    c.reference == rf && c.consumed_at + 7 > today
}

/// How many consumptions in the trailing window reference the consumable.
pub open spec fn window_count(s: Seq<ConsumptionModel>, rf: ConsumableRef, today: u32) -> int
    decreases s.len(),
{
    if s.len() == 0 {
        0
    } else {
        window_count(s.drop_last(), rf, today) + if in_window(s.last(), rf, today) {
            1int
        } else {
            0int
        }
    }
}

/// The most recent date, within the trailing window, on which the consumable
/// was consumed, if any.
pub open spec fn window_last(s: Seq<ConsumptionModel>, rf: ConsumableRef, today: u32) -> Option<
    u32,
>
    decreases s.len(),
{
    if s.len() == 0 {
        None
    } else {
        let rest = window_last(s.drop_last(), rf, today);
        if in_window(s.last(), rf, today) {
            match rest {
                Some(d) => if s.last().consumed_at > d {
                    Some(s.last().consumed_at)
                } else {
                    Some(d)
                },
                None => Some(s.last().consumed_at),
            }
        } else {
            rest
        }
    }
}

/// The summary row of one food.
pub open spec fn food_consumable(db: DbModel, f: FoodModel, today: u32) -> ConsumableModel {
    ConsumableModel {
        ctype: ConsumableType::Food,
        id: f.id,
        name: f.name,
        is_starred: f.starred_at is Some,
        created_at: f.created_at,
        last_consumed_at: window_last(db.consumptions, ConsumableRef::Food(f.id), today),
        consumed_count: window_count(db.consumptions, ConsumableRef::Food(f.id), today) as u64,
    }
}

/// The summary row of one recipe.
pub open spec fn recipe_consumable(db: DbModel, r: RecipeModel, today: u32) -> ConsumableModel {
    ConsumableModel {
        ctype: ConsumableType::Recipe,
        id: r.id,
        name: r.name,
        is_starred: r.starred_at is Some,
        created_at: r.created_at,
        last_consumed_at: window_last(db.consumptions, ConsumableRef::Recipe(r.id), today),
        consumed_count: window_count(db.consumptions, ConsumableRef::Recipe(r.id), today) as u64,
    }
}

/// Summary rows of the user's non-hidden foods.
pub open spec fn food_consumables(db: DbModel, s: Seq<FoodModel>, user: Seq<char>, today: u32) -> Seq<
    ConsumableModel,
>
    decreases s.len(),
{
    if s.len() == 0 {
        Seq::empty()
    } else if s.last().user == user && s.last().hidden_at is None {
        food_consumables(db, s.drop_last(), user, today).push(
            food_consumable(db, s.last(), today),
        )
    } else {
        food_consumables(db, s.drop_last(), user, today)
    }
}

/// Summary rows of the user's non-hidden recipes.
pub open spec fn recipe_consumables(
    db: DbModel,
    s: Seq<RecipeModel>,
    user: Seq<char>,
    today: u32,
) -> Seq<ConsumableModel>
    decreases s.len(),
{
    if s.len() == 0 {
        Seq::empty()
    } else if s.last().user == user && s.last().hidden_at is None {
        recipe_consumables(db, s.drop_last(), user, today).push(
            recipe_consumable(db, s.last(), today),
        )
    } else {
        recipe_consumables(db, s.drop_last(), user, today)
    }
}

/// The ingredients that do not belong to the given recipe: what remains after
/// a recipe is deleted and takes its own ingredients with it.
pub open spec fn ingredients_not_of_recipe(s: Seq<IngredientModel>, recipe_id: u64) -> Seq<IngredientModel>
    decreases s.len(),
{
    if s.len() == 0 {
        Seq::empty()
    } else if s.last().recipe_id != recipe_id {
        ingredients_not_of_recipe(s.drop_last(), recipe_id).push(s.last())
    } else {
        ingredients_not_of_recipe(s.drop_last(), recipe_id)
    }
}

// ---------------------------------------------------------------------------
// Well-formedness of the whole store.

pub open spec fn weight_ids_unique(s: Seq<WeightModel>) -> bool {
    forall|i: int, j: int| 0 <= i < j < s.len() ==> s[i].id != s[j].id
}

pub open spec fn food_ids_unique(s: Seq<FoodModel>) -> bool {
    forall|i: int, j: int| 0 <= i < j < s.len() ==> s[i].id != s[j].id
}

pub open spec fn recipe_ids_unique(s: Seq<RecipeModel>) -> bool {
    forall|i: int, j: int| 0 <= i < j < s.len() ==> s[i].id != s[j].id
}

pub open spec fn ingredient_ids_unique(s: Seq<IngredientModel>) -> bool {
    forall|i: int, j: int| 0 <= i < j < s.len() ==> s[i].id != s[j].id
}

pub open spec fn consumption_ids_unique(s: Seq<ConsumptionModel>) -> bool {
    forall|i: int, j: int| 0 <= i < j < s.len() ==> s[i].id != s[j].id
}

pub open spec fn usernames_unique(s: Seq<UserModel>) -> bool {
    forall|i: int, j: int| 0 <= i < j < s.len() ==> s[i].username != s[j].username
}

/// An ingredient belongs to an existing recipe and references an existing
/// food, all owned by the ingredient's owner.
pub open spec fn ingredient_valid(db: DbModel, ing: IngredientModel) -> bool {
    &&& match find_recipe(db.recipes, ing.recipe_id) {
        Some(r) => r.user == ing.user,
        None => false,
    }
    &&& match find_food(db.foods, ing.food_id) {
        Some(f) => f.user == ing.user,
        None => false,
    }
}

/// A consumption references exactly one existing consumable owned by the
/// consumption's owner. The exactly-one shape is enforced by the
/// `ConsumableRef` type itself.
pub open spec fn consumption_valid(db: DbModel, c: ConsumptionModel) -> bool {
    match c.reference {
        ConsumableRef::Food(id) => match find_food(db.foods, id) {
            Some(f) => f.user == c.user,
            None => false,
        },
        ConsumableRef::Recipe(id) => match find_recipe(db.recipes, id) {
            Some(r) => r.user == c.user,
            None => false,
        },
    }
}

pub open spec fn ids_below(db: DbModel, bound: u64) -> bool {
    &&& forall|i: int| 0 <= i < db.weights.len() ==> (#[trigger] db.weights[i]).id < bound
    &&& forall|i: int| 0 <= i < db.foods.len() ==> (#[trigger] db.foods[i]).id < bound
    &&& forall|i: int| 0 <= i < db.recipes.len() ==> (#[trigger] db.recipes[i]).id < bound
    &&& forall|i: int| 0 <= i < db.ingredients.len() ==> (#[trigger] db.ingredients[i]).id < bound
    &&& forall|i: int| 0 <= i < db.consumptions.len() ==> (#[trigger] db.consumptions[i]).id < bound
}

/// Invariant of the repository: unique row ids issued below `next_id`, unique
/// usernames, positive recipe yields, and referential integrity for
/// ingredients and consumptions.
pub open spec fn db_wf(db: DbModel) -> bool {
    &&& weight_ids_unique(db.weights)
    &&& food_ids_unique(db.foods)
    &&& recipe_ids_unique(db.recipes)
    &&& ingredient_ids_unique(db.ingredients)
    &&& consumption_ids_unique(db.consumptions)
    &&& usernames_unique(db.users)
    &&& ids_below(db, db.next_id)
    &&& forall|i: int| 0 <= i < db.recipes.len() ==> (#[trigger] db.recipes[i]).quantity >= 1
    &&& forall|i: int|
        0 <= i < db.ingredients.len() ==> ingredient_valid(db, #[trigger] db.ingredients[i])
    &&& forall|i: int|
        0 <= i < db.consumptions.len() ==> consumption_valid(db, #[trigger] db.consumptions[i])
}

pub open spec fn decimal_digit(d: nat) -> char {
    if d == 0 {
        '0'
    } else if d == 1 {
        '1'
    } else if d == 2 {
        '2'
    } else if d == 3 {
        '3'
    } else if d == 4 {
        '4'
    } else if d == 5 {
        '5'
    } else if d == 6 {
        '6'
    } else if d == 7 {
        '7'
    } else if d == 8 {
        '8'
    } else {
        '9'
    }
}

/// The decimal digits of a number, most significant first.
pub open spec fn decimal_of(n: nat) -> Seq<char>
    decreases n,
{
    if n < 10 {
        seq![decimal_digit(n)]
    } else {
        decimal_of(n / 10) + seq![decimal_digit(n % 10)]
    }
}

/// The idempotent first-set-wins update of a visibility timestamp: setting an
/// already-set flag keeps the original timestamp, setting an unset flag stamps
/// it now, and unsetting clears it.
pub open spec fn set_flag_timestamp(old_ts: Option<u64>, set: bool, now: u64) -> Option<u64> {
    if set {
        if old_ts is Some {
            old_ts
        } else {
            Some(now)
        }
    } else {
        None
    }
}

/// Referential integrity survives any change that keeps every food and recipe
/// in place (same id and owner at each old index, possibly with fresh rows
/// appended) and leaves ingredients and consumptions as they were.
pub proof fn lemma_refs_preserved(db: DbModel, post: DbModel)
    requires
        db_wf(db),
        post.ingredients == db.ingredients,
        post.consumptions == db.consumptions,
        db.foods.len() <= post.foods.len(),
        forall|i: int|
            0 <= i < db.foods.len() ==> (#[trigger] post.foods[i]).id == db.foods[i].id
                && post.foods[i].user == db.foods[i].user,
        food_ids_unique(post.foods),
        db.recipes.len() <= post.recipes.len(),
        forall|i: int|
            0 <= i < db.recipes.len() ==> (#[trigger] post.recipes[i]).id == db.recipes[i].id
                && post.recipes[i].user == db.recipes[i].user,
        recipe_ids_unique(post.recipes),
    ensures
        forall|i: int|
            0 <= i < post.ingredients.len() ==> ingredient_valid(
                post,
                #[trigger] post.ingredients[i],
            ),
        forall|i: int|
            0 <= i < post.consumptions.len() ==> consumption_valid(
                post,
                #[trigger] post.consumptions[i],
            ),
{
    assert forall|i: int| 0 <= i < post.ingredients.len() implies ingredient_valid(
        post,
        #[trigger] post.ingredients[i],
    ) by {
        let ing = db.ingredients[i];
        assert(ingredient_valid(db, ing));
        lemma_find_food_properties(db.foods, ing.food_id);
        let f = find_food(db.foods, ing.food_id)->Some_0;
        let j = choose|j: int| 0 <= j < db.foods.len() && db.foods[j] == f;
        assert(post.foods[j].id == ing.food_id);
        lemma_find_food_properties(post.foods, ing.food_id);
        lemma_find_recipe_properties(db.recipes, ing.recipe_id);
        let r = find_recipe(db.recipes, ing.recipe_id)->Some_0;
        let jr = choose|j: int| 0 <= j < db.recipes.len() && db.recipes[j] == r;
        assert(post.recipes[jr].id == ing.recipe_id);
        lemma_find_recipe_properties(post.recipes, ing.recipe_id);
    }
    assert forall|i: int| 0 <= i < post.consumptions.len() implies consumption_valid(
        post,
        #[trigger] post.consumptions[i],
    ) by {
        let c = db.consumptions[i];
        assert(consumption_valid(db, c));
        match c.reference {
            ConsumableRef::Food(fid) => {
                lemma_find_food_properties(db.foods, fid);
                let f = find_food(db.foods, fid)->Some_0;
                let j = choose|j: int| 0 <= j < db.foods.len() && db.foods[j] == f;
                assert(post.foods[j].id == fid);
                lemma_find_food_properties(post.foods, fid);
            },
            ConsumableRef::Recipe(rid) => {
                lemma_find_recipe_properties(db.recipes, rid);
                let r = find_recipe(db.recipes, rid)->Some_0;
                let j = choose|j: int| 0 <= j < db.recipes.len() && db.recipes[j] == r;
                assert(post.recipes[j].id == rid);
                lemma_find_recipe_properties(post.recipes, rid);
            },
        }
    }
}

/// Removing a food that no ingredient and no consumption references keeps the
/// whole store well-formed.
pub proof fn lemma_wf_after_food_removal(db: DbModel, post: DbModel, k: int)
    requires
        db_wf(db),
        0 <= k < db.foods.len(),
        post == (DbModel { foods: db.foods.remove(k), ..db }),
        forall|i: int|
            0 <= i < db.ingredients.len() ==> (#[trigger] db.ingredients[i]).food_id
                != db.foods[k].id,
        forall|i: int|
            0 <= i < db.consumptions.len() ==> (#[trigger] db.consumptions[i]).reference
                != ConsumableRef::Food(db.foods[k].id),
    ensures
        db_wf(post),
{
    assert(forall|i: int|
        0 <= i < post.foods.len() ==> #[trigger] post.foods[i] == if i < k {
            db.foods[i]
        } else {
            db.foods[i + 1]
        });
    assert forall|a: int, b: int| 0 <= a < b < post.foods.len() implies (
    #[trigger] post.foods[a]).id != (#[trigger] post.foods[b]).id by {
        let oa = if a < k {
            a
        } else {
            a + 1
        };
        let ob = if b < k {
            b
        } else {
            b + 1
        };
        assert(db.foods[oa].id != db.foods[ob].id);
    }
    assert forall|i: int| 0 <= i < post.ingredients.len() implies ingredient_valid(
        post,
        #[trigger] post.ingredients[i],
    ) by {
        let ing = db.ingredients[i];
        assert(ingredient_valid(db, ing));
        lemma_find_food_properties(db.foods, ing.food_id);
        let f = find_food(db.foods, ing.food_id)->Some_0;
        let j = choose|j: int| 0 <= j < db.foods.len() && db.foods[j] == f;
        let jp = if j < k {
            j
        } else {
            j - 1
        };
        assert(post.foods[jp] == f);
        lemma_find_food_properties(post.foods, ing.food_id);
        lemma_find_recipe_properties(db.recipes, ing.recipe_id);
    }
    assert forall|i: int| 0 <= i < post.consumptions.len() implies consumption_valid(
        post,
        #[trigger] post.consumptions[i],
    ) by {
        let c = db.consumptions[i];
        assert(consumption_valid(db, c));
        match c.reference {
            ConsumableRef::Food(fid) => {
                lemma_find_food_properties(db.foods, fid);
                let f = find_food(db.foods, fid)->Some_0;
                let j = choose|j: int| 0 <= j < db.foods.len() && db.foods[j] == f;
                let jp = if j < k {
                    j
                } else {
                    j - 1
                };
                assert(post.foods[jp] == f);
                lemma_find_food_properties(post.foods, fid);
            },
            ConsumableRef::Recipe(rid) => {
                lemma_find_recipe_properties(db.recipes, rid);
            },
        }
    }
}

/// The complement filter keeps a subset of the rows, so id-uniqueness
/// survives and every kept row was already there.
pub proof fn lemma_ingredients_complement_wf(s: Seq<IngredientModel>, recipe_id: u64)
    requires
        ingredient_ids_unique(s),
    ensures
        ingredient_ids_unique(ingredients_not_of_recipe(s, recipe_id)),
        forall|i: int|
            0 <= i < ingredients_not_of_recipe(s, recipe_id).len() ==> s.contains(
                #[trigger] ingredients_not_of_recipe(s, recipe_id)[i],
            ) && ingredients_not_of_recipe(s, recipe_id)[i].recipe_id != recipe_id,
    decreases s.len(),
{
    if s.len() > 0 {
        assert(ingredient_ids_unique(s.drop_last()));
        lemma_ingredients_complement_wf(s.drop_last(), recipe_id);
        let rest = ingredients_not_of_recipe(s.drop_last(), recipe_id);
        assert forall|i: int| 0 <= i < rest.len() implies s.contains(#[trigger] rest[i]) by {
            assert(s.drop_last().contains(rest[i]));
            let j = choose|j: int| 0 <= j < s.drop_last().len() && s.drop_last()[j] == rest[i];
            assert(s[j] == rest[i]);
        }
        if s.last().recipe_id != recipe_id {
            let out = rest.push(s.last());
            assert(s.contains(s.last())) by {
                assert(s[s.len() - 1] == s.last());
            }
            assert forall|a: int, b: int| 0 <= a < b < out.len() implies (#[trigger] out[a]).id != (
            #[trigger] out[b]).id by {
                if b == out.len() - 1 {
                    let j = choose|j: int| 0 <= j < s.len() && s[j] == out[a];
                    assert(s[j].id != s[s.len() - 1].id || j == s.len() - 1);
                    assert(s.drop_last().contains(out[a]));
                    let jd = choose|jd: int|
                        0 <= jd < s.drop_last().len() && s.drop_last()[jd] == out[a];
                    assert(s[jd] == out[a]);
                    assert(s[jd].id != s[s.len() - 1].id);
                }
            }
        }
    }
}

/// Removing a recipe that no consumption references, together with its own
/// ingredients, keeps the whole store well-formed.
pub proof fn lemma_wf_after_recipe_removal(db: DbModel, post: DbModel, k: int)
    requires
        db_wf(db),
        0 <= k < db.recipes.len(),
        post == (DbModel {
            recipes: db.recipes.remove(k),
            ingredients: ingredients_not_of_recipe(db.ingredients, db.recipes[k].id),
            ..db
        }),
        forall|i: int|
            0 <= i < db.consumptions.len() ==> (#[trigger] db.consumptions[i]).reference
                != ConsumableRef::Recipe(db.recipes[k].id),
    ensures
        db_wf(post),
{
    let rid = db.recipes[k].id;
    assert(forall|i: int|
        0 <= i < post.recipes.len() ==> #[trigger] post.recipes[i] == if i < k {
            db.recipes[i]
        } else {
            db.recipes[i + 1]
        });
    assert forall|a: int, b: int| 0 <= a < b < post.recipes.len() implies (
    #[trigger] post.recipes[a]).id != (#[trigger] post.recipes[b]).id by {
        let oa = if a < k {
            a
        } else {
            a + 1
        };
        let ob = if b < k {
            b
        } else {
            b + 1
        };
        assert(db.recipes[oa].id != db.recipes[ob].id);
    }
    lemma_ingredients_complement_wf(db.ingredients, rid);
    assert forall|i: int| 0 <= i < post.ingredients.len() implies (
    #[trigger] post.ingredients[i]).id < post.next_id by {
        let g = post.ingredients[i];
        let j = choose|j: int| 0 <= j < db.ingredients.len() && db.ingredients[j] == g;
        assert(db.ingredients[j].id < db.next_id);
    }
    assert forall|i: int| 0 <= i < post.ingredients.len() implies ingredient_valid(
        post,
        #[trigger] post.ingredients[i],
    ) by {
        let g = post.ingredients[i];
        let j = choose|j: int| 0 <= j < db.ingredients.len() && db.ingredients[j] == g;
        assert(ingredient_valid(db, g));
        lemma_find_food_properties(db.foods, g.food_id);
        lemma_find_recipe_properties(db.recipes, g.recipe_id);
        let r = find_recipe(db.recipes, g.recipe_id)->Some_0;
        let jr = choose|jr: int| 0 <= jr < db.recipes.len() && db.recipes[jr] == r;
        assert(jr != k);
        let jp = if jr < k {
            jr
        } else {
            jr - 1
        };
        assert(post.recipes[jp] == r);
        lemma_find_recipe_properties(post.recipes, g.recipe_id);
    }
    assert forall|i: int| 0 <= i < post.consumptions.len() implies consumption_valid(
        post,
        #[trigger] post.consumptions[i],
    ) by {
        let c = db.consumptions[i];
        assert(consumption_valid(db, c));
        match c.reference {
            ConsumableRef::Food(fid) => {
                lemma_find_food_properties(db.foods, fid);
            },
            ConsumableRef::Recipe(crid) => {
                lemma_find_recipe_properties(db.recipes, crid);
                let r = find_recipe(db.recipes, crid)->Some_0;
                let j = choose|j: int| 0 <= j < db.recipes.len() && db.recipes[j] == r;
                assert(j != k);
                let jp = if j < k {
                    j
                } else {
                    j - 1
                };
                assert(post.recipes[jp] == r);
                lemma_find_recipe_properties(post.recipes, crid);
            },
        }
    }
}

// ---------------------------------------------------------------------------
// Daily totals: what a day view reports for one date.

pub open spec fn totals_nonneg(t: TotalsModel) -> bool {
    &&& t.kcal >= 0
    &&& t.fat >= 0
    &&& t.carbs >= 0
    &&& t.protein >= 0
}

pub open spec fn totals_le(a: TotalsModel, b: TotalsModel) -> bool {
    &&& a.kcal <= b.kcal
    &&& a.fat <= b.fat
    &&& a.carbs <= b.carbs
    &&& a.protein <= b.protein
}

/// The sum of the derived totals of the user's consumptions on one date.
pub open spec fn day_totals_over(
    db: DbModel,
    s: Seq<ConsumptionModel>,
    user: Seq<char>,
    date: u32,
) -> TotalsModel
    decreases s.len(),
{
    if s.len() == 0 {
        zero_totals()
    } else {
        totals_add(
            day_totals_over(db, s.drop_last(), user, date),
            if consumption_selected(s.last(), user, ConsumptionFilter::ConsumedAt(date)) {
                consumption_out(db, s.last()).totals
            } else {
                zero_totals()
            },
        )
    }
}

pub open spec fn day_totals_of(db: DbModel, user: Seq<char>, date: u32) -> TotalsModel {
    day_totals_over(db, db.consumptions, user, date)
}

proof fn lemma_scaled_totals_nonneg(m: Macros, quantity: u16)
    ensures
        totals_nonneg(scaled_totals(m, quantity)),
{
    assert(m.kcal * quantity >= 0 && m.fat * quantity >= 0 && m.carbs * quantity >= 0
        && m.protein * quantity >= 0) by (nonlinear_arith);
}

pub proof fn lemma_ingredients_totals_nonneg(foods: Seq<FoodModel>, ings: Seq<IngredientModel>)
    ensures
        totals_nonneg(ingredients_totals(foods, ings)),
    decreases ings.len(),
{
    if ings.len() > 0 {
        lemma_ingredients_totals_nonneg(foods, ings.drop_last());
        match find_food(foods, ings.last().food_id) {
            Some(f) => {
                lemma_scaled_totals_nonneg(f.macros, ings.last().quantity);
            },
            None => {},
        }
    }
}

proof fn lemma_portion_totals_nonneg(t: TotalsModel, yield_quantity: u16, quantity: u16)
    requires
        totals_nonneg(t),
    ensures
        totals_nonneg(portion_totals(t, yield_quantity, quantity)),
{
    if yield_quantity != 0 {
        let y = yield_quantity as int;
        let q = quantity as int;
        assert(t.kcal / y * q >= 0 && t.fat / y * q >= 0 && t.carbs / y * q >= 0 && t.protein / y
            * q >= 0) by (nonlinear_arith)
            requires
                t.kcal >= 0 && t.fat >= 0 && t.carbs >= 0 && t.protein >= 0 && y >= 1 && q >= 0,
        ;
    }
}

/// Every consumption contributes non-negative totals.
pub proof fn lemma_consumption_totals_nonneg(db: DbModel, c: ConsumptionModel)
    ensures
        totals_nonneg(consumption_out(db, c).totals),
{
    match c.reference {
        ConsumableRef::Food(fid) => match find_food(db.foods, fid) {
            Some(f) => {
                lemma_scaled_totals_nonneg(f.macros, c.quantity);
            },
            None => {},
        },
        ConsumableRef::Recipe(rid) => match find_recipe(db.recipes, rid) {
            Some(r) => {
                lemma_ingredients_totals_nonneg(
                    db.foods,
                    ingredients_of_recipe(db.ingredients, rid),
                );
                lemma_portion_totals_nonneg(recipe_totals(db, rid), r.quantity, c.quantity);
            },
            None => {},
        },
    }
}

/// A prefix never sums to more than the whole day: the terms are
/// non-negative.
pub proof fn lemma_day_totals_prefix_le(
    db: DbModel,
    s: Seq<ConsumptionModel>,
    user: Seq<char>,
    date: u32,
    i: int,
)
    requires
        0 <= i <= s.len(),
    ensures
        totals_le(day_totals_over(db, s.take(i), user, date), day_totals_over(db, s, user, date)),
    decreases s.len(),
{
    if i == s.len() {
        assert(s.take(i) =~= s);
    } else {
        assert(s.take(i) =~= s.drop_last().take(i));
        lemma_day_totals_prefix_le(db, s.drop_last(), user, date, i);
        lemma_consumption_totals_nonneg(db, s.last());
    }
}

// ---------------------------------------------------------------------------
// Laws of the aggregation.

/// The sum of the display totals of a list of ingredient rows.
pub open spec fn ingredient_totals_sum(s: Seq<IngredientOutModel>) -> TotalsModel
    decreases s.len(),
{
    if s.len() == 0 {
        zero_totals()
    } else {
        totals_add(ingredient_totals_sum(s.drop_last()), s.last().totals)
    }
}

proof fn lemma_totals_decompose_aux(db: DbModel, s: Seq<IngredientModel>, recipe_id: u64)
    ensures
        ingredients_totals(db.foods, ingredients_of_recipe(s, recipe_id))
            == ingredient_totals_sum(ingredients_out(db, s, recipe_id)),
    decreases s.len(),
{
    if s.len() > 0 {
        lemma_totals_decompose_aux(db, s.drop_last(), recipe_id);
        if s.last().recipe_id == recipe_id {
            let sel = ingredients_of_recipe(s, recipe_id);
            assert(sel.drop_last() =~= ingredients_of_recipe(s.drop_last(), recipe_id));
            let out = ingredients_out(db, s, recipe_id);
            assert(out.drop_last() =~= ingredients_out(db, s.drop_last(), recipe_id));
        }
    }
}

/// A recipe's four derived totals are exactly the sum, over its ingredient
/// rows, of the per-ingredient display totals `food.macro * quantity`: what
/// a recipe read reports agrees with what its ingredient listing reports.
pub proof fn lemma_recipe_totals_are_ingredient_sums(db: DbModel, recipe_id: u64)
    ensures
        recipe_totals(db, recipe_id) == ingredient_totals_sum(
            ingredients_out(db, db.ingredients, recipe_id),
        ),
{
    lemma_totals_decompose_aux(db, db.ingredients, recipe_id);
}

/// A recipe with no ingredients has all four derived totals equal to zero.
pub proof fn lemma_recipe_without_ingredients_zero(db: DbModel, recipe_id: u64)
    requires
        ingredients_of_recipe(db.ingredients, recipe_id).len() == 0,
    ensures
        recipe_totals(db, recipe_id) == zero_totals(),
{
}

/// A recipe-based consumption's totals are the recipe's aggregate ingredient
/// totals divided by the recipe's yield, times the consumed quantity — read
/// against the rows as they stand now, never against a snapshot, so a later
/// ingredient edit changes what the next read returns.
pub proof fn lemma_recipe_consumption_totals(db: DbModel, c: ConsumptionModel)
    requires
        c.reference matches ConsumableRef::Recipe(rid) && find_recipe(db.recipes, rid) is Some,
    ensures
        c.reference matches ConsumableRef::Recipe(rid) && consumption_out(db, c).totals
            == portion_totals(
            recipe_totals(db, rid),
            find_recipe(db.recipes, rid)->Some_0.quantity,
            c.quantity,
        ),
{
}

proof fn lemma_update_term_aux(
    foods: Seq<FoodModel>,
    s: Seq<IngredientModel>,
    k: int,
    g2: IngredientModel,
    recipe_id: u64,
)
    requires
        0 <= k < s.len(),
        s[k].recipe_id == recipe_id,
        g2.recipe_id == recipe_id,
    ensures
        ingredients_totals(foods, ingredients_of_recipe(s.update(k, g2), recipe_id)) == totals_add(
            totals_sub(
                ingredients_totals(foods, ingredients_of_recipe(s, recipe_id)),
                ingredient_term(foods, s[k]),
            ),
            ingredient_term(foods, g2),
        ),
    decreases s.len(),
{
    let su = s.update(k, g2);
    if k == s.len() - 1 {
        assert(su.drop_last() =~= s.drop_last());
        assert(su.last() == g2);
        assert(s.last() == s[k]);
        let base = ingredients_of_recipe(s.drop_last(), recipe_id);
        assert(ingredients_of_recipe(su, recipe_id) == base.push(g2));
        assert(base.push(g2).drop_last() =~= base);
        assert(base.push(g2).last() == g2);
        assert(ingredients_of_recipe(s, recipe_id) == base.push(s[k]));
        assert(base.push(s[k]).drop_last() =~= base);
        assert(base.push(s[k]).last() == s[k]);
    } else {
        assert(su.drop_last() =~= s.drop_last().update(k, g2));
        assert(su.last() == s.last());
        assert(s.drop_last()[k] == s[k]);
        lemma_update_term_aux(foods, s.drop_last(), k, g2, recipe_id);
        let basesu = ingredients_of_recipe(su.drop_last(), recipe_id);
        let bases = ingredients_of_recipe(s.drop_last(), recipe_id);
        if s.last().recipe_id == recipe_id {
            assert(ingredients_of_recipe(su, recipe_id) == basesu.push(s.last()));
            assert(basesu.push(s.last()).drop_last() =~= basesu);
            assert(basesu.push(s.last()).last() == s.last());
            assert(ingredients_of_recipe(s, recipe_id) == bases.push(s.last()));
            assert(bases.push(s.last()).drop_last() =~= bases);
            assert(bases.push(s.last()).last() == s.last());
        }
    }
}

/// No snapshot isolation across time: replacing one ingredient row of a
/// recipe shifts the recipe's derived totals — and so what every recorded
/// consumption of that recipe reads back as — by exactly the difference
/// between the new row's term and the old one's.
pub proof fn lemma_ingredient_edit_is_retroactive(
    db: DbModel,
    post: DbModel,
    k: int,
    g2: IngredientModel,
)
    requires
        0 <= k < db.ingredients.len(),
        g2.recipe_id == db.ingredients[k].recipe_id,
        post == (DbModel { ingredients: db.ingredients.update(k, g2), ..db }),
    ensures
        recipe_totals(post, g2.recipe_id) == totals_add(
            totals_sub(
                recipe_totals(db, g2.recipe_id),
                ingredient_term(db.foods, db.ingredients[k]),
            ),
            ingredient_term(db.foods, g2),
        ),
{
    lemma_update_term_aux(db.foods, db.ingredients, k, g2, g2.recipe_id);
}

/// A food-based consumption's totals are the food's per-unit profile scaled
/// by the consumed quantity.
pub proof fn lemma_food_consumption_totals(db: DbModel, c: ConsumptionModel)
    requires
        c.reference matches ConsumableRef::Food(fid) && find_food(db.foods, fid) is Some,
    ensures
        c.reference matches ConsumableRef::Food(fid) && consumption_out(db, c).totals
            == scaled_totals(find_food(db.foods, fid)->Some_0.macros, c.quantity),
{
}

// ---------------------------------------------------------------------------
// Sessions.

/// A session is expired once its age exceeds the cutoff. Age is measured from
/// creation; there is no sliding expiration.
pub open spec fn session_expired(x: SessionModel, now: u64, max_age_days: u32) -> bool {
    now - x.created_at > max_age_days * 86400
}

/// The sessions that remain once every row with the given key is deleted.
pub open spec fn sessions_without_key(s: Seq<SessionModel>, key: Seq<char>) -> Seq<SessionModel>
    decreases s.len(),
{
    if s.len() == 0 {
        Seq::empty()
    } else if s.last().key != key {
        sessions_without_key(s.drop_last(), key).push(s.last())
    } else {
        sessions_without_key(s.drop_last(), key)
    }
}

pub open spec fn purge_sessions(s: Seq<SessionModel>, now: u64, max_age_days: u32) -> Seq<SessionModel>
    decreases s.len(),
{
    if s.len() == 0 {
        Seq::empty()
    } else if !session_expired(s.last(), now, max_age_days) {
        purge_sessions(s.drop_last(), now, max_age_days).push(s.last())
    } else {
        purge_sessions(s.drop_last(), now, max_age_days)
    }
}

} // verus!
