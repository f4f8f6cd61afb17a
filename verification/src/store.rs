//! The nutrition repository: an in-memory store of users, weights, foods,
//! recipes, ingredients, consumptions and sessions, scoped by owning user.
//! Row ids are issued from a counter; derived macro totals are recomputed on
//! every read (a view, not a cache), so edits retroactively affect history.
//!
//! Referential integrity policy: an ingredient or consumption can only be
//! created against existing rows, and deleting a food or recipe that is still
//! referenced is refused with `Error::Conflict` (restrict-on-delete). Deleting
//! a recipe removes its own ingredients with it.
//!
//! Ownership policy: every mutation takes the acting user and is refused with
//! `Error::Forbidden` unless that user owns the target row; reads by id return
//! the owning user so the boundary can enforce the same policy.
use vstd::prelude::*;

use crate::error::Error;
use crate::credential::{hash_password, password_verifies, verify_password, PasswordCheck};
use crate::rank::{rank_consumables, ranked_le, Consumable, ConsumableType};
use crate::session::{hex_lower, random_token_bytes, session_key, session_key_of};
use crate::model::{
    consumption_out, consumption_valid, consumptions_out, consumptions_selected, day_totals_of,
    day_totals_over, db_wf, decimal_of, find_consumption, find_food, find_ingredient, find_recipe,
    find_user, find_weight, find_weight_by_date, food_consumable, food_consumables, foods_of,
    ingredient_out, ingredient_valid, ingredients_not_of_recipe, ingredients_of_recipe,
    ingredients_of_user, ingredients_out, ingredients_totals, lemma_day_totals_prefix_le,
    lemma_find_food_properties, lemma_find_recipe_properties, lemma_find_user_properties,
    lemma_find_weight_properties, lemma_refs_preserved, lemma_wf_after_food_removal,
    lemma_wf_after_recipe_removal, purge_sessions, recipe_consumable, recipe_consumables,
    recipe_out, recipe_totals, recipes_of, recipes_out, session_lookup, sessions_without_key,
    set_flag_timestamp, weights_of, window_count, window_last, ConsumptionModel,
    ConsumptionOutModel, DbModel,
    FoodModel, IngredientModel, IngredientOutModel, RecipeModel, RecipeOutModel, SessionModel,
    UserModel, WeightModel,
};
use crate::nutrition::{total_bounded, totals_fit_u128, MacroTotals, Macros, TotalsModel};

verus! {

/// Opaque identity of an owning user.
#[derive(Debug)]
pub struct UserId(pub String);

impl View for UserId {
    type V = Seq<char>;

    open spec fn view(&self) -> Seq<char> {
        self.0@
    }
}

impl UserId {
    pub fn duplicate(&self) -> (r: UserId)
        ensures
            r == *self,
    {
        UserId(self.0.clone())
    }
}

/// Compares two user identities.
pub fn user_eq(a: &UserId, b: &UserId) -> (r: bool)
    ensures
        r == (a@ == b@),
{
    a.0 == b.0
}

/// A consumption or selection references exactly one consumable: either a
/// food or a recipe, by id. The exactly-one invariant is carried by the type.
#[derive(Clone, Copy, PartialEq, Eq, Structural, Debug)]
pub enum ConsumableRef {
    Food(u64),
    Recipe(u64),
}

impl ConsumableRef {
    /// Builds a reference from the two optional ids of the storage shape.
    /// Giving both ids, or neither, is rejected before anything is persisted.
    pub fn new(food_id: Option<u64>, recipe_id: Option<u64>) -> (r: Result<ConsumableRef, Error>)
        ensures
            match r {
                Ok(c) => match c {
                    ConsumableRef::Food(id) => food_id == Some(id) && recipe_id is None,
                    ConsumableRef::Recipe(id) => recipe_id == Some(id) && food_id is None,
                },
                Err(e) => e is InvalidReference && (food_id is Some <==> recipe_id is Some),
            },
    {
        match (food_id, recipe_id) {
            (Some(f), None) => Ok(ConsumableRef::Food(f)),
            (None, Some(rr)) => Ok(ConsumableRef::Recipe(rr)),
            _ => Err(Error::InvalidReference),
        }
    }

    /// Builds a reference from a kind given as text, as a form submits it.
    /// Any kind other than the two known ones is rejected before anything is
    /// looked up or persisted.
    pub fn parse(ctype: &str, id: u64) -> (r: Result<ConsumableRef, Error>)
        ensures
            match r {
                Ok(c) => match c {
                    ConsumableRef::Food(i) => i == id && ctype@ == "food"@,
                    ConsumableRef::Recipe(i) => i == id && ctype@ == "recipe"@,
                },
                Err(e) => e is InvalidReference && ctype@ != "food"@ && ctype@ != "recipe"@,
            },
    {
        let t = ctype.to_owned();
        if t == "food".to_owned() {
            Ok(ConsumableRef::Food(id))
        } else if t == "recipe".to_owned() {
            Ok(ConsumableRef::Recipe(id))
        } else {
            Err(Error::InvalidReference)
        }
    }

    /// The id of whichever consumable is referenced.
    pub fn id(&self) -> (r: u64)
        ensures
            *self matches ConsumableRef::Food(id) ==> r == id,
            *self matches ConsumableRef::Recipe(id) ==> r == id,
    {
        match self {
            ConsumableRef::Food(id) => *id,
            ConsumableRef::Recipe(id) => *id,
        }
    }
}

/// Selects which consumption events a listing returns.
#[derive(Clone, Copy, PartialEq, Eq, Structural, Debug)]
pub enum ConsumptionFilter {
    All,
    ConsumedAt(u32),
    FoodId(u64),
    RecipeId(u64),
}

/// A body-weight record: one value per (user, date) by convention of the
/// write paths.
#[derive(Debug)]
pub struct WeightWithDate {
    pub id: u64,
    pub user_id: UserId,
    pub weight: u32,
    pub measured_at: u32,
}

impl View for WeightWithDate {
    type V = WeightModel;

    open spec fn view(&self) -> WeightModel {
        WeightModel { id: self.id, user: self.user_id@, weight: self.weight, measured_at: self.measured_at }
    }
}

impl WeightWithDate {
    pub fn duplicate(&self) -> (r: WeightWithDate)
        ensures
            r == *self,
    {
        WeightWithDate {
            id: self.id,
            user_id: self.user_id.duplicate(),
            weight: self.weight,
            measured_at: self.measured_at,
        }
    }
}

/// A food with its per-unit macro profile and the idempotent first-set-wins
/// visibility timestamps.
#[derive(Debug)]
pub struct Food {
    pub id: u64,
    pub user_id: UserId,
    pub name: String,
    pub kcal: u32,
    pub fat: u32,
    pub carbs: u32,
    pub protein: u32,
    pub hidden_at: Option<u64>,
    pub starred_at: Option<u64>,
    pub created_at: u64,
}

impl View for Food {
    type V = FoodModel;

    open spec fn view(&self) -> FoodModel {
        FoodModel {
            id: self.id,
            user: self.user_id@,
            name: self.name@,
            macros: Macros { kcal: self.kcal, fat: self.fat, carbs: self.carbs, protein: self.protein },
            hidden_at: self.hidden_at,
            starred_at: self.starred_at,
            created_at: self.created_at,
        }
    }
}

impl Food {
    pub fn duplicate(&self) -> (r: Food)
        ensures
            r == *self,
    {
        Food {
            id: self.id,
            user_id: self.user_id.duplicate(),
            name: self.name.clone(),
            kcal: self.kcal,
            fat: self.fat,
            carbs: self.carbs,
            protein: self.protein,
            hidden_at: self.hidden_at,
            starred_at: self.starred_at,
            created_at: self.created_at,
        }
    }
}

/// What a recipe read returns: its stored fields and the four derived totals,
/// summed over its ingredients. A recipe with no ingredients totals zero.
#[derive(Debug)]
pub struct Recipe {
    pub id: u64,
    pub user_id: UserId,
    pub name: String,
    pub quantity: u16,
    pub kcal: u128,
    pub fat: u128,
    pub carbs: u128,
    pub protein: u128,
    pub hidden_at: Option<u64>,
    pub starred_at: Option<u64>,
}

impl View for Recipe {
    type V = RecipeOutModel;

    open spec fn view(&self) -> RecipeOutModel {
        RecipeOutModel {
            id: self.id,
            user: self.user_id@,
            name: self.name@,
            quantity: self.quantity,
            totals: TotalsModel {
                kcal: self.kcal as int,
                fat: self.fat as int,
                carbs: self.carbs as int,
                protein: self.protein as int,
            },
            hidden_at: self.hidden_at,
            starred_at: self.starred_at,
        }
    }
}

/// What an ingredient read returns: the stored fields, the referenced food's
/// name, and the precomputed display totals `food.macro * quantity`.
#[derive(Debug)]
pub struct Ingredient {
    pub id: u64,
    pub user_id: UserId,
    pub recipe_id: u64,
    pub food_id: u64,
    pub food_name: String,
    pub quantity: u16,
    pub kcal: u128,
    pub fat: u128,
    pub carbs: u128,
    pub protein: u128,
}

impl View for Ingredient {
    type V = IngredientOutModel;

    open spec fn view(&self) -> IngredientOutModel {
        IngredientOutModel {
            id: self.id,
            user: self.user_id@,
            recipe_id: self.recipe_id,
            food_id: self.food_id,
            food_name: self.food_name@,
            quantity: self.quantity,
            totals: TotalsModel {
                kcal: self.kcal as int,
                fat: self.fat as int,
                carbs: self.carbs as int,
                protein: self.protein as int,
            },
        }
    }
}

/// What a consumption read returns: the event, the resolved consumable name,
/// and the derived totals.
#[derive(Debug)]
pub struct Consumption {
    pub id: u64,
    pub user_id: UserId,
    pub consumable_id: u64,
    pub consumable_name: String,
    pub quantity: u16,
    pub kcal: u128,
    pub fat: u128,
    pub carbs: u128,
    pub protein: u128,
    pub consumed_at: u32,
}

impl View for Consumption {
    type V = ConsumptionOutModel;

    open spec fn view(&self) -> ConsumptionOutModel {
        ConsumptionOutModel {
            id: self.id,
            user: self.user_id@,
            consumable_id: self.consumable_id,
            consumable_name: self.consumable_name@,
            quantity: self.quantity,
            totals: TotalsModel {
                kcal: self.kcal as int,
                fat: self.fat as int,
                carbs: self.carbs as int,
                protein: self.protein as int,
            },
            consumed_at: self.consumed_at,
        }
    }
}

/// A full snapshot of one user's rows, with a server-stamped export time.
#[derive(Debug)]
pub struct ExportDocument {
    pub user_id: String,
    pub exported_at: u64,
    pub weights: Vec<WeightWithDate>,
    pub foods: Vec<Food>,
    pub recipes: Vec<RecipeRow>,
    pub ingredients: Vec<IngredientRow>,
    pub consumptions: Vec<ConsumptionRow>,
}

/// The store.
pub struct Db {
    users: Vec<UserRow>,
    weights: Vec<WeightWithDate>,
    foods: Vec<Food>,
    recipes: Vec<RecipeRow>,
    ingredients: Vec<IngredientRow>,
    consumptions: Vec<ConsumptionRow>,
    sessions: Vec<SessionRow>,
    next_id: u64,
}

/// What a user lookup returns: the opaque identity and the stored password
/// hash string, for the login flow to verify against.
#[derive(Debug)]
pub struct UserWithPasswordHash {
    pub id: UserId,
    pub password_hash: String,
}

/// What the login flow receives from the boundary: the submitted username
/// and plaintext password.
#[derive(Debug)]
pub struct LoginForm {
    pub username: String,
    pub password: String,
}

/// A resolved identity: the user a presented session token maps to, and the
/// token itself, so that a logout can delete the session again.
#[derive(Debug)]
pub struct Session {
    pub user_id: UserId,
    pub session_id: String,
}

pub struct UserRow {
    pub id: UserId,
    pub username: String,
    pub password_hash: String,
}

impl View for UserRow {
    type V = UserModel;

    open spec fn view(&self) -> UserModel {
        UserModel { id: self.id@, username: self.username@, password_hash: self.password_hash@ }
    }
}

/// The stored shape of a recipe: its macro totals are never stored, they are
/// derived from the ingredient rows on every read.
#[derive(Debug)]
pub struct RecipeRow {
    pub id: u64,
    pub user_id: UserId,
    pub name: String,
    pub quantity: u16,
    pub hidden_at: Option<u64>,
    pub starred_at: Option<u64>,
    pub created_at: u64,
}

impl View for RecipeRow {
    type V = RecipeModel;

    open spec fn view(&self) -> RecipeModel {
        RecipeModel {
            id: self.id,
            user: self.user_id@,
            name: self.name@,
            quantity: self.quantity,
            hidden_at: self.hidden_at,
            starred_at: self.starred_at,
            created_at: self.created_at,
        }
    }
}

/// The stored shape of an ingredient.
#[derive(Debug)]
pub struct IngredientRow {
    pub id: u64,
    pub user_id: UserId,
    pub recipe_id: u64,
    pub food_id: u64,
    pub quantity: u16,
}

impl View for IngredientRow {
    type V = IngredientModel;

    open spec fn view(&self) -> IngredientModel {
        IngredientModel {
            id: self.id,
            user: self.user_id@,
            recipe_id: self.recipe_id,
            food_id: self.food_id,
            quantity: self.quantity,
        }
    }
}

/// The stored shape of a consumption event.
#[derive(Debug)]
pub struct ConsumptionRow {
    pub id: u64,
    pub user_id: UserId,
    pub reference: ConsumableRef,
    pub quantity: u16,
    pub consumed_at: u32,
}

impl View for ConsumptionRow {
    type V = ConsumptionModel;

    open spec fn view(&self) -> ConsumptionModel {
        ConsumptionModel {
            id: self.id,
            user: self.user_id@,
            reference: self.reference,
            quantity: self.quantity,
            consumed_at: self.consumed_at,
        }
    }
}

pub struct SessionRow {
    pub key: String,
    pub user_id: UserId,
    pub created_at: u64,
}

impl View for SessionRow {
    type V = SessionModel;

    open spec fn view(&self) -> SessionModel {
        SessionModel { key: self.key@, user: self.user_id@, created_at: self.created_at }
    }
}

impl View for Db {
    type V = DbModel;

    closed spec fn view(&self) -> DbModel {
        DbModel {
            users: self.users@.map_values(|u: UserRow| u@),
            weights: self.weights@.map_values(|w: WeightWithDate| w@),
            foods: self.foods@.map_values(|f: Food| f@),
            recipes: self.recipes@.map_values(|r: RecipeRow| r@),
            ingredients: self.ingredients@.map_values(|i: IngredientRow| i@),
            consumptions: self.consumptions@.map_values(|c: ConsumptionRow| c@),
            sessions: self.sessions@.map_values(|s: SessionRow| s@),
            next_id: self.next_id,
        }
    }
}

impl Db {
    pub open spec fn wf(&self) -> bool {
        db_wf(self@)
    }

    pub fn new() -> (db: Db)
        ensures
            db@ == (DbModel {
                users: Seq::<UserModel>::empty(),
                weights: Seq::<WeightModel>::empty(),
                foods: Seq::<FoodModel>::empty(),
                recipes: Seq::<RecipeModel>::empty(),
                ingredients: Seq::<IngredientModel>::empty(),
                consumptions: Seq::<ConsumptionModel>::empty(),
                sessions: Seq::<SessionModel>::empty(),
                next_id: 1,
            }),
            db.wf(),
    {
        let db = Db {
            users: Vec::new(),
            weights: Vec::new(),
            foods: Vec::new(),
            recipes: Vec::new(),
            ingredients: Vec::new(),
            consumptions: Vec::new(),
            sessions: Vec::new(),
            next_id: 1,
        };
        proof {
            assert(db@.users =~= Seq::<UserModel>::empty());
            assert(db@.weights =~= Seq::<WeightModel>::empty());
            assert(db@.foods =~= Seq::<FoodModel>::empty());
            assert(db@.recipes =~= Seq::<RecipeModel>::empty());
            assert(db@.ingredients =~= Seq::<IngredientModel>::empty());
            assert(db@.consumptions =~= Seq::<ConsumptionModel>::empty());
            assert(db@.sessions =~= Seq::<SessionModel>::empty());
        }
        db
    }

    /// All weight records of the given user, in store order.
    pub fn get_weights(&self, user_id: &UserId) -> (r: Vec<WeightWithDate>)
        ensures
            r@.map_values(|w: WeightWithDate| w@) == weights_of(self@.weights, user_id@),
    {
        let mut out: Vec<WeightWithDate> = Vec::new();
        let n = self.weights.len();
        let mut i: usize = 0;
        while i < n
            invariant
                n == self.weights.len(),
                i <= n,
                self@.weights == self.weights@.map_values(|w: WeightWithDate| w@),
                out@.map_values(|w: WeightWithDate| w@) == weights_of(
                    self@.weights.take(i as int),
                    user_id@,
                ),
            decreases n - i,
        {
            let ghost prev = out@.map_values(|w: WeightWithDate| w@);
            let w = &self.weights[i];
            if user_eq(&w.user_id, user_id) {
                out.push(w.duplicate());
                proof {
                    assert(out@.map_values(|w: WeightWithDate| w@) =~= prev.push(w@));
                }
            }
            proof {
                assert(self@.weights.take(i + 1).drop_last() =~= self@.weights.take(i as int));
                assert(self@.weights.take(i + 1).last() == w@);
            }
            i = i + 1;
        }
        proof {
            assert(self@.weights.take(n as int) =~= self@.weights);
        }
        out
    }

    /// The weight record with the given id, with its owner, or `NotFound`.
    pub fn get_weight(&self, id: u64) -> (r: Result<WeightWithDate, Error>)
        ensures
            match r {
                Ok(w) => find_weight(self@.weights, id) == Some(w@),
                Err(e) => e is NotFound && find_weight(self@.weights, id) is None,
            },
    {
        let n = self.weights.len();
        let mut i: usize = 0;
        proof {
            assert(self@.weights.skip(0) =~= self@.weights);
        }
        while i < n
            invariant
                n == self.weights.len(),
                i <= n,
                self@.weights == self.weights@.map_values(|w: WeightWithDate| w@),
                find_weight(self@.weights, id) == find_weight(self@.weights.skip(i as int), id),
            decreases n - i,
        {
            let w = &self.weights[i];
            proof {
                assert(self@.weights.skip(i as int)[0] == w@);
                assert(self@.weights.skip(i as int).skip(1) =~= self@.weights.skip(i + 1));
            }
            if w.id == id {
                return Ok(w.duplicate());
            }
            i = i + 1;
        }
        proof {
            assert(self@.weights.skip(n as int) =~= Seq::<WeightModel>::empty());
        }
        Err(Error::NotFound)
    }

    /// The user's weight record for the given date, if any.
    pub fn get_weight_by_date(&self, user_id: &UserId, measured_at: u32) -> (r: Option<
        WeightWithDate,
    >)
        ensures
            match r {
                Some(w) => find_weight_by_date(self@.weights, user_id@, measured_at) == Some(w@),
                None => find_weight_by_date(self@.weights, user_id@, measured_at) is None,
            },
    {
        let n = self.weights.len();
        let mut i: usize = 0;
        proof {
            assert(self@.weights.skip(0) =~= self@.weights);
        }
        while i < n
            invariant
                n == self.weights.len(),
                i <= n,
                self@.weights == self.weights@.map_values(|w: WeightWithDate| w@),
                find_weight_by_date(self@.weights, user_id@, measured_at) == find_weight_by_date(
                    self@.weights.skip(i as int),
                    user_id@,
                    measured_at,
                ),
            decreases n - i,
        {
            let w = &self.weights[i];
            proof {
                assert(self@.weights.skip(i as int)[0] == w@);
                assert(self@.weights.skip(i as int).skip(1) =~= self@.weights.skip(i + 1));
            }
            if w.measured_at == measured_at && user_eq(&w.user_id, user_id) {
                return Some(w.duplicate());
            }
            i = i + 1;
        }
        proof {
            assert(self@.weights.skip(n as int) =~= Seq::<WeightModel>::empty());
        }
        None
    }

    /// Index of the weight row with the given id.
    fn weight_index(&self, id: u64) -> (r: Option<usize>)
        ensures
            match r {
                Some(i) => i < self@.weights.len() && self@.weights[i as int].id == id
                    && find_weight(self@.weights, id) == Some(self@.weights[i as int]),
                None => find_weight(self@.weights, id) is None,
            },
    {
        let n = self.weights.len();
        let mut i: usize = 0;
        proof {
            assert(self@.weights.skip(0) =~= self@.weights);
        }
        while i < n
            invariant
                n == self.weights.len(),
                i <= n,
                self@.weights == self.weights@.map_values(|w: WeightWithDate| w@),
                find_weight(self@.weights, id) == find_weight(self@.weights.skip(i as int), id),
            decreases n - i,
        {
            proof {
                assert(self@.weights.skip(i as int)[0] == self@.weights[i as int]);
                assert(self@.weights.skip(i as int).skip(1) =~= self@.weights.skip(i + 1));
            }
            if self.weights[i].id == id {
                return Some(i);
            }
            i = i + 1;
        }
        proof {
            assert(self@.weights.skip(n as int) =~= Seq::<WeightModel>::empty());
        }
        None
    }

    /// Replaces the mutable fields of the user's weight record.
    pub fn update_weight(&mut self, user_id: &UserId, id: u64, weight: u32, measured_at: u32) -> (r:
        Result<(), Error>)
        requires
            old(self).wf(),
        ensures
            final(self).wf(),
            match r {
                Ok(()) => exists|k: int|
                    {
                        &&& 0 <= k < old(self)@.weights.len()
                        &&& (#[trigger] old(self)@.weights[k]).id == id
                        &&& old(self)@.weights[k].user == user_id@
                        &&& final(self)@ == (DbModel {
                            weights: old(self)@.weights.update(
                                k,
                                WeightModel { id, user: user_id@, weight, measured_at },
                            ),
                            ..old(self)@
                        })
                    },
                Err(e) => final(self)@ == old(self)@ && match e {
                    Error::NotFound => find_weight(old(self)@.weights, id) is None,
                    Error::Forbidden => match find_weight(old(self)@.weights, id) {
                        Some(w) => w.user != user_id@,
                        None => false,
                    },
                    _ => false,
                },
            },
    {
        match self.weight_index(id) {
            None => Err(Error::NotFound),
            Some(i) => {
                proof {
                    lemma_find_weight_properties(self@.weights, id);
                }
                if !user_eq(&self.weights[i].user_id, user_id) {
                    return Err(Error::Forbidden);
                }
                let ghost k = i as int;
                self.weights[i] = WeightWithDate {
                    id,
                    user_id: user_id.duplicate(),
                    weight,
                    measured_at,
                };
                proof {
                    assert(self@.weights =~= old(self)@.weights.update(
                        k,
                        WeightModel { id, user: user_id@, weight, measured_at },
                    ));
                    assert(self@.users =~= old(self)@.users);
                    assert(self@.foods =~= old(self)@.foods);
                    assert(self@.recipes =~= old(self)@.recipes);
                    assert(self@.ingredients =~= old(self)@.ingredients);
                    assert(self@.consumptions =~= old(self)@.consumptions);
                    assert(self@.sessions =~= old(self)@.sessions);
                    assert forall|a: int, b: int|
                        0 <= a < b < self@.weights.len() implies (#[trigger] self@.weights[a]).id
                        != (#[trigger] self@.weights[b]).id by {
                        assert(old(self)@.weights[a].id != old(self)@.weights[b].id);
                    }
                    assert forall|a: int|
                        0 <= a < self@.ingredients.len() implies ingredient_valid(
                        self@,
                        #[trigger] self@.ingredients[a],
                    ) by {
                        assert(ingredient_valid(old(self)@, old(self)@.ingredients[a]));
                    }
                    assert forall|a: int|
                        0 <= a < self@.consumptions.len() implies consumption_valid(
                        self@,
                        #[trigger] self@.consumptions[a],
                    ) by {
                        assert(consumption_valid(old(self)@, old(self)@.consumptions[a]));
                    }
                }
                Ok(())
            },
        }
    }

    /// Deletes the user's weight record. Deletion is immediate and permanent.
    pub fn delete_weight(&mut self, user_id: &UserId, id: u64) -> (r: Result<(), Error>)
        requires
            old(self).wf(),
        ensures
            final(self).wf(),
            match r {
                Ok(()) => exists|k: int|
                    {
                        &&& 0 <= k < old(self)@.weights.len()
                        &&& (#[trigger] old(self)@.weights[k]).id == id
                        &&& old(self)@.weights[k].user == user_id@
                        &&& final(self)@ == (DbModel {
                            weights: old(self)@.weights.remove(k),
                            ..old(self)@
                        })
                    },
                Err(e) => final(self)@ == old(self)@ && match e {
                    Error::NotFound => find_weight(old(self)@.weights, id) is None,
                    Error::Forbidden => match find_weight(old(self)@.weights, id) {
                        Some(w) => w.user != user_id@,
                        None => false,
                    },
                    _ => false,
                },
            },
    {
        match self.weight_index(id) {
            None => Err(Error::NotFound),
            Some(i) => {
                proof {
                    lemma_find_weight_properties(self@.weights, id);
                }
                if !user_eq(&self.weights[i].user_id, user_id) {
                    return Err(Error::Forbidden);
                }
                let ghost k = i as int;
                self.weights.remove(i);
                proof {
                    assert(self@.weights =~= old(self)@.weights.remove(k));
                    assert(self@.users =~= old(self)@.users);
                    assert(self@.foods =~= old(self)@.foods);
                    assert(self@.recipes =~= old(self)@.recipes);
                    assert(self@.ingredients =~= old(self)@.ingredients);
                    assert(self@.consumptions =~= old(self)@.consumptions);
                    assert(self@.sessions =~= old(self)@.sessions);
                    assert forall|a: int, b: int|
                        0 <= a < b < self@.weights.len() implies (#[trigger] self@.weights[a]).id
                        != (#[trigger] self@.weights[b]).id by {
                        let oa = if a < k {
                            a
                        } else {
                            a + 1
                        };
                        let ob = if b < k {
                            b
                        } else {
                            b + 1
                        };
                        assert(old(self)@.weights[oa].id != old(self)@.weights[ob].id);
                    }
                    assert forall|a: int|
                        0 <= a < self@.weights.len() implies (#[trigger] self@.weights[a]).id < self@.next_id by {
                        let oa = if a < k {
                            a
                        } else {
                            a + 1
                        };
                        assert(old(self)@.weights[oa].id < old(self)@.next_id);
                    }
                    assert forall|a: int|
                        0 <= a < self@.ingredients.len() implies ingredient_valid(
                        self@,
                        #[trigger] self@.ingredients[a],
                    ) by {
                        assert(ingredient_valid(old(self)@, old(self)@.ingredients[a]));
                    }
                    assert forall|a: int|
                        0 <= a < self@.consumptions.len() implies consumption_valid(
                        self@,
                        #[trigger] self@.consumptions[a],
                    ) by {
                        assert(consumption_valid(old(self)@, old(self)@.consumptions[a]));
                    }
                }
                Ok(())
            },
        }
    }

    /// All foods of the given user, in store order.
    pub fn get_foods(&self, user_id: &UserId) -> (r: Vec<Food>)
        ensures
            r@.map_values(|f: Food| f@) == foods_of(self@.foods, user_id@),
    {
        let mut out: Vec<Food> = Vec::new();
        let n = self.foods.len();
        let mut i: usize = 0;
        while i < n
            invariant
                n == self.foods.len(),
                i <= n,
                self@.foods == self.foods@.map_values(|f: Food| f@),
                out@.map_values(|f: Food| f@) == foods_of(self@.foods.take(i as int), user_id@),
            decreases n - i,
        {
            let ghost prev = out@.map_values(|f: Food| f@);
            let f = &self.foods[i];
            if user_eq(&f.user_id, user_id) {
                out.push(f.duplicate());
                proof {
                    assert(out@.map_values(|f: Food| f@) =~= prev.push(f@));
                }
            }
            proof {
                assert(self@.foods.take(i + 1).drop_last() =~= self@.foods.take(i as int));
                assert(self@.foods.take(i + 1).last() == f@);
            }
            i = i + 1;
        }
        proof {
            assert(self@.foods.take(n as int) =~= self@.foods);
        }
        out
    }

    /// Index of the food row with the given id.
    fn food_index(&self, id: u64) -> (r: Option<usize>)
        ensures
            match r {
                Some(i) => i < self@.foods.len() && self@.foods[i as int].id == id && find_food(
                    self@.foods,
                    id,
                ) == Some(self@.foods[i as int]),
                None => find_food(self@.foods, id) is None,
            },
    {
        let n = self.foods.len();
        let mut i: usize = 0;
        proof {
            assert(self@.foods.skip(0) =~= self@.foods);
        }
        while i < n
            invariant
                n == self.foods.len(),
                i <= n,
                self@.foods == self.foods@.map_values(|f: Food| f@),
                find_food(self@.foods, id) == find_food(self@.foods.skip(i as int), id),
            decreases n - i,
        {
            proof {
                assert(self@.foods.skip(i as int)[0] == self@.foods[i as int]);
                assert(self@.foods.skip(i as int).skip(1) =~= self@.foods.skip(i + 1));
            }
            if self.foods[i].id == id {
                return Some(i);
            }
            i = i + 1;
        }
        proof {
            assert(self@.foods.skip(n as int) =~= Seq::<FoodModel>::empty());
        }
        None
    }

    /// The food with the given id, with its owner, or `NotFound`.
    pub fn get_food(&self, id: u64) -> (r: Result<Food, Error>)
        ensures
            match r {
                Ok(f) => find_food(self@.foods, id) == Some(f@),
                Err(e) => e is NotFound && find_food(self@.foods, id) is None,
            },
    {
        match self.food_index(id) {
            None => Err(Error::NotFound),
            Some(i) => Ok(self.foods[i].duplicate()),
        }
    }

    /// Adds a food for the user and returns the fresh row id.
    pub fn add_food(
        &mut self,
        user_id: &UserId,
        name: &str,
        macros: Macros,
        hidden: bool,
        starred: bool,
        now: u64,
    ) -> (id: u64)
        requires
            old(self).wf(),
            old(self)@.next_id < u64::MAX,
        ensures
            final(self).wf(),
            id == old(self)@.next_id,
            final(self)@ == (DbModel {
                foods: old(self)@.foods.push(
                    FoodModel {
                        id,
                        user: user_id@,
                        name: name@,
                        macros,
                        hidden_at: if hidden {
                            Some(now)
                        } else {
                            None
                        },
                        starred_at: if starred {
                            Some(now)
                        } else {
                            None
                        },
                        created_at: now,
                    },
                ),
                next_id: (old(self)@.next_id + 1) as u64,
                ..old(self)@
            }),
    {
        let id = self.next_id;
        self.next_id = self.next_id + 1;
        self.foods.push(Food {
            id,
            user_id: user_id.duplicate(),
            name: name.to_owned(),
            kcal: macros.kcal,
            fat: macros.fat,
            carbs: macros.carbs,
            protein: macros.protein,
            hidden_at: if hidden {
                Some(now)
            } else {
                None
            },
            starred_at: if starred {
                Some(now)
            } else {
                None
            },
            created_at: now,
        });
        proof {
            let ghost m = FoodModel {
                id,
                user: user_id@,
                name: name@,
                macros,
                hidden_at: if hidden {
                    Some(now)
                } else {
                    None
                },
                starred_at: if starred {
                    Some(now)
                } else {
                    None
                },
                created_at: now,
            };
            assert(self@.foods =~= old(self)@.foods.push(m));
            assert(self@.users =~= old(self)@.users);
            assert(self@.weights =~= old(self)@.weights);
            assert(self@.recipes =~= old(self)@.recipes);
            assert(self@.ingredients =~= old(self)@.ingredients);
            assert(self@.consumptions =~= old(self)@.consumptions);
            assert(self@.sessions =~= old(self)@.sessions);
            lemma_refs_preserved(old(self)@, self@);
        }
        id
    }

    /// Replaces the mutable fields of the user's food. The hidden/starred
    /// flags follow the first-set-wins rule: an already-set timestamp is kept,
    /// an unset one is stamped `now`, and a cleared flag clears it.
    pub fn update_food(
        &mut self,
        user_id: &UserId,
        id: u64,
        name: &str,
        macros: Macros,
        hidden: bool,
        starred: bool,
        now: u64,
    ) -> (r: Result<(), Error>)
        requires
            old(self).wf(),
        ensures
            final(self).wf(),
            match r {
                Ok(()) => exists|k: int|
                    {
                        &&& 0 <= k < old(self)@.foods.len()
                        &&& (#[trigger] old(self)@.foods[k]).id == id
                        &&& old(self)@.foods[k].user == user_id@
                        &&& final(self)@ == (DbModel {
                            foods: old(self)@.foods.update(
                                k,
                                FoodModel {
                                    id,
                                    user: user_id@,
                                    name: name@,
                                    macros,
                                    hidden_at: set_flag_timestamp(
                                        old(self)@.foods[k].hidden_at,
                                        hidden,
                                        now,
                                    ),
                                    starred_at: set_flag_timestamp(
                                        old(self)@.foods[k].starred_at,
                                        starred,
                                        now,
                                    ),
                                    created_at: old(self)@.foods[k].created_at,
                                },
                            ),
                            ..old(self)@
                        })
                    },
                Err(e) => final(self)@ == old(self)@ && match e {
                    Error::NotFound => find_food(old(self)@.foods, id) is None,
                    Error::Forbidden => match find_food(old(self)@.foods, id) {
                        Some(f) => f.user != user_id@,
                        None => false,
                    },
                    _ => false,
                },
            },
    {
        match self.food_index(id) {
            None => Err(Error::NotFound),
            Some(i) => {
                proof {
                    lemma_find_food_properties(self@.foods, id);
                }
                if !user_eq(&self.foods[i].user_id, user_id) {
                    return Err(Error::Forbidden);
                }
                let ghost k = i as int;
                let old_hidden = self.foods[i].hidden_at;
                let old_starred = self.foods[i].starred_at;
                let created_at = self.foods[i].created_at;
                self.foods[i] = Food {
                    id,
                    user_id: user_id.duplicate(),
                    name: name.to_owned(),
                    kcal: macros.kcal,
                    fat: macros.fat,
                    carbs: macros.carbs,
                    protein: macros.protein,
                    hidden_at: if hidden {
                        match old_hidden {
                            Some(t) => Some(t),
                            None => Some(now),
                        }
                    } else {
                        None
                    },
                    starred_at: if starred {
                        match old_starred {
                            Some(t) => Some(t),
                            None => Some(now),
                        }
                    } else {
                        None
                    },
                    created_at,
                };
                proof {
                    assert(self@.foods =~= old(self)@.foods.update(
                        k,
                        FoodModel {
                            id,
                            user: user_id@,
                            name: name@,
                            macros,
                            hidden_at: set_flag_timestamp(old(self)@.foods[k].hidden_at, hidden, now),
                            starred_at: set_flag_timestamp(
                                old(self)@.foods[k].starred_at,
                                starred,
                                now,
                            ),
                            created_at: old(self)@.foods[k].created_at,
                        },
                    ));
                    assert(self@.users =~= old(self)@.users);
                    assert(self@.weights =~= old(self)@.weights);
                    assert(self@.recipes =~= old(self)@.recipes);
                    assert(self@.ingredients =~= old(self)@.ingredients);
                    assert(self@.consumptions =~= old(self)@.consumptions);
                    assert(self@.sessions =~= old(self)@.sessions);
                    assert forall|a: int, b: int|
                        0 <= a < b < self@.foods.len() implies (#[trigger] self@.foods[a]).id != (
                    #[trigger] self@.foods[b]).id by {
                        assert(old(self)@.foods[a].id != old(self)@.foods[b].id);
                    }
                    lemma_refs_preserved(old(self)@, self@);
                }
                Ok(())
            },
        }
    }

    /// True when some ingredient or consumption still references the food.
    fn food_referenced(&self, id: u64) -> (r: bool)
        ensures
            r == ((exists|i: int|
                0 <= i < self@.ingredients.len() && (#[trigger] self@.ingredients[i]).food_id
                    == id) || (exists|i: int|
                0 <= i < self@.consumptions.len() && (#[trigger] self@.consumptions[i]).reference
                    == ConsumableRef::Food(id))),
    {
        let n = self.ingredients.len();
        let mut i: usize = 0;
        while i < n
            invariant
                n == self.ingredients.len(),
                i <= n,
                self@.ingredients == self.ingredients@.map_values(|g: IngredientRow| g@),
                forall|j: int| 0 <= j < i ==> (#[trigger] self@.ingredients[j]).food_id != id,
            decreases n - i,
        {
            if self.ingredients[i].food_id == id {
                proof {
                    assert(self@.ingredients[i as int].food_id == id);
                }
                return true;
            }
            i = i + 1;
        }
        let m = self.consumptions.len();
        let mut j: usize = 0;
        while j < m
            invariant
                m == self.consumptions.len(),
                j <= m,
                self@.consumptions == self.consumptions@.map_values(|c: ConsumptionRow| c@),
                forall|a: int| 0 <= a < j ==> (#[trigger] self@.consumptions[a]).reference
                    != ConsumableRef::Food(id),
            decreases m - j,
        {
            let referenced = match self.consumptions[j].reference {
                ConsumableRef::Food(fid) => fid == id,
                ConsumableRef::Recipe(_) => false,
            };
            if referenced {
                proof {
                    assert(self@.consumptions[j as int].reference == ConsumableRef::Food(id));
                }
                return true;
            }
            j = j + 1;
        }
        false
    }

    /// Deletes the user's food. Refused with `Conflict` while any ingredient
    /// or consumption still references it.
    pub fn delete_food(&mut self, user_id: &UserId, id: u64) -> (r: Result<(), Error>)
        requires
            old(self).wf(),
        ensures
            final(self).wf(),
            match r {
                Ok(()) => exists|k: int|
                    {
                        &&& 0 <= k < old(self)@.foods.len()
                        &&& (#[trigger] old(self)@.foods[k]).id == id
                        &&& old(self)@.foods[k].user == user_id@
                        &&& final(self)@ == (DbModel {
                            foods: old(self)@.foods.remove(k),
                            ..old(self)@
                        })
                    },
                Err(e) => final(self)@ == old(self)@ && match e {
                    Error::NotFound => find_food(old(self)@.foods, id) is None,
                    Error::Forbidden => match find_food(old(self)@.foods, id) {
                        Some(f) => f.user != user_id@,
                        None => false,
                    },
                    Error::Conflict => {
                        &&& find_food(old(self)@.foods, id) matches Some(f) && f.user == user_id@
                        &&& ((exists|i: int|
                            0 <= i < old(self)@.ingredients.len() && (#[trigger] old(
                                self,
                            )@.ingredients[i]).food_id == id) || (exists|i: int|
                            0 <= i < old(self)@.consumptions.len() && (#[trigger] old(
                                self,
                            )@.consumptions[i]).reference == ConsumableRef::Food(id)))
                    },
                    _ => false,
                },
            },
    {
        match self.food_index(id) {
            None => Err(Error::NotFound),
            Some(i) => {
                proof {
                    lemma_find_food_properties(self@.foods, id);
                }
                if !user_eq(&self.foods[i].user_id, user_id) {
                    return Err(Error::Forbidden);
                }
                if self.food_referenced(id) {
                    return Err(Error::Conflict);
                }
                let ghost k = i as int;
                self.foods.remove(i);
                proof {
                    assert(self@.foods =~= old(self)@.foods.remove(k));
                    assert(self@.users =~= old(self)@.users);
                    assert(self@.weights =~= old(self)@.weights);
                    assert(self@.recipes =~= old(self)@.recipes);
                    assert(self@.ingredients =~= old(self)@.ingredients);
                    assert(self@.consumptions =~= old(self)@.consumptions);
                    assert(self@.sessions =~= old(self)@.sessions);
                    lemma_wf_after_food_removal(old(self)@, self@, k);
                }
                Ok(())
            },
        }
    }

    /// Derived totals of the recipe: the sum over its ingredient rows of the
    /// referenced food's profile scaled by the ingredient quantity.
    fn compute_recipe_totals(&self, recipe_id: u64) -> (t: MacroTotals)
        ensures
            t@ == recipe_totals(self@, recipe_id),
            total_bounded(t@),
    {
        let mut acc = MacroTotals::zero();
        let n = self.ingredients.len();
        let mut i: usize = 0;
        while i < n
            invariant
                n == self.ingredients.len(),
                i <= n,
                self@.ingredients == self.ingredients@.map_values(|g: IngredientRow| g@),
                acc@ == ingredients_totals(
                    self@.foods,
                    ingredients_of_recipe(self@.ingredients.take(i as int), recipe_id),
                ),
                acc.kcal <= (i as int) * 0x1_0000_0000_0000,
                acc.fat <= (i as int) * 0x1_0000_0000_0000,
                acc.carbs <= (i as int) * 0x1_0000_0000_0000,
                acc.protein <= (i as int) * 0x1_0000_0000_0000,
            decreases n - i,
        {
            let g = &self.ingredients[i];
            if g.recipe_id == recipe_id {
                let term = match self.food_index(g.food_id) {
                    Some(j) => {
                        let f = &self.foods[j];
                        MacroTotals::scaled(
                            &Macros { kcal: f.kcal, fat: f.fat, carbs: f.carbs, protein: f.protein },
                            g.quantity,
                        )
                    },
                    None => MacroTotals::zero(),
                };
                acc = MacroTotals {
                    kcal: acc.kcal + term.kcal,
                    fat: acc.fat + term.fat,
                    carbs: acc.carbs + term.carbs,
                    protein: acc.protein + term.protein,
                };
            }
            proof {
                assert(self@.ingredients.take(i + 1).drop_last() =~= self@.ingredients.take(
                    i as int,
                ));
                assert(self@.ingredients.take(i + 1).last() == g@);
                let sel = ingredients_of_recipe(self@.ingredients.take(i + 1), recipe_id);
                if g@.recipe_id == recipe_id {
                    assert(sel.drop_last() =~= ingredients_of_recipe(
                        self@.ingredients.take(i as int),
                        recipe_id,
                    ));
                }
            }
            i = i + 1;
        }
        proof {
            assert(self@.ingredients.take(n as int) =~= self@.ingredients);
        }
        acc
    }

    /// Index of the recipe row with the given id.
    fn recipe_index(&self, id: u64) -> (r: Option<usize>)
        ensures
            match r {
                Some(i) => i < self@.recipes.len() && self@.recipes[i as int].id == id
                    && find_recipe(self@.recipes, id) == Some(self@.recipes[i as int]),
                None => find_recipe(self@.recipes, id) is None,
            },
    {
        let n = self.recipes.len();
        let mut i: usize = 0;
        proof {
            assert(self@.recipes.skip(0) =~= self@.recipes);
        }
        while i < n
            invariant
                n == self.recipes.len(),
                i <= n,
                self@.recipes == self.recipes@.map_values(|x: RecipeRow| x@),
                find_recipe(self@.recipes, id) == find_recipe(self@.recipes.skip(i as int), id),
            decreases n - i,
        {
            proof {
                assert(self@.recipes.skip(i as int)[0] == self@.recipes[i as int]);
                assert(self@.recipes.skip(i as int).skip(1) =~= self@.recipes.skip(i + 1));
            }
            if self.recipes[i].id == id {
                return Some(i);
            }
            i = i + 1;
        }
        proof {
            assert(self@.recipes.skip(n as int) =~= Seq::<RecipeModel>::empty());
        }
        None
    }

    /// The recipe with the given id, with its derived totals, or `NotFound`.
    pub fn get_recipe(&self, id: u64) -> (r: Result<Recipe, Error>)
        ensures
            match r {
                Ok(rec) => find_recipe(self@.recipes, id) matches Some(rm) && rec@ == recipe_out(
                    self@,
                    rm,
                ),
                Err(e) => e is NotFound && find_recipe(self@.recipes, id) is None,
            },
    {
        match self.recipe_index(id) {
            None => Err(Error::NotFound),
            Some(i) => {
                let row = &self.recipes[i];
                let totals = self.compute_recipe_totals(row.id);
                Ok(Recipe {
                    id: row.id,
                    user_id: row.user_id.duplicate(),
                    name: row.name.clone(),
                    quantity: row.quantity,
                    kcal: totals.kcal,
                    fat: totals.fat,
                    carbs: totals.carbs,
                    protein: totals.protein,
                    hidden_at: row.hidden_at,
                    starred_at: row.starred_at,
                })
            },
        }
    }

    /// All recipes of the user, each with its derived totals, in store order.
    pub fn get_recipes(&self, user_id: &UserId) -> (r: Vec<Recipe>)
        ensures
            r@.map_values(|x: Recipe| x@) == recipes_out(self@, self@.recipes, user_id@),
    {
        let mut out: Vec<Recipe> = Vec::new();
        let n = self.recipes.len();
        let mut i: usize = 0;
        while i < n
            invariant
                n == self.recipes.len(),
                i <= n,
                self@.recipes == self.recipes@.map_values(|x: RecipeRow| x@),
                out@.map_values(|x: Recipe| x@) == recipes_out(
                    self@,
                    self@.recipes.take(i as int),
                    user_id@,
                ),
            decreases n - i,
        {
            let ghost prev = out@.map_values(|x: Recipe| x@);
            let row = &self.recipes[i];
            if user_eq(&row.user_id, user_id) {
                let totals = self.compute_recipe_totals(row.id);
                let row = &self.recipes[i];
                out.push(Recipe {
                    id: row.id,
                    user_id: row.user_id.duplicate(),
                    name: row.name.clone(),
                    quantity: row.quantity,
                    kcal: totals.kcal,
                    fat: totals.fat,
                    carbs: totals.carbs,
                    protein: totals.protein,
                    hidden_at: row.hidden_at,
                    starred_at: row.starred_at,
                });
                proof {
                    assert(out@.map_values(|x: Recipe| x@) =~= prev.push(recipe_out(self@, row@)));
                }
            }
            proof {
                assert(self@.recipes.take(i + 1).drop_last() =~= self@.recipes.take(i as int));
                assert(self@.recipes.take(i + 1).last() == self@.recipes[i as int]);
            }
            i = i + 1;
        }
        proof {
            assert(self@.recipes.take(n as int) =~= self@.recipes);
        }
        out
    }

    /// Adds a recipe for the user and returns the fresh row id. A recipe
    /// starts with no ingredients, so its derived totals are zero.
    pub fn add_recipe(
        &mut self,
        user_id: &UserId,
        name: &str,
        quantity: u16,
        hidden: bool,
        starred: bool,
        now: u64,
    ) -> (id: u64)
        requires
            old(self).wf(),
            old(self)@.next_id < u64::MAX,
            quantity >= 1,
        ensures
            final(self).wf(),
            id == old(self)@.next_id,
            final(self)@ == (DbModel {
                recipes: old(self)@.recipes.push(
                    RecipeModel {
                        id,
                        user: user_id@,
                        name: name@,
                        quantity,
                        hidden_at: if hidden {
                            Some(now)
                        } else {
                            None
                        },
                        starred_at: if starred {
                            Some(now)
                        } else {
                            None
                        },
                        created_at: now,
                    },
                ),
                next_id: (old(self)@.next_id + 1) as u64,
                ..old(self)@
            }),
    {
        let id = self.next_id;
        self.next_id = self.next_id + 1;
        self.recipes.push(RecipeRow {
            id,
            user_id: user_id.duplicate(),
            name: name.to_owned(),
            quantity,
            hidden_at: if hidden {
                Some(now)
            } else {
                None
            },
            starred_at: if starred {
                Some(now)
            } else {
                None
            },
            created_at: now,
        });
        proof {
            let ghost m = RecipeModel {
                id,
                user: user_id@,
                name: name@,
                quantity,
                hidden_at: if hidden {
                    Some(now)
                } else {
                    None
                },
                starred_at: if starred {
                    Some(now)
                } else {
                    None
                },
                created_at: now,
            };
            assert(self@.recipes =~= old(self)@.recipes.push(m));
            assert(self@.users =~= old(self)@.users);
            assert(self@.weights =~= old(self)@.weights);
            assert(self@.foods =~= old(self)@.foods);
            assert(self@.ingredients =~= old(self)@.ingredients);
            assert(self@.consumptions =~= old(self)@.consumptions);
            assert(self@.sessions =~= old(self)@.sessions);
            lemma_refs_preserved(old(self)@, self@);
        }
        id
    }

    /// Replaces the mutable fields of the user's recipe, with first-set-wins
    /// hidden/starred timestamps.
    pub fn update_recipe(
        &mut self,
        user_id: &UserId,
        id: u64,
        name: &str,
        quantity: u16,
        hidden: bool,
        starred: bool,
        now: u64,
    ) -> (r: Result<(), Error>)
        requires
            old(self).wf(),
            quantity >= 1,
        ensures
            final(self).wf(),
            match r {
                Ok(()) => exists|k: int|
                    {
                        &&& 0 <= k < old(self)@.recipes.len()
                        &&& (#[trigger] old(self)@.recipes[k]).id == id
                        &&& old(self)@.recipes[k].user == user_id@
                        &&& final(self)@ == (DbModel {
                            recipes: old(self)@.recipes.update(
                                k,
                                RecipeModel {
                                    id,
                                    user: user_id@,
                                    name: name@,
                                    quantity,
                                    hidden_at: set_flag_timestamp(
                                        old(self)@.recipes[k].hidden_at,
                                        hidden,
                                        now,
                                    ),
                                    starred_at: set_flag_timestamp(
                                        old(self)@.recipes[k].starred_at,
                                        starred,
                                        now,
                                    ),
                                    created_at: old(self)@.recipes[k].created_at,
                                },
                            ),
                            ..old(self)@
                        })
                    },
                Err(e) => final(self)@ == old(self)@ && match e {
                    Error::NotFound => find_recipe(old(self)@.recipes, id) is None,
                    Error::Forbidden => match find_recipe(old(self)@.recipes, id) {
                        Some(rm) => rm.user != user_id@,
                        None => false,
                    },
                    _ => false,
                },
            },
    {
        match self.recipe_index(id) {
            None => Err(Error::NotFound),
            Some(i) => {
                if !user_eq(&self.recipes[i].user_id, user_id) {
                    return Err(Error::Forbidden);
                }
                let ghost k = i as int;
                let old_hidden = self.recipes[i].hidden_at;
                let old_starred = self.recipes[i].starred_at;
                let created_at = self.recipes[i].created_at;
                self.recipes[i] = RecipeRow {
                    id,
                    user_id: user_id.duplicate(),
                    name: name.to_owned(),
                    quantity,
                    hidden_at: if hidden {
                        match old_hidden {
                            Some(t) => Some(t),
                            None => Some(now),
                        }
                    } else {
                        None
                    },
                    starred_at: if starred {
                        match old_starred {
                            Some(t) => Some(t),
                            None => Some(now),
                        }
                    } else {
                        None
                    },
                    created_at,
                };
                proof {
                    assert(self@.recipes =~= old(self)@.recipes.update(
                        k,
                        RecipeModel {
                            id,
                            user: user_id@,
                            name: name@,
                            quantity,
                            hidden_at: set_flag_timestamp(
                                old(self)@.recipes[k].hidden_at,
                                hidden,
                                now,
                            ),
                            starred_at: set_flag_timestamp(
                                old(self)@.recipes[k].starred_at,
                                starred,
                                now,
                            ),
                            created_at: old(self)@.recipes[k].created_at,
                        },
                    ));
                    assert(self@.users =~= old(self)@.users);
                    assert(self@.weights =~= old(self)@.weights);
                    assert(self@.foods =~= old(self)@.foods);
                    assert(self@.ingredients =~= old(self)@.ingredients);
                    assert(self@.consumptions =~= old(self)@.consumptions);
                    assert(self@.sessions =~= old(self)@.sessions);
                    assert forall|a: int, b: int|
                        0 <= a < b < self@.recipes.len() implies (#[trigger] self@.recipes[a]).id
                        != (#[trigger] self@.recipes[b]).id by {
                        assert(old(self)@.recipes[a].id != old(self)@.recipes[b].id);
                    }
                    lemma_refs_preserved(old(self)@, self@);
                }
                Ok(())
            },
        }
    }

    /// True when some consumption still references the recipe.
    fn recipe_referenced(&self, id: u64) -> (r: bool)
        ensures
            r == (exists|i: int|
                0 <= i < self@.consumptions.len() && (#[trigger] self@.consumptions[i]).reference
                    == ConsumableRef::Recipe(id)),
    {
        let m = self.consumptions.len();
        let mut j: usize = 0;
        while j < m
            invariant
                m == self.consumptions.len(),
                j <= m,
                self@.consumptions == self.consumptions@.map_values(|c: ConsumptionRow| c@),
                forall|a: int| 0 <= a < j ==> (#[trigger] self@.consumptions[a]).reference
                    != ConsumableRef::Recipe(id),
            decreases m - j,
        {
            let referenced = match self.consumptions[j].reference {
                ConsumableRef::Recipe(rid) => rid == id,
                ConsumableRef::Food(_) => false,
            };
            if referenced {
                proof {
                    assert(self@.consumptions[j as int].reference == ConsumableRef::Recipe(id));
                }
                return true;
            }
            j = j + 1;
        }
        false
    }

    /// Deletes the user's recipe together with its own ingredient rows.
    /// Refused with `Conflict` while any consumption still references it.
    pub fn delete_recipe(&mut self, user_id: &UserId, id: u64) -> (r: Result<(), Error>)
        requires
            old(self).wf(),
        ensures
            final(self).wf(),
            match r {
                Ok(()) => exists|k: int|
                    {
                        &&& 0 <= k < old(self)@.recipes.len()
                        &&& (#[trigger] old(self)@.recipes[k]).id == id
                        &&& old(self)@.recipes[k].user == user_id@
                        &&& final(self)@ == (DbModel {
                            recipes: old(self)@.recipes.remove(k),
                            ingredients: ingredients_not_of_recipe(old(self)@.ingredients, id),
                            ..old(self)@
                        })
                    },
                Err(e) => final(self)@ == old(self)@ && match e {
                    Error::NotFound => find_recipe(old(self)@.recipes, id) is None,
                    Error::Forbidden => match find_recipe(old(self)@.recipes, id) {
                        Some(rm) => rm.user != user_id@,
                        None => false,
                    },
                    Error::Conflict => {
                        &&& find_recipe(old(self)@.recipes, id) matches Some(rm) && rm.user
                            == user_id@
                        &&& exists|i: int|
                            0 <= i < old(self)@.consumptions.len() && (#[trigger] old(
                                self,
                            )@.consumptions[i]).reference == ConsumableRef::Recipe(id)
                    },
                    _ => false,
                },
            },
    {
        match self.recipe_index(id) {
            None => Err(Error::NotFound),
            Some(i) => {
                if !user_eq(&self.recipes[i].user_id, user_id) {
                    return Err(Error::Forbidden);
                }
                if self.recipe_referenced(id) {
                    return Err(Error::Conflict);
                }
                let ghost k = i as int;
                self.recipes.remove(i);
                let n = self.ingredients.len();
                let mut kept: Vec<IngredientRow> = Vec::new();
                let mut a: usize = 0;
                while a < n
                    invariant
                        n == self.ingredients.len(),
                        a <= n,
                        self@.ingredients == self.ingredients@.map_values(|g: IngredientRow| g@),
                        kept@.map_values(|g: IngredientRow| g@) == ingredients_not_of_recipe(
                            self@.ingredients.take(a as int),
                            id,
                        ),
                    decreases n - a,
                {
                    let ghost prev = kept@.map_values(|g: IngredientRow| g@);
                    let g = &self.ingredients[a];
                    if g.recipe_id != id {
                        kept.push(IngredientRow {
                            id: g.id,
                            user_id: g.user_id.duplicate(),
                            recipe_id: g.recipe_id,
                            food_id: g.food_id,
                            quantity: g.quantity,
                        });
                        proof {
                            assert(kept@.map_values(|g: IngredientRow| g@) =~= prev.push(g@));
                        }
                    }
                    proof {
                        assert(self@.ingredients.take(a + 1).drop_last() =~= self@.ingredients.take(
                            a as int,
                        ));
                        assert(self@.ingredients.take(a + 1).last() == g@);
                    }
                    a = a + 1;
                }
                self.ingredients = kept;
                proof {
                    assert(old(self)@.ingredients.take(n as int) =~= old(self)@.ingredients);
                    assert(self@.ingredients =~= ingredients_not_of_recipe(
                        old(self)@.ingredients,
                        id,
                    ));
                    assert(self@.recipes =~= old(self)@.recipes.remove(k));
                    assert(self@.users =~= old(self)@.users);
                    assert(self@.weights =~= old(self)@.weights);
                    assert(self@.foods =~= old(self)@.foods);
                    assert(self@.consumptions =~= old(self)@.consumptions);
                    assert(self@.sessions =~= old(self)@.sessions);
                    lemma_wf_after_recipe_removal(old(self)@, self@, k);
                }
                Ok(())
            },
        }
    }

    /// Index of the ingredient row with the given id.
    fn ingredient_index(&self, id: u64) -> (r: Option<usize>)
        ensures
            match r {
                Some(i) => i < self@.ingredients.len() && self@.ingredients[i as int].id == id
                    && find_ingredient(self@.ingredients, id) == Some(
                    self@.ingredients[i as int],
                ),
                None => find_ingredient(self@.ingredients, id) is None,
            },
    {
        let n = self.ingredients.len();
        let mut i: usize = 0;
        proof {
            assert(self@.ingredients.skip(0) =~= self@.ingredients);
        }
        while i < n
            invariant
                n == self.ingredients.len(),
                i <= n,
                self@.ingredients == self.ingredients@.map_values(|g: IngredientRow| g@),
                find_ingredient(self@.ingredients, id) == find_ingredient(
                    self@.ingredients.skip(i as int),
                    id,
                ),
            decreases n - i,
        {
            proof {
                assert(self@.ingredients.skip(i as int)[0] == self@.ingredients[i as int]);
                assert(self@.ingredients.skip(i as int).skip(1) =~= self@.ingredients.skip(i + 1));
            }
            if self.ingredients[i].id == id {
                return Some(i);
            }
            i = i + 1;
        }
        proof {
            assert(self@.ingredients.skip(n as int) =~= Seq::<IngredientModel>::empty());
        }
        None
    }

    /// Builds the returned shape of one ingredient row: food name and the
    /// display totals `food.macro * quantity`.
    fn ingredient_row_out(&self, i: usize) -> (r: Ingredient)
        requires
            i < self@.ingredients.len(),
        ensures
            r@ == ingredient_out(self@, self@.ingredients[i as int]),
    {
        let g = &self.ingredients[i];
        let (food_name, totals) = match self.food_index(g.food_id) {
            Some(j) => {
                let f = &self.foods[j];
                (
                    f.name.clone(),
                    MacroTotals::scaled(
                        &Macros { kcal: f.kcal, fat: f.fat, carbs: f.carbs, protein: f.protein },
                        g.quantity,
                    ),
                )
            },
            None => (String::new(), MacroTotals::zero()),
        };
        Ingredient {
            id: g.id,
            user_id: g.user_id.duplicate(),
            recipe_id: g.recipe_id,
            food_id: g.food_id,
            food_name,
            quantity: g.quantity,
            kcal: totals.kcal,
            fat: totals.fat,
            carbs: totals.carbs,
            protein: totals.protein,
        }
    }

    /// The ingredients of the given recipe, each with its food name and
    /// display totals, in store order.
    pub fn get_ingredients(&self, recipe_id: u64) -> (r: Vec<Ingredient>)
        ensures
            r@.map_values(|g: Ingredient| g@) == ingredients_out(
                self@,
                self@.ingredients,
                recipe_id,
            ),
    {
        let mut out: Vec<Ingredient> = Vec::new();
        let n = self.ingredients.len();
        let mut i: usize = 0;
        while i < n
            invariant
                n == self.ingredients.len(),
                i <= n,
                self@.ingredients == self.ingredients@.map_values(|g: IngredientRow| g@),
                out@.map_values(|g: Ingredient| g@) == ingredients_out(
                    self@,
                    self@.ingredients.take(i as int),
                    recipe_id,
                ),
            decreases n - i,
        {
            let ghost prev = out@.map_values(|g: Ingredient| g@);
            if self.ingredients[i].recipe_id == recipe_id {
                let row = self.ingredient_row_out(i);
                out.push(row);
                proof {
                    assert(out@.map_values(|g: Ingredient| g@) =~= prev.push(
                        ingredient_out(self@, self@.ingredients[i as int]),
                    ));
                }
            }
            proof {
                assert(self@.ingredients.take(i + 1).drop_last() =~= self@.ingredients.take(
                    i as int,
                ));
                assert(self@.ingredients.take(i + 1).last() == self@.ingredients[i as int]);
            }
            i = i + 1;
        }
        proof {
            assert(self@.ingredients.take(n as int) =~= self@.ingredients);
        }
        out
    }

    /// The ingredient with the given id, with its owner, or `NotFound`.
    pub fn get_ingredient(&self, id: u64) -> (r: Result<Ingredient, Error>)
        ensures
            match r {
                Ok(g) => find_ingredient(self@.ingredients, id) matches Some(gm) && g@
                    == ingredient_out(self@, gm),
                Err(e) => e is NotFound && find_ingredient(self@.ingredients, id) is None,
            },
    {
        match self.ingredient_index(id) {
            None => Err(Error::NotFound),
            Some(i) => Ok(self.ingredient_row_out(i)),
        }
    }

    /// Adds an ingredient to the user's recipe, referencing the user's food,
    /// and returns the fresh row id. The recipe is looked up first, then the
    /// food; a missing row is `NotFound`, a row of another user `Forbidden`.
    pub fn add_ingredient(
        &mut self,
        user_id: &UserId,
        recipe_id: u64,
        food_id: u64,
        quantity: u16,
    ) -> (r: Result<u64, Error>)
        requires
            old(self).wf(),
            old(self)@.next_id < u64::MAX,
        ensures
            final(self).wf(),
            match r {
                Ok(id) => {
                    &&& id == old(self)@.next_id
                    &&& find_recipe(old(self)@.recipes, recipe_id) matches Some(rm) && rm.user
                        == user_id@
                    &&& find_food(old(self)@.foods, food_id) matches Some(f) && f.user == user_id@
                    &&& final(self)@ == (DbModel {
                        ingredients: old(self)@.ingredients.push(
                            IngredientModel {
                                id,
                                user: user_id@,
                                recipe_id,
                                food_id,
                                quantity,
                            },
                        ),
                        next_id: (old(self)@.next_id + 1) as u64,
                        ..old(self)@
                    })
                },
                Err(e) => final(self)@ == old(self)@ && match e {
                    Error::NotFound => find_recipe(old(self)@.recipes, recipe_id) is None || (
                    find_recipe(old(self)@.recipes, recipe_id) matches Some(rm) && rm.user
                        == user_id@ && find_food(old(self)@.foods, food_id) is None),
                    Error::Forbidden => (find_recipe(old(self)@.recipes, recipe_id) matches Some(
                        rm,
                    ) && rm.user != user_id@) || (find_recipe(old(self)@.recipes, recipe_id)
                        matches Some(rm) && rm.user == user_id@ && (find_food(
                        old(self)@.foods,
                        food_id,
                    ) matches Some(f) && f.user != user_id@)),
                    _ => false,
                },
            },
    {
        let ri = match self.recipe_index(recipe_id) {
            None => {
                return Err(Error::NotFound);
            },
            Some(ri) => ri,
        };
        if !user_eq(&self.recipes[ri].user_id, user_id) {
            return Err(Error::Forbidden);
        }
        let fi = match self.food_index(food_id) {
            None => {
                return Err(Error::NotFound);
            },
            Some(fi) => fi,
        };
        if !user_eq(&self.foods[fi].user_id, user_id) {
            return Err(Error::Forbidden);
        }
        let id = self.next_id;
        self.next_id = self.next_id + 1;
        self.ingredients.push(IngredientRow {
            id,
            user_id: user_id.duplicate(),
            recipe_id,
            food_id,
            quantity,
        });
        proof {
            let ghost m = IngredientModel { id, user: user_id@, recipe_id, food_id, quantity };
            assert(self@.ingredients =~= old(self)@.ingredients.push(m));
            assert(self@.users =~= old(self)@.users);
            assert(self@.weights =~= old(self)@.weights);
            assert(self@.foods =~= old(self)@.foods);
            assert(self@.recipes =~= old(self)@.recipes);
            assert(self@.consumptions =~= old(self)@.consumptions);
            assert(self@.sessions =~= old(self)@.sessions);
            assert forall|a: int| 0 <= a < self@.ingredients.len() implies ingredient_valid(
                self@,
                #[trigger] self@.ingredients[a],
            ) by {
                if a < old(self)@.ingredients.len() {
                    assert(ingredient_valid(old(self)@, old(self)@.ingredients[a]));
                } else {
                    assert(self@.ingredients[a] == m);
                }
            }
            assert forall|a: int| 0 <= a < self@.consumptions.len() implies consumption_valid(
                self@,
                #[trigger] self@.consumptions[a],
            ) by {
                assert(consumption_valid(old(self)@, old(self)@.consumptions[a]));
            }
        }
        Ok(id)
    }

    /// Repoints the user's ingredient at another of the user's foods and
    /// replaces its quantity. The recipe it belongs to is unchanged.
    pub fn update_ingredient(&mut self, user_id: &UserId, id: u64, food_id: u64, quantity: u16) -> (r:
        Result<(), Error>)
        requires
            old(self).wf(),
        ensures
            final(self).wf(),
            match r {
                Ok(()) => exists|k: int|
                    {
                        &&& 0 <= k < old(self)@.ingredients.len()
                        &&& (#[trigger] old(self)@.ingredients[k]).id == id
                        &&& old(self)@.ingredients[k].user == user_id@
                        &&& find_food(old(self)@.foods, food_id) matches Some(f) && f.user
                            == user_id@
                        &&& final(self)@ == (DbModel {
                            ingredients: old(self)@.ingredients.update(
                                k,
                                IngredientModel {
                                    id,
                                    user: user_id@,
                                    recipe_id: old(self)@.ingredients[k].recipe_id,
                                    food_id,
                                    quantity,
                                },
                            ),
                            ..old(self)@
                        })
                    },
                Err(e) => final(self)@ == old(self)@ && match e {
                    Error::NotFound => find_ingredient(old(self)@.ingredients, id) is None || (
                    find_ingredient(old(self)@.ingredients, id) matches Some(gm) && gm.user
                        == user_id@ && find_food(old(self)@.foods, food_id) is None),
                    Error::Forbidden => (find_ingredient(old(self)@.ingredients, id) matches Some(
                        gm,
                    ) && gm.user != user_id@) || (find_ingredient(old(self)@.ingredients, id)
                        matches Some(gm) && gm.user == user_id@ && (find_food(
                        old(self)@.foods,
                        food_id,
                    ) matches Some(f) && f.user != user_id@)),
                    _ => false,
                },
            },
    {
        let i = match self.ingredient_index(id) {
            None => {
                return Err(Error::NotFound);
            },
            Some(i) => i,
        };
        if !user_eq(&self.ingredients[i].user_id, user_id) {
            return Err(Error::Forbidden);
        }
        let fi = match self.food_index(food_id) {
            None => {
                return Err(Error::NotFound);
            },
            Some(fi) => fi,
        };
        if !user_eq(&self.foods[fi].user_id, user_id) {
            return Err(Error::Forbidden);
        }
        let ghost k = i as int;
        let recipe_id = self.ingredients[i].recipe_id;
        self.ingredients[i] = IngredientRow {
            id,
            user_id: user_id.duplicate(),
            recipe_id,
            food_id,
            quantity,
        };
        proof {
            let ghost m = IngredientModel {
                id,
                user: user_id@,
                recipe_id: old(self)@.ingredients[k].recipe_id,
                food_id,
                quantity,
            };
            assert(self@.ingredients =~= old(self)@.ingredients.update(k, m));
            assert(self@.users =~= old(self)@.users);
            assert(self@.weights =~= old(self)@.weights);
            assert(self@.foods =~= old(self)@.foods);
            assert(self@.recipes =~= old(self)@.recipes);
            assert(self@.consumptions =~= old(self)@.consumptions);
            assert(self@.sessions =~= old(self)@.sessions);
            assert forall|a: int, b: int|
                0 <= a < b < self@.ingredients.len() implies (#[trigger] self@.ingredients[a]).id
                != (#[trigger] self@.ingredients[b]).id by {
                assert(old(self)@.ingredients[a].id != old(self)@.ingredients[b].id);
            }
            assert(ingredient_valid(old(self)@, old(self)@.ingredients[k]));
            assert forall|a: int| 0 <= a < self@.ingredients.len() implies ingredient_valid(
                self@,
                #[trigger] self@.ingredients[a],
            ) by {
                if a != k {
                    assert(ingredient_valid(old(self)@, old(self)@.ingredients[a]));
                } else {
                    assert(self@.ingredients[a] == m);
                }
            }
            assert forall|a: int| 0 <= a < self@.consumptions.len() implies consumption_valid(
                self@,
                #[trigger] self@.consumptions[a],
            ) by {
                assert(consumption_valid(old(self)@, old(self)@.consumptions[a]));
            }
        }
        Ok(())
    }

    /// Deletes the user's ingredient from its recipe.
    pub fn delete_ingredient(&mut self, user_id: &UserId, id: u64) -> (r: Result<(), Error>)
        requires
            old(self).wf(),
        ensures
            final(self).wf(),
            match r {
                Ok(()) => exists|k: int|
                    {
                        &&& 0 <= k < old(self)@.ingredients.len()
                        &&& (#[trigger] old(self)@.ingredients[k]).id == id
                        &&& old(self)@.ingredients[k].user == user_id@
                        &&& final(self)@ == (DbModel {
                            ingredients: old(self)@.ingredients.remove(k),
                            ..old(self)@
                        })
                    },
                Err(e) => final(self)@ == old(self)@ && match e {
                    Error::NotFound => find_ingredient(old(self)@.ingredients, id) is None,
                    Error::Forbidden => match find_ingredient(old(self)@.ingredients, id) {
                        Some(gm) => gm.user != user_id@,
                        None => false,
                    },
                    _ => false,
                },
            },
    {
        match self.ingredient_index(id) {
            None => Err(Error::NotFound),
            Some(i) => {
                if !user_eq(&self.ingredients[i].user_id, user_id) {
                    return Err(Error::Forbidden);
                }
                let ghost k = i as int;
                self.ingredients.remove(i);
                proof {
                    assert(self@.ingredients =~= old(self)@.ingredients.remove(k));
                    assert(self@.users =~= old(self)@.users);
                    assert(self@.weights =~= old(self)@.weights);
                    assert(self@.foods =~= old(self)@.foods);
                    assert(self@.recipes =~= old(self)@.recipes);
                    assert(self@.consumptions =~= old(self)@.consumptions);
                    assert(self@.sessions =~= old(self)@.sessions);
                    assert(forall|a: int|
                        0 <= a < self@.ingredients.len() ==> #[trigger] self@.ingredients[a] == if a
                            < k {
                            old(self)@.ingredients[a]
                        } else {
                            old(self)@.ingredients[a + 1]
                        });
                    assert forall|a: int, b: int|
                        0 <= a < b < self@.ingredients.len() implies (
                    #[trigger] self@.ingredients[a]).id != (#[trigger] self@.ingredients[b]).id by {
                        let oa = if a < k {
                            a
                        } else {
                            a + 1
                        };
                        let ob = if b < k {
                            b
                        } else {
                            b + 1
                        };
                        assert(old(self)@.ingredients[oa].id != old(self)@.ingredients[ob].id);
                    }
                    assert forall|a: int|
                        0 <= a < self@.ingredients.len() implies (
                    #[trigger] self@.ingredients[a]).id < self@.next_id && ingredient_valid(
                        self@,
                        self@.ingredients[a],
                    ) by {
                        let oa = if a < k {
                            a
                        } else {
                            a + 1
                        };
                        assert(old(self)@.ingredients[oa].id < old(self)@.next_id);
                        assert(ingredient_valid(old(self)@, old(self)@.ingredients[oa]));
                    }
                    assert forall|a: int| 0 <= a < self@.consumptions.len() implies consumption_valid(
                        self@,
                        #[trigger] self@.consumptions[a],
                    ) by {
                        assert(consumption_valid(old(self)@, old(self)@.consumptions[a]));
                    }
                }
                Ok(())
            },
        }
    }

    /// Index of the consumption row with the given id.
    fn consumption_index(&self, id: u64) -> (r: Option<usize>)
        ensures
            match r {
                Some(i) => i < self@.consumptions.len() && self@.consumptions[i as int].id == id
                    && find_consumption(self@.consumptions, id) == Some(
                    self@.consumptions[i as int],
                ),
                None => find_consumption(self@.consumptions, id) is None,
            },
    {
        let n = self.consumptions.len();
        let mut i: usize = 0;
        proof {
            assert(self@.consumptions.skip(0) =~= self@.consumptions);
        }
        while i < n
            invariant
                n == self.consumptions.len(),
                i <= n,
                self@.consumptions == self.consumptions@.map_values(|c: ConsumptionRow| c@),
                find_consumption(self@.consumptions, id) == find_consumption(
                    self@.consumptions.skip(i as int),
                    id,
                ),
            decreases n - i,
        {
            proof {
                assert(self@.consumptions.skip(i as int)[0] == self@.consumptions[i as int]);
                assert(self@.consumptions.skip(i as int).skip(1) =~= self@.consumptions.skip(
                    i + 1,
                ));
            }
            if self.consumptions[i].id == id {
                return Some(i);
            }
            i = i + 1;
        }
        proof {
            assert(self@.consumptions.skip(n as int) =~= Seq::<ConsumptionModel>::empty());
        }
        None
    }

    /// Builds the returned shape of one consumption row: the resolved name of
    /// whichever consumable is referenced, and the derived totals — the
    /// food's profile scaled by the quantity, or the recipe's aggregate
    /// totals divided by its yield and scaled by the quantity.
    fn consumption_row_out(&self, i: usize) -> (r: Consumption)
        requires
            i < self@.consumptions.len(),
        ensures
            r@ == consumption_out(self@, self@.consumptions[i as int]),
    {
        let c = &self.consumptions[i];
        match c.reference {
            ConsumableRef::Food(fid) => {
                let (name, totals) = match self.food_index(fid) {
                    Some(j) => {
                        let f = &self.foods[j];
                        (
                            f.name.clone(),
                            MacroTotals::scaled(
                                &Macros {
                                    kcal: f.kcal,
                                    fat: f.fat,
                                    carbs: f.carbs,
                                    protein: f.protein,
                                },
                                c.quantity,
                            ),
                        )
                    },
                    None => (String::new(), MacroTotals::zero()),
                };
                Consumption {
                    id: c.id,
                    user_id: c.user_id.duplicate(),
                    consumable_id: fid,
                    consumable_name: name,
                    quantity: c.quantity,
                    kcal: totals.kcal,
                    fat: totals.fat,
                    carbs: totals.carbs,
                    protein: totals.protein,
                    consumed_at: c.consumed_at,
                }
            },
            ConsumableRef::Recipe(rid) => {
                let (name, totals) = match self.recipe_index(rid) {
                    Some(j) => {
                        let aggregate = self.compute_recipe_totals(rid);
                        let rrow = &self.recipes[j];
                        (rrow.name.clone(), aggregate.portion(rrow.quantity, c.quantity))
                    },
                    None => (String::new(), MacroTotals::zero()),
                };
                Consumption {
                    id: c.id,
                    user_id: c.user_id.duplicate(),
                    consumable_id: rid,
                    consumable_name: name,
                    quantity: c.quantity,
                    kcal: totals.kcal,
                    fat: totals.fat,
                    carbs: totals.carbs,
                    protein: totals.protein,
                    consumed_at: c.consumed_at,
                }
            },
        }
    }

    /// The summed derived totals of everything the user consumed on one
    /// date: the figures a daily summary shows. Yields nothing only when the
    /// mathematical sum exceeds what the result type can carry.
    pub fn day_totals(&self, user_id: &UserId, date: u32) -> (r: Option<MacroTotals>)
        ensures
            match r {
                Some(t) => t@ == day_totals_of(self@, user_id@, date),
                None => !totals_fit_u128(day_totals_of(self@, user_id@, date)),
            },
    {
        let ghost user = user_id@;
        let mut acc = MacroTotals::zero();
        let n = self.consumptions.len();
        let mut i: usize = 0;
        while i < n
            invariant
                n == self.consumptions.len(),
                i <= n,
                self@.consumptions == self.consumptions@.map_values(|c: ConsumptionRow| c@),
                user == user_id@,
                acc@ == day_totals_over(self@, self@.consumptions.take(i as int), user, date),
            decreases n - i,
        {
            let c = &self.consumptions[i];
            proof {
                assert(self@.consumptions.take(i + 1).drop_last() =~= self@.consumptions.take(
                    i as int,
                ));
                assert(self@.consumptions.take(i + 1).last() == c@);
            }
            if c.consumed_at == date && user_eq(&c.user_id, user_id) {
                let row = self.consumption_row_out(i);
                let ksum = acc.kcal.checked_add(row.kcal);
                let fsum = acc.fat.checked_add(row.fat);
                let csum = acc.carbs.checked_add(row.carbs);
                let psum = acc.protein.checked_add(row.protein);
                match (ksum, fsum, csum, psum) {
                    (Some(kcal), Some(fat), Some(carbs), Some(protein)) => {
                        acc = MacroTotals { kcal, fat, carbs, protein };
                    },
                    _ => {
                        proof {
                            lemma_day_totals_prefix_le(
                                self@,
                                self@.consumptions,
                                user,
                                date,
                                i + 1,
                            );
                        }
                        return None;
                    },
                }
            }
            i = i + 1;
        }
        proof {
            assert(self@.consumptions.take(n as int) =~= self@.consumptions);
        }
        Some(acc)
    }

    /// The user's consumption events matching the filter, each with its
    /// resolved name and derived totals, in store order.
    pub fn get_consumptions(&self, user_id: &UserId, filter: ConsumptionFilter) -> (r: Vec<
        Consumption,
    >)
        ensures
            r@.map_values(|c: Consumption| c@) == consumptions_out(
                self@,
                self@.consumptions,
                user_id@,
                filter,
            ),
    {
        let mut out: Vec<Consumption> = Vec::new();
        let n = self.consumptions.len();
        let mut i: usize = 0;
        while i < n
            invariant
                n == self.consumptions.len(),
                i <= n,
                self@.consumptions == self.consumptions@.map_values(|c: ConsumptionRow| c@),
                out@.map_values(|c: Consumption| c@) == consumptions_out(
                    self@,
                    self@.consumptions.take(i as int),
                    user_id@,
                    filter,
                ),
            decreases n - i,
        {
            let ghost prev = out@.map_values(|c: Consumption| c@);
            let c = &self.consumptions[i];
            let matches_filter = match filter {
                ConsumptionFilter::All => true,
                ConsumptionFilter::ConsumedAt(d) => c.consumed_at == d,
                ConsumptionFilter::FoodId(fid) => c.reference == ConsumableRef::Food(fid),
                ConsumptionFilter::RecipeId(rid) => c.reference == ConsumableRef::Recipe(rid),
            };
            if matches_filter && user_eq(&c.user_id, user_id) {
                let row = self.consumption_row_out(i);
                out.push(row);
                proof {
                    assert(out@.map_values(|c: Consumption| c@) =~= prev.push(
                        consumption_out(self@, self@.consumptions[i as int]),
                    ));
                }
            }
            proof {
                assert(self@.consumptions.take(i + 1).drop_last() =~= self@.consumptions.take(
                    i as int,
                ));
                assert(self@.consumptions.take(i + 1).last() == self@.consumptions[i as int]);
            }
            i = i + 1;
        }
        proof {
            assert(self@.consumptions.take(n as int) =~= self@.consumptions);
        }
        out
    }

    /// The consumption with the given id, with its owner, or `NotFound`.
    pub fn get_consumption(&self, id: u64) -> (r: Result<Consumption, Error>)
        ensures
            match r {
                Ok(c) => find_consumption(self@.consumptions, id) matches Some(cm) && c@
                    == consumption_out(self@, cm),
                Err(e) => e is NotFound && find_consumption(self@.consumptions, id) is None,
            },
    {
        match self.consumption_index(id) {
            None => Err(Error::NotFound),
            Some(i) => Ok(self.consumption_row_out(i)),
        }
    }

    /// Records that the user consumed a quantity of a food or recipe on a
    /// date, and returns the fresh row id. The referenced consumable must
    /// exist (`NotFound`) and belong to the user (`Forbidden`).
    pub fn add_consumption(
        &mut self,
        user_id: &UserId,
        reference: ConsumableRef,
        quantity: u16,
        consumed_at: u32,
    ) -> (r: Result<u64, Error>)
        requires
            old(self).wf(),
            old(self)@.next_id < u64::MAX,
        ensures
            final(self).wf(),
            match r {
                Ok(id) => {
                    &&& id == old(self)@.next_id
                    &&& consumption_valid(
                        old(self)@,
                        ConsumptionModel {
                            id,
                            user: user_id@,
                            reference,
                            quantity,
                            consumed_at,
                        },
                    )
                    &&& final(self)@ == (DbModel {
                        consumptions: old(self)@.consumptions.push(
                            ConsumptionModel {
                                id,
                                user: user_id@,
                                reference,
                                quantity,
                                consumed_at,
                            },
                        ),
                        next_id: (old(self)@.next_id + 1) as u64,
                        ..old(self)@
                    })
                },
                Err(e) => final(self)@ == old(self)@ && match e {
                    Error::NotFound => match reference {
                        ConsumableRef::Food(fid) => find_food(old(self)@.foods, fid) is None,
                        ConsumableRef::Recipe(rid) => find_recipe(old(self)@.recipes, rid) is None,
                    },
                    Error::Forbidden => match reference {
                        ConsumableRef::Food(fid) => match find_food(old(self)@.foods, fid) {
                            Some(f) => f.user != user_id@,
                            None => false,
                        },
                        ConsumableRef::Recipe(rid) => match find_recipe(old(self)@.recipes, rid) {
                            Some(rm) => rm.user != user_id@,
                            None => false,
                        },
                    },
                    _ => false,
                },
            },
    {
        match reference {
            ConsumableRef::Food(fid) => {
                let fi = match self.food_index(fid) {
                    None => {
                        return Err(Error::NotFound);
                    },
                    Some(fi) => fi,
                };
                if !user_eq(&self.foods[fi].user_id, user_id) {
                    return Err(Error::Forbidden);
                }
            },
            ConsumableRef::Recipe(rid) => {
                let ri = match self.recipe_index(rid) {
                    None => {
                        return Err(Error::NotFound);
                    },
                    Some(ri) => ri,
                };
                if !user_eq(&self.recipes[ri].user_id, user_id) {
                    return Err(Error::Forbidden);
                }
            },
        }
        let id = self.next_id;
        self.next_id = self.next_id + 1;
        self.consumptions.push(ConsumptionRow {
            id,
            user_id: user_id.duplicate(),
            reference,
            quantity,
            consumed_at,
        });
        proof {
            let ghost m = ConsumptionModel { id, user: user_id@, reference, quantity, consumed_at };
            assert(self@.consumptions =~= old(self)@.consumptions.push(m));
            assert(self@.users =~= old(self)@.users);
            assert(self@.weights =~= old(self)@.weights);
            assert(self@.foods =~= old(self)@.foods);
            assert(self@.recipes =~= old(self)@.recipes);
            assert(self@.ingredients =~= old(self)@.ingredients);
            assert(self@.sessions =~= old(self)@.sessions);
            assert forall|a: int| 0 <= a < self@.ingredients.len() implies ingredient_valid(
                self@,
                #[trigger] self@.ingredients[a],
            ) by {
                assert(ingredient_valid(old(self)@, old(self)@.ingredients[a]));
            }
            assert forall|a: int| 0 <= a < self@.consumptions.len() implies consumption_valid(
                self@,
                #[trigger] self@.consumptions[a],
            ) by {
                if a < old(self)@.consumptions.len() {
                    assert(consumption_valid(old(self)@, old(self)@.consumptions[a]));
                } else {
                    assert(self@.consumptions[a] == m);
                }
            }
        }
        Ok(id)
    }

    /// Repoints the user's consumption at another consumable and replaces its
    /// quantity and date.
    pub fn update_consumption(
        &mut self,
        user_id: &UserId,
        id: u64,
        reference: ConsumableRef,
        quantity: u16,
        consumed_at: u32,
    ) -> (r: Result<(), Error>)
        requires
            old(self).wf(),
        ensures
            final(self).wf(),
            match r {
                Ok(()) => exists|k: int|
                    {
                        &&& 0 <= k < old(self)@.consumptions.len()
                        &&& (#[trigger] old(self)@.consumptions[k]).id == id
                        &&& old(self)@.consumptions[k].user == user_id@
                        &&& consumption_valid(
                            old(self)@,
                            ConsumptionModel {
                                id,
                                user: user_id@,
                                reference,
                                quantity,
                                consumed_at,
                            },
                        )
                        &&& final(self)@ == (DbModel {
                            consumptions: old(self)@.consumptions.update(
                                k,
                                ConsumptionModel {
                                    id,
                                    user: user_id@,
                                    reference,
                                    quantity,
                                    consumed_at,
                                },
                            ),
                            ..old(self)@
                        })
                    },
                Err(e) => final(self)@ == old(self)@ && match e {
                    Error::NotFound => find_consumption(old(self)@.consumptions, id) is None || (
                    find_consumption(old(self)@.consumptions, id) matches Some(cm) && cm.user
                        == user_id@ && match reference {
                        ConsumableRef::Food(fid) => find_food(old(self)@.foods, fid) is None,
                        ConsumableRef::Recipe(rid) => find_recipe(old(self)@.recipes, rid) is None,
                    }),
                    Error::Forbidden => (find_consumption(old(self)@.consumptions, id) matches Some(
                        cm,
                    ) && cm.user != user_id@) || (find_consumption(old(self)@.consumptions, id)
                        matches Some(cm) && cm.user == user_id@ && match reference {
                        ConsumableRef::Food(fid) => match find_food(old(self)@.foods, fid) {
                            Some(f) => f.user != user_id@,
                            None => false,
                        },
                        ConsumableRef::Recipe(rid) => match find_recipe(old(self)@.recipes, rid) {
                            Some(rm) => rm.user != user_id@,
                            None => false,
                        },
                    }),
                    _ => false,
                },
            },
    {
        let i = match self.consumption_index(id) {
            None => {
                return Err(Error::NotFound);
            },
            Some(i) => i,
        };
        if !user_eq(&self.consumptions[i].user_id, user_id) {
            return Err(Error::Forbidden);
        }
        match reference {
            ConsumableRef::Food(fid) => {
                let fi = match self.food_index(fid) {
                    None => {
                        return Err(Error::NotFound);
                    },
                    Some(fi) => fi,
                };
                if !user_eq(&self.foods[fi].user_id, user_id) {
                    return Err(Error::Forbidden);
                }
            },
            ConsumableRef::Recipe(rid) => {
                let ri = match self.recipe_index(rid) {
                    None => {
                        return Err(Error::NotFound);
                    },
                    Some(ri) => ri,
                };
                if !user_eq(&self.recipes[ri].user_id, user_id) {
                    return Err(Error::Forbidden);
                }
            },
        }
        let ghost k = i as int;
        self.consumptions[i] = ConsumptionRow {
            id,
            user_id: user_id.duplicate(),
            reference,
            quantity,
            consumed_at,
        };
        proof {
            let ghost m = ConsumptionModel { id, user: user_id@, reference, quantity, consumed_at };
            assert(self@.consumptions =~= old(self)@.consumptions.update(k, m));
            assert(self@.users =~= old(self)@.users);
            assert(self@.weights =~= old(self)@.weights);
            assert(self@.foods =~= old(self)@.foods);
            assert(self@.recipes =~= old(self)@.recipes);
            assert(self@.ingredients =~= old(self)@.ingredients);
            assert(self@.sessions =~= old(self)@.sessions);
            assert forall|a: int, b: int|
                0 <= a < b < self@.consumptions.len() implies (
            #[trigger] self@.consumptions[a]).id != (#[trigger] self@.consumptions[b]).id by {
                assert(old(self)@.consumptions[a].id != old(self)@.consumptions[b].id);
            }
            assert forall|a: int| 0 <= a < self@.ingredients.len() implies ingredient_valid(
                self@,
                #[trigger] self@.ingredients[a],
            ) by {
                assert(ingredient_valid(old(self)@, old(self)@.ingredients[a]));
            }
            assert forall|a: int| 0 <= a < self@.consumptions.len() implies consumption_valid(
                self@,
                #[trigger] self@.consumptions[a],
            ) by {
                if a != k {
                    assert(consumption_valid(old(self)@, old(self)@.consumptions[a]));
                } else {
                    assert(self@.consumptions[a] == m);
                }
            }
        }
        Ok(())
    }

    /// Deletes the user's consumption event.
    pub fn delete_consumption(&mut self, user_id: &UserId, id: u64) -> (r: Result<(), Error>)
        requires
            old(self).wf(),
        ensures
            final(self).wf(),
            match r {
                Ok(()) => exists|k: int|
                    {
                        &&& 0 <= k < old(self)@.consumptions.len()
                        &&& (#[trigger] old(self)@.consumptions[k]).id == id
                        &&& old(self)@.consumptions[k].user == user_id@
                        &&& final(self)@ == (DbModel {
                            consumptions: old(self)@.consumptions.remove(k),
                            ..old(self)@
                        })
                    },
                Err(e) => final(self)@ == old(self)@ && match e {
                    Error::NotFound => find_consumption(old(self)@.consumptions, id) is None,
                    Error::Forbidden => match find_consumption(old(self)@.consumptions, id) {
                        Some(cm) => cm.user != user_id@,
                        None => false,
                    },
                    _ => false,
                },
            },
    {
        match self.consumption_index(id) {
            None => Err(Error::NotFound),
            Some(i) => {
                if !user_eq(&self.consumptions[i].user_id, user_id) {
                    return Err(Error::Forbidden);
                }
                let ghost k = i as int;
                self.consumptions.remove(i);
                proof {
                    assert(self@.consumptions =~= old(self)@.consumptions.remove(k));
                    assert(self@.users =~= old(self)@.users);
                    assert(self@.weights =~= old(self)@.weights);
                    assert(self@.foods =~= old(self)@.foods);
                    assert(self@.recipes =~= old(self)@.recipes);
                    assert(self@.ingredients =~= old(self)@.ingredients);
                    assert(self@.sessions =~= old(self)@.sessions);
                    assert(forall|a: int|
                        0 <= a < self@.consumptions.len() ==> #[trigger] self@.consumptions[a]
                            == if a < k {
                            old(self)@.consumptions[a]
                        } else {
                            old(self)@.consumptions[a + 1]
                        });
                    assert forall|a: int, b: int|
                        0 <= a < b < self@.consumptions.len() implies (
                    #[trigger] self@.consumptions[a]).id != (#[trigger] self@.consumptions[b]).id by {
                        let oa = if a < k {
                            a
                        } else {
                            a + 1
                        };
                        let ob = if b < k {
                            b
                        } else {
                            b + 1
                        };
                        assert(old(self)@.consumptions[oa].id != old(self)@.consumptions[ob].id);
                    }
                    assert forall|a: int|
                        0 <= a < self@.consumptions.len() implies (
                    #[trigger] self@.consumptions[a]).id < self@.next_id && consumption_valid(
                        self@,
                        self@.consumptions[a],
                    ) by {
                        let oa = if a < k {
                            a
                        } else {
                            a + 1
                        };
                        assert(old(self)@.consumptions[oa].id < old(self)@.next_id);
                        assert(consumption_valid(old(self)@, old(self)@.consumptions[oa]));
                    }
                    assert forall|a: int| 0 <= a < self@.ingredients.len() implies ingredient_valid(
                        self@,
                        #[trigger] self@.ingredients[a],
                    ) by {
                        assert(ingredient_valid(old(self)@, old(self)@.ingredients[a]));
                    }
                }
                Ok(())
            },
        }
    }

    /// The stored user with that username, if any.
    pub fn get_user(&self, username: &str) -> (r: Option<UserWithPasswordHash>)
        ensures
            match r {
                Some(u) => find_user(self@.users, username@) matches Some(m) && u.id@ == m.id
                    && u.password_hash@ == m.password_hash,
                None => find_user(self@.users, username@) is None,
            },
    {
        let uname = username.to_owned();
        let n = self.users.len();
        let mut i: usize = 0;
        proof {
            assert(self@.users.skip(0) =~= self@.users);
        }
        while i < n
            invariant
                n == self.users.len(),
                i <= n,
                uname@ == username@,
                self@.users == self.users@.map_values(|u: UserRow| u@),
                find_user(self@.users, username@) == find_user(self@.users.skip(i as int), username@),
            decreases n - i,
        {
            proof {
                assert(self@.users.skip(i as int)[0] == self@.users[i as int]);
                assert(self@.users.skip(i as int).skip(1) =~= self@.users.skip(i + 1));
            }
            if self.users[i].username == uname {
                return Some(UserWithPasswordHash {
                    id: self.users[i].id.duplicate(),
                    password_hash: self.users[i].password_hash.clone(),
                });
            }
            i = i + 1;
        }
        proof {
            assert(self@.users.skip(n as int) =~= Seq::<UserModel>::empty());
        }
        None
    }

    /// Relies on std's decimal `Display` for `u64`.
    #[verifier::external_body]
    fn decimal_string(n: u64) -> (r: String)
        ensures
            r@ == decimal_of(n as nat),
    {
        n.to_string()
    }

    /// Creates a user with a fresh opaque id and a freshly salted password
    /// hash. A taken username is refused with `Conflict`; a hashing failure
    /// surfaces as `CredentialError`.
    pub fn create_user(&mut self, username: &str, password: &str) -> (r: Result<(), Error>)
        requires
            old(self).wf(),
            old(self)@.next_id < u64::MAX,
        ensures
            final(self).wf(),
            match r {
                Ok(()) => {
                    &&& find_user(old(self)@.users, username@) is None
                    &&& exists|h: Seq<char>|
                        password_verifies(password@, h) && final(self)@ == (DbModel {
                            users: old(self)@.users.push(
                                UserModel {
                                    id: decimal_of(old(self)@.next_id as nat),
                                    username: username@,
                                    password_hash: h,
                                },
                            ),
                            next_id: (old(self)@.next_id + 1) as u64,
                            ..old(self)@
                        })
                },
                Err(e) => final(self)@ == old(self)@ && match e {
                    Error::Conflict => find_user(old(self)@.users, username@) is Some,
                    Error::CredentialError => find_user(old(self)@.users, username@) is None,
                    _ => false,
                },
            },
    {
        if self.get_user(username).is_some() {
            return Err(Error::Conflict);
        }
        let hash = match hash_password(password) {
            Ok(h) => h,
            Err(_) => {
                return Err(Error::CredentialError);
            },
        };
        let id = self.next_id;
        self.next_id = self.next_id + 1;
        self.users.push(UserRow {
            id: UserId(Self::decimal_string(id)),
            username: username.to_owned(),
            password_hash: hash,
        });
        proof {
            lemma_find_user_properties(old(self)@.users, username@);
            assert(self@.users =~= old(self)@.users.push(
                UserModel {
                    id: decimal_of(id as nat),
                    username: username@,
                    password_hash: self.users@.last().password_hash@,
                },
            ));
            assert(self@.weights =~= old(self)@.weights);
            assert(self@.foods =~= old(self)@.foods);
            assert(self@.recipes =~= old(self)@.recipes);
            assert(self@.ingredients =~= old(self)@.ingredients);
            assert(self@.consumptions =~= old(self)@.consumptions);
            assert(self@.sessions =~= old(self)@.sessions);
            assert forall|a: int, b: int|
                0 <= a < b < self@.users.len() implies (#[trigger] self@.users[a]).username != (
            #[trigger] self@.users[b]).username by {
                if b < old(self)@.users.len() {
                    assert(old(self)@.users[a].username != old(self)@.users[b].username);
                } else {
                    assert(old(self)@.users[a].username != username@);
                }
            }
            assert forall|a: int| 0 <= a < self@.ingredients.len() implies ingredient_valid(
                self@,
                #[trigger] self@.ingredients[a],
            ) by {
                assert(ingredient_valid(old(self)@, old(self)@.ingredients[a]));
            }
            assert forall|a: int| 0 <= a < self@.consumptions.len() implies consumption_valid(
                self@,
                #[trigger] self@.consumptions[a],
            ) by {
                assert(consumption_valid(old(self)@, old(self)@.consumptions[a]));
            }
        }
        Ok(())
    }

    /// Issues a fresh opaque session token for the user: 128 random bits,
    /// hex-encoded. Only the token's hashed key is stored, newest first, with
    /// the creation time; the plaintext token exists only in the returned
    /// value.
    pub fn create_session(&mut self, user_id: &UserId, now: u64) -> (token: String)
        requires
            old(self).wf(),
        ensures
            final(self).wf(),
            final(self)@ == (DbModel {
                sessions: seq![
                    SessionModel { key: session_key_of(token@), user: user_id@, created_at: now },
                ] + old(self)@.sessions,
                ..old(self)@
            }),
            session_lookup(final(self)@.sessions, session_key_of(token@)) == Some(
                SessionModel { key: session_key_of(token@), user: user_id@, created_at: now },
            ),
    {
        let token_bytes = random_token_bytes();
        let token = hex_lower(&token_bytes);
        let key = session_key(token.as_str());
        self.sessions.insert(0, SessionRow { key, user_id: user_id.duplicate(), created_at: now });
        proof {
            assert(self@.sessions =~= seq![
                SessionModel { key: session_key_of(token@), user: user_id@, created_at: now },
            ] + old(self)@.sessions);
            assert(self@.sessions[0] == SessionModel {
                key: session_key_of(token@),
                user: user_id@,
                created_at: now,
            });
            assert(self@.users =~= old(self)@.users);
            assert(self@.weights =~= old(self)@.weights);
            assert(self@.foods =~= old(self)@.foods);
            assert(self@.recipes =~= old(self)@.recipes);
            assert(self@.ingredients =~= old(self)@.ingredients);
            assert(self@.consumptions =~= old(self)@.consumptions);
            assert forall|a: int| 0 <= a < self@.ingredients.len() implies ingredient_valid(
                self@,
                #[trigger] self@.ingredients[a],
            ) by {
                assert(ingredient_valid(old(self)@, old(self)@.ingredients[a]));
            }
            assert forall|a: int| 0 <= a < self@.consumptions.len() implies consumption_valid(
                self@,
                #[trigger] self@.consumptions[a],
            ) by {
                assert(consumption_valid(old(self)@, old(self)@.consumptions[a]));
            }
        }
        token
    }

    /// Resolves a presented token to its user id: the token is hashed and the
    /// sessions are searched for that key. An unknown or deleted token
    /// resolves to nothing.
    pub fn get_session_user_id(&self, token: &str) -> (r: Option<String>)
        ensures
            match r {
                Some(uid) => session_lookup(self@.sessions, session_key_of(token@)) matches Some(x)
                    && x.user == uid@,
                None => session_lookup(self@.sessions, session_key_of(token@)) is None,
            },
    {
        let key = session_key(token);
        let n = self.sessions.len();
        let mut i: usize = 0;
        proof {
            assert(self@.sessions.skip(0) =~= self@.sessions);
        }
        while i < n
            invariant
                n == self.sessions.len(),
                i <= n,
                key@ == session_key_of(token@),
                self@.sessions == self.sessions@.map_values(|x: SessionRow| x@),
                session_lookup(self@.sessions, session_key_of(token@)) == session_lookup(
                    self@.sessions.skip(i as int),
                    session_key_of(token@),
                ),
            decreases n - i,
        {
            proof {
                assert(self@.sessions.skip(i as int)[0] == self@.sessions[i as int]);
                assert(self@.sessions.skip(i as int).skip(1) =~= self@.sessions.skip(i + 1));
            }
            if self.sessions[i].key == key {
                return Some(self.sessions[i].user_id.0.clone());
            }
            i = i + 1;
        }
        proof {
            assert(self@.sessions.skip(n as int) =~= Seq::<SessionModel>::empty());
        }
        None
    }

    /// Deletes every session stored under the presented token's key;
    /// idempotent when the token is already absent.
    pub fn delete_session(&mut self, token: &str)
        requires
            old(self).wf(),
        ensures
            final(self).wf(),
            final(self)@ == (DbModel {
                sessions: sessions_without_key(old(self)@.sessions, session_key_of(token@)),
                ..old(self)@
            }),
    {
        let key = session_key(token);
        let n = self.sessions.len();
        let mut kept: Vec<SessionRow> = Vec::new();
        let mut i: usize = 0;
        while i < n
            invariant
                n == self.sessions.len(),
                i <= n,
                key@ == session_key_of(token@),
                self@.sessions == self.sessions@.map_values(|x: SessionRow| x@),
                kept@.map_values(|x: SessionRow| x@) == sessions_without_key(
                    self@.sessions.take(i as int),
                    session_key_of(token@),
                ),
            decreases n - i,
        {
            let ghost prev = kept@.map_values(|x: SessionRow| x@);
            let x = &self.sessions[i];
            if !(x.key == key) {
                kept.push(SessionRow {
                    key: x.key.clone(),
                    user_id: x.user_id.duplicate(),
                    created_at: x.created_at,
                });
                proof {
                    assert(kept@.map_values(|x: SessionRow| x@) =~= prev.push(x@));
                }
            }
            proof {
                assert(self@.sessions.take(i + 1).drop_last() =~= self@.sessions.take(i as int));
                assert(self@.sessions.take(i + 1).last() == x@);
            }
            i = i + 1;
        }
        self.sessions = kept;
        proof {
            assert(old(self)@.sessions.take(n as int) =~= old(self)@.sessions);
            assert(self@.sessions =~= sessions_without_key(
                old(self)@.sessions,
                session_key_of(token@),
            ));
            assert(self@.users =~= old(self)@.users);
            assert(self@.weights =~= old(self)@.weights);
            assert(self@.foods =~= old(self)@.foods);
            assert(self@.recipes =~= old(self)@.recipes);
            assert(self@.ingredients =~= old(self)@.ingredients);
            assert(self@.consumptions =~= old(self)@.consumptions);
            assert forall|a: int| 0 <= a < self@.ingredients.len() implies ingredient_valid(
                self@,
                #[trigger] self@.ingredients[a],
            ) by {
                assert(ingredient_valid(old(self)@, old(self)@.ingredients[a]));
            }
            assert forall|a: int| 0 <= a < self@.consumptions.len() implies consumption_valid(
                self@,
                #[trigger] self@.consumptions[a],
            ) by {
                assert(consumption_valid(old(self)@, old(self)@.consumptions[a]));
            }
        }
    }

    /// Deletes every session older than the cutoff. A session is expired
    /// once `now - createdAt` exceeds `max_age_days` days; age counts from
    /// creation, never from last use. Idempotent, and safe on an empty set.
    pub fn delete_expired_sessions(&mut self, now: u64, max_age_days: u32)
        requires
            old(self).wf(),
        ensures
            final(self).wf(),
            final(self)@ == (DbModel {
                sessions: purge_sessions(old(self)@.sessions, now, max_age_days),
                ..old(self)@
            }),
    {
        let n = self.sessions.len();
        let mut kept: Vec<SessionRow> = Vec::new();
        let mut i: usize = 0;
        while i < n
            invariant
                n == self.sessions.len(),
                i <= n,
                self@.sessions == self.sessions@.map_values(|x: SessionRow| x@),
                kept@.map_values(|x: SessionRow| x@) == purge_sessions(
                    self@.sessions.take(i as int),
                    now,
                    max_age_days,
                ),
            decreases n - i,
        {
            let ghost prev = kept@.map_values(|x: SessionRow| x@);
            let x = &self.sessions[i];
            let expired = now > x.created_at && now - x.created_at > (max_age_days as u64) * 86400;
            if !expired {
                kept.push(SessionRow {
                    key: x.key.clone(),
                    user_id: x.user_id.duplicate(),
                    created_at: x.created_at,
                });
                proof {
                    assert(kept@.map_values(|x: SessionRow| x@) =~= prev.push(x@));
                }
            }
            proof {
                assert(self@.sessions.take(i + 1).drop_last() =~= self@.sessions.take(i as int));
                assert(self@.sessions.take(i + 1).last() == x@);
            }
            i = i + 1;
        }
        self.sessions = kept;
        proof {
            assert(old(self)@.sessions.take(n as int) =~= old(self)@.sessions);
            assert(self@.sessions =~= purge_sessions(old(self)@.sessions, now, max_age_days));
            assert(self@.users =~= old(self)@.users);
            assert(self@.weights =~= old(self)@.weights);
            assert(self@.foods =~= old(self)@.foods);
            assert(self@.recipes =~= old(self)@.recipes);
            assert(self@.ingredients =~= old(self)@.ingredients);
            assert(self@.consumptions =~= old(self)@.consumptions);
            assert forall|a: int| 0 <= a < self@.ingredients.len() implies ingredient_valid(
                self@,
                #[trigger] self@.ingredients[a],
            ) by {
                assert(ingredient_valid(old(self)@, old(self)@.ingredients[a]));
            }
            assert forall|a: int| 0 <= a < self@.consumptions.len() implies consumption_valid(
                self@,
                #[trigger] self@.consumptions[a],
            ) by {
                assert(consumption_valid(old(self)@, old(self)@.consumptions[a]));
            }
        }
    }

    /// The login flow: look the username up, verify the password against the
    /// stored hash, and only then issue a session. An unknown username, a
    /// wrong password and a malformed stored hash all collapse into the same
    /// empty outcome, so the boundary cannot tell them apart.
    pub fn login(&mut self, form: &LoginForm, now: u64) -> (r: Option<String>)
        requires
            old(self).wf(),
        ensures
            final(self).wf(),
            match r {
                Some(token) => {
                    &&& find_user(old(self)@.users, form.username@) matches Some(u)
                        && password_verifies(
                        form.password@,
                        u.password_hash,
                    ) && final(self)@ == (DbModel {
                        sessions: seq![
                            SessionModel {
                                key: session_key_of(token@),
                                user: u.id,
                                created_at: now,
                            },
                        ] + old(self)@.sessions,
                        ..old(self)@
                    })
                },
                None => final(self)@ == old(self)@ && (find_user(
                    old(self)@.users,
                    form.username@,
                ) is None || (find_user(old(self)@.users, form.username@) matches Some(u)
                    && !password_verifies(form.password@, u.password_hash))),
            },
    {
        match self.get_user(form.username.as_str()) {
            None => None,
            Some(user) => match verify_password(form.password.as_str(), user.password_hash.as_str()) {
                PasswordCheck::Match => Some(self.create_session(&user.id, now)),
                PasswordCheck::Mismatch => None,
                PasswordCheck::MalformedHash => None,
            },
        }
    }

    /// The trailing-window consumption statistics of one consumable: the most
    /// recent date it was consumed within the window, and how often.
    fn window_stats(&self, rf: ConsumableRef, today: u32) -> (r: (Option<u32>, u64))
        ensures
            r.0 == window_last(self@.consumptions, rf, today),
            r.1 == window_count(self@.consumptions, rf, today),
    {
        let mut last: Option<u32> = None;
        let mut count: u64 = 0;
        let n = self.consumptions.len();
        let mut i: usize = 0;
        while i < n
            invariant
                n == self.consumptions.len(),
                i <= n,
                self@.consumptions == self.consumptions@.map_values(|c: ConsumptionRow| c@),
                last == window_last(self@.consumptions.take(i as int), rf, today),
                count == window_count(self@.consumptions.take(i as int), rf, today),
                count <= i,
            decreases n - i,
        {
            let c = &self.consumptions[i];
            let hit = c.reference == rf && (c.consumed_at as u64) + 7 > (today as u64);
            if hit {
                count = count + 1;
                last = match last {
                    Some(d) => if c.consumed_at > d {
                        Some(c.consumed_at)
                    } else {
                        Some(d)
                    },
                    None => Some(c.consumed_at),
                };
            }
            proof {
                assert(self@.consumptions.take(i + 1).drop_last() =~= self@.consumptions.take(
                    i as int,
                ));
                assert(self@.consumptions.take(i + 1).last() == c@);
            }
            i = i + 1;
        }
        proof {
            assert(self@.consumptions.take(n as int) =~= self@.consumptions);
        }
        (last, count)
    }

    /// Every non-hidden food and recipe of the user, each annotated with its
    /// star state, creation time and trailing-window consumption statistics,
    /// sorted into display order by the ranking engine.
    pub fn get_consumables(&self, user_id: &UserId, today: u32, now: u64) -> (r: Vec<Consumable>)
        ensures
            r@.map_values(|c: Consumable| c@).to_multiset() == (food_consumables(
                self@,
                self@.foods,
                user_id@,
                today,
            ) + recipe_consumables(self@, self@.recipes, user_id@, today)).to_multiset(),
            forall|p: int, q: int|
                0 <= p < q < r@.len() ==> ranked_le(r@[p]@, r@[q]@, today, now),
    {
        let mut v: Vec<Consumable> = Vec::new();
        let nf = self.foods.len();
        let mut i: usize = 0;
        while i < nf
            invariant
                nf == self.foods.len(),
                i <= nf,
                self@.foods == self.foods@.map_values(|f: Food| f@),
                v@.map_values(|c: Consumable| c@) == food_consumables(
                    self@,
                    self@.foods.take(i as int),
                    user_id@,
                    today,
                ),
            decreases nf - i,
        {
            let ghost prev = v@.map_values(|c: Consumable| c@);
            let f = &self.foods[i];
            if f.hidden_at.is_none() && user_eq(&f.user_id, user_id) {
                let (last, count) = self.window_stats(ConsumableRef::Food(f.id), today);
                let f = &self.foods[i];
                v.push(Consumable {
                    ctype: ConsumableType::Food,
                    id: f.id,
                    name: f.name.clone(),
                    is_starred: f.starred_at.is_some(),
                    created_at: f.created_at,
                    last_consumed_at: last,
                    consumed_count: count,
                });
                proof {
                    assert(v@.map_values(|c: Consumable| c@) =~= prev.push(
                        food_consumable(self@, f@, today),
                    ));
                }
            }
            proof {
                assert(self@.foods.take(i + 1).drop_last() =~= self@.foods.take(i as int));
                assert(self@.foods.take(i + 1).last() == self@.foods[i as int]);
            }
            i = i + 1;
        }
        proof {
            assert(self@.foods.take(nf as int) =~= self@.foods);
        }
        let ghost foods_part = food_consumables(self@, self@.foods, user_id@, today);
        let nr = self.recipes.len();
        let mut j: usize = 0;
        while j < nr
            invariant
                nr == self.recipes.len(),
                j <= nr,
                self@.recipes == self.recipes@.map_values(|x: RecipeRow| x@),
                foods_part == food_consumables(self@, self@.foods, user_id@, today),
                v@.map_values(|c: Consumable| c@) == foods_part + recipe_consumables(
                    self@,
                    self@.recipes.take(j as int),
                    user_id@,
                    today,
                ),
            decreases nr - j,
        {
            let ghost prev = v@.map_values(|c: Consumable| c@);
            let x = &self.recipes[j];
            if x.hidden_at.is_none() && user_eq(&x.user_id, user_id) {
                let (last, count) = self.window_stats(ConsumableRef::Recipe(x.id), today);
                let x = &self.recipes[j];
                v.push(Consumable {
                    ctype: ConsumableType::Recipe,
                    id: x.id,
                    name: x.name.clone(),
                    is_starred: x.starred_at.is_some(),
                    created_at: x.created_at,
                    last_consumed_at: last,
                    consumed_count: count,
                });
                proof {
                    assert(v@.map_values(|c: Consumable| c@) =~= prev.push(
                        recipe_consumable(self@, x@, today),
                    ));
                }
            }
            proof {
                assert(self@.recipes.take(j + 1).drop_last() =~= self@.recipes.take(j as int));
                assert(self@.recipes.take(j + 1).last() == self@.recipes[j as int]);
            }
            j = j + 1;
        }
        proof {
            assert(self@.recipes.take(nr as int) =~= self@.recipes);
        }
        rank_consumables(v, today, now)
    }

    /// A full dump of the user's rows, stamped with the export time. The
    /// boundary serializes and streams it; nothing is paginated.
    pub fn export_data(&self, user_id: &UserId, now: u64) -> (r: ExportDocument)
        ensures
            r.user_id@ == user_id@,
            r.exported_at == now,
            r.weights@.map_values(|w: WeightWithDate| w@) == weights_of(self@.weights, user_id@),
            r.foods@.map_values(|f: Food| f@) == foods_of(self@.foods, user_id@),
            r.recipes@.map_values(|x: RecipeRow| x@) == recipes_of(self@.recipes, user_id@),
            r.ingredients@.map_values(|g: IngredientRow| g@) == ingredients_of_user(
                self@.ingredients,
                user_id@,
            ),
            r.consumptions@.map_values(|c: ConsumptionRow| c@) == consumptions_selected(
                self@.consumptions,
                user_id@,
                ConsumptionFilter::All,
            ),
    {
        let weights = self.get_weights(user_id);
        let foods = self.get_foods(user_id);
        let mut recipes: Vec<RecipeRow> = Vec::new();
        let nr = self.recipes.len();
        let mut i: usize = 0;
        while i < nr
            invariant
                nr == self.recipes.len(),
                i <= nr,
                self@.recipes == self.recipes@.map_values(|x: RecipeRow| x@),
                recipes@.map_values(|x: RecipeRow| x@) == recipes_of(
                    self@.recipes.take(i as int),
                    user_id@,
                ),
            decreases nr - i,
        {
            let ghost prev = recipes@.map_values(|x: RecipeRow| x@);
            let x = &self.recipes[i];
            if user_eq(&x.user_id, user_id) {
                recipes.push(RecipeRow {
                    id: x.id,
                    user_id: x.user_id.duplicate(),
                    name: x.name.clone(),
                    quantity: x.quantity,
                    hidden_at: x.hidden_at,
                    starred_at: x.starred_at,
                    created_at: x.created_at,
                });
                proof {
                    assert(recipes@.map_values(|x: RecipeRow| x@) =~= prev.push(x@));
                }
            }
            proof {
                assert(self@.recipes.take(i + 1).drop_last() =~= self@.recipes.take(i as int));
                assert(self@.recipes.take(i + 1).last() == x@);
            }
            i = i + 1;
        }
        let mut ingredients: Vec<IngredientRow> = Vec::new();
        let ng = self.ingredients.len();
        let mut a: usize = 0;
        while a < ng
            invariant
                ng == self.ingredients.len(),
                a <= ng,
                self@.ingredients == self.ingredients@.map_values(|g: IngredientRow| g@),
                ingredients@.map_values(|g: IngredientRow| g@) == ingredients_of_user(
                    self@.ingredients.take(a as int),
                    user_id@,
                ),
            decreases ng - a,
        {
            let ghost prev = ingredients@.map_values(|g: IngredientRow| g@);
            let g = &self.ingredients[a];
            if user_eq(&g.user_id, user_id) {
                ingredients.push(IngredientRow {
                    id: g.id,
                    user_id: g.user_id.duplicate(),
                    recipe_id: g.recipe_id,
                    food_id: g.food_id,
                    quantity: g.quantity,
                });
                proof {
                    assert(ingredients@.map_values(|g: IngredientRow| g@) =~= prev.push(g@));
                }
            }
            proof {
                assert(self@.ingredients.take(a + 1).drop_last() =~= self@.ingredients.take(
                    a as int,
                ));
                assert(self@.ingredients.take(a + 1).last() == g@);
            }
            a = a + 1;
        }
        let mut consumptions: Vec<ConsumptionRow> = Vec::new();
        let nc = self.consumptions.len();
        let mut b: usize = 0;
        while b < nc
            invariant
                nc == self.consumptions.len(),
                b <= nc,
                self@.consumptions == self.consumptions@.map_values(|c: ConsumptionRow| c@),
                consumptions@.map_values(|c: ConsumptionRow| c@) == consumptions_selected(
                    self@.consumptions.take(b as int),
                    user_id@,
                    ConsumptionFilter::All,
                ),
            decreases nc - b,
        {
            let ghost prev = consumptions@.map_values(|c: ConsumptionRow| c@);
            let c = &self.consumptions[b];
            if user_eq(&c.user_id, user_id) {
                consumptions.push(ConsumptionRow {
                    id: c.id,
                    user_id: c.user_id.duplicate(),
                    reference: c.reference,
                    quantity: c.quantity,
                    consumed_at: c.consumed_at,
                });
                proof {
                    assert(consumptions@.map_values(|c: ConsumptionRow| c@) =~= prev.push(c@));
                }
            }
            proof {
                assert(self@.consumptions.take(b + 1).drop_last() =~= self@.consumptions.take(
                    b as int,
                ));
                assert(self@.consumptions.take(b + 1).last() == c@);
            }
            b = b + 1;
        }
        proof {
            assert(self@.recipes.take(nr as int) =~= self@.recipes);
            assert(self@.ingredients.take(ng as int) =~= self@.ingredients);
            assert(self@.consumptions.take(nc as int) =~= self@.consumptions);
        }
        ExportDocument {
            user_id: user_id.0.clone(),
            exported_at: now,
            weights,
            foods,
            recipes,
            ingredients,
            consumptions,
        }
    }

    /// Adds a weight record for the user and returns the fresh row id.
    pub fn add_weight(&mut self, user_id: &UserId, weight: u32, measured_at: u32) -> (id: u64)
        requires
            old(self).wf(),
            old(self)@.next_id < u64::MAX,
        ensures
            final(self).wf(),
            id == old(self)@.next_id,
            final(self)@ == (DbModel {
                weights: old(self)@.weights.push(
                    WeightModel { id, user: user_id@, weight, measured_at },
                ),
                next_id: (old(self)@.next_id + 1) as u64,
                ..old(self)@
            }),
    {
        let id = self.next_id;
        self.next_id = self.next_id + 1;
        self.weights.push(WeightWithDate {
            id,
            user_id: user_id.duplicate(),
            weight,
            measured_at,
        });
        proof {
            assert(self@.weights =~= old(self)@.weights.push(
                WeightModel { id, user: user_id@, weight, measured_at },
            ));
            assert(self@.users =~= old(self)@.users);
            assert(self@.foods =~= old(self)@.foods);
            assert(self@.recipes =~= old(self)@.recipes);
            assert(self@.ingredients =~= old(self)@.ingredients);
            assert(self@.consumptions =~= old(self)@.consumptions);
            assert(self@.sessions =~= old(self)@.sessions);
            lemma_push_fresh_weight_wf(old(self)@, self@, user_id@, weight, measured_at);
        }
        id
    }
}

proof fn lemma_push_fresh_weight_wf(
    db: DbModel,
    post: DbModel,
    user: Seq<char>,
    weight: u32,
    measured_at: u32,
)
    requires
        db_wf(db),
        db.next_id < u64::MAX,
        post == (DbModel {
            weights: db.weights.push(
                WeightModel { id: db.next_id, user, weight, measured_at },
            ),
            next_id: (db.next_id + 1) as u64,
            ..db
        }),
    ensures
        db_wf(post),
{
    assert forall|i: int| 0 <= i < post.ingredients.len() implies ingredient_valid(
        post,
        #[trigger] post.ingredients[i],
    ) by {
        assert(ingredient_valid(db, db.ingredients[i]));
    }
    assert forall|i: int| 0 <= i < post.consumptions.len() implies consumption_valid(
        post,
        #[trigger] post.consumptions[i],
    ) by {
        assert(consumption_valid(db, db.consumptions[i]));
    }
}

} // verus!
