//! The aggregation model: recipe totals derived from weighted ingredients,
//! consumption totals for the food path and the normalized recipe path, and
//! the retroactive effect of ingredient edits. Macro amounts are written in
//! tenths of a unit, so a food of 70 kcal / 5 fat / 0.5 carbs / 6 protein per
//! unit is (700, 50, 5, 60).
use matrafl::nutrition::Macros;
use matrafl::store::{ConsumableRef, ConsumptionFilter, Db, UserId};

fn egg_macros() -> Macros {
    Macros { kcal: 700, fat: 50, carbs: 5, protein: 60 }
}

#[test]
fn food_consumption_scales_macros() {
    let mut db = Db::new();
    let alice = UserId("alice".to_string());
    let egg = db.add_food(&alice, "Egg", egg_macros(), false, false, 1000);
    db.add_consumption(&alice, ConsumableRef::Food(egg), 2, 19723).unwrap();

    let rows = db.get_consumptions(&alice, ConsumptionFilter::All);
    assert_eq!(rows.len(), 1);
    assert_eq!(rows[0].consumable_name, "Egg");
    assert_eq!(rows[0].kcal, 1400);
    assert_eq!(rows[0].fat, 100);
    assert_eq!(rows[0].carbs, 10);
    assert_eq!(rows[0].protein, 120);
    assert_eq!(rows[0].consumed_at, 19723);
}

#[test]
fn recipe_totals_sum_ingredients() {
    let mut db = Db::new();
    let alice = UserId("alice".to_string());
    let egg = db.add_food(&alice, "Egg", egg_macros(), false, false, 1000);
    let omelette = db.add_recipe(&alice, "Omelette", 2, false, false, 1000);
    db.add_ingredient(&alice, omelette, egg, 3).unwrap();

    let ingredients = db.get_ingredients(omelette);
    assert_eq!(ingredients.len(), 1);
    assert_eq!(ingredients[0].food_name, "Egg");
    assert_eq!(ingredients[0].kcal, 2100);

    let recipe = db.get_recipe(omelette).unwrap();
    assert_eq!(recipe.kcal, 2100);
    assert_eq!(recipe.fat, 150);
    assert_eq!(recipe.carbs, 15);
    assert_eq!(recipe.protein, 180);
}

#[test]
fn recipe_consumption_divides_by_yield() {
    let mut db = Db::new();
    let alice = UserId("alice".to_string());
    let egg = db.add_food(&alice, "Egg", egg_macros(), false, false, 1000);
    let omelette = db.add_recipe(&alice, "Omelette", 2, false, false, 1000);
    db.add_ingredient(&alice, omelette, egg, 3).unwrap();
    let c = db.add_consumption(&alice, ConsumableRef::Recipe(omelette), 1, 19723).unwrap();

    let row = db.get_consumption(c).unwrap();
    assert_eq!(row.consumable_name, "Omelette");
    assert_eq!(row.kcal, 1050);
}

#[test]
fn empty_recipe_totals_zero() {
    let mut db = Db::new();
    let alice = UserId("alice".to_string());
    let bare = db.add_recipe(&alice, "Bare", 4, false, false, 1000);

    let recipe = db.get_recipe(bare).unwrap();
    assert_eq!(recipe.kcal, 0);
    assert_eq!(recipe.fat, 0);
    assert_eq!(recipe.carbs, 0);
    assert_eq!(recipe.protein, 0);
    assert!(db.get_ingredients(bare).is_empty());
}

#[test]
fn ingredient_edit_changes_recorded_consumption() {
    let mut db = Db::new();
    let alice = UserId("alice".to_string());
    let egg = db.add_food(&alice, "Egg", egg_macros(), false, false, 1000);
    let omelette = db.add_recipe(&alice, "Omelette", 2, false, false, 1000);
    let ing = db.add_ingredient(&alice, omelette, egg, 3).unwrap();
    let c = db.add_consumption(&alice, ConsumableRef::Recipe(omelette), 1, 19723).unwrap();
    assert_eq!(db.get_consumption(c).unwrap().kcal, 1050);

    // No snapshot isolation across time: raising the ingredient quantity
    // retroactively changes what the recorded consumption reads back as.
    db.update_ingredient(&alice, ing, egg, 4).unwrap();
    assert_eq!(db.get_consumption(c).unwrap().kcal, 1400);

    // Editing the food itself shows through as well.
    db.update_food(
        &alice,
        egg,
        "Egg",
        Macros { kcal: 800, fat: 50, carbs: 5, protein: 60 },
        false,
        false,
        2000,
    )
    .unwrap();
    assert_eq!(db.get_consumption(c).unwrap().kcal, 1600);
}

#[test]
fn day_totals_sum_the_dates_consumptions() {
    let mut db = Db::new();
    let alice = UserId("alice".to_string());
    let egg = db.add_food(&alice, "Egg", egg_macros(), false, false, 1000);
    let omelette = db.add_recipe(&alice, "Omelette", 2, false, false, 1000);
    db.add_ingredient(&alice, omelette, egg, 3).unwrap();
    db.add_consumption(&alice, ConsumableRef::Food(egg), 2, 19723).unwrap();
    db.add_consumption(&alice, ConsumableRef::Recipe(omelette), 1, 19723).unwrap();
    // A consumption on another date does not count.
    db.add_consumption(&alice, ConsumableRef::Food(egg), 5, 19724).unwrap();

    let totals = db.day_totals(&alice, 19723).unwrap();
    assert_eq!(totals.kcal, 1400 + 1050);
    assert_eq!(totals.protein, 120 + 90);

    let empty = db.day_totals(&alice, 19700).unwrap();
    assert_eq!(empty.kcal, 0);
}

#[test]
fn consumption_filters_select_rows() {
    let mut db = Db::new();
    let alice = UserId("alice".to_string());
    let egg = db.add_food(&alice, "Egg", egg_macros(), false, false, 1000);
    let toast = db.add_food(&alice, "Toast", Macros { kcal: 900, fat: 10, carbs: 170, protein: 30 }, false, false, 1000);
    db.add_consumption(&alice, ConsumableRef::Food(egg), 1, 100).unwrap();
    db.add_consumption(&alice, ConsumableRef::Food(toast), 1, 100).unwrap();
    db.add_consumption(&alice, ConsumableRef::Food(egg), 2, 101).unwrap();

    assert_eq!(db.get_consumptions(&alice, ConsumptionFilter::All).len(), 3);
    assert_eq!(db.get_consumptions(&alice, ConsumptionFilter::ConsumedAt(100)).len(), 2);
    assert_eq!(db.get_consumptions(&alice, ConsumptionFilter::FoodId(egg)).len(), 2);
    assert_eq!(db.get_consumptions(&alice, ConsumptionFilter::FoodId(toast)).len(), 1);
    assert_eq!(db.get_consumptions(&alice, ConsumptionFilter::RecipeId(egg)).len(), 0);

    let bob = UserId("bob".to_string());
    assert!(db.get_consumptions(&bob, ConsumptionFilter::All).is_empty());
}
