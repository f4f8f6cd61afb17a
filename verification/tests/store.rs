//! The repository: ownership policy, first-set-wins visibility timestamps,
//! restrict-on-delete referential integrity, the exactly-one consumable
//! reference, weights, and the export snapshot.
use matrafl::error::Error;
use matrafl::nutrition::Macros;
use matrafl::store::{ConsumableRef, ConsumptionFilter, Db, UserId};

fn m(kcal: u32) -> Macros {
    Macros { kcal, fat: 0, carbs: 0, protein: 0 }
}

#[test]
fn consumable_reference_is_exactly_one() {
    assert!(matches!(ConsumableRef::new(Some(1), None), Ok(ConsumableRef::Food(1))));
    assert!(matches!(ConsumableRef::new(None, Some(2)), Ok(ConsumableRef::Recipe(2))));
    assert_eq!(ConsumableRef::new(Some(1), Some(2)), Err(Error::InvalidReference));
    assert_eq!(ConsumableRef::new(None, None), Err(Error::InvalidReference));
}

#[test]
fn consumable_reference_parses_known_kinds_only() {
    assert!(matches!(ConsumableRef::parse("food", 7), Ok(ConsumableRef::Food(7))));
    assert!(matches!(ConsumableRef::parse("recipe", 7), Ok(ConsumableRef::Recipe(7))));
    assert_eq!(ConsumableRef::parse("beverage", 7), Err(Error::InvalidReference));
    assert_eq!(ConsumableRef::parse("", 7), Err(Error::InvalidReference));
}

#[test]
fn lookups_distinguish_not_found() {
    let mut db = Db::new();
    let alice = UserId("alice".to_string());
    assert!(matches!(db.get_food(42), Err(Error::NotFound)));
    assert!(matches!(db.get_recipe(42), Err(Error::NotFound)));
    assert!(matches!(db.get_ingredient(42), Err(Error::NotFound)));
    assert!(matches!(db.get_consumption(42), Err(Error::NotFound)));
    assert!(matches!(db.get_weight(42), Err(Error::NotFound)));
    assert_eq!(db.update_food(&alice, 42, "x", m(1), false, false, 0), Err(Error::NotFound));
    assert_eq!(db.delete_food(&alice, 42), Err(Error::NotFound));
}

#[test]
fn other_users_rows_are_forbidden() {
    let mut db = Db::new();
    let alice = UserId("alice".to_string());
    let bob = UserId("bob".to_string());
    let egg = db.add_food(&alice, "Egg", m(700), false, false, 0);
    assert_eq!(db.update_food(&bob, egg, "Egg", m(1), false, false, 0), Err(Error::Forbidden));
    assert_eq!(db.delete_food(&bob, egg), Err(Error::Forbidden));
    assert_eq!(
        db.add_consumption(&bob, ConsumableRef::Food(egg), 1, 100),
        Err(Error::Forbidden)
    );
    let soup = db.add_recipe(&alice, "Soup", 1, false, false, 0);
    assert_eq!(db.add_ingredient(&bob, soup, egg, 1), Err(Error::Forbidden));
    // The owner still reads the owning user id back for boundary checks.
    assert_eq!(db.get_food(egg).unwrap().user_id.0, "alice");
}

#[test]
fn hidden_and_starred_timestamps_are_first_set_wins() {
    let mut db = Db::new();
    let alice = UserId("alice".to_string());
    let egg = db.add_food(&alice, "Egg", m(700), false, true, 50);
    assert_eq!(db.get_food(egg).unwrap().starred_at, Some(50));
    assert_eq!(db.get_food(egg).unwrap().hidden_at, None);

    // Setting starred again later keeps the original timestamp.
    db.update_food(&alice, egg, "Egg", m(700), true, true, 90).unwrap();
    let f = db.get_food(egg).unwrap();
    assert_eq!(f.starred_at, Some(50));
    assert_eq!(f.hidden_at, Some(90));

    // Clearing resets; setting afterwards stamps anew.
    db.update_food(&alice, egg, "Egg", m(700), false, false, 120).unwrap();
    let f = db.get_food(egg).unwrap();
    assert_eq!(f.starred_at, None);
    assert_eq!(f.hidden_at, None);
    db.update_food(&alice, egg, "Egg", m(700), false, true, 150).unwrap();
    assert_eq!(db.get_food(egg).unwrap().starred_at, Some(150));
}

#[test]
fn referenced_rows_refuse_deletion() {
    let mut db = Db::new();
    let alice = UserId("alice".to_string());
    let egg = db.add_food(&alice, "Egg", m(700), false, false, 0);
    let soup = db.add_recipe(&alice, "Soup", 1, false, false, 0);
    let ing = db.add_ingredient(&alice, soup, egg, 2).unwrap();
    let c = db.add_consumption(&alice, ConsumableRef::Recipe(soup), 1, 100).unwrap();

    assert_eq!(db.delete_food(&alice, egg), Err(Error::Conflict));
    assert_eq!(db.delete_recipe(&alice, soup), Err(Error::Conflict));

    db.delete_consumption(&alice, c).unwrap();
    // The recipe now goes, and takes its own ingredient rows with it.
    db.delete_recipe(&alice, soup).unwrap();
    assert!(matches!(db.get_ingredient(ing), Err(Error::NotFound)));
    db.delete_food(&alice, egg).unwrap();
    assert!(db.get_foods(&alice).is_empty());
}

#[test]
fn recipe_update_keeps_first_set_timestamps() {
    let mut db = Db::new();
    let alice = UserId("alice".to_string());
    let soup = db.add_recipe(&alice, "Soup", 2, false, true, 50);
    db.update_recipe(&alice, soup, "Bigger Soup", 4, false, true, 90).unwrap();
    let r = db.get_recipe(soup).unwrap();
    assert_eq!(r.name, "Bigger Soup");
    assert_eq!(r.quantity, 4);
    assert_eq!(r.starred_at, Some(50));
    assert_eq!(db.update_recipe(&UserId("bob".to_string()), soup, "x", 1, false, false, 0), Err(Error::Forbidden));
}

#[test]
fn ingredient_can_be_removed_alone() {
    let mut db = Db::new();
    let alice = UserId("alice".to_string());
    let egg = db.add_food(&alice, "Egg", m(700), false, false, 0);
    let soup = db.add_recipe(&alice, "Soup", 1, false, false, 0);
    let ing = db.add_ingredient(&alice, soup, egg, 2).unwrap();
    assert_eq!(db.get_ingredient(ing).unwrap().kcal, 1400);
    db.delete_ingredient(&alice, ing).unwrap();
    assert!(matches!(db.get_ingredient(ing), Err(Error::NotFound)));
    // With its last ingredient gone the recipe totals fall back to zero.
    assert_eq!(db.get_recipe(soup).unwrap().kcal, 0);
}

#[test]
fn dangling_references_cannot_be_created() {
    let mut db = Db::new();
    let alice = UserId("alice".to_string());
    assert_eq!(db.add_consumption(&alice, ConsumableRef::Food(9), 1, 100), Err(Error::NotFound));
    assert_eq!(db.add_consumption(&alice, ConsumableRef::Recipe(9), 1, 100), Err(Error::NotFound));
    let soup = db.add_recipe(&alice, "Soup", 1, false, false, 0);
    assert_eq!(db.add_ingredient(&alice, soup, 9, 1), Err(Error::NotFound));
    assert_eq!(db.add_ingredient(&alice, 9, 9, 1), Err(Error::NotFound));
}

#[test]
fn weights_track_one_value_per_date() {
    let mut db = Db::new();
    let alice = UserId("alice".to_string());
    let w1 = db.add_weight(&alice, 80_500, 19720);
    db.add_weight(&alice, 80_200, 19721);
    assert_eq!(db.get_weights(&alice).len(), 2);
    assert_eq!(db.get_weight(w1).unwrap().weight, 80_500);
    let by_date = db.get_weight_by_date(&alice, 19721).unwrap();
    assert_eq!(by_date.weight, 80_200);
    assert!(db.get_weight_by_date(&alice, 19722).is_none());

    db.update_weight(&alice, w1, 80_900, 19720).unwrap();
    assert_eq!(db.get_weight(w1).unwrap().weight, 80_900);
    db.delete_weight(&alice, w1).unwrap();
    assert!(matches!(db.get_weight(w1), Err(Error::NotFound)));
    assert_eq!(db.get_weights(&alice).len(), 1);
}

#[test]
fn consumption_can_be_repointed() {
    let mut db = Db::new();
    let alice = UserId("alice".to_string());
    let egg = db.add_food(&alice, "Egg", m(700), false, false, 0);
    let toast = db.add_food(&alice, "Toast", m(900), false, false, 0);
    let c = db.add_consumption(&alice, ConsumableRef::Food(egg), 1, 100).unwrap();
    db.update_consumption(&alice, c, ConsumableRef::Food(toast), 2, 101).unwrap();
    let row = db.get_consumption(c).unwrap();
    assert_eq!(row.consumable_name, "Toast");
    assert_eq!(row.kcal, 1800);
    assert_eq!(row.consumed_at, 101);
}

#[test]
fn export_holds_exactly_the_users_rows() {
    let mut db = Db::new();
    let alice = UserId("alice".to_string());
    let bob = UserId("bob".to_string());
    let egg = db.add_food(&alice, "Egg", m(700), false, false, 0);
    let soup = db.add_recipe(&alice, "Soup", 2, false, false, 0);
    db.add_ingredient(&alice, soup, egg, 3).unwrap();
    db.add_consumption(&alice, ConsumableRef::Food(egg), 1, 100).unwrap();
    db.add_weight(&alice, 80_000, 19720);
    db.add_food(&bob, "Beans", m(300), false, false, 0);

    let doc = db.export_data(&alice, 777);
    assert_eq!(doc.user_id, "alice");
    assert_eq!(doc.exported_at, 777);
    assert_eq!(doc.weights.len(), 1);
    assert_eq!(doc.foods.len(), 1);
    assert_eq!(doc.foods[0].name, "Egg");
    assert_eq!(doc.recipes.len(), 1);
    assert_eq!(doc.recipes[0].quantity, 2);
    assert_eq!(doc.ingredients.len(), 1);
    assert_eq!(doc.consumptions.len(), 1);

    let empty = db.export_data(&UserId("carol".to_string()), 777);
    assert!(empty.foods.is_empty());
    assert!(empty.weights.is_empty());
}

#[test]
fn listing_is_scoped_to_the_user() {
    let mut db = Db::new();
    let alice = UserId("alice".to_string());
    let bob = UserId("bob".to_string());
    db.add_food(&alice, "Egg", m(700), false, false, 0);
    db.add_food(&bob, "Beans", m(300), false, false, 0);
    let alice_foods = db.get_foods(&alice);
    assert_eq!(alice_foods.len(), 1);
    assert_eq!(alice_foods[0].name, "Egg");
    assert_eq!(db.get_recipes(&bob).len(), 0);
}
