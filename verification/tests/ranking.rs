//! The consumable ranking engine: scoring, ordering, tie-breaking by name,
//! the new-item boost, and determinism.
use matrafl::nutrition::Macros;
use matrafl::rank::{rank_consumables, sorting_points, Consumable, ConsumableType};
use matrafl::store::{ConsumableRef, Db, UserId};

fn plain(name: &str) -> Consumable {
    Consumable {
        ctype: ConsumableType::Food,
        id: 1,
        name: name.to_string(),
        is_starred: false,
        created_at: 0,
        last_consumed_at: None,
        consumed_count: 0,
    }
}

const TODAY: u32 = 20000;
const NOW: u64 = 1_000_000;

#[test]
fn consumable_type_names() {
    assert_eq!(ConsumableType::Food.as_str(), "food");
    assert_eq!(ConsumableType::Recipe.as_str(), "recipe");
}

#[test]
fn points_of_each_term() {
    let mut c = plain("a");
    assert_eq!(sorting_points(&c, TODAY, NOW), 0);
    c.is_starred = true;
    assert_eq!(sorting_points(&c, TODAY, NOW), 100);
    c.last_consumed_at = Some(TODAY);
    assert_eq!(sorting_points(&c, TODAY, NOW), 200);
    c.last_consumed_at = Some(TODAY - 3);
    assert_eq!(sorting_points(&c, TODAY, NOW), 197);
    c.consumed_count = 2;
    assert_eq!(sorting_points(&c, TODAY, NOW), 217);
    c.created_at = NOW - 120;
    assert_eq!(sorting_points(&c, TODAY, NOW), 1217);
    c.created_at = NOW - 300;
    assert_eq!(sorting_points(&c, TODAY, NOW), 217);
}

#[test]
fn consumed_today_outranks_starred() {
    let mut starred = plain("starred");
    starred.is_starred = true;
    let mut used = plain("used");
    used.last_consumed_at = Some(TODAY);
    used.consumed_count = 1;
    assert_eq!(sorting_points(&starred, TODAY, NOW), 100);
    assert_eq!(sorting_points(&used, TODAY, NOW), 110);

    let ranked = rank_consumables(vec![starred, used], TODAY, NOW);
    assert_eq!(ranked[0].name, "used");
    assert_eq!(ranked[1].name, "starred");
}

#[test]
fn ties_fall_back_to_name_order() {
    let mut a = plain("pear");
    a.is_starred = true;
    let mut b = plain("apple");
    b.is_starred = true;
    let ranked = rank_consumables(vec![a, b], TODAY, NOW);
    assert_eq!(ranked[0].name, "apple");
    assert_eq!(ranked[1].name, "pear");
}

#[test]
fn fresh_item_ranks_first() {
    let mut veteran = plain("veteran");
    veteran.is_starred = true;
    veteran.last_consumed_at = Some(TODAY);
    veteran.consumed_count = 9;
    let mut fresh = plain("zucchini soup");
    fresh.created_at = NOW - 120;
    assert_eq!(sorting_points(&veteran, TODAY, NOW), 290);
    assert_eq!(sorting_points(&fresh, TODAY, NOW), 1000);

    let ranked = rank_consumables(vec![veteran, fresh], TODAY, NOW);
    assert_eq!(ranked[0].name, "zucchini soup");
}

#[test]
fn ranking_is_deterministic() {
    let build = || {
        vec![plain("b"), plain("c"), plain("a")]
    };
    let once: Vec<String> = rank_consumables(build(), TODAY, NOW).into_iter().map(|c| c.name).collect();
    let twice: Vec<String> = rank_consumables(build(), TODAY, NOW).into_iter().map(|c| c.name).collect();
    assert_eq!(once, twice);
    assert_eq!(once, vec!["a".to_string(), "b".to_string(), "c".to_string()]);
}

#[test]
fn consumables_report_window_stats_and_hide_hidden() {
    let mut db = Db::new();
    let alice = UserId("alice".to_string());
    let m = Macros { kcal: 100, fat: 1, carbs: 1, protein: 1 };
    let egg = db.add_food(&alice, "egg", m, false, false, 500);
    let hidden = db.add_food(&alice, "secret sauce", m, true, false, 500);
    let soup = db.add_recipe(&alice, "soup", 1, false, true, 500);
    db.add_consumption(&alice, ConsumableRef::Food(egg), 1, TODAY - 2).unwrap();
    db.add_consumption(&alice, ConsumableRef::Food(egg), 1, TODAY - 4).unwrap();
    // Older than the trailing seven days: ignored by the window stats.
    db.add_consumption(&alice, ConsumableRef::Food(egg), 1, TODAY - 20).unwrap();

    let list = db.get_consumables(&alice, TODAY, NOW);
    assert_eq!(list.len(), 2);
    assert!(list.iter().all(|c| c.id != hidden));
    let egg_row = list.iter().find(|c| c.id == egg).unwrap();
    assert_eq!(egg_row.last_consumed_at, Some(TODAY - 2));
    assert_eq!(egg_row.consumed_count, 2);
    assert!(matches!(egg_row.ctype, ConsumableType::Food));
    let soup_row = list.iter().find(|c| c.id == soup).unwrap();
    assert!(soup_row.is_starred);
    assert_eq!(soup_row.last_consumed_at, None);
    assert_eq!(soup_row.consumed_count, 0);
    // The egg was consumed twice in the window (120 points), the soup is
    // merely starred (100): the egg comes first.
    assert_eq!(list[0].id, egg);
}
