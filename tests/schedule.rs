use rand::rngs::StdRng;
use rand::SeedableRng;
use recipe_bot::codec::encode;
use recipe_bot::recipe::Recipe;
use recipe_bot::schedule::{shopping_list_text, Day, DayCopy, Schedule};

fn strings(items: &[&str]) -> Vec<String> {
    items.iter().map(|s| s.to_string()).collect()
}

fn record(title: &str, ingredients: &[&str]) -> String {
    let mut r = Recipe::new();
    r.title = title.to_string();
    r.ingredients = strings(ingredients);
    encode(&r)
}

fn week_records(entries: &[(Day, String)]) -> Vec<String> {
    let mut records = vec![String::new(); 7];
    for (day, text) in entries {
        records[day.index()] = text.clone();
    }
    records
}

#[test]
fn scenario_two_days_shopping_list_and_report() {
    let mut s = Schedule::new();
    s.assign(Day::Monday, "Pasta".to_string());
    s.assign(Day::Sunday, "Soup".to_string());
    let pasta = record("Pasta", &["Pasta", "Salt"]);
    let soup = record("Soup", &["Broth"]);
    let records = week_records(&[(Day::Monday, pasta.clone()), (Day::Sunday, soup.clone())]);
    let m = s.materialize(&records);
    assert_eq!(m.shopping_list, strings(&["Pasta", "Salt", "Broth"]));
    assert_eq!(m.shopping_text, "Pasta\nSalt\nBroth\n");
    assert_eq!(m.report, "Monday: Pasta\nSunday: Soup\n");
    assert_eq!(
        m.copies,
        vec![
            DayCopy { file_name: "Monday.rec".to_string(), record: pasta },
            DayCopy { file_name: "Sunday.rec".to_string(), record: soup },
        ]
    );
}

#[test]
fn empty_week_gives_empty_artifacts() {
    let s = Schedule::new();
    let records = vec![String::new(); 7];
    let m = s.materialize(&records);
    assert!(m.shopping_list.is_empty());
    assert_eq!(m.shopping_text, "");
    assert_eq!(m.report, "");
    assert!(m.copies.is_empty());
}

#[test]
fn duplicate_ingredients_are_kept_in_day_order() {
    let mut s = Schedule::new();
    s.assign(Day::Tuesday, "Pasta".to_string());
    s.assign(Day::Thursday, "Pasta".to_string());
    s.assign(Day::Wednesday, "Rice".to_string());
    let pasta = record("Pasta", &["Pasta", "Salt"]);
    let rice = record("Rice", &["Rice", "Salt"]);
    let records = week_records(&[
        (Day::Tuesday, pasta.clone()),
        (Day::Wednesday, rice),
        (Day::Thursday, pasta),
    ]);
    assert_eq!(
        s.shopping_list(&records),
        strings(&["Pasta", "Salt", "Rice", "Salt", "Pasta", "Salt"])
    );
    assert_eq!(s.report(), "Tuesday: Pasta\nWednesday: Rice\nThursday: Pasta\n");
}

#[test]
fn records_of_empty_days_are_not_read() {
    let mut s = Schedule::new();
    s.assign(Day::Friday, "Fish".to_string());
    let mut records = vec![record("Other", &["Ignored"]); 7];
    records[Day::Friday.index()] = record("Fish", &["Cod", "Lemon"]);
    assert_eq!(s.shopping_list(&records), strings(&["Cod", "Lemon"]));
}

#[test]
fn shopping_list_text_puts_one_item_per_line() {
    assert_eq!(shopping_list_text(&strings(&["a", "b"])), "a\nb\n");
    assert_eq!(shopping_list_text(&Vec::new()), "");
}

#[test]
fn assign_sets_one_slot() {
    let mut s = Schedule::new();
    s.assign(Day::Wednesday, "Tacos".to_string());
    assert_eq!(s.slot(Day::Wednesday), "Tacos");
    assert_eq!(s.slot(Day::Monday), "");
    s.assign(Day::Wednesday, String::new());
    assert_eq!(s.slot(Day::Wednesday), "");
}

#[test]
fn from_draws_picks_from_the_pool() {
    let pool = strings(&["A", "B", "C"]);
    let s = Schedule::from_draws(&pool, &vec![0, 1, 2, 5, 2, 1, 0]);
    let got: Vec<&str> = (0..7).map(|i| s.slot(Day::from_index(i).unwrap())).collect();
    assert_eq!(got, vec!["A", "B", "C", "", "C", "B", "A"]);
    let empty = Schedule::from_draws(&Vec::new(), &vec![0; 7]);
    assert_eq!(empty, Schedule::new());
}

#[test]
fn seeded_randomization_is_repeatable() {
    let pool = strings(&["Pasta", "Soup", "Tacos", "Curry"]);
    let mut a = Schedule::new();
    let mut b = Schedule::new();
    a.randomize_all(&pool, &mut StdRng::seed_from_u64(7));
    b.randomize_all(&pool, &mut StdRng::seed_from_u64(7));
    assert_eq!(a, b);
    for i in 0..7 {
        let id = a.slot(Day::from_index(i).unwrap());
        assert!(pool.iter().any(|p| p == id));
    }
}

#[test]
fn randomizing_from_an_empty_pool_empties_the_slots() {
    let mut s = Schedule::new();
    s.assign(Day::Monday, "Pasta".to_string());
    s.randomize_all(&Vec::new(), &mut StdRng::seed_from_u64(1));
    assert_eq!(s, Schedule::new());
}

#[test]
fn randomize_single_changes_one_day() {
    let mut s = Schedule::new();
    s.assign(Day::Monday, "Pasta".to_string());
    let pool = strings(&["Soup"]);
    s.randomize_single(Day::Tuesday, &pool, &mut StdRng::seed_from_u64(3));
    assert_eq!(s.slot(Day::Monday), "Pasta");
    assert_eq!(s.slot(Day::Tuesday), "Soup");
    s.randomize_single(Day::Monday, &Vec::new(), &mut StdRng::seed_from_u64(3));
    assert_eq!(s.slot(Day::Monday), "");
}

#[test]
fn days_know_their_order_and_names() {
    assert_eq!(Day::Monday.index(), 0);
    assert_eq!(Day::Sunday.index(), 6);
    assert_eq!(Day::from_index(3), Some(Day::Thursday));
    assert_eq!(Day::from_index(7), None);
    assert_eq!(Day::Saturday.name(), "Saturday");
}
