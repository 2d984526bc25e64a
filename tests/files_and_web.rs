use recipe_bot::app_state::AppState;
use recipe_bot::files::{
    file_stem, pdf_file_name, recipe_id_from_file_name, record_file_name, split_ingredient_list,
};
use recipe_bot::text::text_lines;
use recipe_bot::web::{ingredient_items_html, schedule_items_html};

fn strings(items: &[&str]) -> Vec<String> {
    items.iter().map(|s| s.to_string()).collect()
}

#[test]
fn file_names_replace_spaces() {
    assert_eq!(file_stem("Chicken Pot Pie"), "Chicken_Pot_Pie");
    assert_eq!(pdf_file_name("Chicken Pot Pie"), "Chicken_Pot_Pie.pdf");
    assert_eq!(record_file_name("Soup"), "Soup.rec");
}

#[test]
fn record_file_names_give_identifiers() {
    assert_eq!(recipe_id_from_file_name("pasta.rec"), Some("pasta".to_string()));
    assert_eq!(recipe_id_from_file_name("a.b.rec"), Some("a.b".to_string()));
    assert_eq!(recipe_id_from_file_name("notes.txt"), None);
    assert_eq!(recipe_id_from_file_name(".rec"), None);
    assert_eq!(recipe_id_from_file_name("rec"), None);
}

#[test]
fn ingredient_field_splits_on_commas() {
    assert_eq!(split_ingredient_list("Pasta, Salt ,  Water"), strings(&["Pasta", "Salt", "Water"]));
    assert_eq!(split_ingredient_list(""), strings(&[""]));
    assert_eq!(split_ingredient_list("a,,b,"), strings(&["a", "", "b", ""]));
}

#[test]
fn lines_drop_carriage_returns_and_final_newline() {
    assert_eq!(text_lines("a\r\nb\n\nc"), strings(&["a", "b", "", "c"]));
    assert_eq!(text_lines("a\n"), strings(&["a"]));
    assert!(text_lines("").is_empty());
}

#[test]
fn schedule_report_becomes_day_cards() {
    assert_eq!(
        schedule_items_html("Monday: Pasta\nSunday: Soup\n"),
        "<div class=\"day\"><h2>Monday</h2> <p class=\"meal\">Pasta</p></div>\n\
<div class=\"day\"><h2>Sunday</h2> <p class=\"meal\">Soup</p></div>"
    );
    assert_eq!(schedule_items_html("Oops"), "<h2>Oops</h2> <p class=\"meal\">Oops</p>");
    assert_eq!(schedule_items_html(""), "");
}

#[test]
fn shopping_list_becomes_paragraphs() {
    assert_eq!(
        ingredient_items_html("  Pasta \nSalt\r\n"),
        "<p class=\"item\">Pasta</p>\n<p class=\"item\">Salt</p>"
    );
}

#[test]
fn dark_mode_toggles() {
    let mut s = AppState::new();
    assert!(s.is_dark_mode);
    s.toggle_dark_mode();
    assert!(!s.is_dark_mode);
    assert!(!AppState::default().is_dark_mode);
}
