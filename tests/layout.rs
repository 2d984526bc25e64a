use recipe_bot::layout::{
    layout_recipe, push_decimal, split_words, wrap_text, ConfigError, Page, PageGeometry,
};
use recipe_bot::recipe::Recipe;

fn strings(items: &[&str]) -> Vec<String> {
    items.iter().map(|s| s.to_string()).collect()
}

fn texts(page: &Page) -> Vec<&str> {
    page.lines.iter().map(|l| l.text.as_str()).collect()
}

fn ys(page: &Page) -> Vec<u32> {
    page.lines.iter().map(|l| l.y_offset).collect()
}

fn small() -> PageGeometry {
    PageGeometry { width: 100, height: 100, margin: 10, starting_y: 90, line_gap: 2 }
}

#[test]
fn words_are_runs_of_non_whitespace() {
    assert_eq!(split_words("  a \t bc\nd  "), strings(&["a", "bc", "d"]));
    assert!(split_words("   ").is_empty());
}

#[test]
fn wrap_packs_words_greedily() {
    // at size 10, 3 * n * 10 <= 5 * 60 allows ten characters
    assert_eq!(wrap_text("the quick brown fox", 10, 60), strings(&["the quick", "brown fox"]));
    // and 5 * 30 allows five
    assert_eq!(wrap_text("the quick brown fox", 10, 30), strings(&["the", "quick", "brown", "fox"]));
}

#[test]
fn wrap_puts_an_overlong_word_alone() {
    assert_eq!(
        wrap_text("a extraordinarily b", 10, 30),
        strings(&["a", "extraordinarily", "b"])
    );
}

#[test]
fn wrap_of_blank_text_is_empty() {
    assert!(wrap_text("", 12, 100).is_empty());
    assert!(wrap_text(" \n ", 12, 100).is_empty());
}

#[test]
fn wrapped_lines_fit_unless_single_word() {
    let text = "Bring a large pot of salted water to a rolling boil before adding pneumonoultramicroscopic pasta";
    for line in wrap_text(text, 12, 100) {
        let fits = 3 * line.chars().count() * 12 <= 5 * 100;
        assert!(fits || !line.contains(' '), "{}", line);
    }
}

#[test]
fn decimal_digits() {
    let mut s = String::new();
    push_decimal(&mut s, 0);
    assert_eq!(s, "0");
    let mut s = "n".to_string();
    push_decimal(&mut s, 1234);
    assert_eq!(s, "n1234");
}

#[test]
fn a4_recipe_on_one_page() {
    let r = Recipe {
        title: "Pasta".to_string(),
        source: "Nonna".to_string(),
        servings: "4".to_string(),
        prep_time: "10 min".to_string(),
        cook_time: "12 min".to_string(),
        total_time: "22 min".to_string(),
        ingredients: strings(&["Pasta", "Salt"]),
        instructions: strings(&["Boil water"]),
        notes: Vec::new(),
    };
    let pages = layout_recipe(&r, PageGeometry::a4(), true).unwrap();
    assert_eq!(pages.len(), 1);
    let p = &pages[0];
    assert_eq!(
        texts(p),
        vec![
            "Pasta",
            "From: Nonna",
            "Servings: 4",
            "Prep Time: 10 min",
            "Cook Time: 12 min",
            "Total Time: 22 min",
            "Ingredients:",
            "\u{2022} Pasta",
            "\u{2022} Salt",
            "Instructions:",
            "1. Boil water",
        ]
    );
    assert_eq!(ys(p), vec![794, 772, 756, 740, 724, 708, 682, 664, 650, 626, 608]);
    let sizes: Vec<u32> = p.lines.iter().map(|l| l.font_size).collect();
    assert_eq!(sizes, vec![20, 14, 14, 14, 14, 14, 16, 12, 12, 16, 12]);
    let xs: Vec<u32> = p.lines.iter().map(|l| l.x_offset).collect();
    assert_eq!(xs, vec![28, 28, 28, 28, 28, 28, 28, 33, 33, 28, 33]);
}

#[test]
fn unnumbered_instructions_and_notes() {
    let mut r = Recipe::new();
    r.title = "Soup".to_string();
    r.instructions = strings(&["Heat", "Serve"]);
    r.notes = strings(&["Freezes well"]);
    let pages = layout_recipe(&r, PageGeometry::a4(), false).unwrap();
    let t = texts(&pages[0]);
    assert_eq!(&t[t.len() - 5..], &["Instructions:", "Heat", "Serve", "Notes:", "Freezes well"]);
}

#[test]
fn pages_break_before_a_line_below_the_margin() {
    let mut r = Recipe::new();
    r.title = "T".to_string();
    let pages = layout_recipe(&r, small(), true).unwrap();
    assert_eq!(pages.len(), 3);
    assert_eq!(texts(&pages[0]), vec!["T", "From:", "Servings:", "Prep", "Time:"]);
    assert_eq!(ys(&pages[0]), vec![90, 68, 52, 36, 20]);
    assert_eq!(texts(&pages[1]), vec!["Cook", "Time:", "Total", "Time:", "Ingredients:"]);
    assert_eq!(ys(&pages[1]), vec![90, 74, 58, 42, 16]);
    assert_eq!(texts(&pages[2]), vec!["Instructions:"]);
    assert_eq!(ys(&pages[2]), vec![90]);
}

#[test]
fn every_line_stands_between_the_margins() {
    let mut r = Recipe::new();
    r.title = "A long title that will need to wrap over several lines".to_string();
    r.ingredients = (0..40).map(|i| format!("ingredient number {}", i)).collect();
    r.instructions = (0..15).map(|i| format!("step {} of the method", i)).collect();
    let g = small();
    let pages = layout_recipe(&r, g, true).unwrap();
    assert!(pages.len() > 5);
    for p in &pages {
        assert!(!p.lines.is_empty());
        for l in &p.lines {
            assert!(l.y_offset >= g.margin && l.y_offset <= g.starting_y);
        }
    }
}

#[test]
fn degenerate_geometries_are_refused() {
    let r = Recipe::new();
    let wide = PageGeometry { margin: 50, ..small() };
    assert_eq!(layout_recipe(&r, wide, true), Err(ConfigError::MarginsTooWide));
    assert_eq!(wide.validate(), Err(ConfigError::MarginsTooWide));
    let tall = PageGeometry { height: 20, ..small() };
    assert_eq!(layout_recipe(&r, tall, true), Err(ConfigError::MarginsTooWide));
    let low = PageGeometry { starting_y: 5, ..small() };
    assert_eq!(layout_recipe(&r, low, true), Err(ConfigError::StartOutsideMargins));
    let high = PageGeometry { starting_y: 95, ..small() };
    assert_eq!(layout_recipe(&r, high, true), Err(ConfigError::StartOutsideMargins));
    assert_eq!(small().validate(), Ok(()));
    assert_eq!(PageGeometry::a4().validate(), Ok(()));
}
