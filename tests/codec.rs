use recipe_bot::codec::{decode, decode_strict, encode, DecodeError};
use recipe_bot::recipe::Recipe;

fn strings(items: &[&str]) -> Vec<String> {
    items.iter().map(|s| s.to_string()).collect()
}

fn pasta() -> Recipe {
    Recipe {
        title: "Pasta".to_string(),
        source: "Nonna".to_string(),
        servings: "4".to_string(),
        prep_time: "10 min".to_string(),
        cook_time: "12 min".to_string(),
        total_time: "22 min".to_string(),
        ingredients: strings(&["Pasta", "Salt", "Salt"]),
        instructions: strings(&["Boil water", "Cook pasta for 12 minutes"]),
        notes: strings(&["Use plenty of water"]),
    }
}

#[test]
fn encode_writes_headers_then_sections() {
    let r = pasta();
    let expected = "Title\tPasta\nFrom\tNonna\nServings\t4\nPrep Time\t10 min\nCook Time\t12 min\n\
Total Time\t22 min\nIngredients Start\nPasta\nSalt\nSalt\nIngredients End\nInstructions Start\n\
Boil water\nCook pasta for 12 minutes\nInstructions End\nNotes Start\nUse plenty of water\nNotes End\n";
    assert_eq!(encode(&r), expected);
}

#[test]
fn encode_writes_empty_fields_and_sections() {
    let r = Recipe::new();
    let expected = "Title\t\nFrom\t\nServings\t\nPrep Time\t\nCook Time\t\nTotal Time\t\n\
Ingredients Start\nIngredients End\nInstructions Start\nInstructions End\nNotes Start\nNotes End\n";
    assert_eq!(encode(&r), expected);
}

#[test]
fn decode_of_encode_gives_the_recipe_back() {
    let r = pasta();
    assert_eq!(decode(&encode(&r)), r);
    let empty = Recipe::new();
    assert_eq!(decode(&encode(&empty)), empty);
}

#[test]
fn encoding_twice_gives_identical_bytes() {
    let r = pasta();
    let a = encode(&r);
    let b = encode(&r.clone());
    assert_eq!(a.as_bytes(), b.as_bytes());
}

#[test]
fn decode_scenario_with_unterminated_instructions() {
    let text = "Title\tPasta\nServings\t4\nIngredients Start\nPasta\nSalt\nIngredients End\n\
Instructions Start\nBoil water\nIngredients End\n";
    let r = decode(text);
    assert_eq!(r.title, "Pasta");
    assert_eq!(r.servings, "4");
    assert_eq!(r.source, "");
    assert_eq!(r.ingredients, strings(&["Pasta", "Salt"]));
    assert_eq!(r.instructions, strings(&["Boil water"]));
    assert!(r.notes.is_empty());
}

#[test]
fn unterminated_section_swallows_the_rest() {
    let text = "Instructions Start\nBoil water\nIngredients End\nDrain\n  Serve  \n";
    let r = decode(text);
    assert_eq!(r.instructions, strings(&["Boil water", "Drain", "Serve"]));
    assert!(r.ingredients.is_empty());
}

#[test]
fn strict_decode_refuses_an_unterminated_section() {
    let text = "Title\tPasta\nInstructions Start\nBoil water\nIngredients End\n";
    assert_eq!(decode_strict(text), Err(DecodeError::Malformed));
}

#[test]
fn strict_decode_accepts_a_complete_record() {
    let r = pasta();
    assert_eq!(decode_strict(&encode(&r)), Ok(r));
}

#[test]
fn headers_are_trimmed_and_unknown_keys_ignored() {
    let text = "  Title \t  Soup  \nColour\tred\nFrom\tthe\tbook\n";
    let r = decode(text);
    assert_eq!(r.title, "Soup");
    assert_eq!(r.source, "the\tbook");
    assert_eq!(r.servings, "");
}

#[test]
fn blank_lines_and_lines_outside_sections_are_skipped() {
    let text = "\n   \nstray line\nNotes Start\n\n  first  \n\t\nNotes End\nafter\n";
    let r = decode(text);
    assert_eq!(r.notes, strings(&["first"]));
    assert!(r.ingredients.is_empty());
    assert!(r.instructions.is_empty());
}

#[test]
fn carriage_returns_are_trimmed() {
    let text = "Title\tPasta\r\nIngredients Start\r\nSalt\r\nIngredients End\r\n";
    let r = decode(text);
    assert_eq!(r.title, "Pasta");
    assert_eq!(r.ingredients, strings(&["Salt"]));
}

#[test]
fn a_line_with_a_tab_inside_a_section_is_a_header() {
    let text = "Ingredients Start\nflour\t200 g\nsugar\nServings\t6\nIngredients End\n";
    let r = decode(text);
    assert_eq!(r.ingredients, strings(&["sugar"]));
    assert_eq!(r.servings, "6");
}

#[test]
fn a_start_marker_switches_sections() {
    let text = "Ingredients Start\nA\nNotes Start\nB\nNotes End\n";
    let r = decode(text);
    assert_eq!(r.ingredients, strings(&["A"]));
    assert_eq!(r.notes, strings(&["B"]));
    assert!(decode_strict(text).is_ok());
}

#[test]
fn last_line_without_newline_is_read() {
    let r = decode("Notes Start\nlast");
    assert_eq!(r.notes, strings(&["last"]));
}

#[test]
fn unicode_whitespace_is_trimmed() {
    let text = "Title\t\u{a0}Pasta\u{3000}\nNotes Start\n\u{2003}al dente\u{2028}\nNotes End\n";
    let r = decode(text);
    assert_eq!(r.title, "Pasta");
    assert_eq!(r.notes, strings(&["al dente"]));
}
