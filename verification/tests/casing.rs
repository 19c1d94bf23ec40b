use helix_ts_gen::utils::{
    capitalize, split_words, to_pascal_case, to_snake_case, to_snake_case_marked,
};

#[test]
fn snake_case_collapses_a_run_of_capitals() {
    assert_eq!(to_snake_case("UserID"), "user_id");
}

#[test]
fn snake_case_breaks_before_a_capital_inside_a_word() {
    assert_eq!(to_snake_case("createdAt"), "created_at");
    assert_eq!(to_snake_case("userId"), "user_id");
    assert_eq!(to_snake_case("Name"), "name");
    assert_eq!(to_snake_case("Age"), "age");
}

#[test]
fn snake_case_of_the_empty_string_is_empty() {
    assert_eq!(to_snake_case(""), "");
}

#[test]
fn snake_case_keeps_text_without_capitals() {
    assert_eq!(to_snake_case("already_snake"), "already_snake");
    assert_eq!(to_snake_case("x1"), "x1");
}

#[test]
fn snake_case_keeps_a_whole_run_of_capitals_together() {
    assert_eq!(to_snake_case("HTTPServer"), "httpserver");
    assert_eq!(to_snake_case("getHTTP"), "get_http");
}

#[test]
fn snake_case_separates_after_a_separator_too() {
    assert_eq!(to_snake_case("a_B"), "a__b");
}

#[test]
fn snake_case_lowers_every_letter() {
    assert_eq!(to_snake_case("aÉ"), "a_é");
    assert_eq!(to_snake_case("ÉX"), "éx");
    assert_eq!(to_snake_case("ΔeltaΣ"), "δelta_σ");
    assert_eq!(to_snake_case("xİ"), "x_i\u{307}");
    assert_eq!(to_snake_case("ǅ"), "ǆ");
}

fn forms(lower: &[&str]) -> Vec<String> {
    lower.iter().map(|form| form.to_string()).collect()
}

#[test]
fn snake_case_with_marks_follows_the_marks() {
    let lower = forms(&["u", "s", "e", "r", "i", "d"]);
    let marks = vec![true, false, false, false, true, true];
    assert_eq!(to_snake_case_marked(&marks, &lower), "user_id");
    let none: Vec<bool> = Vec::new();
    assert_eq!(to_snake_case_marked(&none, &lower), "userid");
    let all = vec![true; 6];
    assert_eq!(to_snake_case_marked(&all, &lower), "userid");
    let middle = vec![false, true, false];
    assert_eq!(to_snake_case_marked(&middle, &forms(&["a", "b", "c"])), "a_bc");
    assert_eq!(to_snake_case_marked(&middle, &forms(&["a", "", "cc"])), "a_cc");
    assert_eq!(to_snake_case_marked(&middle, &forms(&[])), "");
}

#[test]
fn pascal_case_joins_capitalized_words() {
    assert_eq!(to_pascal_case("create_user"), "CreateUser");
}

#[test]
fn pascal_case_capitalizes_a_single_word() {
    assert_eq!(to_pascal_case("user"), "User");
    assert_eq!(to_pascal_case("GetUser"), "GetUser");
}

#[test]
fn pascal_case_drops_empty_words() {
    assert_eq!(to_pascal_case(""), "");
    assert_eq!(to_pascal_case("a__b"), "AB");
    assert_eq!(to_pascal_case("_x"), "X");
    assert_eq!(to_pascal_case("x_"), "X");
    assert_eq!(to_pascal_case("___"), "");
}

#[test]
fn pascal_case_uses_the_full_uppercase_form() {
    assert_eq!(to_pascal_case("ßeta"), "SSeta");
    assert_eq!(to_pascal_case("élan_vital"), "ÉlanVital");
}

#[test]
fn split_words_splits_at_every_separator() {
    assert_eq!(split_words("create_user"), vec!["create".to_string(), "user".to_string()]);
    assert_eq!(split_words(""), vec!["".to_string()]);
    assert_eq!(split_words("a__b_"), vec![
        "a".to_string(),
        "".to_string(),
        "b".to_string(),
        "".to_string()
    ]);
    assert_eq!(split_words("word"), vec!["word".to_string()]);
}

#[test]
fn capitalize_replaces_the_first_character() {
    assert_eq!(capitalize("user", "U"), "User");
    assert_eq!(capitalize("ßeta", "SS"), "SSeta");
    assert_eq!(capitalize("", "X"), "");
    assert_eq!(capitalize("x", ""), "");
}
