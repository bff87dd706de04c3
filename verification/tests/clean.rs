use polykit::log::clean::{clean_debug_value, parse_value};

fn clean(s: &str) -> String {
    clean_debug_value(s).into_owned()
}

// ── Some(…) stripping ─────────────────────────────────────────────────

#[test]
fn some_integer_is_unwrapped() {
    assert_eq!(clean("Some(3)"), "3");
}

#[test]
fn some_false_is_unwrapped() {
    assert_eq!(clean("Some(false)"), "false");
}

#[test]
fn some_true_is_unwrapped() {
    assert_eq!(clean("Some(true)"), "true");
}

#[test]
fn some_nested_is_unwrapped_fully() {
    assert_eq!(clean("Some(Some(3))"), "3");
}

#[test]
fn some_triple_nested_is_unwrapped_fully() {
    assert_eq!(clean("Some(Some(Some(42)))"), "42");
}

#[test]
fn none_is_kept_as_is() {
    assert_eq!(clean("None"), "None");
}

#[test]
fn some_with_string_inner_is_unwrapped() {
    assert_eq!(clean(r#"Some("hello")"#), r#""hello""#);
}

#[test]
fn some_with_paren_in_string_is_handled() {
    // The `(` inside the string literal must not confuse the depth counter.
    assert_eq!(clean(r#"Some("a(b)")"#), r#""a(b)""#);
}

#[test]
fn some_with_trailing_text_is_not_stripped() {
    // `Some(x) extra` is not a clean `Some(…)` — leave it alone.
    assert_eq!(clean("Some(3) extra"), "Some(3) extra");
}

// ── serde_json Debug rewriting ────────────────────────────────────────

#[test]
fn json_string_variant_is_unwrapped() {
    assert_eq!(clean(r#"String("hello")"#), r#""hello""#);
}

#[test]
fn json_number_variant_is_unwrapped() {
    assert_eq!(clean("Number(42)"), "42");
}

#[test]
fn json_number_negative() {
    assert_eq!(clean("Number(-7)"), "-7");
}

#[test]
fn json_number_float() {
    assert_eq!(clean("Number(3.14)"), "3.14");
}

#[test]
fn json_bool_true_is_unwrapped() {
    assert_eq!(clean("Bool(true)"), "true");
}

#[test]
fn json_bool_false_is_unwrapped() {
    assert_eq!(clean("Bool(false)"), "false");
}

#[test]
fn json_null_is_lowercased() {
    assert_eq!(clean("Null"), "null");
}

#[test]
fn json_empty_object() {
    assert_eq!(clean("Object {}"), "{}");
}

#[test]
fn json_object_single_string_field() {
    assert_eq!(clean(r#"Object {"event": String("SIGNED_IN")}"#), r#"{"event": "SIGNED_IN"}"#);
}

#[test]
fn json_object_mixed_fields() {
    assert_eq!(
        clean(r#"Object {"event": String("SIGNED_IN"), "expiresAt": Number(1778671749)}"#),
        r#"{"event": "SIGNED_IN", "expiresAt": 1778671749}"#
    );
}

#[test]
fn json_object_three_fields() {
    assert_eq!(
        clean(
            r#"Object {"event": String("SIGNED_IN"), "expiresAt": Number(1778671749), "userId": String("c6057bbf")}"#
        ),
        r#"{"event": "SIGNED_IN", "expiresAt": 1778671749, "userId": "c6057bbf"}"#
    );
}

#[test]
fn json_empty_array() {
    assert_eq!(clean("Array []"), "[]");
}

#[test]
fn json_array_of_strings() {
    assert_eq!(clean(r#"Array [String("a"), String("b")]"#), r#"["a", "b"]"#);
}

#[test]
fn json_array_mixed() {
    assert_eq!(
        clean(r#"Array [String("x"), Number(1), Bool(true), Null]"#),
        r#"["x", 1, true, null]"#
    );
}

#[test]
fn json_nested_object_in_array() {
    assert_eq!(clean(r#"Array [Object {"k": String("v")}]"#), r#"[{"k": "v"}]"#);
}

// ── Composed: Some wrapping a serde_json value ────────────────────────

#[test]
fn some_wrapping_json_object_is_fully_cleaned() {
    assert_eq!(clean(r#"Some(Object {"k": String("v")})"#), r#"{"k": "v"}"#);
}

#[test]
fn some_wrapping_json_string_is_fully_cleaned() {
    assert_eq!(clean(r#"Some(String("hello"))"#), r#""hello""#);
}

// ── Passthrough ───────────────────────────────────────────────────────

#[test]
fn plain_integer_is_passed_through() {
    assert_eq!(clean("42"), "42");
}

#[test]
fn plain_bool_is_passed_through() {
    assert_eq!(clean("true"), "true");
}

#[test]
fn plain_string_is_passed_through() {
    assert_eq!(clean("hello"), "hello");
}

#[test]
fn enum_variant_with_parens_is_passed_through() {
    // Not a serde_json pattern — leave as-is.
    assert_eq!(clean("MyEnum(stuff)"), "MyEnum(stuff)");
}

#[test]
fn empty_string_is_passed_through() {
    assert_eq!(clean(""), "");
}

#[test]
fn unchanged_values_borrow_without_allocating() {
    let s = "plain value";
    assert!(matches!(clean_debug_value(s), std::borrow::Cow::Borrowed(_)));
}

#[test]
fn some_unwrap_produces_owned() {
    let s = "Some(3)";
    assert!(matches!(clean_debug_value(s), std::borrow::Cow::Owned(_)));
}

#[test]
fn borrows_exactly_when_nothing_changes() {
    assert!(matches!(clean_debug_value("plain text"), std::borrow::Cow::Borrowed(_)));
    assert!(matches!(clean_debug_value("Null"), std::borrow::Cow::Owned(_)));
    assert_eq!(clean("Null"), "null");
    assert!(matches!(clean_debug_value("Some(x)"), std::borrow::Cow::Owned(_)));
}

#[test]
fn parse_value_only_appends_to_its_output() {
    let s: Vec<char> = "Bool(true) rest".chars().collect();
    let mut out: Vec<char> = "x".chars().collect();
    assert_eq!(parse_value(&s, 0, &mut out), Some(10));
    assert_eq!(out.iter().collect::<String>(), "xtrue");
    let bad: Vec<char> = "Object { \"k\": Nope }".chars().collect();
    let mut out2: Vec<char> = "pre".chars().collect();
    assert_eq!(parse_value(&bad, 0, &mut out2), None);
    assert!(out2.iter().collect::<String>().starts_with("pre"));
}
