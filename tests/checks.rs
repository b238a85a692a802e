use mode_map::{
    check_boundaries, check_document, check_modes, decimal_string, decimal_sum_sign, has_key,
    lookup, number_as_i32, perform_checks, Decimal, Document, Number, Value,
};

fn dec(positive: bool, mantissa: u64, exponent: i16) -> Decimal {
    Decimal { positive, mantissa, exponent }
}

fn whole(i: i64) -> Value {
    Value::Num(Number::Finite(dec(i >= 0, i.unsigned_abs(), 0)))
}

fn text(s: &str) -> Value {
    Value::Str(s.to_string())
}

fn obj(pairs: Vec<(&str, Value)>) -> Value {
    Value::Object(pairs.into_iter().map(|(k, v)| (k.to_string(), v)).collect())
}

fn entries(v: Value) -> Vec<(String, Value)> {
    match v {
        Value::Object(es) => es,
        _ => panic!("not an object"),
    }
}

fn mode(name: &str, x: i64, y: i64, size: i64, shape: i64, unlock: Vec<&str>) -> Value {
    obj(vec![
        ("name", text(name)),
        ("x", whole(x)),
        ("y", whole(y)),
        ("size", whole(size)),
        ("shape", whole(shape)),
        ("icon", text("icon")),
        ("unlock", Value::Array(unlock.into_iter().map(text).collect())),
        ("source", text("src")),
    ])
}

fn document(modes: Value, min_x: i64, max_x: i64, min_y: i64, max_y: i64) -> Value {
    obj(vec![
        ("modes", modes),
        ("starting_mode", text("a")),
        ("min_x", whole(min_x)),
        ("min_y", whole(min_y)),
        ("max_x", whole(max_x)),
        ("max_y", whole(max_y)),
    ])
}

fn run(v: Value) -> Vec<String> {
    perform_checks(&Document::Parsed(v))
}

#[test]
fn non_mapping_root_is_fatal() {
    assert_eq!(run(Value::Array(vec![whole(1)])), vec!["[!?!] JSON is not an object"]);
    assert_eq!(run(whole(3)), vec!["[!?!] JSON is not an object"]);
    assert_eq!(run(Value::Null), vec!["[!?!] JSON is not an object"]);
}

#[test]
fn read_and_parse_failures_are_fatal() {
    let r = perform_checks(&Document::ReadFailed("no such file".to_string()));
    assert_eq!(r, vec!["[!?!] Failed to read JSON file: no such file"]);
    let r = perform_checks(&Document::ParseFailed("bad token".to_string()));
    assert_eq!(r, vec!["[!?!] Failed to parse JSON: bad token"]);
}

#[test]
fn empty_document_is_clean() {
    assert!(run(document(obj(vec![]), 0, 0, 0, 0)).is_empty());
}

#[test]
fn shape_out_of_range_warns_once() {
    let modes = obj(vec![
        ("a", mode("A", 0, 0, 1, 7, vec![])),
        ("b", mode("B", 0, 0, 1, 2, vec!["a"])),
    ]);
    assert_eq!(run(document(modes, -10, 10, -10, 10)), vec!["[!] mode a shape is out of range"]);
}

#[test]
fn shape_must_be_an_integer_number() {
    let mut a = entries(mode("A", 0, 0, 1, 0, vec![]));
    a[4].1 = Value::Num(Number::Finite(dec(true, 15, -1)));
    let mut b = entries(mode("B", 0, 0, 1, 0, vec![]));
    b[4].1 = text("3");
    let modes = entries(obj(vec![("a", Value::Object(a)), ("b", Value::Object(b))]));
    assert_eq!(
        check_modes(&modes),
        vec!["[!] mode a shape is not a valid integer", "[!] mode b shape is not a number"]
    );
}

#[test]
fn modes_array_is_critical() {
    let r = run(document(Value::Array(vec![]), 0, 100, 0, -100));
    assert_eq!(r, vec!["[!!] modes is not an object"]);
}

#[test]
fn missing_modes_is_reported_twice() {
    let r = run(obj(vec![("starting_mode", text("a"))]));
    assert_eq!(
        r,
        vec![
            "[!!] JSON is missing key: modes",
            "[!!] JSON is missing key: min_x",
            "[!!] JSON is missing key: min_y",
            "[!!] JSON is missing key: max_x",
            "[!!] JSON is missing key: max_y",
            "[!!] modes is not an object",
        ]
    );
}

#[test]
fn footprint_past_max_x() {
    let modes = obj(vec![("a", mode("A", 0, 0, 10, 0, vec![]))]);
    assert_eq!(run(document(modes, -20, 5, -20, 20)), vec!["[!] mode A x + r is greater than max_x"]);
}

#[test]
fn footprint_past_both_x_sides() {
    let modes = obj(vec![("a", mode("A", 0, 0, 10, 0, vec![]))]);
    assert_eq!(
        run(document(modes, 0, 5, -20, 20)),
        vec!["[!] mode A x - r is less than min_x", "[!] mode A x + r is greater than max_x"]
    );
}

#[test]
fn footprint_past_y_sides() {
    let modes = obj(vec![("a", mode("A", 0, 0, 10, 0, vec![]))]);
    assert_eq!(
        run(document(modes, -10, 10, -9, 9)),
        vec!["[!] mode A y - r is less than min_y", "[!] mode A y + r is greater than max_y"]
    );
}

#[test]
fn footprint_touching_the_edges_is_inside() {
    let modes = obj(vec![("a", mode("A", 0, 0, 10, 0, vec![]))]);
    assert!(run(document(modes, -10, 10, -10, 10)).is_empty());
}

#[test]
fn placement_is_not_checked_after_a_warning() {
    let modes = obj(vec![("a", mode("A", 0, 0, 10, 9, vec![]))]);
    assert_eq!(run(document(modes, 0, 5, -20, 20)), vec!["[!] mode a shape is out of range"]);
}

#[test]
fn placement_names_mode_by_key_without_string_name() {
    let mut a = entries(mode("A", 0, 0, 10, 0, vec![]));
    a[0].1 = whole(5);
    let modes = obj(vec![("a", Value::Object(a))]);
    assert_eq!(run(document(modes, -20, 5, -20, 20)), vec!["[!] mode a x + r is greater than max_x"]);
}

#[test]
fn unknown_unlock_reference_warns() {
    let modes = obj(vec![("a", mode("A", 0, 0, 1, 0, vec!["ghost"]))]);
    assert_eq!(
        run(document(modes, -10, 10, -10, 10)),
        vec!["[!] mode a references non-existent mode ghost"]
    );
    let modes = obj(vec![
        ("a", mode("A", 0, 0, 1, 0, vec!["ghost"])),
        ("ghost", mode("G", 0, 0, 1, 0, vec![])),
    ]);
    assert!(run(document(modes, -10, 10, -10, 10)).is_empty());
}

#[test]
fn unlock_elements_must_be_strings() {
    let mut a = entries(mode("A", 0, 0, 1, 0, vec![]));
    a[6].1 = Value::Array(vec![text("a"), whole(4), text("zz")]);
    let mut b = entries(mode("B", 0, 0, 1, 0, vec![]));
    b[6].1 = text("a");
    let modes = entries(obj(vec![("a", Value::Object(a)), ("b", Value::Object(b))]));
    assert_eq!(
        check_modes(&modes),
        vec![
            "[!] mode a unlock #1 is not a string",
            "[!] mode a references non-existent mode zz",
            "[!] mode b unlock is not an array",
        ]
    );
}

#[test]
fn fields_missing_and_mistyped() {
    let modes = entries(obj(vec![
        ("a", obj(vec![("x", text("1")), ("icon", whole(1)), ("source", Value::Null)])),
        ("b", whole(2)),
        ("c", obj(vec![("y", Value::Bool(true)), ("size", Value::Array(vec![]))])),
    ]));
    assert_eq!(
        check_modes(&modes),
        vec![
            "[!] mode a is missing key: name",
            "[!] mode a is missing key: y",
            "[!] mode a is missing key: size",
            "[!] mode a is missing key: shape",
            "[!] mode a is missing key: unlock",
            "[!] mode a icon is not a string",
            "[!] mode a x is not a number",
            "[!] mode a source is not a string",
            "[!] mode b is not an object",
            "[!] mode c is missing key: name",
            "[!] mode c is missing key: x",
            "[!] mode c is missing key: shape",
            "[!] mode c is missing key: icon",
            "[!] mode c is missing key: unlock",
            "[!] mode c is missing key: source",
            "[!] mode c y is not a number",
            "[!] mode c size is not a number",
        ]
    );
}

#[test]
fn boundary_fields_are_checked() {
    let root = entries(obj(vec![
        ("max_x", text("5")),
        ("min_y", Value::Num(Number::NaN)),
        ("max_y", whole(1)),
    ]));
    assert_eq!(
        check_boundaries(&root, true),
        vec![
            "[!!] JSON is missing key: min_x",
            "[!] JSON key max_x is not of type number",
            "[!] JSON key min_y is NaN",
        ]
    );
}

#[test]
fn inverted_rectangle_warns() {
    let r = run(document(obj(vec![]), 3, 2, 1, -1));
    assert_eq!(r, vec!["[!] min_x is greater than max_x", "[!] min_y is greater than max_y"]);
}

#[test]
fn checks_are_repeatable() {
    let doc = document(obj(vec![("a", mode("A", 0, 0, 10, 7, vec!["x"]))]), 0, 5, 0, 5);
    assert_eq!(check_document(&doc), check_document(&doc));
    assert_eq!(check_document(&doc).len(), 2);
}

#[test]
fn exact_decimal_sums() {
    assert_eq!(decimal_sum_sign(dec(true, 15, -1), dec(false, 3, -1), dec(false, 12, -1)), 0);
    assert_eq!(decimal_sum_sign(dec(true, 1, 30), dec(false, u64::MAX, 0), dec(true, 0, 0)), 1);
    assert_eq!(decimal_sum_sign(dec(true, 1, 30), dec(false, 1, 30), dec(false, 1, -30)), -1);
    assert_eq!(decimal_sum_sign(dec(false, 1, 19), dec(true, 10, 18), dec(true, 0, -5)), 0);
    assert_eq!(decimal_sum_sign(dec(true, 1, -32768), dec(false, 1, 32767), dec(true, 1, 32767)), 1);
    assert_eq!(decimal_sum_sign(dec(true, 2, 0), dec(false, 19, -1), dec(false, 1, -1)), 0);
    assert_eq!(decimal_sum_sign(dec(true, 7, 0), dec(false, 7, 0), dec(true, 0, 0)), 0);
}

#[test]
fn integers_of_numbers() {
    assert_eq!(number_as_i32(&Number::Finite(dec(true, 3, 0))), Some(3));
    assert_eq!(number_as_i32(&Number::Finite(dec(true, 30, -1))), Some(3));
    assert_eq!(number_as_i32(&Number::Finite(dec(true, 1, 1))), Some(10));
    assert_eq!(number_as_i32(&Number::Finite(dec(false, 5000, -3))), Some(-5));
    assert_eq!(number_as_i32(&Number::Finite(dec(true, 0, 30000))), Some(0));
    assert_eq!(number_as_i32(&Number::Finite(dec(true, 0, -30000))), Some(0));
    assert_eq!(number_as_i32(&Number::Finite(dec(true, 1, 10))), None);
    assert_eq!(number_as_i32(&Number::Finite(dec(true, 1, -25))), None);
    assert_eq!(number_as_i32(&Number::Finite(dec(true, 21474836470, -1))), Some(i32::MAX));
    assert_eq!(number_as_i32(&Number::Finite(dec(false, 2147483648, 0))), Some(i32::MIN));
    assert_eq!(number_as_i32(&Number::Finite(dec(true, 2147483648, 0))), None);
    assert_eq!(number_as_i32(&Number::NaN), None);
}

#[test]
fn decimal_notation() {
    assert_eq!(decimal_string(0), "0");
    assert_eq!(decimal_string(105), "105");
}

#[test]
fn key_lookup_takes_first_occurrence() {
    let es = entries(obj(vec![("a", whole(1)), ("b", whole(2)), ("a", whole(3))]));
    assert!(matches!(lookup(&es, "a"), Some(Value::Num(Number::Finite(d))) if d.mantissa == 1));
    assert!(lookup(&es, "c").is_none());
    assert!(has_key(&es, &"b".to_string()));
    assert!(!has_key(&es, &"c".to_string()));
}

fn with_shape(name: &str, shape: Decimal) -> Value {
    let mut f = entries(mode(name, 0, 0, 1, 0, vec![]));
    f[4].1 = Value::Num(Number::Finite(shape));
    Value::Object(f)
}

#[test]
fn shape_written_with_fraction_or_exponent() {
    let modes = entries(obj(vec![
        ("a", with_shape("A", dec(true, 30, -1))),
        ("b", with_shape("B", dec(true, 1, 1))),
    ]));
    assert_eq!(check_modes(&modes), vec!["[!] mode b shape is out of range"]);
    let clean = obj(vec![("a", with_shape("A", dec(true, 30, -1)))]);
    assert!(run(document(clean, -10, 10, -10, 10)).is_empty());
}
