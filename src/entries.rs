use vstd::prelude::*;
use vstd::string::*;
use vstd::arithmetic::div_mod::{lemma_basic_div, lemma_small_mod};
use crate::decimal::{lemma_pow10_large, lemma_pow10_mono, lemma_pow10_pos, pow10, pow10_small};
use crate::text::{line_if, push_line, texts, decimal, decimal_string};
use crate::value::{find, has_key, lookup, Decimal, Number, Value};

verus! {

/// A warning about the mode under key `k`: `[!] mode <k><rest>`.
pub open spec fn mode_msg(k: Seq<char>, rest: Seq<char>) -> Seq<char> {
    "[!] mode "@ + k + rest
}

/// The exact value of `d`, sign times mantissa times `10^exponent`, where
/// that is an integer.
pub open spec fn integer_value(d: Decimal) -> Option<int> {
    let magnitude: Option<int> = if d.exponent >= 0 {
        Some(d.mantissa * pow10(d.exponent as nat))
    } else if (d.mantissa as int) % pow10((-d.exponent) as nat) == 0 {
        Some((d.mantissa as int) / pow10((-d.exponent) as nat))
    } else {
        None
    };
    match magnitude {
        Some(v) => Some(if d.positive {
            v
        } else {
            -v
        }),
        None => None,
    }
}

/// The number as an `i32`, where it converts losslessly: its exact value is
/// an integer within the range of `i32` (so `3.0` is 3, and `1e1` is 10).
pub open spec fn as_i32(n: Number) -> Option<int> {
    match n {
        Number::Finite(d) => match integer_value(d) {
            Some(v) => if i32::MIN <= v <= i32::MAX {
                Some(v)
            } else {
                None
            },
            None => None,
        },
        Number::NaN => None,
    }
}

/// A warning for each of the mode's expected fields that is absent.
pub open spec fn missing_field(k: Seq<char>, f: Seq<(String, Value)>, name: Seq<char>) -> Seq<Seq<char>> {
    line_if(find(f, name) is None, mode_msg(k, " is missing key: "@ + name))
}

/// The missing-field warnings of a mode, in the order of its expected fields.
pub open spec fn missing_fields(k: Seq<char>, f: Seq<(String, Value)>) -> Seq<Seq<char>> {
    missing_field(k, f, "name"@) + missing_field(k, f, "x"@) + missing_field(k, f, "y"@)
        + missing_field(k, f, "size"@) + missing_field(k, f, "shape"@) + missing_field(k, f, "icon"@)
        + missing_field(k, f, "unlock"@) + missing_field(k, f, "source"@)
}

/// The warnings on the field `shape`: a number that is an integer in `[0, 3]`.
pub open spec fn shape_msgs(k: Seq<char>, f: Seq<(String, Value)>) -> Seq<Seq<char>> {
    match find(f, "shape"@) {
        None => seq![],
        Some(Value::Num(n)) => match as_i32(n) {
            Some(i) => line_if(i < 0 || i > 3, mode_msg(k, " shape is out of range"@)),
            None => seq![mode_msg(k, " shape is not a valid integer"@)],
        },
        Some(_) => seq![mode_msg(k, " shape is not a number"@)],
    }
}

/// A warning if the field `name` is present and not a string.
pub open spec fn string_msgs(k: Seq<char>, f: Seq<(String, Value)>, name: Seq<char>) -> Seq<Seq<char>> {
    match find(f, name) {
        None => seq![],
        Some(Value::Str(_)) => seq![],
        Some(_) => seq![mode_msg(k, " "@ + name + " is not a string"@)],
    }
}

/// A warning if the field `name` is present and not a number.
pub open spec fn number_msgs(k: Seq<char>, f: Seq<(String, Value)>, name: Seq<char>) -> Seq<Seq<char>> {
    match find(f, name) {
        None => seq![],
        Some(Value::Num(_)) => seq![],
        Some(_) => seq![mode_msg(k, " "@ + name + " is not a number"@)],
    }
}

/// The warning on the `i`-th element of the `unlock` list of mode `k`: it
/// must be a string that is a key of `modes`. An element that is not a
/// string gets that warning alone: there is no key to look up.
pub open spec fn reference_msgs(k: Seq<char>, i: nat, item: Value, modes: Seq<(String, Value)>) -> Seq<Seq<char>> {
    match item {
        Value::Str(s) => line_if(
            find(modes, s@) is None,
            mode_msg(k, " references non-existent mode "@ + s@),
        ),
        _ => seq![mode_msg(k, " unlock #"@ + decimal(i) + " is not a string"@)],
    }
}

/// The warnings on the elements of an `unlock` list, in order.
pub open spec fn references_msgs(k: Seq<char>, items: Seq<Value>, modes: Seq<(String, Value)>) -> Seq<Seq<char>>
    decreases items.len(),
{
    if items.len() == 0 {
        seq![]
    } else {
        references_msgs(k, items.drop_last(), modes) + reference_msgs(
            k,
            (items.len() - 1) as nat,
            items.last(),
            modes,
        )
    }
}

/// The warnings on the field `unlock`: a list of keys of `modes`.
pub open spec fn unlock_msgs(k: Seq<char>, f: Seq<(String, Value)>, modes: Seq<(String, Value)>) -> Seq<Seq<char>> {
    match find(f, "unlock"@) {
        None => seq![],
        Some(Value::Array(items)) => references_msgs(k, items@, modes),
        Some(_) => seq![mode_msg(k, " unlock is not an array"@)],
    }
}

/// The warnings on the mode `v` under key `k`, in the order in which they
/// are reported.
pub open spec fn entry_msgs(k: Seq<char>, v: Value, modes: Seq<(String, Value)>) -> Seq<Seq<char>> {
    match v {
        Value::Object(f) => missing_fields(k, f@) + shape_msgs(k, f@) + string_msgs(k, f@, "icon"@)
            + number_msgs(k, f@, "x"@) + number_msgs(k, f@, "y"@) + number_msgs(k, f@, "size"@)
            + unlock_msgs(k, f@, modes) + string_msgs(k, f@, "source"@),
        _ => seq![mode_msg(k, " is not an object"@)],
    }
}

/// The warnings on the modes `es`, taken in order, where `modes` is the
/// whole mapping that references are resolved against.
pub open spec fn entries_msgs(es: Seq<(String, Value)>, modes: Seq<(String, Value)>) -> Seq<Seq<char>>
    decreases es.len(),
{
    if es.len() == 0 {
        seq![]
    } else {
        entries_msgs(es.drop_last(), modes) + entry_msgs(es.last().0@, es.last().1, modes)
    }
}

fn mode_line(k: &String, rest: &str) -> (r: String)
    ensures
        r@ == mode_msg(k@, rest@),
{
    let mut s = String::from_str("[!] mode ");
    s.append(k.as_str());
    s.append(rest);
    s
}

fn mode_field_line(k: &String, name: &str, rest: &str) -> (r: String)
    ensures
        r@ == mode_msg(k@, " "@ + name@ + rest@),
{
    let mut tail = String::from_str(" ");
    tail.append(name);
    tail.append(rest);
    let r = mode_line(k, tail.as_str());
    assert(r@ =~= mode_msg(k@, " "@ + name@ + rest@));
    r
}

fn check_present(out: &mut Vec<String>, k: &String, f: &Vec<(String, Value)>, name: &str)
    ensures
        texts(final(out)@) == texts(old(out)@) + missing_field(k@, f@, name@),
{
    if lookup(f, name).is_none() {
        let mut tail = String::from_str(" is missing key: ");
        tail.append(name);
        push_line(out, mode_line(k, tail.as_str()));
    } else {
        assert(texts(out@) =~= texts(out@) + missing_field(k@, f@, name@));
    }
}

fn check_string(out: &mut Vec<String>, k: &String, f: &Vec<(String, Value)>, name: &str)
    ensures
        texts(final(out)@) == texts(old(out)@) + string_msgs(k@, f@, name@),
{
    match lookup(f, name) {
        None => {
            assert(texts(out@) =~= texts(out@) + string_msgs(k@, f@, name@));
        },
        Some(Value::Str(_)) => {
            assert(texts(out@) =~= texts(out@) + string_msgs(k@, f@, name@));
        },
        Some(_) => {
            push_line(out, mode_field_line(k, name, " is not a string"));
        },
    }
}

fn check_number(out: &mut Vec<String>, k: &String, f: &Vec<(String, Value)>, name: &str)
    ensures
        texts(final(out)@) == texts(old(out)@) + number_msgs(k@, f@, name@),
{
    match lookup(f, name) {
        None => {
            assert(texts(out@) =~= texts(out@) + number_msgs(k@, f@, name@));
        },
        Some(Value::Num(_)) => {
            assert(texts(out@) =~= texts(out@) + number_msgs(k@, f@, name@));
        },
        Some(_) => {
            push_line(out, mode_field_line(k, name, " is not a number"));
        },
    }
}

/// The magnitude of the exact value of `d`, where it is an integer below
/// `10^29`.
fn integer_magnitude(d: Decimal) -> (r: Option<i128>)
    ensures
        match r {
            Some(v) => 0 <= v && integer_value(d) == Some(
                if d.positive {
                    v as int
                } else {
                    -v
                },
            ),
            None => integer_value(d) is None || (integer_value(d) matches Some(v) && (v
                > i32::MAX || v < i32::MIN)),
        },
{
    let m = d.mantissa as i128;
    if d.exponent >= 0 {
        if d.mantissa == 0 {
            proof {
                let p = pow10(d.exponent as nat);
                assert(d.mantissa * p == 0) by (nonlinear_arith)
                    requires
                        d.mantissa == 0,
                ;
            }
            assert(integer_value(d) == Some(0int));
            Some(0)
        } else if d.exponent >= 10 {
            proof {
                lemma_pow10_mono(10, d.exponent as nat);
                reveal_with_fuel(pow10, 11);
                let p = pow10(d.exponent as nat);
                assert(m * p >= p) by (nonlinear_arith)
                    requires
                        m >= 1,
                        p >= 1,
                ;
            }
            None
        } else {
            let p = pow10_small(d.exponent as u16);
            proof {
                lemma_pow10_mono(d.exponent as nat, 9);
                reveal_with_fuel(pow10, 10);
                assert(m * p <= 0x10000000000000000 * 1000000000) by (nonlinear_arith)
                    requires
                        0 <= m < 0x10000000000000000,
                        0 <= p <= 1000000000,
                ;
                assert(0 <= m * p) by (nonlinear_arith)
                    requires
                        0 <= m,
                        0 <= p,
                ;
            }
            assert(integer_value(d) == Some(if d.positive { (m * p) as int } else { -(m * p) }));
            Some(m * p)
        }
    } else {
        let k = (0 - (d.exponent as i32)) as u16;
        if k >= 20 {
            proof {
                lemma_pow10_large(k as nat);
                lemma_small_mod(d.mantissa as nat, pow10(k as nat) as nat);
                lemma_basic_div(d.mantissa as int, pow10(k as nat));
            }
            if d.mantissa == 0 {
                assert(integer_value(d) == Some(0int));
                Some(0)
            } else {
                None
            }
        } else {
            let p = pow10_small(k);
            proof {
                lemma_pow10_pos(k as nat);
            }
            if m % p != 0 {
                None
            } else {
                proof {
                    assert(0 <= m / p) by (nonlinear_arith)
                        requires
                            0 <= m,
                            1 <= p,
                    ;
                }
                assert(integer_value(d) == Some(if d.positive { (m / p) as int } else { -(m / p) }));
                Some(m / p)
            }
        }
    }
}

/// The number as an `i32`, where it converts losslessly.
pub fn number_as_i32(n: &Number) -> (r: Option<i32>)
    ensures
        match r {
            Some(i) => as_i32(*n) == Some(i as int),
            None => as_i32(*n) is None,
        },
{
    match n {
        Number::Finite(d) => match integer_magnitude(*d) {
            Some(v) => {
                if d.positive && v <= 2147483647 {
                    Some(v as i32)
                } else if !d.positive && v <= 2147483648 {
                    Some((0 - v) as i32)
                } else {
                    None
                }
            },
            None => None,
        },
        Number::NaN => None,
    }
}

fn check_shape(out: &mut Vec<String>, k: &String, f: &Vec<(String, Value)>)
    ensures
        texts(final(out)@) == texts(old(out)@) + shape_msgs(k@, f@),
{
    match lookup(f, "shape") {
        None => {
            assert(texts(out@) =~= texts(out@) + shape_msgs(k@, f@));
        },
        Some(Value::Num(n)) => {
            match number_as_i32(n) {
                Some(i) => {
                    if i < 0 || i > 3 {
                        push_line(out, mode_line(k, " shape is out of range"));
                    } else {
                        assert(texts(out@) =~= texts(out@) + shape_msgs(k@, f@));
                    }
                },
                None => {
                    push_line(out, mode_line(k, " shape is not a valid integer"));
                },
            }
        },
        Some(_) => {
            push_line(out, mode_line(k, " shape is not a number"));
        },
    }
}

fn check_unlock(out: &mut Vec<String>, k: &String, f: &Vec<(String, Value)>, modes: &Vec<(String, Value)>)
    ensures
        texts(final(out)@) == texts(old(out)@) + unlock_msgs(k@, f@, modes@),
{
    match lookup(f, "unlock") {
        None => {
            assert(texts(out@) =~= texts(out@) + unlock_msgs(k@, f@, modes@));
        },
        Some(Value::Array(items)) => {
            let ghost start = texts(out@);
            let mut i: usize = 0;
            while i < items.len()
                invariant
                    i <= items.len(),
                    texts(out@) == start + references_msgs(k@, items@.subrange(0, i as int), modes@),
                decreases items.len() - i,
            {
                let ghost before = texts(out@);
                match &items[i] {
                    Value::Str(s) => {
                        if !has_key(modes, s) {
                            let mut tail = String::from_str(" references non-existent mode ");
                            tail.append(s.as_str());
                            push_line(out, mode_line(k, tail.as_str()));
                        }
                    },
                    _ => {
                        let mut tail = String::from_str(" unlock #");
                        tail.append(decimal_string(i).as_str());
                        tail.append(" is not a string");
                        push_line(out, mode_line(k, tail.as_str()));
                    },
                }
                assert(items@.subrange(0, i + 1).drop_last() =~= items@.subrange(0, i as int));
                assert(texts(out@) =~= before + reference_msgs(k@, i as nat, items@[i as int], modes@));
                i = i + 1;
            }
            assert(items@.subrange(0, i as int) =~= items@);
        },
        Some(_) => {
            push_line(out, mode_line(k, " unlock is not an array"));
        },
    }
}

#[verifier::rlimit(60)]
fn check_all_present(out: &mut Vec<String>, k: &String, f: &Vec<(String, Value)>)
    ensures
        texts(final(out)@) == texts(old(out)@) + missing_fields(k@, f@),
{
    let ghost s0 = texts(out@);
    check_present(out, k, f, "name");
    check_present(out, k, f, "x");
    check_present(out, k, f, "y");
    check_present(out, k, f, "size");
    let ghost s1 = texts(out@);
    assert(s1 =~= s0 + (missing_field(k@, f@, "name"@) + missing_field(k@, f@, "x"@)
        + missing_field(k@, f@, "y"@) + missing_field(k@, f@, "size"@)));
    check_present(out, k, f, "shape");
    check_present(out, k, f, "icon");
    check_present(out, k, f, "unlock");
    check_present(out, k, f, "source");
    assert(texts(out@) =~= s1 + (missing_field(k@, f@, "shape"@) + missing_field(k@, f@, "icon"@)
        + missing_field(k@, f@, "unlock"@) + missing_field(k@, f@, "source"@)));
    assert(texts(out@) =~= s0 + missing_fields(k@, f@));
}

#[verifier::rlimit(60)]
fn check_entry(out: &mut Vec<String>, k: &String, v: &Value, modes: &Vec<(String, Value)>)
    ensures
        texts(final(out)@) == texts(old(out)@) + entry_msgs(k@, *v, modes@),
{
    match v {
        Value::Object(f) => {
            let ghost s0 = texts(out@);
            check_all_present(out, k, f);
            let ghost s1 = texts(out@);
            check_shape(out, k, f);
            check_string(out, k, f, "icon");
            check_number(out, k, f, "x");
            let ghost s2 = texts(out@);
            assert(s2 =~= s1 + (shape_msgs(k@, f@) + string_msgs(k@, f@, "icon"@) + number_msgs(k@, f@, "x"@)));
            check_number(out, k, f, "y");
            check_number(out, k, f, "size");
            let ghost s3 = texts(out@);
            assert(s3 =~= s2 + (number_msgs(k@, f@, "y"@) + number_msgs(k@, f@, "size"@)));
            check_unlock(out, k, f, modes);
            check_string(out, k, f, "source");
            assert(texts(out@) =~= s3 + (unlock_msgs(k@, f@, modes@) + string_msgs(k@, f@, "source"@)));
            assert(texts(out@) =~= s0 + entry_msgs(k@, *v, modes@));
        },
        _ => {
            push_line(out, mode_line(k, " is not an object"));
        },
    }
}

/// Checks every mode of the mapping `modes`, in order: the expected fields
/// are present and of the expected types, `shape` is an integer in `[0, 3]`,
/// and each key in an `unlock` list names a mode of the mapping.
pub fn check_modes(modes: &Vec<(String, Value)>) -> (r: Vec<String>)
    ensures
        texts(r@) == entries_msgs(modes@, modes@),
{
    let mut out: Vec<String> = Vec::new();
    let mut i: usize = 0;
    while i < modes.len()
        invariant
            i <= modes.len(),
            texts(out@) == entries_msgs(modes@.subrange(0, i as int), modes@),
        decreases modes.len() - i,
    {
        check_entry(&mut out, &modes[i].0, &modes[i].1, modes);
        assert(modes@.subrange(0, i + 1).drop_last() =~= modes@.subrange(0, i as int));
        i = i + 1;
    }
    assert(modes@.subrange(0, i as int) =~= modes@);
    out
}

} // verus!
