use vstd::prelude::*;
use vstd::string::*;
use crate::decimal::{decimal_sum_sign, negate, negated, sum_sign, zero_like};
use crate::text::{line_if, push_line, texts};
use crate::value::{find, lookup, Decimal, Number, Value};

verus! {

/// The report on one boundary field of the root: missing (critical), not a
/// number, or not a number value (warnings).
pub open spec fn bound_field_msgs(root: Seq<(String, Value)>, name: Seq<char>) -> Seq<Seq<char>> {
    match find(root, name) {
        None => seq!["[!!] JSON is missing key: "@ + name],
        Some(Value::Num(Number::Finite(_))) => seq![],
        Some(Value::Num(Number::NaN)) => seq!["[!] JSON key "@ + name + " is NaN"@],
        Some(_) => seq!["[!] JSON key "@ + name + " is not of type number"@],
    }
}

/// The boundary field `name` of the root, where it is a finite number.
pub open spec fn bound_of(root: Seq<(String, Value)>, name: Seq<char>) -> Option<Decimal> {
    match find(root, name) {
        Some(Value::Num(Number::Finite(d))) => Some(d),
        _ => None,
    }
}

/// `a - r < bound`, compared exactly on the decimal values; false where `a`
/// or `r` is not a number.
pub open spec fn reaches_below(a: Number, r: Number, bound: Decimal) -> bool {
    match (a, r) {
        (Number::Finite(a), Number::Finite(r)) => sum_sign(a, negated(r), negated(bound)) < 0,
        _ => false,
    }
}

/// `a + r > bound`, compared exactly on the decimal values; false where `a`
/// or `r` is not a number.
pub open spec fn reaches_above(a: Number, r: Number, bound: Decimal) -> bool {
    match (a, r) {
        (Number::Finite(a), Number::Finite(r)) => sum_sign(a, r, negated(bound)) > 0,
        _ => false,
    }
}

/// The numeric field `name` of a mode, where it is a number.
pub open spec fn number_field(f: Seq<(String, Value)>, name: Seq<char>) -> Option<Number> {
    match find(f, name) {
        Some(Value::Num(n)) => Some(n),
        _ => None,
    }
}

/// How a mode is named in a placement warning: its `name` field where that
/// is a string, else its key.
pub open spec fn label(k: Seq<char>, f: Seq<(String, Value)>) -> Seq<char> {
    match find(f, "name"@) {
        Some(Value::Str(s)) => s@,
        _ => k,
    }
}

/// A placement warning about the mode named `n`.
pub open spec fn place_msg(n: Seq<char>, rest: Seq<char>) -> Seq<char> {
    "[!] mode "@ + n + rest
}

/// The warnings on the footprint of the mode `v` under key `k`: the square
/// of half-width `size` around `(x, y)` must lie within the rectangle.
pub open spec fn placement_msgs(
    k: Seq<char>,
    v: Value,
    min_x: Decimal,
    max_x: Decimal,
    min_y: Decimal,
    max_y: Decimal,
) -> Seq<Seq<char>> {
    match v {
        Value::Object(f) => match (
            number_field(f@, "x"@),
            number_field(f@, "y"@),
            number_field(f@, "size"@),
        ) {
            (Some(x), Some(y), Some(r)) => {
                let n = label(k, f@);
                line_if(reaches_below(x, r, min_x), place_msg(n, " x - r is less than min_x"@))
                    + line_if(reaches_above(x, r, max_x), place_msg(n, " x + r is greater than max_x"@))
                    + line_if(reaches_below(y, r, min_y), place_msg(n, " y - r is less than min_y"@))
                    + line_if(reaches_above(y, r, max_y), place_msg(n, " y + r is greater than max_y"@))
            },
            _ => seq![],
        },
        _ => seq![],
    }
}

/// The placement warnings on the modes `es`, taken in order.
pub open spec fn placements_msgs(
    es: Seq<(String, Value)>,
    min_x: Decimal,
    max_x: Decimal,
    min_y: Decimal,
    max_y: Decimal,
) -> Seq<Seq<char>>
    decreases es.len(),
{
    if es.len() == 0 {
        seq![]
    } else {
        placements_msgs(es.drop_last(), min_x, max_x, min_y, max_y) + placement_msgs(
            es.last().0@,
            es.last().1,
            min_x,
            max_x,
            min_y,
            max_y,
        )
    }
}

/// The entries of the root's `modes` mapping (none where it is not one).
pub open spec fn modes_of(root: Seq<(String, Value)>) -> Seq<(String, Value)> {
    match find(root, "modes"@) {
        Some(Value::Object(es)) => es@,
        _ => seq![],
    }
}

/// The report of the boundary stage: each boundary field is checked; where
/// all four are numbers, the rectangle must not be inverted, and, where the
/// modes were found clean, every footprint must lie within it.
pub open spec fn boundary_msgs(root: Seq<(String, Value)>, entries_clean: bool) -> Seq<Seq<char>> {
    let fields = bound_field_msgs(root, "min_x"@) + bound_field_msgs(root, "max_x"@)
        + bound_field_msgs(root, "min_y"@) + bound_field_msgs(root, "max_y"@);
    match (
        bound_of(root, "min_x"@),
        bound_of(root, "max_x"@),
        bound_of(root, "min_y"@),
        bound_of(root, "max_y"@),
    ) {
        (Some(a), Some(b), Some(c), Some(d)) => fields + line_if(
            sum_sign(a, negated(b), zero_like(a)) > 0,
            "[!] min_x is greater than max_x"@,
        ) + line_if(sum_sign(c, negated(d), zero_like(c)) > 0, "[!] min_y is greater than max_y"@)
            + if entries_clean {
            placements_msgs(modes_of(root), a, b, c, d)
        } else {
            seq![]
        },
        _ => fields,
    }
}

fn check_bound_field(out: &mut Vec<String>, root: &Vec<(String, Value)>, name: &str) -> (r: Option<Decimal>)
    ensures
        texts(final(out)@) == texts(old(out)@) + bound_field_msgs(root@, name@),
        r == bound_of(root@, name@),
{
    match lookup(root, name) {
        None => {
            let mut s = String::from_str("[!!] JSON is missing key: ");
            s.append(name);
            push_line(out, s);
            None
        },
        Some(Value::Num(Number::Finite(d))) => {
            assert(texts(out@) =~= texts(out@) + bound_field_msgs(root@, name@));
            Some(*d)
        },
        Some(Value::Num(Number::NaN)) => {
            let mut s = String::from_str("[!] JSON key ");
            s.append(name);
            s.append(" is NaN");
            push_line(out, s);
            None
        },
        Some(_) => {
            let mut s = String::from_str("[!] JSON key ");
            s.append(name);
            s.append(" is not of type number");
            push_line(out, s);
            None
        },
    }
}

fn below(a: &Number, r: &Number, bound: Decimal) -> (b: bool)
    ensures
        b == reaches_below(*a, *r, bound),
{
    match (a, r) {
        (Number::Finite(a), Number::Finite(r)) => decimal_sum_sign(*a, negate(*r), negate(bound)) < 0,
        _ => false,
    }
}

fn above(a: &Number, r: &Number, bound: Decimal) -> (b: bool)
    ensures
        b == reaches_above(*a, *r, bound),
{
    match (a, r) {
        (Number::Finite(a), Number::Finite(r)) => decimal_sum_sign(*a, *r, negate(bound)) > 0,
        _ => false,
    }
}

fn number_in<'a>(f: &'a Vec<(String, Value)>, name: &str) -> (r: Option<&'a Number>)
    ensures
        match r {
            Some(n) => number_field(f@, name@) == Some(*n),
            None => number_field(f@, name@) is None,
        },
{
    match lookup(f, name) {
        Some(Value::Num(n)) => Some(n),
        _ => None,
    }
}

fn place_line(n: &String, rest: &str) -> (r: String)
    ensures
        r@ == place_msg(n@, rest@),
{
    let mut s = String::from_str("[!] mode ");
    s.append(n.as_str());
    s.append(rest);
    s
}

fn push_if(out: &mut Vec<String>, b: bool, s: String)
    ensures
        texts(final(out)@) == texts(old(out)@) + line_if(b, s@),
{
    if b {
        push_line(out, s);
    } else {
        assert(texts(out@) =~= texts(out@) + line_if(b, s@));
    }
}

fn check_placement(
    out: &mut Vec<String>,
    k: &String,
    v: &Value,
    min_x: Decimal,
    max_x: Decimal,
    min_y: Decimal,
    max_y: Decimal,
)
    ensures
        texts(final(out)@) == texts(old(out)@) + placement_msgs(k@, *v, min_x, max_x, min_y, max_y),
{
    let ghost s0 = texts(out@);
    match v {
        Value::Object(f) => {
            match (number_in(f, "x"), number_in(f, "y"), number_in(f, "size")) {
                (Some(x), Some(y), Some(r)) => {
                    let n: String = match lookup(f, "name") {
                        Some(Value::Str(s)) => s.clone(),
                        _ => k.clone(),
                    };
                    push_if(out, below(x, r, min_x), place_line(&n, " x - r is less than min_x"));
                    push_if(out, above(x, r, max_x), place_line(&n, " x + r is greater than max_x"));
                    push_if(out, below(y, r, min_y), place_line(&n, " y - r is less than min_y"));
                    push_if(out, above(y, r, max_y), place_line(&n, " y + r is greater than max_y"));
                    assert(texts(out@) =~= s0 + placement_msgs(k@, *v, min_x, max_x, min_y, max_y));
                },
                _ => {
                    assert(texts(out@) =~= s0 + placement_msgs(k@, *v, min_x, max_x, min_y, max_y));
                },
            }
        },
        _ => {
            assert(texts(out@) =~= s0 + placement_msgs(k@, *v, min_x, max_x, min_y, max_y));
        },
    }
}

/// Checks the four boundary fields of the root and, where they are usable,
/// the rectangle they span; where `entries_clean` holds, also checks that
/// every mode's footprint lies within the rectangle.
pub fn check_boundaries(root: &Vec<(String, Value)>, entries_clean: bool) -> (r: Vec<String>)
    ensures
        texts(r@) == boundary_msgs(root@, entries_clean),
{
    let mut out: Vec<String> = Vec::new();
    let a = check_bound_field(&mut out, root, "min_x");
    let b = check_bound_field(&mut out, root, "max_x");
    let c = check_bound_field(&mut out, root, "min_y");
    let d = check_bound_field(&mut out, root, "max_y");
    let ghost fields = texts(out@);
    assert(fields =~= bound_field_msgs(root@, "min_x"@) + bound_field_msgs(root@, "max_x"@)
        + bound_field_msgs(root@, "min_y"@) + bound_field_msgs(root@, "max_y"@));
    match (a, b, c, d) {
        (Some(a), Some(b), Some(c), Some(d)) => {
            let zx = Decimal { positive: true, mantissa: 0, exponent: a.exponent };
            let zy = Decimal { positive: true, mantissa: 0, exponent: c.exponent };
            push_if(&mut out, decimal_sum_sign(a, negate(b), zx) > 0, String::from_str("[!] min_x is greater than max_x"));
            push_if(&mut out, decimal_sum_sign(c, negate(d), zy) > 0, String::from_str("[!] min_y is greater than max_y"));
            let ghost s1 = texts(out@);
            if entries_clean {
                match lookup(root, "modes") {
                    Some(Value::Object(modes)) => {
                        let mut i: usize = 0;
                        while i < modes.len()
                            invariant
                                i <= modes.len(),
                                modes_of(root@) == modes@,
                                texts(out@) == s1 + placements_msgs(modes@.subrange(0, i as int), a, b, c, d),
                            decreases modes.len() - i,
                        {
                            check_placement(&mut out, &modes[i].0, &modes[i].1, a, b, c, d);
                            assert(modes@.subrange(0, i + 1).drop_last() =~= modes@.subrange(0, i as int));
                            i = i + 1;
                        }
                        assert(modes@.subrange(0, i as int) =~= modes@);
                    },
                    _ => {
                        assert(texts(out@) =~= s1 + placements_msgs(modes_of(root@), a, b, c, d));
                    },
                }
            } else {
                assert(texts(out@) =~= s1 + seq![]);
            }
        },
        _ => {},
    }
    out
}

} // verus!
