use vstd::prelude::*;
use crate::bounds::{bound_of, boundary_msgs, modes_of};
use crate::decimal::{min3, negated, pow10, scaled, signed_mantissa, sum_sign, zero_like};
use crate::check::{document_msgs, missing_root_keys, report, Document};
use crate::entries::{as_i32, entries_msgs, entry_msgs, mode_msg, reference_msgs, references_msgs};
use crate::value::{find, lemma_find_push, lemma_find_some_key, unique_keys, Decimal, Number, Value};

verus! {

/// A document whose root is not a mapping gets exactly one line, the fatal
/// one, and nothing else is checked.
pub proof fn lemma_non_mapping_root_is_fatal(v: Value)
    requires
        !(v is Object),
    ensures
        report(Document::Parsed(v)) == seq!["[!?!] JSON is not an object"@],
{
}

proof fn lemma_zero_sum(a: Decimal, b: Decimal, c: Decimal)
    requires
        a.mantissa == 0,
        b.mantissa == 0,
        c.mantissa == 0,
    ensures
        sum_sign(a, b, c) == 0,
{
    let base = min3(a.exponent as int, b.exponent as int, c.exponent as int);
    assert forall|x: Decimal, e: int| x.mantissa == 0 implies #[trigger] scaled(x, e) == 0 by {
        let p = pow10((x.exponent - e) as nat);
        assert(signed_mantissa(x) == 0);
        assert(0 * p == 0) by (nonlinear_arith);
    }
}

/// A document with all root fields, no modes and a rectangle of zero size
/// at the origin gets no diagnostic.
pub proof fn lemma_empty_document_is_clean(root: Vec<(String, Value)>, modes: Vec<(String, Value)>)
    requires
        find(root@, "modes"@) == Some(Value::Object(modes)),
        modes@.len() == 0,
        find(root@, "starting_mode"@) is Some,
        find(root@, "min_x"@) matches Some(Value::Num(Number::Finite(d))) && d.mantissa == 0,
        find(root@, "max_x"@) matches Some(Value::Num(Number::Finite(d))) && d.mantissa == 0,
        find(root@, "min_y"@) matches Some(Value::Num(Number::Finite(d))) && d.mantissa == 0,
        find(root@, "max_y"@) matches Some(Value::Num(Number::Finite(d))) && d.mantissa == 0,
    ensures
        report(Document::Parsed(Value::Object(root))) == Seq::<Seq<char>>::empty(),
{
    assert(missing_root_keys(root@) =~= Seq::<Seq<char>>::empty());
    assert(entries_msgs(modes@, modes@) =~= Seq::<Seq<char>>::empty());
    assert(modes_of(root@) == modes@);
    let a = bound_of(root@, "min_x"@)->Some_0;
    let b = bound_of(root@, "max_x"@)->Some_0;
    let c = bound_of(root@, "min_y"@)->Some_0;
    let d = bound_of(root@, "max_y"@)->Some_0;
    lemma_zero_sum(a, negated(b), zero_like(a));
    lemma_zero_sum(c, negated(d), zero_like(c));
    assert(boundary_msgs(root@, true) =~= Seq::<Seq<char>>::empty());
    assert(document_msgs(Value::Object(root)) =~= Seq::<Seq<char>>::empty());
}

/// Where `modes` is present but not a mapping, the one line added to the
/// missing root fields is the critical one on `modes`: neither the modes
/// nor the boundary are checked. With every root field present, that line
/// is the whole report.
pub proof fn lemma_malformed_modes_stop(root: Vec<(String, Value)>)
    requires
        find(root@, "modes"@) matches Some(m) && !(m is Object),
    ensures
        report(Document::Parsed(Value::Object(root))) == missing_root_keys(root@) + seq![
            "[!!] modes is not an object"@,
        ],
        (find(root@, "starting_mode"@) is Some && find(root@, "min_x"@) is Some && find(
            root@,
            "min_y"@,
        ) is Some && find(root@, "max_x"@) is Some && find(root@, "max_y"@) is Some) ==> report(
            Document::Parsed(Value::Object(root)),
        ) == seq!["[!!] modes is not an object"@],
{
    if find(root@, "starting_mode"@) is Some && find(root@, "min_x"@) is Some && find(
        root@,
        "min_y"@,
    ) is Some && find(root@, "max_x"@) is Some && find(root@, "max_y"@) is Some {
        assert(missing_root_keys(root@) =~= Seq::<Seq<char>>::empty());
        assert(report(Document::Parsed(Value::Object(root))) =~= seq![
            "[!!] modes is not an object"@,
        ]);
    }
}

/// The report is a function of the document alone: checking the same
/// document twice gives the same lines in the same order.
pub proof fn lemma_checks_repeatable(a: Document, b: Document)
    requires
        a == b,
    ensures
        report(a) == report(b),
{
}

} // verus!

verus! {

/// An element of an `unlock` list that draws no warning: a key of `modes`.
pub open spec fn sound_reference(item: Value, modes: Seq<(String, Value)>) -> bool {
    item matches Value::Str(s) && find(modes, s@) is Some
}

/// A mode's fields other than `shape` and `unlock` draw no warning: all
/// eight are present, `x`, `y` and `size` are numbers, `icon` and `source`
/// strings.
pub open spec fn sound_plain_fields(f: Seq<(String, Value)>) -> bool {
    &&& find(f, "name"@) is Some
    &&& find(f, "x"@) matches Some(Value::Num(_))
    &&& find(f, "y"@) matches Some(Value::Num(_))
    &&& find(f, "size"@) matches Some(Value::Num(_))
    &&& find(f, "shape"@) is Some
    &&& find(f, "icon"@) matches Some(Value::Str(_))
    &&& find(f, "unlock"@) is Some
    &&& find(f, "source"@) matches Some(Value::Str(_))
}

/// The mode's `shape` is an integer in `[0, 3]`.
pub open spec fn sound_shape(f: Seq<(String, Value)>) -> bool {
    find(f, "shape"@) matches Some(Value::Num(n)) && as_i32(n) matches Some(i) && 0 <= i <= 3
}

/// The mode's `unlock` is a list of keys of `modes`.
pub open spec fn sound_unlock(f: Seq<(String, Value)>, modes: Seq<(String, Value)>) -> bool {
    find(f, "unlock"@) matches Some(Value::Array(items)) && forall|t: int|
        0 <= t < items.len() ==> sound_reference(#[trigger] items@[t], modes)
}

/// A mode that the per-entry stage finds nothing wrong with.
pub open spec fn sound_entry(v: Value, modes: Seq<(String, Value)>) -> bool {
    v matches Value::Object(f) && sound_plain_fields(f@) && sound_shape(f@) && sound_unlock(
        f@,
        modes,
    )
}

proof fn lemma_references_but_one(k: Seq<char>, items: Seq<Value>, modes: Seq<(String, Value)>, u: int)
    requires
        forall|t: int| 0 <= t < items.len() && t != u ==> sound_reference(#[trigger] items[t], modes),
    ensures
        references_msgs(k, items, modes) == if 0 <= u < items.len() {
            reference_msgs(k, u as nat, items[u], modes)
        } else {
            seq![]
        },
    decreases items.len(),
{
    if items.len() > 0 {
        let last = items.len() - 1;
        assert forall|t: int| 0 <= t < items.drop_last().len() && t != u implies sound_reference(
            #[trigger] items.drop_last()[t],
            modes,
        ) by {
            assert(items.drop_last()[t] == items[t]);
        }
        lemma_references_but_one(k, items.drop_last(), modes, u);
        if u == last {
            assert(references_msgs(k, items, modes) =~= seq![] + reference_msgs(
                k,
                u as nat,
                items[u],
                modes,
            ));
        } else {
            assert(sound_reference(items[last], modes));
            assert(references_msgs(k, items, modes) =~= references_msgs(
                k,
                items.drop_last(),
                modes,
            ));
        }
    }
}

proof fn lemma_sound_entry(k: Seq<char>, v: Value, modes: Seq<(String, Value)>)
    requires
        sound_entry(v, modes),
    ensures
        entry_msgs(k, v, modes) == Seq::<Seq<char>>::empty(),
{
    let f = v->Object_0@;
    let items = find(f, "unlock"@)->Some_0->Array_0@;
    lemma_references_but_one(k, items, modes, -1);
    assert(entry_msgs(k, v, modes) =~= Seq::<Seq<char>>::empty());
}

proof fn lemma_entries_but_one(es: Seq<(String, Value)>, modes: Seq<(String, Value)>, j: int)
    requires
        forall|i: int| 0 <= i < es.len() && i != j ==> sound_entry(#[trigger] es[i].1, modes),
    ensures
        entries_msgs(es, modes) == if 0 <= j < es.len() {
            entry_msgs(es[j].0@, es[j].1, modes)
        } else {
            seq![]
        },
    decreases es.len(),
{
    if es.len() > 0 {
        let last = es.len() - 1;
        assert forall|i: int| 0 <= i < es.drop_last().len() && i != j implies sound_entry(
            #[trigger] es.drop_last()[i].1,
            modes,
        ) by {
            assert(es.drop_last()[i] == es[i]);
        }
        lemma_entries_but_one(es.drop_last(), modes, j);
        if j == last {
            assert(entries_msgs(es, modes) =~= seq![] + entry_msgs(es[j].0@, es[j].1, modes));
        } else {
            lemma_sound_entry(es[last].0@, es[last].1, modes);
            assert(entries_msgs(es, modes) =~= entries_msgs(es.drop_last(), modes));
        }
    }
}

/// Among modes that are otherwise all sound, one whose `shape` is an integer
/// outside `[0, 3]` draws exactly one warning, naming it and "out of range".
pub proof fn lemma_one_shape_out_of_range(modes: Vec<(String, Value)>, j: int)
    requires
        unique_keys(modes@),
        0 <= j < modes@.len(),
        forall|i: int| 0 <= i < modes@.len() && i != j ==> sound_entry(#[trigger] modes@[i].1, modes@),
        modes@[j].1 matches Value::Object(f) && sound_plain_fields(f@) && sound_unlock(f@, modes@),
        modes@[j].1 matches Value::Object(f) && find(f@, "shape"@) matches Some(Value::Num(n))
            && as_i32(n) matches Some(s) && (s < 0 || s > 3),
    ensures
        entries_msgs(modes@, modes@) == seq![mode_msg(modes@[j].0@, " shape is out of range"@)],
{
    lemma_entries_but_one(modes@, modes@, j);
    let k = modes@[j].0@;
    let f = modes@[j].1->Object_0@;
    let items = find(f, "unlock"@)->Some_0->Array_0@;
    lemma_references_but_one(k, items, modes@, -1);
    assert(entry_msgs(k, modes@[j].1, modes@) =~= seq![mode_msg(k, " shape is out of range"@)]);
}

/// The situation of a single dangling reference: every mode is sound but
/// for the element `u` of the `unlock` list of mode `j`, which is the key
/// `g` that no mode has.
pub open spec fn one_dangling_reference(modes: Seq<(String, Value)>, j: int, u: int, g: Seq<char>) -> bool {
    &&& 0 <= j < modes.len()
    &&& forall|i: int| 0 <= i < modes.len() && i != j ==> sound_entry(#[trigger] modes[i].1, modes)
    &&& modes[j].1 matches Value::Object(f) && sound_plain_fields(f@) && sound_shape(f@)
    &&& modes[j].1 matches Value::Object(f) && find(f@, "unlock"@) matches Some(Value::Array(items))
        && 0 <= u < items.len() && items@[u] is Str && items@[u]->Str_0@ == g && forall|t: int|
        0 <= t < items.len() && t != u ==> sound_reference(#[trigger] items@[t], modes)
    &&& find(modes, g) is None
}

/// A single reference to a key that no mode has draws exactly one warning,
/// naming the referencing mode and the missing key.
pub proof fn lemma_one_dangling_reference(modes: Vec<(String, Value)>, j: int, u: int, g: Seq<char>)
    requires
        unique_keys(modes@),
        one_dangling_reference(modes@, j, u, g),
    ensures
        entries_msgs(modes@, modes@) == seq![
            mode_msg(modes@[j].0@, " references non-existent mode "@ + g),
        ],
{
    lemma_entries_but_one(modes@, modes@, j);
    let k = modes@[j].0@;
    let f = modes@[j].1->Object_0@;
    let items = find(f, "unlock"@)->Some_0->Array_0@;
    lemma_references_but_one(k, items, modes@, u);
    assert(entry_msgs(k, modes@[j].1, modes@) =~= seq![
        mode_msg(k, " references non-existent mode "@ + g),
    ]);
}

proof fn lemma_sound_entry_grows(v: Value, modes: Seq<(String, Value)>, x: (String, Value))
    requires
        sound_entry(v, modes),
    ensures
        sound_entry(v, modes.push(x)),
{
    let f = v->Object_0@;
    let items = find(f, "unlock"@)->Some_0->Array_0@;
    assert forall|t: int| 0 <= t < items.len() implies sound_reference(
        #[trigger] items[t],
        modes.push(x),
    ) by {
        let s = items[t]->Str_0;
        lemma_find_push(modes, x, s@);
    }
}

/// Adding the missing key as a sound mode removes that one warning: the
/// modes then draw none.
pub proof fn lemma_adding_missing_key(
    modes: Vec<(String, Value)>,
    j: int,
    u: int,
    key: String,
    entry: Value,
)
    requires
        unique_keys(modes@),
        one_dangling_reference(modes@, j, u, key@),
        sound_entry(entry, modes@.push((key, entry))),
    ensures
        unique_keys(modes@.push((key, entry))),
        entries_msgs(modes@.push((key, entry)), modes@.push((key, entry))) == Seq::<Seq<char>>::empty(),
{
    let x = (key, entry);
    let grown = modes@.push(x);
    assert forall|i: int| 0 <= i < modes@.len() implies modes@[i].0@ != key@ by {
        if modes@[i].0@ == key@ {
            lemma_find_some_key(modes@, key@, i);
        }
    }
    lemma_find_push(modes@, x, key@);
    assert forall|i: int| 0 <= i < grown.len() implies sound_entry(#[trigger] grown[i].1, grown) by {
        if i == modes@.len() {
        } else if i != j {
            assert(grown[i] == modes@[i]);
            lemma_sound_entry_grows(modes@[i].1, modes@, x);
        } else {
            assert(grown[i] == modes@[i]);
            let f = modes@[j].1->Object_0@;
            let items = find(f, "unlock"@)->Some_0->Array_0@;
            assert forall|t: int| 0 <= t < items.len() implies sound_reference(
                #[trigger] items[t],
                grown,
            ) by {
                let s = items[t]->Str_0;
                lemma_find_push(modes@, x, s@);
            }
        }
    }
    lemma_entries_but_one(grown, grown, -1);
}

} // verus!
