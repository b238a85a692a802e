use vstd::prelude::*;

verus! {

/// A finite decimal number `(+/-) mantissa * 10^exponent`, as a JSON
/// document spells it.
#[derive(Clone, Copy, Debug, PartialEq, Eq, Structural)]
pub struct Decimal {
    pub positive: bool,
    pub mantissa: u64,
    pub exponent: i16,
}

/// A number of the document: a decimal, or not a number.
#[derive(Clone, Copy, Debug, PartialEq, Eq, Structural)]
pub enum Number {
    Finite(Decimal),
    NaN,
}

/// A node of the document tree. An object keeps its entries in their
/// natural order; a key is looked up at its first occurrence.
#[derive(Debug)]
pub enum Value {
    Null,
    Bool(bool),
    Num(Number),
    Str(String),
    Array(Vec<Value>),
    Object(Vec<(String, Value)>),
}

/// The value stored under key `k` in the entries `es` (first occurrence).
pub open spec fn find(es: Seq<(String, Value)>, k: Seq<char>) -> Option<Value>
    decreases es.len(),
{
    if es.len() == 0 {
        None
    } else if es[0].0@ == k {
        Some(es[0].1)
    } else {
        find(es.drop_first(), k)
    }
}

/// No key occurs twice among the entries `es`, as in every object of a
/// parsed JSON document.
pub open spec fn unique_keys(es: Seq<(String, Value)>) -> bool {
    forall|i: int, j: int| 0 <= i < j < es.len() ==> es[i].0@ != es[j].0@
}

/// Appending an entry leaves every key already present as it was, and adds
/// its own key where that was absent.
pub proof fn lemma_find_push(es: Seq<(String, Value)>, x: (String, Value), k: Seq<char>)
    ensures
        find(es.push(x), k) == if find(es, k) is Some {
            find(es, k)
        } else if x.0@ == k {
            Some(x.1)
        } else {
            None
        },
    decreases es.len(),
{
    assert(es.push(x)[es.len() as int] == x);
    if es.len() > 0 {
        assert(es.push(x)[0] == es[0]);
        assert(es.push(x).drop_first() =~= es.drop_first().push(x));
        lemma_find_push(es.drop_first(), x, k);
    } else {
        assert(es.push(x).drop_first().len() == 0);
        reveal_with_fuel(find, 2);
    }
}

/// A key held by any entry is found.
pub proof fn lemma_find_some_key(es: Seq<(String, Value)>, k: Seq<char>, i: int)
    requires
        0 <= i < es.len(),
        es[i].0@ == k,
    ensures
        find(es, k) is Some,
    decreases i,
{
    if i > 0 && es[0].0@ != k {
        assert(es.drop_first()[i - 1] == es[i]);
        lemma_find_some_key(es.drop_first(), k, i - 1);
    }
}

proof fn lemma_find_skip(es: Seq<(String, Value)>, k: Seq<char>, i: int)
    requires
        0 <= i <= es.len(),
        forall|j: int| 0 <= j < i ==> es[j].0@ != k,
    ensures
        find(es, k) == find(es.subrange(i, es.len() as int), k),
    decreases i,
{
    if i > 0 {
        assert(es[0].0@ != k);
        assert forall|j: int| 0 <= j < i - 1 implies es.drop_first()[j].0@ != k by {
            assert(es.drop_first()[j] == es[j + 1]);
        }
        lemma_find_skip(es.drop_first(), k, i - 1);
        assert(es.drop_first().subrange(i - 1, es.drop_first().len() as int) =~= es.subrange(
            i,
            es.len() as int,
        ));
    } else {
        assert(es.subrange(0, es.len() as int) =~= es);
    }
}

/// Looks up `k` among the entries `es`.
pub fn lookup<'a>(es: &'a Vec<(String, Value)>, k: &str) -> (r: Option<&'a Value>)
    ensures
        match r {
            Some(v) => find(es@, k@) == Some(*v),
            None => find(es@, k@) is None,
        },
{
    let key = k.to_owned();
    let mut i: usize = 0;
    while i < es.len()
        invariant
            i <= es.len(),
            key@ == k@,
            forall|j: int| 0 <= j < i ==> es@[j].0@ != k@,
        decreases es.len() - i,
    {
        if es[i].0 == key {
            proof {
                lemma_find_skip(es@, k@, i as int);
            }
            return Some(&es[i].1);
        }
        i = i + 1;
    }
    proof {
        lemma_find_skip(es@, k@, i as int);
    }
    None
}

/// Whether `k` is a key among the entries `es`.
pub fn has_key(es: &Vec<(String, Value)>, k: &String) -> (r: bool)
    ensures
        r == find(es@, k@) is Some,
{
    let mut i: usize = 0;
    while i < es.len()
        invariant
            i <= es.len(),
            forall|j: int| 0 <= j < i ==> es@[j].0@ != k@,
        decreases es.len() - i,
    {
        if es[i].0 == *k {
            proof {
                lemma_find_skip(es@, k@, i as int);
            }
            return true;
        }
        i = i + 1;
    }
    proof {
        lemma_find_skip(es@, k@, i as int);
    }
    false
}

} // verus!
