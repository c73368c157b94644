//! The record value model and path access.
use vstd::prelude::*;

verus! {

/// The mathematical model of a [`Value`].
pub ghost enum Val {
    Null,
    Boolean(bool),
    Integer(i64),
    Float(u64),
    Bytes(Seq<char>),
    Array(Seq<Val>),
    Object(Seq<(Seq<char>, Val)>),
}

/// A record value: a tree of scalars, sequences and string-keyed mappings.
///
/// A mapping holds its entries in a `Vec`; a key is looked up by its first
/// occurrence, and writes through a path never add a second entry for a key.
/// A float is carried as its IEEE-754 bit pattern.
#[derive(Debug)]
pub enum Value {
    Null,
    Boolean(bool),
    Integer(i64),
    Float(u64),
    Bytes(String),
    Array(Vec<Value>),
    Object(Vec<(String, Value)>),
}

/// One step of a path: a mapping key or a sequence index.
#[derive(Debug)]
pub enum Segment {
    Field(String),
    Index(usize),
}

pub open spec fn model(v: Value) -> Val
    decreases v,
{
    match v {
        Value::Null => Val::Null,
        Value::Boolean(b) => Val::Boolean(b),
        Value::Integer(i) => Val::Integer(i),
        Value::Float(f) => Val::Float(f),
        Value::Bytes(s) => Val::Bytes(s@),
        Value::Array(items) => Val::Array(
            Seq::new(
                items@.len(),
                |i: int|
                    if 0 <= i < items@.len() {
                        model(items@[i])
                    } else {
                        Val::Null
                    },
            ),
        ),
        Value::Object(fields) => Val::Object(
            Seq::new(
                fields@.len(),
                |i: int|
                    if 0 <= i < fields@.len() {
                        (fields@[i].0@, model(fields@[i].1))
                    } else {
                        (Seq::empty(), Val::Null)
                    },
            ),
        ),
    }
}

impl View for Value {
    type V = Val;

    open spec fn view(&self) -> Val {
        model(*self)
    }
}

/// Index of the first entry at or after `i` whose key is `k`, or -1.
pub open spec fn find_key(entries: Seq<(Seq<char>, Val)>, k: Seq<char>, i: int) -> int
    decreases entries.len() - i,
{
    if i < 0 || i >= entries.len() {
        -1
    } else if entries[i].0 == k {
        i
    } else {
        find_key(entries, k, i + 1)
    }
}

/// The value found at `path` inside `v`; a missing step gives `Null`.
pub open spec fn get_spec(v: Val, path: Seq<Segment>) -> Val
    decreases path.len(),
{
    if path.len() == 0 {
        v
    } else {
        let rest = path.drop_first();
        match path[0] {
            Segment::Field(k) => match v {
                Val::Object(es) => {
                    let i = find_key(es, k@, 0);
                    if i < 0 {
                        Val::Null
                    } else {
                        get_spec(es[i].1, rest)
                    }
                },
                _ => Val::Null,
            },
            Segment::Index(n) => match v {
                Val::Array(xs) => if n < xs.len() {
                    get_spec(xs[n as int], rest)
                } else {
                    Val::Null
                },
                _ => Val::Null,
            },
        }
    }
}

/// The entries of `v` when it is a mapping; any other value counts as empty.
pub open spec fn entries_of(v: Val) -> Seq<(Seq<char>, Val)> {
    match v {
        Val::Object(es) => es,
        _ => Seq::empty(),
    }
}

/// The items of `v` when it is a sequence; any other value counts as empty.
pub open spec fn items_of(v: Val) -> Seq<Val> {
    match v {
        Val::Array(xs) => xs,
        _ => Seq::empty(),
    }
}

/// `v` with `new` stored at `path`.
///
/// A step that finds no mapping (or no sequence) where it needs one puts an
/// empty one there; a missing key is appended; an index past the end pads
/// the sequence with `Null`.
pub open spec fn set_spec(v: Val, path: Seq<Segment>, new: Val) -> Val
    decreases path.len(),
{
    if path.len() == 0 {
        new
    } else {
        let rest = path.drop_first();
        match path[0] {
            Segment::Field(k) => {
                let es = entries_of(v);
                let i = find_key(es, k@, 0);
                if i < 0 {
                    Val::Object(es.push((k@, set_spec(Val::Null, rest, new))))
                } else {
                    Val::Object(es.update(i, (k@, set_spec(es[i].1, rest, new))))
                }
            },
            Segment::Index(n) => {
                let xs = items_of(v);
                if n < xs.len() {
                    Val::Array(xs.update(n as int, set_spec(xs[n as int], rest, new)))
                } else {
                    Val::Array(
                        xs + Seq::new((n - xs.len()) as nat, |j: int| Val::Null).push(
                            set_spec(Val::Null, rest, new),
                        ),
                    )
                }
            },
        }
    }
}

/// Returns a deep copy of `v`.
pub fn copy_value(v: &Value) -> (r: Value)
    ensures
        r@ == v@,
    decreases v@,
{
    match v {
        Value::Null => Value::Null,
        Value::Boolean(b) => Value::Boolean(*b),
        Value::Integer(i) => Value::Integer(*i),
        Value::Float(f) => Value::Float(*f),
        Value::Bytes(s) => Value::Bytes(s.clone()),
        Value::Array(items) => {
            let mut out: Vec<Value> = Vec::new();
            let mut i: usize = 0;
            while i < items.len()
                invariant
                    *v == Value::Array(*items),
                    i <= items.len(),
                    out.len() == i,
                    forall|j: int| 0 <= j < i ==> (#[trigger] out@[j])@ == items@[j]@,
                decreases items.len() - i,
            {
                proof {
                    let s = v@->Array_0;
                    assert(s.len() == items.len());
                    assert(s[i as int] == items@[i as int]@);
                    assert(decreases_to!(v@ => v@->Array_0));
                    assert(decreases_to!(s => s[i as int]));
                }
                let c = copy_value(&items[i]);
                out.push(c);
                i = i + 1;
            }
            let r = Value::Array(out);
            assert(items_of(r@) =~= items_of(v@));
            r
        },
        Value::Object(fields) => {
            let mut out: Vec<(String, Value)> = Vec::new();
            let mut i: usize = 0;
            while i < fields.len()
                invariant
                    *v == Value::Object(*fields),
                    i <= fields.len(),
                    out.len() == i,
                    forall|j: int|
                        0 <= j < i ==> (#[trigger] out@[j]).0@ == fields@[j].0@ && out@[j].1@
                            == fields@[j].1@,
                decreases fields.len() - i,
            {
                proof {
                    let s = v@->Object_0;
                    assert(s.len() == fields.len());
                    assert(s[i as int].1 == fields@[i as int].1@);
                    assert(decreases_to!(v@ => v@->Object_0));
                    assert(decreases_to!(s => s[i as int]));
                    assert(decreases_to!(s[i as int] => s[i as int].1));
                }
                let k = fields[i].0.clone();
                let c = copy_value(&fields[i].1);
                out.push((k, c));
                i = i + 1;
            }
            let r = Value::Object(out);
            assert(entries_of(r@) =~= entries_of(v@));
            r
        },
    }
}

/// The model of a mapping's entries.
pub open spec fn entries_model(fields: Vec<(String, Value)>) -> Seq<(Seq<char>, Val)> {
    entries_of(Value::Object(fields)@)
}

/// The model of a sequence's items.
pub open spec fn items_model(items: Vec<Value>) -> Seq<Val> {
    items_of(Value::Array(items)@)
}

/// Finds the entry of `fields` whose key is `k`, by its first occurrence.
pub fn find_field(fields: &Vec<(String, Value)>, k: &String) -> (r: Option<usize>)
    ensures
        match r {
            None => find_key(entries_model(*fields), k@, 0) < 0,
            Some(j) => j == find_key(entries_model(*fields), k@, 0) && j < fields.len(),
        },
{
    let ghost es = entries_model(*fields);
    let mut j: usize = 0;
    while j < fields.len()
        invariant
            j <= fields.len(),
            es == entries_model(*fields),
            find_key(es, k@, 0) == find_key(es, k@, j as int),
        decreases fields.len() - j,
    {
        assert(es[j as int].0 == fields@[j as int].0@);
        if fields[j].0 == *k {
            return Some(j);
        }
        j = j + 1;
    }
    None
}

pub proof fn lemma_find_key_found(es: Seq<(Seq<char>, Val)>, k: Seq<char>, i: int)
    ensures
        find_key(es, k, i) >= 0 ==> i <= find_key(es, k, i) < es.len() && es[find_key(es, k, i)].0
            == k,
    decreases es.len() - i,
{
    if 0 <= i < es.len() && es[i].0 != k {
        lemma_find_key_found(es, k, i + 1);
    }
}

proof fn lemma_skip_step(path: Seq<Segment>, i: int)
    requires
        0 <= i < path.len(),
    ensures
        path.skip(i)[0] == path[i],
        path.skip(i).drop_first() == path.skip(i + 1),
        path.skip(i).len() > 0,
{
    assert(path.skip(i).drop_first() =~= path.skip(i + 1));
}

/// Reads the value at `path` inside `v`: a copy of it, or `Null` where the
/// path leads nowhere.
pub fn get_path(v: &Value, path: &Vec<Segment>) -> (r: Value)
    ensures
        r@ == get_spec(v@, path@),
{
    let mut cur: &Value = v;
    let mut i: usize = 0;
    assert(path@.skip(0) =~= path@);
    while i < path.len()
        invariant
            i <= path.len(),
            get_spec(v@, path@) == get_spec(cur@, path@.skip(i as int)),
        decreases path.len() - i,
    {
        proof {
            lemma_skip_step(path@, i as int);
        }
        match &path[i] {
            Segment::Field(k) => match cur {
                Value::Object(fields) => match find_field(fields, k) {
                    None => {
                        return Value::Null;
                    },
                    Some(j) => {
                        cur = &fields[j].1;
                    },
                },
                _ => {
                    return Value::Null;
                },
            },
            Segment::Index(n) => match cur {
                Value::Array(items) => {
                    if *n < items.len() {
                        cur = &items[*n];
                    } else {
                        return Value::Null;
                    }
                },
                _ => {
                    return Value::Null;
                },
            },
        }
        i = i + 1;
    }
    assert(path@.skip(i as int) =~= Seq::<Segment>::empty());
    copy_value(cur)
}

/// Stores `new` at `path.skip(i)` inside `v` and returns the result.
fn set_from(v: Value, path: &Vec<Segment>, i: usize, new: Value) -> (r: Value)
    requires
        i <= path.len(),
    ensures
        r@ == set_spec(v@, path@.skip(i as int), new@),
    decreases path.len() - i,
{
    if i == path.len() {
        assert(path@.skip(i as int) =~= Seq::<Segment>::empty());
        return new;
    }
    proof {
        lemma_skip_step(path@, i as int);
    }
    let ghost rest = path@.skip(i + 1);
    match &path[i] {
        Segment::Field(k) => {
            let ghost es = entries_of(v@);
            let mut fields: Vec<(String, Value)> = match v {
                Value::Object(fs) => fs,
                _ => Vec::new(),
            };
            assert(entries_model(fields) =~= es);
            match find_field(&fields, k) {
                None => {
                    let c = set_from(Value::Null, path, i + 1, new);
                    fields.push((k.clone(), c));
                    let r = Value::Object(fields);
                    assert(entries_of(r@) =~= es.push((k@, set_spec(Val::Null, rest, new@))));
                    r
                },
                Some(j) => {
                    proof {
                        lemma_find_key_found(es, k@, 0);
                    }
                    let (key, child) = fields.remove(j);
                    let c = set_from(child, path, i + 1, new);
                    fields.insert(j, (key, c));
                    let r = Value::Object(fields);
                    assert(entries_of(r@) =~= es.update(
                        j as int,
                        (k@, set_spec(es[j as int].1, rest, new@)),
                    ));
                    r
                },
            }
        },
        Segment::Index(n) => {
            let ghost xs = items_of(v@);
            let mut items: Vec<Value> = match v {
                Value::Array(xs) => xs,
                _ => Vec::new(),
            };
            assert(items_model(items) =~= xs);
            if *n < items.len() {
                let child = items.remove(*n);
                let c = set_from(child, path, i + 1, new);
                items.insert(*n, c);
                let r = Value::Array(items);
                assert(items_of(r@) =~= xs.update(*n as int, set_spec(xs[*n as int], rest, new@)));
                r
            } else {
                let ghost pad = Seq::new((*n - xs.len()) as nat, |j: int| Val::Null);
                while items.len() < *n
                    invariant
                        xs.len() <= items.len() <= *n,
                        items_model(items) =~= xs + pad.subrange(0, items.len() - xs.len()),
                        pad == Seq::new((*n - xs.len()) as nat, |j: int| Val::Null),
                    decreases *n - items.len(),
                {
                    let ghost before = items_model(items);
                    items.push(Value::Null);
                    assert(model(items@[items.len() - 1]) == Val::Null);
                    assert(items_model(items) =~= before.push(Val::Null));
                    assert(items_model(items) =~= xs + pad.subrange(0, items.len() - xs.len()));
                }
                assert(pad.subrange(0, items.len() - xs.len()) =~= pad);
                let c = set_from(Value::Null, path, i + 1, new);
                items.push(c);
                let r = Value::Array(items);
                assert(items_of(r@) =~= (xs + pad).push(set_spec(Val::Null, rest, new@)));
                r
            }
        },
    }
}

/// Stores `new` at `path` inside `target`, creating the mappings and
/// sequences that the path passes through where they are missing.
pub fn set_path(target: &mut Value, path: &Vec<Segment>, new: Value)
    ensures
        final(target)@ == set_spec(old(target)@, path@, new@),
{
    let mut v = Value::Null;
    core::mem::swap(target, &mut v);
    let r = set_from(v, path, 0, new);
    assert(path@.skip(0) =~= path@);
    *target = r;
}

/// Deep equality of two values.
pub fn values_equal(a: &Value, b: &Value) -> (r: bool)
    ensures
        r == (a@ == b@),
    decreases a@,
{
    match (a, b) {
        (Value::Null, Value::Null) => true,
        (Value::Boolean(x), Value::Boolean(y)) => *x == *y,
        (Value::Integer(x), Value::Integer(y)) => *x == *y,
        (Value::Float(x), Value::Float(y)) => *x == *y,
        (Value::Bytes(x), Value::Bytes(y)) => *x == *y,
        (Value::Array(xs), Value::Array(ys)) => {
            if xs.len() != ys.len() {
                assert(items_of(a@).len() != items_of(b@).len());
                return false;
            }
            let mut i: usize = 0;
            while i < xs.len()
                invariant
                    *a == Value::Array(*xs),
                    *b == Value::Array(*ys),
                    xs.len() == ys.len(),
                    i <= xs.len(),
                    forall|j: int| 0 <= j < i ==> (#[trigger] xs@[j])@ == ys@[j]@,
                decreases xs.len() - i,
            {
                proof {
                    let s = a@->Array_0;
                    assert(s[i as int] == xs@[i as int]@);
                    assert(decreases_to!(a@ => a@->Array_0));
                    assert(decreases_to!(s => s[i as int]));
                }
                if !values_equal(&xs[i], &ys[i]) {
                    assert(items_of(a@)[i as int] != items_of(b@)[i as int]);
                    return false;
                }
                i = i + 1;
            }
            assert(items_of(a@) =~= items_of(b@));
            true
        },
        (Value::Object(xs), Value::Object(ys)) => {
            if xs.len() != ys.len() {
                assert(entries_of(a@).len() != entries_of(b@).len());
                return false;
            }
            let mut i: usize = 0;
            while i < xs.len()
                invariant
                    *a == Value::Object(*xs),
                    *b == Value::Object(*ys),
                    xs.len() == ys.len(),
                    i <= xs.len(),
                    forall|j: int|
                        0 <= j < i ==> (#[trigger] xs@[j]).0@ == ys@[j].0@ && xs@[j].1@
                            == ys@[j].1@,
                decreases xs.len() - i,
            {
                proof {
                    let s = a@->Object_0;
                    assert(s[i as int].1 == xs@[i as int].1@);
                    assert(decreases_to!(a@ => a@->Object_0));
                    assert(decreases_to!(s => s[i as int]));
                    assert(decreases_to!(s[i as int] => s[i as int].1));
                }
                if xs[i].0 != ys[i].0 {
                    assert(entries_of(a@)[i as int] != entries_of(b@)[i as int]);
                    return false;
                }
                if !values_equal(&xs[i].1, &ys[i].1) {
                    assert(entries_of(a@)[i as int] != entries_of(b@)[i as int]);
                    return false;
                }
                i = i + 1;
            }
            assert(entries_of(a@) =~= entries_of(b@));
            true
        },
        _ => false,
    }
}

proof fn lemma_find_key_push(es: Seq<(Seq<char>, Val)>, k: Seq<char>, e: (Seq<char>, Val), i: int)
    requires
        0 <= i <= es.len(),
    ensures
        find_key(es, k, i) >= 0 ==> find_key(es.push(e), k, i) == find_key(es, k, i),
        find_key(es, k, i) < 0 && e.0 == k ==> find_key(es.push(e), k, i) == es.len(),
        find_key(es, k, i) < 0 && e.0 != k ==> find_key(es.push(e), k, i) < 0,
    decreases es.len() - i,
{
    if i < es.len() {
        assert(es.push(e)[i] == es[i]);
        lemma_find_key_push(es, k, e, i + 1);
    } else {
        assert(es.push(e)[i] == e);
        assert(find_key(es.push(e), k, i + 1) == -1);
    }
}

proof fn lemma_find_key_update(
    es: Seq<(Seq<char>, Val)>,
    k: Seq<char>,
    j: int,
    e: (Seq<char>, Val),
    i: int,
)
    requires
        0 <= i <= es.len(),
        0 <= j < es.len(),
        es[j].0 == e.0,
    ensures
        find_key(es.update(j, e), k, i) == find_key(es, k, i),
    decreases es.len() - i,
{
    if i < es.len() {
        lemma_find_key_update(es, k, j, e, i + 1);
    }
}

/// Writing a value at a path and reading the same path gives that value
/// back, whatever stood in the way before.
pub proof fn lemma_get_set(v: Val, path: Seq<Segment>, new: Val)
    ensures
        get_spec(set_spec(v, path, new), path) == new,
    decreases path.len(),
{
    if path.len() > 0 {
        let rest = path.drop_first();
        match path[0] {
            Segment::Field(k) => {
                let es = entries_of(v);
                let i = find_key(es, k@, 0);
                if i < 0 {
                    lemma_find_key_push(es, k@, (k@, set_spec(Val::Null, rest, new)), 0);
                    lemma_get_set(Val::Null, rest, new);
                } else {
                    lemma_find_key_found(es, k@, 0);
                    lemma_find_key_update(es, k@, i, (k@, set_spec(es[i].1, rest, new)), 0);
                    lemma_get_set(es[i].1, rest, new);
                }
            },
            Segment::Index(n) => {
                let xs = items_of(v);
                if n < xs.len() {
                    lemma_get_set(xs[n as int], rest, new);
                } else {
                    lemma_get_set(Val::Null, rest, new);
                    let pad = Seq::new((n - xs.len()) as nat, |j: int| Val::Null);
                    assert((xs + pad).push(set_spec(Val::Null, rest, new))[n as int] == set_spec(
                        Val::Null,
                        rest,
                        new,
                    ));
                }
            },
        }
    }
}

/// Writing through a key of a mapping leaves every other key of that
/// mapping as it was: only the entry on the path is created or changed.
pub proof fn lemma_set_keeps_other_keys(
    v: Val,
    k: String,
    rest: Seq<Segment>,
    new: Val,
    other: String,
)
    requires
        v is Object,
        other@ != k@,
    ensures
        get_spec(set_spec(v, seq![Segment::Field(k)] + rest, new), seq![Segment::Field(other)])
            == get_spec(v, seq![Segment::Field(other)]),
{
    let path = seq![Segment::Field(k)] + rest;
    assert(path[0] == Segment::Field(k));
    assert(path.drop_first() =~= rest);
    let q = seq![Segment::Field(other)];
    assert(q.drop_first() =~= Seq::<Segment>::empty());
    let es = entries_of(v);
    let i = find_key(es, k@, 0);
    lemma_find_key_found(es, other@, 0);
    let o = find_key(es, other@, 0);
    if i < 0 {
        let e = (k@, set_spec(Val::Null, rest, new));
        lemma_find_key_push(es, other@, e, 0);
        if o >= 0 {
            assert(es.push(e)[o] == es[o]);
        }
        assert(set_spec(v, path, new) == Val::Object(es.push(e)));
    } else {
        lemma_find_key_found(es, k@, 0);
        lemma_find_key_update(es, other@, i, (k@, set_spec(es[i].1, rest, new)), 0);
        let es2 = es.update(i, (k@, set_spec(es[i].1, rest, new)));
        assert(set_spec(v, path, new) == Val::Object(es2));
        if o >= 0 {
            assert(o != i);
            assert(es2[o] == es[o]);
        }
    }
}

/// A path that leads through a missing key reads as `Null`, not as an
/// error.
pub proof fn lemma_get_missing_key(v: Val, k: String, rest: Seq<Segment>)
    requires
        find_key(entries_of(v), k@, 0) < 0,
    ensures
        get_spec(v, seq![Segment::Field(k)] + rest) == Val::Null,
{
    let path = seq![Segment::Field(k)] + rest;
    assert(path[0] == Segment::Field(k));
}

/// Returns a copy of `path`.
pub fn copy_path(path: &Vec<Segment>) -> (r: Vec<Segment>)
    ensures
        r@ == path@,
{
    let mut out: Vec<Segment> = Vec::new();
    let mut i: usize = 0;
    while i < path.len()
        invariant
            i <= path.len(),
            out@ == path@.subrange(0, i as int),
        decreases path.len() - i,
    {
        let s = match &path[i] {
            Segment::Field(k) => Segment::Field(k.clone()),
            Segment::Index(n) => Segment::Index(*n),
        };
        out.push(s);
        i = i + 1;
        assert(out@ =~= path@.subrange(0, i as int));
    }
    assert(path@.subrange(0, i as int) =~= path@);
    out
}

/// No two entries of a mapping share a key.
pub open spec fn keys_unique(es: Seq<(Seq<char>, Val)>) -> bool {
    forall|i: int, j: int| 0 <= i < j < es.len() ==> es[i].0 != es[j].0
}

proof fn lemma_find_key_absent(es: Seq<(Seq<char>, Val)>, k: Seq<char>, i: int)
    requires
        0 <= i,
        find_key(es, k, i) < 0,
    ensures
        forall|j: int| i <= j < es.len() ==> es[j].0 != k,
    decreases es.len() - i,
{
    if i < es.len() {
        lemma_find_key_absent(es, k, i + 1);
    }
}

/// A write through a key of a mapping keeps its keys unique: a missing key
/// is added once, and a present one is updated in place.
pub proof fn lemma_set_keeps_keys_unique(v: Val, k: String, rest: Seq<Segment>, new: Val)
    requires
        keys_unique(entries_of(v)),
    ensures
        keys_unique(entries_of(set_spec(v, seq![Segment::Field(k)] + rest, new))),
{
    let path = seq![Segment::Field(k)] + rest;
    assert(path[0] == Segment::Field(k));
    assert(path.drop_first() =~= rest);
    let es = entries_of(v);
    let i = find_key(es, k@, 0);
    if i < 0 {
        lemma_find_key_absent(es, k@, 0);
        let es2 = es.push((k@, set_spec(Val::Null, rest, new)));
        assert(entries_of(set_spec(v, path, new)) == es2);
        assert forall|a: int, b: int| 0 <= a < b < es2.len() implies es2[a].0 != es2[b].0 by {
            if b == es.len() {
                assert(es2[a] == es[a]);
            } else {
                assert(es2[a] == es[a] && es2[b] == es[b]);
            }
        }
    } else {
        lemma_find_key_found(es, k@, 0);
        let es2 = es.update(i, (k@, set_spec(es[i].1, rest, new)));
        assert(entries_of(set_spec(v, path, new)) == es2);
        assert forall|a: int, b: int| 0 <= a < b < es2.len() implies es2[a].0 != es2[b].0 by {
            assert(es2[a].0 == es[a].0 && es2[b].0 == es[b].0);
        }
    }
}

} // verus!
