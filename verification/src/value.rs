//! The JSON-like metadata value: a recursive tagged union with a
//! deep-merge operation.
//!
//! `Obj` values keep their entries as an association list in insertion
//! order; well-formed values never repeat a key.  Merging two `Obj`
//! values is recursive: nested objects merge, nested arrays
//! concatenate, and any other pair is replaced wholesale by the
//! right-hand operand.

use vstd::prelude::*;

verus! {

/// A metadata value.  `Float` carries the IEEE-754 bit pattern of a
/// 64-bit float so that float payloads travel losslessly without any
/// float arithmetic happening here.
#[derive(Debug, PartialEq, Eq)]
pub enum Value {
    Null,
    Bool(bool),
    Int(i64),
    Float(u64),
    Str(String),
    Bytes(Vec<u8>),
    Arr(Vec<Value>),
    Obj(Vec<(String, Value)>),
}

/// The mathematical shape of a `Value`: strings become `Seq<char>`,
/// vectors become `Seq`, objects become association sequences.
pub enum ValueView {
    Null,
    Bool(bool),
    Int(int),
    Float(u64),
    Str(Seq<char>),
    Bytes(Seq<u8>),
    Arr(Seq<ValueView>),
    Obj(Seq<(Seq<char>, ValueView)>),
}

pub open spec fn value_view(v: Value) -> ValueView
    decreases v, 1int,
{
    match v {
        Value::Null => ValueView::Null,
        Value::Bool(b) => ValueView::Bool(b),
        Value::Int(i) => ValueView::Int(i as int),
        Value::Float(f) => ValueView::Float(f),
        Value::Str(s) => ValueView::Str(s@),
        Value::Bytes(b) => ValueView::Bytes(b@),
        Value::Arr(a) => ValueView::Arr(arr_view_rec(a@)),
        Value::Obj(es) => ValueView::Obj(entries_view_rec(es@)),
    }
}

pub open spec fn arr_view_rec(s: Seq<Value>) -> Seq<ValueView>
    decreases s, 0int,
{
    if s.len() == 0 {
        Seq::empty()
    } else {
        arr_view_rec(s.drop_last()).push(value_view(s.last()))
    }
}

pub open spec fn entries_view_rec(s: Seq<(String, Value)>) -> Seq<(Seq<char>, ValueView)>
    decreases s, 0int,
{
    if s.len() == 0 {
        Seq::empty()
    } else {
        entries_view_rec(s.drop_last()).push((s.last().0@, value_view(s.last().1)))
    }
}

/// Pointwise form of `arr_view_rec`.
pub open spec fn arr_view(s: Seq<Value>) -> Seq<ValueView> {
    Seq::new(s.len(), |i: int| value_view(s[i]))
}

/// Pointwise form of `entries_view_rec`.
pub open spec fn entries_view(s: Seq<(String, Value)>) -> Seq<(Seq<char>, ValueView)> {
    Seq::new(s.len(), |i: int| (s[i].0@, value_view(s[i].1)))
}

pub proof fn lemma_arr_view(s: Seq<Value>)
    ensures
        arr_view_rec(s) == arr_view(s),
    decreases s.len(),
{
    if s.len() > 0 {
        lemma_arr_view(s.drop_last());
        assert(arr_view_rec(s) =~= arr_view(s));
    } else {
        assert(arr_view_rec(s) =~= arr_view(s));
    }
}

pub proof fn lemma_entries_view(s: Seq<(String, Value)>)
    ensures
        entries_view_rec(s) == entries_view(s),
    decreases s.len(),
{
    if s.len() > 0 {
        lemma_entries_view(s.drop_last());
        assert(entries_view_rec(s) =~= entries_view(s));
    } else {
        assert(entries_view_rec(s) =~= entries_view(s));
    }
}

impl View for Value {
    type V = ValueView;

    open spec fn view(&self) -> ValueView {
        value_view(*self)
    }
}

/// Index of the first entry with key `k`, or `es.len()` if no entry
/// has that key.
pub open spec fn obj_key_index(es: Seq<(Seq<char>, ValueView)>, k: Seq<char>) -> int
    decreases es.len(),
{
    if es.len() == 0 {
        0
    } else if es[0].0 == k {
        0
    } else {
        1 + obj_key_index(es.drop_first(), k)
    }
}

/// Value stored under key `k`, if any.
pub open spec fn obj_lookup(es: Seq<(Seq<char>, ValueView)>, k: Seq<char>) -> Option<ValueView> {
    let i = obj_key_index(es, k);
    if i < es.len() {
        Some(es[i].1)
    } else {
        None
    }
}

pub open spec fn obj_has_key(es: Seq<(Seq<char>, ValueView)>, k: Seq<char>) -> bool {
    obj_key_index(es, k) < es.len()
}

/// Well-formed values: every object has pairwise distinct keys, at
/// every nesting depth.
pub open spec fn view_wf(v: ValueView) -> bool
    decreases v,
{
    match v {
        ValueView::Arr(a) => forall|i: int| 0 <= i < a.len() ==> view_wf(#[trigger] a[i]),
        ValueView::Obj(es) => {
            &&& forall|i: int, j: int| 0 <= i < j < es.len() ==> es[i].0 != es[j].0
            &&& forall|i: int| 0 <= i < es.len() ==> view_wf(#[trigger] es[i].1)
        },
        _ => true,
    }
}

pub proof fn lemma_obj_key_index(es: Seq<(Seq<char>, ValueView)>, k: Seq<char>)
    ensures
        0 <= obj_key_index(es, k) <= es.len(),
        obj_key_index(es, k) < es.len() ==> es[obj_key_index(es, k)].0 == k,
        forall|j: int| 0 <= j < obj_key_index(es, k) ==> es[j].0 != k,
    decreases es.len(),
{
    if es.len() != 0 && es[0].0 != k {
        lemma_obj_key_index(es.drop_first(), k);
        assert forall|j: int| 0 <= j < obj_key_index(es, k) implies es[j].0 != k by {
            if j > 0 {
                assert(es.drop_first()[j - 1] == es[j]);
            }
        }
    }
}

/// The deep merge of `a` and `b`: objects merge per key, arrays
/// concatenate, anything else is replaced by `b`.
pub open spec fn spec_merge(a: ValueView, b: ValueView) -> ValueView
    decreases b, 0int,
{
    match b {
        ValueView::Obj(ys) => match a {
            ValueView::Obj(xs) => ValueView::Obj(spec_merge_entries(xs, ys)),
            _ => b,
        },
        ValueView::Arr(ys) => match a {
            ValueView::Arr(xs) => ValueView::Arr(xs + ys),
            _ => b,
        },
        _ => b,
    }
}

/// Fold the entries of `ys` into `xs`, left to right.
pub open spec fn spec_merge_entries(
    xs: Seq<(Seq<char>, ValueView)>,
    ys: Seq<(Seq<char>, ValueView)>,
) -> Seq<(Seq<char>, ValueView)>
    decreases ys, 2int,
{
    if ys.len() == 0 {
        xs
    } else {
        spec_merge_entries(spec_merge_one(xs, ys[0]), ys.drop_first())
    }
}

/// Merge one entry into `xs`: a fresh key is appended; an existing key
/// keeps its position and its value merges when both sides are objects
/// or both are arrays, and is replaced otherwise.
pub open spec fn spec_merge_one(
    xs: Seq<(Seq<char>, ValueView)>,
    e: (Seq<char>, ValueView),
) -> Seq<(Seq<char>, ValueView)>
    decreases e, 1int,
{
    let i = obj_key_index(xs, e.0);
    if i == xs.len() {
        xs.push(e)
    } else {
        let u = xs[i].1;
        if (u is Obj && e.1 is Obj) || (u is Arr && e.1 is Arr) {
            xs.update(i, (xs[i].0, spec_merge(u, e.1)))
        } else {
            xs.update(i, (xs[i].0, e.1))
        }
    }
}

impl Value {
    /// An empty object.
    pub fn empty_obj() -> (r: Value)
        ensures
            r@ == ValueView::Obj(Seq::<(Seq<char>, ValueView)>::empty()),
    {
        let r = Value::Obj(Vec::new());
        proof {
            assert(entries_view_rec(Seq::<(String, Value)>::empty())
                == Seq::<(Seq<char>, ValueView)>::empty());
        }
        r
    }

    /// A structurally equal copy.
    #[verifier::loop_isolation(false)]
    pub fn duplicate(&self) -> (r: Value)
        ensures
            r@ == self@,
        decreases *self,
    {
        match self {
            Value::Null => Value::Null,
            Value::Bool(b) => Value::Bool(*b),
            Value::Int(i) => Value::Int(*i),
            Value::Float(f) => Value::Float(*f),
            Value::Str(s) => Value::Str(s.clone()),
            Value::Bytes(b) => {
                let mut out: Vec<u8> = Vec::new();
                let mut i: usize = 0;
                while i < b.len()
                    invariant
                        i <= b.len(),
                        out@ == b@.take(i as int),
                    decreases b.len() - i,
                {
                    out.push(b[i]);
                    proof {
                        assert(out@ =~= b@.take(i + 1));
                    }
                    i = i + 1;
                }
                proof {
                    assert(out@ =~= b@);
                }
                Value::Bytes(out)
            },
            Value::Arr(a) => {
                let mut out: Vec<Value> = Vec::new();
                let mut i: usize = 0;
                while i < a.len()
                    invariant
                        i <= a.len(),
                        out@.len() == i,
                        forall|j: int| 0 <= j < i ==> value_view(out@[j]) == value_view(a@[j]),
                    decreases a.len() - i,
                {
                    proof {
                        assert(decreases_to!(*a => a@[i as int])) by {
                            assert(decreases_to!(*a => a@));
                            assert(decreases_to!(a@ => a@[i as int]));
                        }
                    }
                    out.push(a[i].duplicate());
                    i = i + 1;
                }
                let r = Value::Arr(out);
                proof {
                    lemma_arr_view(out@);
                    lemma_arr_view(a@);
                    assert(arr_view(out@) =~= arr_view(a@));
                }
                r
            },
            Value::Obj(es) => {
                let mut out: Vec<(String, Value)> = Vec::new();
                let mut i: usize = 0;
                while i < es.len()
                    invariant
                        i <= es.len(),
                        out@.len() == i,
                        forall|j: int| 0 <= j < i ==> (#[trigger] out@[j]).0@ == es@[j].0@
                            && value_view(out@[j].1) == value_view(es@[j].1),
                    decreases es.len() - i,
                {
                    proof {
                        assert(decreases_to!(*es => es@[i as int].1)) by {
                            assert(decreases_to!(*es => es@));
                            assert(decreases_to!(es@ => es@[i as int]));
                            assert(decreases_to!(es@[i as int] => es@[i as int].1));
                        }
                    }
                    let k = es[i].0.clone();
                    let v = es[i].1.duplicate();
                    out.push((k, v));
                    i = i + 1;
                }
                let r = Value::Obj(out);
                proof {
                    lemma_entries_view(out@);
                    lemma_entries_view(es@);
                    assert(entries_view(out@) =~= entries_view(es@));
                }
                r
            },
        }
    }
}

/// Deep-merge `other` into `one` in place.
pub fn merge_values(one: &mut Value, other: Value)
    ensures
        final(one)@ == spec_merge(old(one)@, other@),
{
    let mut tmp = Value::Null;
    core::mem::swap(&mut tmp, one);
    *one = merge_owned(tmp, &other);
}

/// Deep-merge, returning the merged value.
#[verifier::loop_isolation(false)]
fn merge_owned(a: Value, b: &Value) -> (r: Value)
    ensures
        r@ == spec_merge(a@, b@),
    decreases *b, 0int,
{
    match b {
        Value::Obj(ys) => {
            match a {
                Value::Obj(xs) => {
                    proof {
                        lemma_entries_view(xs@);
                        lemma_entries_view(ys@);
                        assert(decreases_to!(*b => *ys)) by {
                            assert(decreases_to!(*b => b->Obj_0));
                        }
                    }
                    let merged = merge_entries(xs, ys);
                    proof {
                        lemma_entries_view(merged@);
                    }
                    let r = Value::Obj(merged);
                    r
                },
                _ => b.duplicate(),
            }
        },
        Value::Arr(ys) => {
            match a {
                Value::Arr(mut xs) => {
                    let ghost xs0 = xs@;
                    let mut i: usize = 0;
                    while i < ys.len()
                        invariant
                            i <= ys.len(),
                            xs@.len() == xs0.len() + i,
                            xs@.subrange(0, xs0.len() as int) == xs0,
                            forall|j: int| 0 <= j < i ==> value_view(
                                #[trigger] xs@[xs0.len() + j],
                            ) == value_view(ys@[j]),
                        decreases ys.len() - i,
                    {
                        xs.push(ys[i].duplicate());
                        proof {
                            assert(xs@.subrange(0, xs0.len() as int) =~= xs0);
                        }
                        i = i + 1;
                    }
                    let r = Value::Arr(xs);
                    proof {
                        lemma_arr_view(xs@);
                        lemma_arr_view(xs0);
                        lemma_arr_view(ys@);
                        assert forall|k: int| 0 <= k < xs@.len() implies arr_view(xs@)[k] == (
                        arr_view(xs0) + arr_view(ys@))[k] by {
                            if k < xs0.len() {
                                assert(xs@.subrange(0, xs0.len() as int)[k] == xs@[k]);
                            } else {
                                assert(value_view(xs@[xs0.len() + (k - xs0.len())]) == value_view(
                                    ys@[k - xs0.len()],
                                ));
                            }
                        }
                        assert(arr_view(xs@) =~= arr_view(xs0) + arr_view(ys@));
                    }
                    r
                },
                _ => b.duplicate(),
            }
        },
        Value::Null => b.duplicate(),
        Value::Bool(_) => b.duplicate(),
        Value::Int(_) => b.duplicate(),
        Value::Float(_) => b.duplicate(),
        Value::Str(_) => b.duplicate(),
        Value::Bytes(_) => b.duplicate(),
    }
}

/// True when both values are objects or both are arrays, the two
/// cases in which an existing entry merges instead of being replaced.
fn kinds_merge(u: &Value, v: &Value) -> (r: bool)
    ensures
        r == ((value_view(*u) is Obj && value_view(*v) is Obj) || (value_view(*u) is Arr
            && value_view(*v) is Arr)),
{
    match (u, v) {
        (Value::Obj(_), Value::Obj(_)) => true,
        (Value::Arr(_), Value::Arr(_)) => true,
        _ => false,
    }
}

/// Fold every entry of `ys` into `xs`, left to right.
#[verifier::loop_isolation(false)]
fn merge_entries(xs: Vec<(String, Value)>, ys: &Vec<(String, Value)>) -> (r: Vec<(String, Value)>)
    ensures
        entries_view(r@) == spec_merge_entries(entries_view(xs@), entries_view(ys@)),
    decreases *ys, 2int,
{
    let ghost xs0 = entries_view(xs@);
    let ghost ysv = entries_view(ys@);
    let mut acc = xs;
    let mut i: usize = 0;
    proof {
        assert(ysv.take(0int) =~= Seq::<(Seq<char>, ValueView)>::empty());
    }
    while i < ys.len()
        invariant
            i <= ys.len(),
            ysv == entries_view(ys@),
            entries_view(acc@) == spec_merge_entries(xs0, ysv.take(i as int)),
        decreases ys.len() - i,
    {
        proof {
            assert(ysv.take(i as int).push(ysv[i as int]) =~= ysv.take(i + 1));
            lemma_merge_entries_snoc(xs0, ysv.take(i as int), ysv[i as int]);
            assert(decreases_to!(*ys => ys@[i as int].1)) by {
                assert(decreases_to!(*ys => ys@));
                assert(decreases_to!(ys@ => ys@[i as int]));
                assert(decreases_to!(ys@[i as int] => ys@[i as int].1));
            }
        }
        acc = merge_push(acc, &ys[i].0, &ys[i].1);
        i = i + 1;
    }
    proof {
        assert(ysv.take(ysv.len() as int) =~= ysv);
    }
    acc
}

/// Merge the single entry `(key, val)` into `xs`.
#[verifier::loop_isolation(false)]
fn merge_push(xs: Vec<(String, Value)>, key: &String, val: &Value) -> (r: Vec<(String, Value)>)
    ensures
        entries_view(r@) == spec_merge_one(entries_view(xs@), (key@, value_view(*val))),
    decreases *val, 1int,
{
    let ghost xsv = entries_view(xs@);
    proof {
        lemma_obj_key_index(xsv, key@);
    }
    let mut acc = xs;
    let mut i: usize = 0;
    while i < acc.len()
        invariant
            i <= acc.len(),
            xsv == entries_view(acc@),
            forall|j: int| 0 <= j < i ==> xsv[j].0 != key@,
        decreases acc.len() - i,
    {
        if acc[i].0 == *key {
            proof {
                assert(xsv[i as int].0 == key@);
                assert(obj_key_index(xsv, key@) == i) by {
                    lemma_obj_key_index(xsv, key@);
                    let ix = obj_key_index(xsv, key@);
                    assert(0 <= ix <= xsv.len());
                    if ix < i {
                        assert(xsv[ix].0 != key@);
                        assert(xsv[ix].0 == key@);
                    }
                    if ix > i {
                        assert(xsv[i as int].0 != key@);
                    }
                }
            }
            let (k, u) = acc.remove(i);
            let merged = if kinds_merge(&u, val) {
                merge_owned(u, val)
            } else {
                val.duplicate()
            };
            acc.insert(i, (k, merged));
            proof {
                assert(entries_view(acc@) =~= spec_merge_one(xsv, (key@, value_view(*val))));
            }
            return acc;
        }
        i = i + 1;
    }
    proof {
        assert(obj_key_index(xsv, key@) == xsv.len()) by {
            let ix = obj_key_index(xsv, key@);
            if ix < xsv.len() {
                assert(xsv[ix].0 == key@);
            }
        }
    }
    let k = clone_string(key);
    let v = val.duplicate();
    acc.push((k, v));
    proof {
        assert(entries_view(acc@) =~= xsv.push((key@, value_view(*val))));
    }
    acc
}

/// A copy of a string, with its contents known.
pub fn clone_string(s: &String) -> (r: String)
    ensures
        r@ == s@,
{
    s.clone()
}

/// Folding a sequence of entries ending in `e` is folding the prefix,
/// then merging `e`.
pub proof fn lemma_merge_entries_snoc(
    xs: Seq<(Seq<char>, ValueView)>,
    ys: Seq<(Seq<char>, ValueView)>,
    e: (Seq<char>, ValueView),
)
    ensures
        spec_merge_entries(xs, ys.push(e)) == spec_merge_one(spec_merge_entries(xs, ys), e),
    decreases ys.len(),
{
    reveal_with_fuel(spec_merge_entries, 3);
    if ys.len() == 0 {
        assert(ys.push(e)[0] == e);
        assert(ys.push(e).drop_first() =~= Seq::<(Seq<char>, ValueView)>::empty());
    } else {
        assert(ys.push(e)[0] == ys[0]);
        assert(ys.push(e).drop_first() =~= ys.drop_first().push(e));
        lemma_merge_entries_snoc(spec_merge_one(xs, ys[0]), ys.drop_first(), e);
    }
}

/// `es` with `v` stored under `k`: an existing entry keeps its
/// position, a fresh key is appended.
pub open spec fn obj_upsert(
    es: Seq<(Seq<char>, ValueView)>,
    k: Seq<char>,
    v: ValueView,
) -> Seq<(Seq<char>, ValueView)> {
    let i = obj_key_index(es, k);
    if i < es.len() {
        es.update(i, (k, v))
    } else {
        es.push((k, v))
    }
}

/// `es` without the entry under `k` (unchanged when the key is absent).
pub open spec fn obj_removed(es: Seq<(Seq<char>, ValueView)>, k: Seq<char>) -> Seq<
    (Seq<char>, ValueView),
> {
    let i = obj_key_index(es, k);
    if i < es.len() {
        es.remove(i)
    } else {
        es
    }
}

impl Value {
    /// The entries of an object value; the empty sequence for any
    /// other value.
    pub open spec fn entries(self) -> Seq<(Seq<char>, ValueView)> {
        match value_view(self) {
            ValueView::Obj(es) => es,
            _ => Seq::empty(),
        }
    }

    /// Look a key up in an object value.
    #[verifier::loop_isolation(false)]
    pub fn obj_get(&self, key: &str) -> (r: Option<&Value>)
        ensures
            match obj_lookup(self.entries(), key@) {
                Some(v) => r matches Some(p) && p@ == v && self@ is Obj,
                None => r is None,
            },
    {
        match self {
            Value::Obj(es) => {
                proof {
                    lemma_entries_view(es@);
                    lemma_obj_key_index(entries_view(es@), key@);
                }
                let ghost esv = entries_view(es@);
                let mut i: usize = 0;
                while i < es.len()
                    invariant
                        i <= es.len(),
                        forall|j: int| 0 <= j < i ==> esv[j].0 != key@,
                    decreases es.len() - i,
                {
                    if compare_str(&es[i].0, key) {
                        proof {
                            assert(esv[i as int].0 == key@);
                            assert(obj_key_index(esv, key@) == i) by {
                                let ix = obj_key_index(esv, key@);
                                if ix < i {
                                    assert(esv[ix].0 != key@);
                                    assert(esv[ix].0 == key@);
                                }
                                if ix > i {
                                    assert(esv[i as int].0 != key@);
                                }
                            }
                        }
                        return Some(&es[i].1);
                    }
                    i = i + 1;
                }
                proof {
                    assert(obj_key_index(esv, key@) == esv.len()) by {
                        let ix = obj_key_index(esv, key@);
                        if ix < esv.len() {
                            assert(esv[ix].0 == key@);
                        }
                    }
                }
                None
            },
            _ => None,
        }
    }

    /// Store `val` under `key` in an object value: an upsert that
    /// keeps an existing entry's position.
    #[verifier::loop_isolation(false)]
    pub fn obj_insert(&mut self, key: &str, val: Value)
        requires
            old(self)@ is Obj,
        ensures
            final(self)@ == ValueView::Obj(obj_upsert(old(self).entries(), key@, val@)),
    {
        match self {
            Value::Obj(es) => {
                proof {
                    lemma_entries_view(es@);
                    lemma_obj_key_index(entries_view(es@), key@);
                }
                let ghost esv = entries_view(es@);
                let mut i: usize = 0;
                while i < es.len()
                    invariant
                        i <= es.len(),
                        esv == entries_view(es@),
                        forall|j: int| 0 <= j < i ==> esv[j].0 != key@,
                    decreases es.len() - i,
                {
                    if compare_str(&es[i].0, key) {
                        proof {
                            assert(esv[i as int].0 == key@);
                            assert(obj_key_index(esv, key@) == i) by {
                                let ix = obj_key_index(esv, key@);
                                if ix < i {
                                    assert(esv[ix].0 != key@);
                                    assert(esv[ix].0 == key@);
                                }
                                if ix > i {
                                    assert(esv[i as int].0 != key@);
                                }
                            }
                        }
                        let _ = es.remove(i);
                        es.insert(i, (key.to_owned(), val));
                        proof {
                            lemma_entries_view(es@);
                            assert(entries_view(es@) =~= obj_upsert(esv, key@, value_view(val)));
                        }
                        return ;
                    }
                    i = i + 1;
                }
                proof {
                    assert(obj_key_index(esv, key@) == esv.len()) by {
                        let ix = obj_key_index(esv, key@);
                        if ix < esv.len() {
                            assert(esv[ix].0 == key@);
                        }
                    }
                }
                es.push((key.to_owned(), val));
                proof {
                    lemma_entries_view(es@);
                    assert(entries_view(es@) =~= obj_upsert(esv, key@, value_view(val)));
                }
            },
            _ => {
                proof {
                    assert(false);
                }
            },
        }
    }

    /// Take the entry under `key` out of an object value.
    #[verifier::loop_isolation(false)]
    pub fn obj_remove(&mut self, key: &str) -> (r: Option<Value>)
        requires
            old(self)@ is Obj,
        ensures
            final(self)@ == ValueView::Obj(obj_removed(old(self).entries(), key@)),
            match obj_lookup(old(self).entries(), key@) {
                Some(v) => r matches Some(taken) && taken@ == v,
                None => r is None,
            },
    {
        match self {
            Value::Obj(es) => {
                proof {
                    lemma_entries_view(es@);
                    lemma_obj_key_index(entries_view(es@), key@);
                }
                let ghost esv = entries_view(es@);
                let mut i: usize = 0;
                while i < es.len()
                    invariant
                        i <= es.len(),
                        esv == entries_view(es@),
                        forall|j: int| 0 <= j < i ==> esv[j].0 != key@,
                    decreases es.len() - i,
                {
                    if compare_str(&es[i].0, key) {
                        proof {
                            assert(esv[i as int].0 == key@);
                            assert(obj_key_index(esv, key@) == i) by {
                                let ix = obj_key_index(esv, key@);
                                if ix < i {
                                    assert(esv[ix].0 != key@);
                                    assert(esv[ix].0 == key@);
                                }
                                if ix > i {
                                    assert(esv[i as int].0 != key@);
                                }
                            }
                        }
                        let (_, v) = es.remove(i);
                        proof {
                            lemma_entries_view(es@);
                            assert(entries_view(es@) =~= obj_removed(esv, key@));
                        }
                        return Some(v);
                    }
                    i = i + 1;
                }
                proof {
                    assert(obj_key_index(esv, key@) == esv.len()) by {
                        let ix = obj_key_index(esv, key@);
                        if ix < esv.len() {
                            assert(esv[ix].0 == key@);
                        }
                    }
                    lemma_entries_view(es@);
                }
                None
            },
            _ => {
                proof {
                    assert(false);
                }
                None
            },
        }
    }

    /// The string a value holds, when it holds one.
    pub fn as_str(&self) -> (r: Option<&String>)
        ensures
            match self@ {
                ValueView::Str(s) => r matches Some(p) && p@ == s,
                _ => r is None,
            },
    {
        match self {
            Value::Str(s) => Some(s),
            _ => None,
        }
    }
}

/// String equality, with the result tied to the views.
pub fn compare_str(a: &String, b: &str) -> (r: bool)
    ensures
        r == (a@ == b@),
{
    *a == b.to_owned()
}

} // verus!
