//! Laws of the deep merge.
//!
//! The two public laws at the end of this file state that merging a
//! value with itself changes nothing (for values without arrays, whose
//! concatenation would grow), and that merging is associative (for
//! values whose kinds line up wherever they meet).

use crate::value::{
    lemma_obj_key_index, obj_has_key, obj_key_index, spec_merge, spec_merge_entries,
    spec_merge_one, view_wf, ValueView,
};
use vstd::prelude::*;

verus! {

/// One object level has pairwise distinct keys.
pub open spec fn distinct_keys(es: Seq<(Seq<char>, ValueView)>) -> bool {
    forall|i: int, j: int| 0 <= i < j < es.len() ==> es[i].0 != es[j].0
}

/// The value stored under key `k` (meaningful when the key is there).
pub open spec fn obj_val(es: Seq<(Seq<char>, ValueView)>, k: Seq<char>) -> ValueView {
    es[obj_key_index(es, k)].1
}

/// `xs` with every entry whose key also occurs in `ys` replaced by the
/// merge of the two values.
pub open spec fn updated_entries(
    xs: Seq<(Seq<char>, ValueView)>,
    ys: Seq<(Seq<char>, ValueView)>,
) -> Seq<(Seq<char>, ValueView)> {
    Seq::new(
        xs.len(),
        |i: int|
            (
                xs[i].0,
                if obj_has_key(ys, xs[i].0) {
                    spec_merge(xs[i].1, obj_val(ys, xs[i].0))
                } else {
                    xs[i].1
                },
            ),
    )
}

/// The entries of `ys` whose keys do not occur in `xs`, in order.
pub open spec fn fresh_entries(
    ys: Seq<(Seq<char>, ValueView)>,
    xs: Seq<(Seq<char>, ValueView)>,
) -> Seq<(Seq<char>, ValueView)>
    decreases ys.len(),
{
    if ys.len() == 0 {
        Seq::empty()
    } else if obj_has_key(xs, ys[0].0) {
        fresh_entries(ys.drop_first(), xs)
    } else {
        seq![ys[0]] + fresh_entries(ys.drop_first(), xs)
    }
}

/// Merging replaces the right value wholesale unless both sides are
/// objects or both are arrays; in every non-matching case the result
/// is just the right value.
pub proof fn lemma_merge_mismatch(u: ValueView, v: ValueView)
    ensures
        !((u is Obj && v is Obj) || (u is Arr && v is Arr)) ==> spec_merge(u, v) == v,
{
}

/// `spec_merge_one` is an update at the key's position, or a push.
pub proof fn lemma_merge_one_char(xs: Seq<(Seq<char>, ValueView)>, e: (Seq<char>, ValueView))
    ensures
        obj_has_key(xs, e.0) ==> spec_merge_one(xs, e) == xs.update(
            obj_key_index(xs, e.0),
            (e.0, spec_merge(xs[obj_key_index(xs, e.0)].1, e.1)),
        ),
        !obj_has_key(xs, e.0) ==> spec_merge_one(xs, e) == xs.push(e),
        distinct_keys(xs) ==> distinct_keys(spec_merge_one(xs, e)),
{
    lemma_obj_key_index(xs, e.0);
    let i = obj_key_index(xs, e.0);
    if i < xs.len() {
        let u = xs[i].1;
        lemma_merge_mismatch(u, e.1);
        assert(xs[i].0 == e.0);
        if (u is Obj && e.1 is Obj) || (u is Arr && e.1 is Arr) {
            assert(xs.update(i, (xs[i].0, spec_merge(u, e.1))) =~= xs.update(
                i,
                (e.0, spec_merge(u, e.1)),
            ));
        } else {
            assert(xs.update(i, (xs[i].0, e.1)) =~= xs.update(i, (e.0, spec_merge(u, e.1))));
        }
        if distinct_keys(xs) {
            let r = spec_merge_one(xs, e);
            assert forall|p: int, q: int| 0 <= p < q < r.len() implies r[p].0 != r[q].0 by {
                assert(r[p].0 == xs[p].0);
                assert(r[q].0 == xs[q].0);
            }
        }
    } else {
        if distinct_keys(xs) {
            let r = xs.push(e);
            assert forall|p: int, q: int| 0 <= p < q < r.len() implies r[p].0 != r[q].0 by {
                if q == xs.len() {
                    assert(xs[p].0 != e.0);
                } else {
                    assert(r[p].0 == xs[p].0);
                    assert(r[q].0 == xs[q].0);
                }
            }
        }
    }
}

/// Key membership and the stored value, over a concatenation.
pub proof fn lemma_key_concat(
    p: Seq<(Seq<char>, ValueView)>,
    q: Seq<(Seq<char>, ValueView)>,
    k: Seq<char>,
)
    ensures
        obj_has_key(p + q, k) <==> (obj_has_key(p, k) || obj_has_key(q, k)),
        obj_has_key(p, k) ==> obj_val(p + q, k) == obj_val(p, k),
        !obj_has_key(p, k) && obj_has_key(q, k) ==> obj_val(p + q, k) == obj_val(q, k),
    decreases p.len(),
{
    lemma_obj_key_index(p, k);
    lemma_obj_key_index(q, k);
    lemma_obj_key_index(p + q, k);
    if p.len() == 0 {
        assert(p + q =~= q);
    } else if p[0].0 == k {
        assert((p + q)[0] == p[0]);
    } else {
        assert((p + q)[0] == p[0]);
        assert((p + q).drop_first() =~= p.drop_first() + q);
        lemma_key_concat(p.drop_first(), q, k);
        let i = obj_key_index(p + q, k);
        if obj_has_key(p, k) {
            let ip = obj_key_index(p, k);
            assert(0 < ip < p.len());
            assert((p + q)[ip] == p[ip]);
            assert(obj_key_index(p + q, k) == 1 + obj_key_index((p + q).drop_first(), k));
            assert(obj_key_index(p, k) == 1 + obj_key_index(p.drop_first(), k));
        }
    }
}

/// Two entry sequences with pointwise equal keys index their keys at
/// the same positions.
pub proof fn lemma_key_index_same_keys(
    p: Seq<(Seq<char>, ValueView)>,
    q: Seq<(Seq<char>, ValueView)>,
    k: Seq<char>,
)
    requires
        p.len() == q.len(),
        forall|i: int| 0 <= i < p.len() ==> p[i].0 == q[i].0,
    ensures
        obj_key_index(p, k) == obj_key_index(q, k),
    decreases p.len(),
{
    if p.len() > 0 && p[0].0 != k {
        lemma_key_index_same_keys(p.drop_first(), q.drop_first(), k);
    }
}

/// The merged entry fold equals the pointwise update of `xs` followed
/// by the entries of `ys` that were new, in order.
pub proof fn lemma_merge_entries_char(
    xs: Seq<(Seq<char>, ValueView)>,
    ys: Seq<(Seq<char>, ValueView)>,
)
    requires
        distinct_keys(xs),
        distinct_keys(ys),
    ensures
        spec_merge_entries(xs, ys) == updated_entries(xs, ys) + fresh_entries(ys, xs),
        distinct_keys(spec_merge_entries(xs, ys)),
    decreases ys.len(),
{
    if ys.len() == 0 {
        assert(updated_entries(xs, ys) + fresh_entries(ys, xs) =~= xs) by {
            assert forall|i: int| 0 <= i < xs.len() implies !obj_has_key(ys, xs[i].0) by {
                lemma_obj_key_index(ys, xs[i].0);
            }
        }
    } else {
        let e = ys[0];
        let ys1 = ys.drop_first();
        assert(distinct_keys(ys1)) by {
            assert forall|p: int, q: int| 0 <= p < q < ys1.len() implies ys1[p].0 != ys1[q].0 by {
                assert(ys1[p] == ys[p + 1]);
                assert(ys1[q] == ys[q + 1]);
            }
        }
        assert(!obj_has_key(ys1, e.0)) by {
            lemma_obj_key_index(ys1, e.0);
            let j = obj_key_index(ys1, e.0);
            if j < ys1.len() {
                assert(ys[j + 1].0 == e.0);
            }
        }
        lemma_merge_one_char(xs, e);
        let xs1 = spec_merge_one(xs, e);
        lemma_merge_entries_char(xs1, ys1);
        lemma_obj_key_index(xs, e.0);
        // keys of ys as seen by xs1 versus xs, and the pointwise parts
        if obj_has_key(xs, e.0) {
            let ix = obj_key_index(xs, e.0);
            assert(xs1 =~= xs.update(ix, (e.0, spec_merge(xs[ix].1, e.1))));
            assert(updated_entries(xs1, ys1) =~= updated_entries(xs, ys)) by {
                assert forall|i: int| 0 <= i < xs.len() implies updated_entries(xs1, ys1)[i]
                    == updated_entries(xs, ys)[i] by {
                    lemma_key_index_same_keys(xs1, xs, xs[i].0);
                    lemma_obj_key_index(ys1, xs[i].0);
                    lemma_obj_key_index(ys, xs[i].0);
                    assert(xs1[i].0 == xs[i].0);
                    if i == ix {
                        // key e.0: not in ys1, but first in ys
                        assert(obj_key_index(ys, e.0) == 0);
                        assert(!obj_has_key(ys1, e.0));
                        assert(updated_entries(xs1, ys1)[i].1 == xs1[ix].1);
                        assert(updated_entries(xs, ys)[i].1 == spec_merge(xs[ix].1, e.1));
                    } else {
                        assert(xs[i].0 != e.0);
                        if obj_has_key(ys, xs[i].0) {
                            let jy = obj_key_index(ys, xs[i].0);
                            assert(jy > 0);
                            assert(ys1[jy - 1] == ys[jy]);
                            assert(obj_key_index(ys, xs[i].0) == 1 + obj_key_index(
                                ys1,
                                xs[i].0,
                            ));
                            assert(obj_val(ys, xs[i].0) == obj_val(ys1, xs[i].0));
                        } else {
                            if obj_has_key(ys1, xs[i].0) {
                                let jz = obj_key_index(ys1, xs[i].0);
                                assert(ys[jz + 1].0 == xs[i].0);
                                assert(obj_key_index(ys, xs[i].0) == 1 + jz);
                            }
                        }
                    }
                }
            }
            assert(fresh_entries(ys, xs) == fresh_entries(ys1, xs));
            assert(fresh_entries(ys1, xs1) == fresh_entries(ys1, xs)) by {
                assert forall|i: int| 0 <= i < ys1.len() implies (obj_has_key(
                    xs1,
                    #[trigger] ys1[i].0,
                ) <==> obj_has_key(xs, ys1[i].0)) by {
                    lemma_key_index_same_keys(xs1, xs, ys1[i].0);
                }
                lemma_fresh_same_keys(ys1, xs1, xs);
            }
        } else {
            assert(xs1 =~= xs.push(e));
            assert(updated_entries(xs1, ys1) =~= updated_entries(xs, ys).push(e)) by {
                assert forall|i: int| 0 <= i < xs1.len() implies updated_entries(xs1, ys1)[i]
                    == updated_entries(xs, ys).push(e)[i] by {
                    lemma_obj_key_index(ys1, xs1[i].0);
                    lemma_obj_key_index(ys, xs1[i].0);
                    if i < xs.len() {
                        assert(xs1[i] == xs[i]);
                        assert(xs[i].0 != e.0);
                        if obj_has_key(ys, xs[i].0) {
                            let jy = obj_key_index(ys, xs[i].0);
                            assert(jy > 0);
                            assert(ys1[jy - 1] == ys[jy]);
                            assert(obj_key_index(ys, xs[i].0) == 1 + obj_key_index(
                                ys1,
                                xs[i].0,
                            ));
                            assert(obj_val(ys, xs[i].0) == obj_val(ys1, xs[i].0));
                        } else {
                            if obj_has_key(ys1, xs[i].0) {
                                let jz = obj_key_index(ys1, xs[i].0);
                                assert(ys[jz + 1].0 == xs[i].0);
                                assert(obj_key_index(ys, xs[i].0) == 1 + jz);
                            }
                        }
                    } else {
                        assert(xs1[i] == e);
                        assert(!obj_has_key(ys1, e.0));
                    }
                }
            }
            assert(fresh_entries(ys1, xs1) == fresh_entries(ys1, xs)) by {
                assert forall|i: int| 0 <= i < ys1.len() implies (obj_has_key(
                    xs1,
                    #[trigger] ys1[i].0,
                ) <==> obj_has_key(xs, ys1[i].0)) by {
                    lemma_obj_key_index(xs, ys1[i].0);
                    lemma_obj_key_index(xs1, ys1[i].0);
                    if obj_has_key(xs, ys1[i].0) {
                        let j = obj_key_index(xs, ys1[i].0);
                        assert(xs1[j].0 == ys1[i].0);
                    }
                    if obj_has_key(xs1, ys1[i].0) {
                        let j = obj_key_index(xs1, ys1[i].0);
                        if j == xs.len() {
                            assert(xs1[j].0 == e.0);
                            assert(ys1[i].0 == e.0);
                            assert(!obj_has_key(ys1, e.0));
                            assert(ys1[i].0 != e.0);
                        } else {
                            assert(xs1[j] == xs[j]);
                        }
                    }
                }
                lemma_fresh_same_keys(ys1, xs1, xs);
            }
            assert(fresh_entries(ys, xs) == seq![e] + fresh_entries(ys1, xs));
            assert(updated_entries(xs, ys).push(e) + fresh_entries(ys1, xs) =~= updated_entries(
                xs,
                ys,
            ) + (seq![e] + fresh_entries(ys1, xs)));
        }
    }
}

/// Which entries of `ys` are fresh depends only on which of their keys
/// `xs` holds.
pub proof fn lemma_fresh_same_keys(
    ys: Seq<(Seq<char>, ValueView)>,
    xs1: Seq<(Seq<char>, ValueView)>,
    xs2: Seq<(Seq<char>, ValueView)>,
)
    requires
        forall|i: int| 0 <= i < ys.len() ==> (obj_has_key(xs1, #[trigger] ys[i].0) <==> obj_has_key(
            xs2,
            ys[i].0,
        )),
    ensures
        fresh_entries(ys, xs1) == fresh_entries(ys, xs2),
    decreases ys.len(),
{
    if ys.len() > 0 {
        assert(obj_has_key(xs1, ys[0].0) <==> obj_has_key(xs2, ys[0].0));
        assert forall|i: int| 0 <= i < ys.drop_first().len() implies (obj_has_key(
            xs1,
            #[trigger] ys.drop_first()[i].0,
        ) <==> obj_has_key(xs2, ys.drop_first()[i].0)) by {
            assert(ys.drop_first()[i] == ys[i + 1]);
        }
        lemma_fresh_same_keys(ys.drop_first(), xs1, xs2);
    }
}

/// No `Arr` occurs anywhere inside the value.
pub open spec fn array_free(v: ValueView) -> bool
    decreases v,
{
    match v {
        ValueView::Arr(_) => false,
        ValueView::Obj(es) => forall|i: int| 0 <= i < es.len() ==> array_free(#[trigger] es[i].1),
        _ => true,
    }
}

/// When every key of `ys` is already in `xs`, nothing of `ys` is fresh.
pub proof fn lemma_fresh_all_present(
    ys: Seq<(Seq<char>, ValueView)>,
    xs: Seq<(Seq<char>, ValueView)>,
)
    requires
        forall|i: int| 0 <= i < ys.len() ==> obj_has_key(xs, #[trigger] ys[i].0),
    ensures
        fresh_entries(ys, xs) == Seq::<(Seq<char>, ValueView)>::empty(),
    decreases ys.len(),
{
    if ys.len() > 0 {
        assert forall|i: int| 0 <= i < ys.drop_first().len() implies obj_has_key(
            xs,
            #[trigger] ys.drop_first()[i].0,
        ) by {
            assert(ys.drop_first()[i] == ys[i + 1]);
        }
        lemma_fresh_all_present(ys.drop_first(), xs);
    }
}

/// Law: merging a well-formed, array-free value with itself is a
/// no-op.  (An array merged with itself concatenates and grows, so
/// arrays are left out.)
pub proof fn lemma_merge_idempotent(a: ValueView)
    requires
        view_wf(a),
        array_free(a),
    ensures
        spec_merge(a, a) == a,
    decreases a,
{
    match a {
        ValueView::Obj(xs) => {
            assert(distinct_keys(xs));
            assert forall|i: int| 0 <= i < xs.len() implies obj_has_key(xs, #[trigger] xs[i].0)
                && obj_key_index(xs, xs[i].0) == i by {
                lemma_obj_key_index(xs, xs[i].0);
                let ix = obj_key_index(xs, xs[i].0);
                if ix == xs.len() {
                    assert(xs[i].0 != xs[i].0);
                }
                if ix < i {
                    assert(xs[ix].0 != xs[i].0);
                    assert(xs[ix].0 == xs[i].0);
                }
                if i < ix {
                    assert(xs[i].0 != xs[i].0);
                }
            }
            lemma_merge_entries_char(xs, xs);
            lemma_fresh_all_present(xs, xs);
            assert(updated_entries(xs, xs) =~= xs) by {
                assert forall|i: int| 0 <= i < xs.len() implies updated_entries(xs, xs)[i]
                    == xs[i] by {
                    assert(obj_val(xs, xs[i].0) == xs[i].1);
                    assert(decreases_to!(a => xs[i].1)) by {
                        assert(decreases_to!(a => xs));
                        assert(decreases_to!(xs => xs[i]));
                        assert(decreases_to!(xs[i] => xs[i].1));
                    }
                    lemma_merge_idempotent(xs[i].1);
                }
            }
            assert(updated_entries(xs, xs) + fresh_entries(xs, xs) =~= xs);
        },
        _ => {},
    }
}

/// The two values agree on their container kind: both objects, both
/// arrays, or neither, and so on recursively for the values under keys
/// they share.  Merging such values never replaces a container with a
/// scalar in one grouping and merges it in the other, which is where
/// associativity would break.
pub open spec fn compat(u: ValueView, v: ValueView) -> bool
    decreases v,
{
    match (u, v) {
        (ValueView::Obj(xs), ValueView::Obj(ys)) => forall|i: int|
            0 <= i < ys.len() && obj_has_key(xs, #[trigger] ys[i].0) ==> compat(
                obj_val(xs, ys[i].0),
                ys[i].1,
            ),
        (ValueView::Arr(_), ValueView::Arr(_)) => true,
        (ValueView::Obj(_), _) => false,
        (_, ValueView::Obj(_)) => false,
        (ValueView::Arr(_), _) => false,
        (_, ValueView::Arr(_)) => false,
        _ => true,
    }
}

/// The pointwise update distributes over concatenation on the left.
pub proof fn lemma_updated_concat(
    p: Seq<(Seq<char>, ValueView)>,
    q: Seq<(Seq<char>, ValueView)>,
    z: Seq<(Seq<char>, ValueView)>,
)
    ensures
        updated_entries(p + q, z) == updated_entries(p, z) + updated_entries(q, z),
{
    assert(updated_entries(p + q, z) =~= updated_entries(p, z) + updated_entries(q, z)) by {
        assert forall|i: int| 0 <= i < p.len() + q.len() implies updated_entries(p + q, z)[i] == (
        updated_entries(p, z) + updated_entries(q, z))[i] by {
            if i < p.len() {
                assert((p + q)[i] == p[i]);
            } else {
                assert((p + q)[i] == q[i - p.len()]);
            }
        }
    }
}

/// Freshness filtering distributes over concatenation on the left.
pub proof fn lemma_fresh_concat(
    p: Seq<(Seq<char>, ValueView)>,
    q: Seq<(Seq<char>, ValueView)>,
    x: Seq<(Seq<char>, ValueView)>,
)
    ensures
        fresh_entries(p + q, x) == fresh_entries(p, x) + fresh_entries(q, x),
    decreases p.len(),
{
    if p.len() == 0 {
        assert(p + q =~= q);
        assert(fresh_entries(p, x) + fresh_entries(q, x) =~= fresh_entries(q, x));
    } else {
        assert((p + q)[0] == p[0]);
        assert((p + q).drop_first() =~= p.drop_first() + q);
        lemma_fresh_concat(p.drop_first(), q, x);
        if !obj_has_key(x, p[0].0) {
            assert(seq![p[0]] + (fresh_entries(p.drop_first(), x) + fresh_entries(q, x)) =~= (
            seq![p[0]] + fresh_entries(p.drop_first(), x)) + fresh_entries(q, x));
        }
    }
}

/// Keys of the pointwise update are the keys of its left operand, and
/// the value under a shared key is the merge of the two values.
pub proof fn lemma_updated_key(
    y: Seq<(Seq<char>, ValueView)>,
    z: Seq<(Seq<char>, ValueView)>,
    k: Seq<char>,
)
    ensures
        obj_has_key(updated_entries(y, z), k) <==> obj_has_key(y, k),
        obj_key_index(updated_entries(y, z), k) == obj_key_index(y, k),
        obj_has_key(y, k) && obj_has_key(z, k) ==> obj_val(updated_entries(y, z), k) == spec_merge(
            obj_val(y, k),
            obj_val(z, k),
        ),
        obj_has_key(y, k) && !obj_has_key(z, k) ==> obj_val(updated_entries(y, z), k) == obj_val(
            y,
            k,
        ),
{
    lemma_key_index_same_keys(updated_entries(y, z), y, k);
    lemma_obj_key_index(y, k);
    if obj_has_key(y, k) {
        let i = obj_key_index(y, k);
        assert(updated_entries(y, z)[i].1 == if obj_has_key(z, y[i].0) {
            spec_merge(y[i].1, obj_val(z, y[i].0))
        } else {
            y[i].1
        });
    }
}

/// A key is fresh exactly when the right operand holds it and the left
/// does not, and a fresh entry carries its original value.
pub proof fn lemma_fresh_key(
    z: Seq<(Seq<char>, ValueView)>,
    y: Seq<(Seq<char>, ValueView)>,
    k: Seq<char>,
)
    ensures
        obj_has_key(fresh_entries(z, y), k) <==> (obj_has_key(z, k) && !obj_has_key(y, k)),
        obj_has_key(z, k) && !obj_has_key(y, k) ==> obj_val(fresh_entries(z, y), k) == obj_val(
            z,
            k,
        ),
    decreases z.len(),
{
    lemma_obj_key_index(z, k);
    lemma_obj_key_index(y, k);
    lemma_obj_key_index(fresh_entries(z, y), k);
    if z.len() == 0 {
    } else {
        let e = z[0];
        let z1 = z.drop_first();
        lemma_fresh_key(z1, y, k);
        lemma_obj_key_index(z1, k);
        if e.0 == k {
            if !obj_has_key(y, k) {
                let f = fresh_entries(z, y);
                assert(f == seq![e] + fresh_entries(z1, y));
                assert(f[0] == e);
                assert(obj_key_index(f, k) == 0);
                assert(obj_key_index(z, k) == 0);
            }
        } else {
            assert(obj_key_index(z, k) == 1 + obj_key_index(z1, k));
            if obj_has_key(y, e.0) {
                assert(fresh_entries(z, y) == fresh_entries(z1, y));
            } else {
                let f = fresh_entries(z, y);
                let f1 = fresh_entries(z1, y);
                assert(f == seq![e] + f1);
                assert(f[0] == e);
                assert(obj_key_index(f, k) == 1 + obj_key_index(f.drop_first(), k));
                assert(f.drop_first() =~= f1);
            }
        }
    }
}

/// Updating the fresh part commutes with taking the fresh part of the
/// updated sequence.
pub proof fn lemma_update_fresh_commute(
    y: Seq<(Seq<char>, ValueView)>,
    z: Seq<(Seq<char>, ValueView)>,
    x: Seq<(Seq<char>, ValueView)>,
)
    ensures
        updated_entries(fresh_entries(y, x), z) == fresh_entries(updated_entries(y, z), x),
    decreases y.len(),
{
    if y.len() == 0 {
        assert(updated_entries(fresh_entries(y, x), z) =~= fresh_entries(
            updated_entries(y, z),
            x,
        ));
    } else {
        let e = y[0];
        let y1 = y.drop_first();
        lemma_update_fresh_commute(y1, z, x);
        let uy = updated_entries(y, z);
        assert(uy.len() == y.len());
        assert(uy[0].0 == e.0);
        assert(uy.drop_first() =~= updated_entries(y1, z)) by {
            assert forall|i: int| 0 <= i < y1.len() implies uy.drop_first()[i] == updated_entries(
                y1,
                z,
            )[i] by {
                assert(uy.drop_first()[i] == uy[i + 1]);
                assert(y[i + 1] == y1[i]);
            }
        }
        if obj_has_key(x, e.0) {
            assert(fresh_entries(y, x) == fresh_entries(y1, x));
            assert(fresh_entries(uy, x) == fresh_entries(uy.drop_first(), x));
        } else {
            assert(fresh_entries(y, x) == seq![e] + fresh_entries(y1, x));
            lemma_updated_concat(seq![e], fresh_entries(y1, x), z);
            assert(fresh_entries(uy, x) == seq![uy[0]] + fresh_entries(uy.drop_first(), x));
            assert(updated_entries(seq![e], z) =~= seq![uy[0]]) by {
                assert(seq![e][0] == e);
                assert(updated_entries(seq![e], z)[0] == uy[0]);
            }
        }
    }
}

/// Filtering against the union of two key sets is filtering against
/// one and then the other.
pub proof fn lemma_fresh_union(
    z: Seq<(Seq<char>, ValueView)>,
    x: Seq<(Seq<char>, ValueView)>,
    y: Seq<(Seq<char>, ValueView)>,
    m: Seq<(Seq<char>, ValueView)>,
)
    requires
        forall|i: int| 0 <= i < z.len() ==> (obj_has_key(m, #[trigger] z[i].0) <==> (obj_has_key(
            x,
            z[i].0,
        ) || obj_has_key(y, z[i].0))),
    ensures
        fresh_entries(z, m) == fresh_entries(fresh_entries(z, y), x),
    decreases z.len(),
{
    if z.len() > 0 {
        let e = z[0];
        let z1 = z.drop_first();
        assert forall|i: int| 0 <= i < z1.len() implies (obj_has_key(m, #[trigger] z1[i].0) <==> (
        obj_has_key(x, z1[i].0) || obj_has_key(y, z1[i].0))) by {
            assert(z1[i] == z[i + 1]);
        }
        lemma_fresh_union(z1, x, y, m);
        assert(obj_has_key(m, e.0) <==> (obj_has_key(x, e.0) || obj_has_key(y, e.0)));
        if obj_has_key(y, e.0) {
            assert(fresh_entries(z, y) == fresh_entries(z1, y));
        } else if obj_has_key(x, e.0) {
            assert(fresh_entries(z, y) == seq![e] + fresh_entries(z1, y));
            let f = seq![e] + fresh_entries(z1, y);
            assert(f[0] == e);
            assert(f.drop_first() =~= fresh_entries(z1, y));
        } else {
            assert(fresh_entries(z, y) == seq![e] + fresh_entries(z1, y));
            let f = seq![e] + fresh_entries(z1, y);
            assert(f[0] == e);
            assert(f.drop_first() =~= fresh_entries(z1, y));
            assert(fresh_entries(z, m) == seq![e] + fresh_entries(z1, m));
        }
    }
}

/// Law: the deep merge is associative, for well-formed values whose
/// kinds line up wherever two of them meet under the same keys.
pub proof fn lemma_merge_associative(a: ValueView, b: ValueView, c: ValueView)
    requires
        view_wf(a),
        view_wf(b),
        view_wf(c),
        compat(a, b),
        compat(b, c),
    ensures
        spec_merge(spec_merge(a, b), c) == spec_merge(a, spec_merge(b, c)),
    decreases a,
{
    match b {
        ValueView::Obj(ys) => {
            let xs = a->Obj_0;
            let zs = c->Obj_0;
            assert(a is Obj && c is Obj);
            lemma_merge_obj_assoc(a, b, c, xs, ys, zs);
        },
        ValueView::Arr(ys) => {
            assert(a is Arr && c is Arr);
            let xs = a->Arr_0;
            let zs = c->Arr_0;
            assert((xs + ys) + zs =~= xs + (ys + zs));
        },
        _ => {},
    }
}

/// The object case of associativity.
proof fn lemma_merge_obj_assoc(
    a: ValueView,
    b: ValueView,
    c: ValueView,
    xs: Seq<(Seq<char>, ValueView)>,
    ys: Seq<(Seq<char>, ValueView)>,
    zs: Seq<(Seq<char>, ValueView)>,
)
    requires
        view_wf(a),
        view_wf(b),
        view_wf(c),
        compat(a, b),
        compat(b, c),
        a == ValueView::Obj(xs),
        b == ValueView::Obj(ys),
        c == ValueView::Obj(zs),
    ensures
        spec_merge(spec_merge(a, b), c) == spec_merge(a, spec_merge(b, c)),
    decreases a, 0int,
{
    assert(distinct_keys(xs));
    assert(distinct_keys(ys));
    assert(distinct_keys(zs));
    lemma_merge_entries_char(xs, ys);
    lemma_merge_entries_char(ys, zs);
    let mab = spec_merge_entries(xs, ys);
    let mbc = spec_merge_entries(ys, zs);
    lemma_merge_entries_char(mab, zs);
    lemma_merge_entries_char(xs, mbc);
    // left side, split into three segments
    lemma_updated_concat(updated_entries(xs, ys), fresh_entries(ys, xs), zs);
    // right side, split into three segments
    lemma_fresh_concat(updated_entries(ys, zs), fresh_entries(zs, ys), xs);
    let l1 = updated_entries(updated_entries(xs, ys), zs);
    let l2 = updated_entries(fresh_entries(ys, xs), zs);
    let l3 = fresh_entries(zs, mab);
    let r1 = updated_entries(xs, mbc);
    let r2 = fresh_entries(updated_entries(ys, zs), xs);
    let r3 = fresh_entries(fresh_entries(zs, ys), xs);
    assert(spec_merge(spec_merge(a, b), c) == ValueView::Obj((l1 + l2) + l3));
    assert(spec_merge(a, spec_merge(b, c)) == ValueView::Obj(r1 + (r2 + r3)));
    // segment 2
    lemma_update_fresh_commute(ys, zs, xs);
    assert(l2 == r2);
    // segment 3
    assert(l3 == r3) by {
        assert forall|i: int| 0 <= i < zs.len() implies (obj_has_key(mab, #[trigger] zs[i].0)
            <==> (obj_has_key(xs, zs[i].0) || obj_has_key(ys, zs[i].0))) by {
            lemma_key_concat(updated_entries(xs, ys), fresh_entries(ys, xs), zs[i].0);
            lemma_updated_key(xs, ys, zs[i].0);
            lemma_fresh_key(ys, xs, zs[i].0);
        }
        lemma_fresh_union(zs, xs, ys, mab);
    }
    // segment 1
    assert(l1 == r1) by {
        assert forall|i: int| 0 <= i < xs.len() implies l1[i] == r1[i] by {
            let k = xs[i].0;
            assert(obj_key_index(xs, k) == i) by {
                lemma_obj_key_index(xs, k);
                let ix = obj_key_index(xs, k);
                if ix < i {
                    assert(xs[ix].0 != k);
                    assert(xs[ix].0 == k);
                }
                if ix == xs.len() {
                    assert(xs[i].0 != k);
                }
                if i < ix {
                    assert(xs[i].0 != k);
                }
            }
            assert(obj_val(xs, k) == xs[i].1);
            lemma_updated_key(xs, ys, k);
            lemma_key_concat(updated_entries(ys, zs), fresh_entries(zs, ys), k);
            lemma_updated_key(ys, zs, k);
            lemma_fresh_key(zs, ys, k);
            let x = xs[i].1;
            let iny = obj_has_key(ys, k);
            let inz = obj_has_key(zs, k);
            assert(obj_has_key(mbc, k) <==> (iny || inz));
            if iny && inz {
                let yv = obj_val(ys, k);
                let zv = obj_val(zs, k);
                assert(obj_val(mbc, k) == spec_merge(yv, zv));
                assert(l1[i].1 == spec_merge(spec_merge(x, yv), zv));
                assert(r1[i].1 == spec_merge(x, spec_merge(yv, zv)));
                assert(compat(x, yv)) by {
                    lemma_obj_key_index(ys, k);
                    let jy = obj_key_index(ys, k);
                    assert(ys[jy].0 == k);
                    assert(obj_has_key(xs, ys[jy].0));
                }
                assert(compat(yv, zv)) by {
                    lemma_obj_key_index(zs, k);
                    let jz = obj_key_index(zs, k);
                    assert(zs[jz].0 == k);
                    assert(obj_has_key(ys, zs[jz].0));
                }
                assert(view_wf(x) && view_wf(yv) && view_wf(zv)) by {
                    lemma_obj_key_index(ys, k);
                    lemma_obj_key_index(zs, k);
                }
                assert(decreases_to!(a => x)) by {
                    assert(decreases_to!(a => xs));
                    assert(decreases_to!(xs => xs[i]));
                    assert(decreases_to!(xs[i] => xs[i].1));
                }
                lemma_merge_associative(x, yv, zv);
            } else if iny {
                let yv = obj_val(ys, k);
                assert(obj_val(mbc, k) == if inz {
                    spec_merge(yv, obj_val(zs, k))
                } else {
                    yv
                });
                assert(l1[i].1 == spec_merge(x, yv));
                assert(r1[i].1 == spec_merge(x, yv));
            } else if inz {
                let zv = obj_val(zs, k);
                assert(!obj_has_key(updated_entries(ys, zs), k));
                assert(obj_val(mbc, k) == zv);
                assert(l1[i].1 == spec_merge(x, zv)) by {
                    lemma_updated_key(updated_entries(xs, ys), zs, k);
                }
                assert(r1[i].1 == spec_merge(x, zv));
            } else {
                assert(l1[i].1 == x);
                assert(r1[i].1 == x);
            }
        }
        assert(l1 =~= r1);
    }
    assert((l1 + l2) + l3 =~= r1 + (r2 + r3));
}

} // verus!
