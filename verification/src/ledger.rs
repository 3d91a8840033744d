//! The version ledger: which (version, source path) pairs have been
//! scheduled, stored in the global scope under the ledger key as a map
//! from version tag to a map from source path to that path's recorded
//! metadata.
//!
//! A rule schedules a path only if the pair is not yet present; the
//! pair is recorded with a placeholder at match time and the real
//! metadata replaces the placeholder when the task completes.

use crate::metadata::VERSIONS_META;
use crate::value::{
    lemma_obj_key_index, obj_key_index, obj_lookup, obj_upsert, Value, ValueView,
};
use vstd::prelude::*;

verus! {

/// The entry recorded for (`version`, `path`), if any.
pub open spec fn ledger_entry(
    g: Seq<(Seq<char>, ValueView)>,
    version: Seq<char>,
    path: Seq<char>,
) -> Option<ValueView> {
    match obj_lookup(g, VERSIONS_META@) {
        Some(ValueView::Obj(vs)) => match obj_lookup(vs, version) {
            Some(ValueView::Obj(m)) => obj_lookup(m, path),
            _ => None,
        },
        _ => None,
    }
}

/// Whether (`version`, `path`) has been recorded.
pub open spec fn spec_ledger_has(
    g: Seq<(Seq<char>, ValueView)>,
    version: Seq<char>,
    path: Seq<char>,
) -> bool {
    ledger_entry(g, version, path) is Some
}

/// The version-to-paths map held by the ledger key (empty when the
/// key is absent or holds another shape).
pub open spec fn ledger_versions(g: Seq<(Seq<char>, ValueView)>) -> Seq<(Seq<char>, ValueView)> {
    match obj_lookup(g, VERSIONS_META@) {
        Some(ValueView::Obj(vs)) => vs,
        _ => Seq::empty(),
    }
}

/// The path map of one version (empty when absent).
pub open spec fn ledger_paths(
    g: Seq<(Seq<char>, ValueView)>,
    version: Seq<char>,
) -> Seq<(Seq<char>, ValueView)> {
    match obj_lookup(ledger_versions(g), version) {
        Some(ValueView::Obj(m)) => m,
        _ => Seq::empty(),
    }
}

/// The global entries after recording `v` under (`version`, `path`).
pub open spec fn spec_ledger_record(
    g: Seq<(Seq<char>, ValueView)>,
    version: Seq<char>,
    path: Seq<char>,
    v: ValueView,
) -> Seq<(Seq<char>, ValueView)> {
    obj_upsert(
        g,
        VERSIONS_META@,
        ValueView::Obj(
            obj_upsert(
                ledger_versions(g),
                version,
                ValueView::Obj(obj_upsert(ledger_paths(g, version), path, v)),
            ),
        ),
    )
}

/// Looking a key up after an upsert finds the new value under the
/// upserted key and the old values elsewhere.
pub proof fn lemma_upsert_lookup(
    es: Seq<(Seq<char>, ValueView)>,
    k: Seq<char>,
    v: ValueView,
    k2: Seq<char>,
)
    ensures
        k2 == k ==> obj_lookup(obj_upsert(es, k, v), k2) == Some(v),
        k2 != k ==> obj_lookup(obj_upsert(es, k, v), k2) == obj_lookup(es, k2),
{
    lemma_obj_key_index(es, k);
    lemma_obj_key_index(es, k2);
    let r = obj_upsert(es, k, v);
    lemma_obj_key_index(r, k2);
    let i = obj_key_index(es, k);
    let i2 = obj_key_index(es, k2);
    let ir = obj_key_index(r, k2);
    if k2 == k {
        if ir < r.len() {
            assert(r[ir].0 == k2);
            if ir < i {
                assert(es[ir].0 == k);
                assert(es[ir].0 != k);
            }
            if ir > i {
                assert(r[i].0 == k);
            }
        } else {
            if i < es.len() {
                assert(r[i].0 == k);
                assert(r[i].0 != k2);
            } else {
                assert(r[es.len() as int].0 == k);
                assert(r[es.len() as int].0 != k2);
            }
        }
    } else {
        if ir < r.len() && ir != i {
            assert(r[ir] == es[ir]);
        }
        if i2 < es.len() {
            // key k2 exists in es at i2, and i2 != i
            assert(es[i2].0 == k2);
            assert(r[i2] == es[i2]);
            assert(ir == i2) by {
                if ir < i2 {
                    if ir == i {
                        assert(r[ir].0 == k);
                        assert(r[ir].0 == k2);
                    } else {
                        assert(es[ir].0 != k2);
                        assert(r[ir].0 == k2);
                    }
                }
                if ir > i2 {
                    assert(r[i2].0 != k2);
                }
            }
        } else {
            assert(ir == r.len()) by {
                if ir < r.len() {
                    assert(r[ir].0 == k2);
                    if ir == i && i < es.len() {
                        assert(r[ir].0 == k);
                    } else if ir < es.len() {
                        assert(es[ir].0 == k2);
                        assert(es[ir].0 != k2);
                    } else {
                        assert(r[es.len() as int].0 == k);
                    }
                }
            }
        }
    }
}

/// Recording one pair records exactly that pair: it is present
/// afterwards, and every other pair's presence is unchanged.
pub proof fn lemma_ledger_record(
    g: Seq<(Seq<char>, ValueView)>,
    version: Seq<char>,
    path: Seq<char>,
    v: ValueView,
    version2: Seq<char>,
    path2: Seq<char>,
)
    ensures
        ledger_entry(spec_ledger_record(g, version, path, v), version, path) == Some(v),
        !(version2 == version && path2 == path) ==> spec_ledger_has(
            spec_ledger_record(g, version, path, v),
            version2,
            path2,
        ) == spec_ledger_has(g, version2, path2),
{
    let g2 = spec_ledger_record(g, version, path, v);
    let vs = ledger_versions(g);
    let m = ledger_paths(g, version);
    lemma_upsert_lookup(
        g,
        VERSIONS_META@,
        ValueView::Obj(obj_upsert(vs, version, ValueView::Obj(obj_upsert(m, path, v)))),
        VERSIONS_META@,
    );
    lemma_upsert_lookup(vs, version, ValueView::Obj(obj_upsert(m, path, v)), version);
    lemma_upsert_lookup(m, path, v, path);
    lemma_upsert_lookup(vs, version, ValueView::Obj(obj_upsert(m, path, v)), version2);
    lemma_upsert_lookup(m, path, v, path2);
}

/// Whether (`version`, `path`) is recorded in the ledger held by the
/// global scope.
pub fn ledger_has(global: &Value, version: &str, path: &str) -> (r: bool)
    ensures
        r == spec_ledger_has(global.entries(), version@, path@),
{
    match global.obj_get(VERSIONS_META) {
        None => false,
        Some(vs) => match vs.obj_get(version) {
            None => false,
            Some(m) => match m.obj_get(path) {
                None => false,
                Some(_) => true,
            },
        },
    }
}

/// Record `v` under (`version`, `path`), replacing whatever the pair
/// held before and keeping every other entry.
pub fn ledger_record(global: &mut Value, version: &str, path: &str, v: Value)
    requires
        old(global)@ is Obj,
    ensures
        final(global)@ == ValueView::Obj(
            spec_ledger_record(old(global).entries(), version@, path@, v@),
        ),
{
    let mut vs = match global.obj_get(VERSIONS_META) {
        Some(x) => {
            match x {
                Value::Obj(_) => x.duplicate(),
                _ => Value::empty_obj(),
            }
        },
        None => Value::empty_obj(),
    };
    let mut m = match vs.obj_get(version) {
        Some(x) => {
            match x {
                Value::Obj(_) => x.duplicate(),
                _ => Value::empty_obj(),
            }
        },
        None => Value::empty_obj(),
    };
    m.obj_insert(path, v);
    vs.obj_insert(version, m);
    global.obj_insert(VERSIONS_META, vs);
}

/// The view of a path list.
pub open spec fn paths_view(paths: Seq<String>) -> Seq<Seq<char>> {
    Seq::new(paths.len(), |i: int| paths[i]@)
}

/// Walk the candidate paths in order; a path already recorded under
/// `version` is dropped, a fresh one is kept and recorded with a
/// placeholder.  Returns the kept paths and the new global entries.
pub open spec fn spec_filter_new(
    g: Seq<(Seq<char>, ValueView)>,
    version: Seq<char>,
    paths: Seq<Seq<char>>,
) -> (Seq<Seq<char>>, Seq<(Seq<char>, ValueView)>)
    decreases paths.len(),
{
    if paths.len() == 0 {
        (Seq::empty(), g)
    } else if spec_ledger_has(g, version, paths[0]) {
        spec_filter_new(g, version, paths.drop_first())
    } else {
        let g1 = spec_ledger_record(g, version, paths[0], ValueView::Null);
        let rec = spec_filter_new(g1, version, paths.drop_first());
        (seq![paths[0]] + rec.0, rec.1)
    }
}

/// Filtering a list ending in `p` is filtering the prefix, then
/// deciding `p` against the ledger the prefix produced.
pub proof fn lemma_filter_new_snoc(
    g: Seq<(Seq<char>, ValueView)>,
    version: Seq<char>,
    paths: Seq<Seq<char>>,
    p: Seq<char>,
)
    ensures
        spec_filter_new(g, version, paths.push(p)) == ({
            let (kept, g1) = spec_filter_new(g, version, paths);
            if spec_ledger_has(g1, version, p) {
                (kept, g1)
            } else {
                (kept.push(p), spec_ledger_record(g1, version, p, ValueView::Null))
            }
        }),
    decreases paths.len(),
{
    reveal_with_fuel(spec_filter_new, 3);
    if paths.len() == 0 {
        assert(paths.push(p)[0] == p);
        assert(paths.push(p).drop_first() =~= Seq::<Seq<char>>::empty());
        let (kept, g1) = spec_filter_new(g, version, paths);
        if !spec_ledger_has(g, version, p) {
            assert(seq![p] + Seq::<Seq<char>>::empty() =~= kept.push(p));
        }
    } else {
        assert(paths.push(p)[0] == paths[0]);
        assert(paths.push(p).drop_first() =~= paths.drop_first().push(p));
        if spec_ledger_has(g, version, paths[0]) {
            lemma_filter_new_snoc(g, version, paths.drop_first(), p);
        } else {
            let g1 = spec_ledger_record(g, version, paths[0], ValueView::Null);
            lemma_filter_new_snoc(g1, version, paths.drop_first(), p);
            let rec = spec_filter_new(g1, version, paths.drop_first());
            if spec_ledger_has(rec.1, version, p) {
            } else {
                assert((seq![paths[0]] + rec.0).push(p) =~= seq![paths[0]] + rec.0.push(p));
            }
        }
    }
}

/// After the walk, every candidate path is recorded.
pub proof fn lemma_filter_new_records(
    g: Seq<(Seq<char>, ValueView)>,
    version: Seq<char>,
    paths: Seq<Seq<char>>,
)
    ensures
        forall|i: int|
            0 <= i < paths.len() ==> spec_ledger_has(
                spec_filter_new(g, version, paths).1,
                version,
                #[trigger] paths[i],
            ),
    decreases paths.len(),
{
    if paths.len() > 0 {
        let p0 = paths[0];
        let rest = paths.drop_first();
        if spec_ledger_has(g, version, p0) {
            lemma_filter_new_records(g, version, rest);
            lemma_filter_preserves(g, version, rest, p0);
            assert forall|i: int|
                0 <= i < paths.len() implies spec_ledger_has(
                spec_filter_new(g, version, paths).1,
                version,
                #[trigger] paths[i],
            ) by {
                if i > 0 {
                    assert(rest[i - 1] == paths[i]);
                }
            }
        } else {
            let g1 = spec_ledger_record(g, version, p0, ValueView::Null);
            lemma_ledger_record(g, version, p0, ValueView::Null, version, p0);
            lemma_filter_new_records(g1, version, rest);
            lemma_filter_preserves(g1, version, rest, p0);
            assert forall|i: int|
                0 <= i < paths.len() implies spec_ledger_has(
                spec_filter_new(g, version, paths).1,
                version,
                #[trigger] paths[i],
            ) by {
                if i > 0 {
                    assert(rest[i - 1] == paths[i]);
                }
            }
        }
    }
}

/// The walk never un-records a pair: a path present before stays
/// present.
pub proof fn lemma_filter_preserves(
    g: Seq<(Seq<char>, ValueView)>,
    version: Seq<char>,
    paths: Seq<Seq<char>>,
    p: Seq<char>,
)
    requires
        spec_ledger_has(g, version, p),
    ensures
        spec_ledger_has(spec_filter_new(g, version, paths).1, version, p),
    decreases paths.len(),
{
    if paths.len() > 0 {
        if spec_ledger_has(g, version, paths[0]) {
            lemma_filter_preserves(g, version, paths.drop_first(), p);
        } else {
            let g1 = spec_ledger_record(g, version, paths[0], ValueView::Null);
            lemma_ledger_record(g, version, paths[0], ValueView::Null, version, p);
            lemma_filter_preserves(g1, version, paths.drop_first(), p);
        }
    }
}

/// When every candidate is already recorded, the walk keeps nothing
/// and changes nothing.
pub proof fn lemma_filter_all_present(
    g: Seq<(Seq<char>, ValueView)>,
    version: Seq<char>,
    paths: Seq<Seq<char>>,
)
    requires
        forall|i: int| 0 <= i < paths.len() ==> spec_ledger_has(g, version, #[trigger] paths[i]),
    ensures
        spec_filter_new(g, version, paths) == (Seq::<Seq<char>>::empty(), g),
    decreases paths.len(),
{
    if paths.len() > 0 {
        assert(spec_ledger_has(g, version, paths[0]));
        assert forall|i: int|
            0 <= i < paths.drop_first().len() implies spec_ledger_has(
            g,
            version,
            #[trigger] paths.drop_first()[i],
        ) by {
            assert(paths.drop_first()[i] == paths[i + 1]);
        }
        lemma_filter_all_present(g, version, paths.drop_first());
    }
}

/// Law: scheduling the same candidate paths twice under the same
/// version keeps every path at most once.  The second walk finds every
/// pair already recorded, keeps nothing, and leaves the ledger as it
/// was: no task is spawned a second time.
pub proof fn law_version_idempotent(
    g: Seq<(Seq<char>, ValueView)>,
    version: Seq<char>,
    paths: Seq<Seq<char>>,
)
    ensures
        spec_filter_new(spec_filter_new(g, version, paths).1, version, paths) == (
        Seq::<Seq<char>>::empty(),
        spec_filter_new(g, version, paths).1,
        ),
{
    lemma_filter_new_records(g, version, paths);
    lemma_filter_all_present(spec_filter_new(g, version, paths).1, version, paths);
}

/// Walk the candidate paths in order, dropping those already recorded
/// under `version` and recording a placeholder for the fresh ones.
#[verifier::loop_isolation(false)]
pub fn filter_new(global: &mut Value, version: &str, paths: &Vec<String>) -> (r: Vec<String>)
    requires
        old(global)@ is Obj,
    ensures
        final(global)@ is Obj,
        ({
            let (kept, g1) = spec_filter_new(old(global).entries(), version@, paths_view(paths@));
            paths_view(r@) == kept && final(global)@ == ValueView::Obj(g1)
        }),
{
    let ghost g0 = global.entries();
    let ghost pv = paths_view(paths@);
    let mut out: Vec<String> = Vec::new();
    let mut i: usize = 0;
    proof {
        assert(pv.take(0int) =~= Seq::<Seq<char>>::empty());
        assert(paths_view(out@) =~= Seq::<Seq<char>>::empty());
    }
    while i < paths.len()
        invariant
            i <= paths@.len(),
            global@ is Obj,
            paths_view(out@) == spec_filter_new(g0, version@, pv.take(i as int)).0,
            global.entries() == spec_filter_new(g0, version@, pv.take(i as int)).1,
        decreases paths@.len() - i,
    {
        proof {
            assert(pv.take(i as int).push(pv[i as int]) =~= pv.take(i + 1));
            lemma_filter_new_snoc(g0, version@, pv.take(i as int), pv[i as int]);
        }
        let ghost out0 = out@;
        if !ledger_has(global, version, paths[i].as_str()) {
            ledger_record(global, version, paths[i].as_str(), Value::Null);
            out.push(crate::value::clone_string(&paths[i]));
            proof {
                assert(paths_view(out@) =~= paths_view(out0).push(pv[i as int]));
            }
        }
        i = i + 1;
    }
    proof {
        assert(pv.take(pv.len() as int) =~= pv);
    }
    out
}

} // verus!
