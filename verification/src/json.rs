//! The untyped JSON document tree that holds the session values, its
//! mathematical model, and the pruning pass used by the search filter.

use vstd::prelude::*;

verus! {

/// One key-value entry of a JSON object.
pub struct JsonField {
    pub key: String,
    pub value: JsonValue,
}

/// The untyped document tree that holds the committed session values.
pub enum JsonValue {
    Null,
    Bool(bool),
    Number(String),
    Text(String),
    Array(Vec<JsonValue>),
    Object(Vec<JsonField>),
}

/// Mathematical model of a `JsonValue`: objects are key-value sequences in
/// document order, strings are character sequences.
#[verifier::ext_equal]
pub enum JsonData {
    Null,
    Bool(bool),
    Number(Seq<char>),
    Text(Seq<char>),
    Array(Seq<JsonData>),
    Object(Seq<(Seq<char>, JsonData)>),
}

pub open spec fn json_view(v: JsonValue) -> JsonData
    decreases v,
{
    match v {
        JsonValue::Null => JsonData::Null,
        JsonValue::Bool(b) => JsonData::Bool(b),
        JsonValue::Number(s) => JsonData::Number(s@),
        JsonValue::Text(s) => JsonData::Text(s@),
        JsonValue::Array(elems) => JsonData::Array(views_of_elems(elems@)),
        JsonValue::Object(fields) => JsonData::Object(views_of_fields(fields@)),
    }
}

pub open spec fn views_of_elems(elems: Seq<JsonValue>) -> Seq<JsonData>
    decreases elems,
{
    if elems.len() == 0 {
        Seq::empty()
    } else {
        views_of_elems(elems.subrange(0, elems.len() - 1)).push(
            json_view(elems[elems.len() - 1]),
        )
    }
}

pub open spec fn views_of_fields(fields: Seq<JsonField>) -> Seq<(Seq<char>, JsonData)>
    decreases fields,
{
    if fields.len() == 0 {
        Seq::empty()
    } else {
        views_of_fields(fields.subrange(0, fields.len() - 1)).push(
            (fields[fields.len() - 1].key@, json_view(fields[fields.len() - 1].value)),
        )
    }
}

pub broadcast proof fn lemma_views_of_elems(elems: Seq<JsonValue>)
    ensures
        (#[trigger] views_of_elems(elems)).len() == elems.len(),
        forall|i: int| 0 <= i < elems.len() ==> views_of_elems(elems)[i] == json_view(elems[i]),
    decreases elems,
{
    if elems.len() > 0 {
        lemma_views_of_elems(elems.subrange(0, elems.len() - 1));
    }
}

pub broadcast proof fn lemma_views_of_fields(fields: Seq<JsonField>)
    ensures
        (#[trigger] views_of_fields(fields)).len() == fields.len(),
        forall|i: int|
            0 <= i < fields.len() ==> views_of_fields(fields)[i] == (
                fields[i].key@,
                json_view(fields[i].value),
            ),
    decreases fields,
{
    if fields.len() > 0 {
        lemma_views_of_fields(fields.subrange(0, fields.len() - 1));
    }
}

impl View for JsonValue {
    type V = JsonData;

    open spec fn view(&self) -> JsonData {
        json_view(*self)
    }
}

/// Structural height of a document value, the termination measure for the
/// executable recursion over the tree.
pub open spec fn data_height(d: JsonData) -> nat
    decreases d,
{
    match d {
        JsonData::Array(elems) => 1 + elems_height(elems),
        JsonData::Object(fields) => 1 + fields_height(fields),
        _ => 1,
    }
}

pub open spec fn elems_height(elems: Seq<JsonData>) -> nat
    decreases elems,
{
    if elems.len() == 0 {
        0
    } else {
        let rest = elems_height(elems.subrange(0, elems.len() - 1));
        let h = data_height(elems[elems.len() - 1]);
        if h > rest {
            h
        } else {
            rest
        }
    }
}

pub open spec fn fields_height(fields: Seq<(Seq<char>, JsonData)>) -> nat
    decreases fields,
{
    if fields.len() == 0 {
        0
    } else {
        let rest = fields_height(fields.subrange(0, fields.len() - 1));
        let h = data_height(fields[fields.len() - 1].1);
        if h > rest {
            h
        } else {
            rest
        }
    }
}

pub proof fn lemma_elem_height(elems: Seq<JsonData>, i: int)
    requires
        0 <= i < elems.len(),
    ensures
        data_height(elems[i]) <= elems_height(elems),
    decreases elems,
{
    if i < elems.len() - 1 {
        lemma_elem_height(elems.subrange(0, elems.len() - 1), i);
        assert(elems.subrange(0, elems.len() - 1)[i] == elems[i]);
    }
}

pub proof fn lemma_field_height(fields: Seq<(Seq<char>, JsonData)>, i: int)
    requires
        0 <= i < fields.len(),
    ensures
        data_height(fields[i].1) <= fields_height(fields),
    decreases fields,
{
    if i < fields.len() - 1 {
        lemma_field_height(fields.subrange(0, fields.len() - 1), i);
        assert(fields.subrange(0, fields.len() - 1)[i] == fields[i]);
    }
}

/// Containers are the values that pruning may drop from an array; every other
/// value is a leaf.
pub open spec fn is_container(d: JsonData) -> bool {
    match d {
        JsonData::Array(_) => true,
        JsonData::Object(_) => true,
        _ => false,
    }
}

/// The keep decision for one object field: its subtree matched, or the key
/// itself is a keep-key or an always-preserved name.
pub open spec fn field_hit(
    f: (Seq<char>, JsonData),
    keys: Seq<Seq<char>>,
    pres: Seq<Seq<char>>,
) -> bool
    decreases f,
{
    data_keeps(f.1, keys, pres) || keys.contains(f.0) || pres.contains(f.0)
}

/// Whether the pruning pass reports this value as kept: true exactly when some
/// object field below it (or at it) hits the keep-keys or preserve set.
/// Leaves standing alone are never kept by themselves.
pub open spec fn data_keeps(d: JsonData, keys: Seq<Seq<char>>, pres: Seq<Seq<char>>) -> bool
    decreases d,
{
    match d {
        JsonData::Object(fields) => fields_keep(fields, keys, pres),
        JsonData::Array(elems) => elems_keep(elems, keys, pres),
        _ => false,
    }
}

/// Some field of the sequence hits the keep-keys or preserve set.
pub open spec fn fields_keep(
    fields: Seq<(Seq<char>, JsonData)>,
    keys: Seq<Seq<char>>,
    pres: Seq<Seq<char>>,
) -> bool
    decreases fields,
{
    if fields.len() == 0 {
        false
    } else {
        fields_keep(fields.subrange(0, fields.len() - 1), keys, pres) || field_hit(
            fields[fields.len() - 1],
            keys,
            pres,
        )
    }
}

/// Some element of the sequence is kept.
pub open spec fn elems_keep(
    elems: Seq<JsonData>,
    keys: Seq<Seq<char>>,
    pres: Seq<Seq<char>>,
) -> bool
    decreases elems,
{
    if elems.len() == 0 {
        false
    } else {
        elems_keep(elems.subrange(0, elems.len() - 1), keys, pres) || data_keeps(
            elems[elems.len() - 1],
            keys,
            pres,
        )
    }
}

/// The document after pruning: object fields stay exactly when they hit,
/// array elements stay when kept or when they are leaves, and every retained
/// subtree is itself pruned.
pub open spec fn data_pruned(d: JsonData, keys: Seq<Seq<char>>, pres: Seq<Seq<char>>) -> JsonData
    decreases d,
{
    match d {
        JsonData::Object(fields) => JsonData::Object(pruned_fields(fields, keys, pres)),
        JsonData::Array(elems) => JsonData::Array(pruned_elems(elems, keys, pres)),
        _ => d,
    }
}

pub open spec fn pruned_fields(
    fields: Seq<(Seq<char>, JsonData)>,
    keys: Seq<Seq<char>>,
    pres: Seq<Seq<char>>,
) -> Seq<(Seq<char>, JsonData)>
    decreases fields,
{
    if fields.len() == 0 {
        Seq::empty()
    } else {
        let rest = pruned_fields(fields.subrange(0, fields.len() - 1), keys, pres);
        let f = fields[fields.len() - 1];
        if field_hit(f, keys, pres) {
            rest.push((f.0, data_pruned(f.1, keys, pres)))
        } else {
            rest
        }
    }
}

pub open spec fn pruned_elems(
    elems: Seq<JsonData>,
    keys: Seq<Seq<char>>,
    pres: Seq<Seq<char>>,
) -> Seq<JsonData>
    decreases elems,
{
    if elems.len() == 0 {
        Seq::empty()
    } else {
        let rest = pruned_elems(elems.subrange(0, elems.len() - 1), keys, pres);
        let e = elems[elems.len() - 1];
        if data_keeps(e, keys, pres) || !is_container(e) {
            rest.push(data_pruned(e, keys, pres))
        } else {
            rest
        }
    }
}

/// Whether `k` occurs among the names, compared by contents.
fn names_contain(names: &Vec<String>, k: &String) -> (r: bool)
    ensures
        r == names.deep_view().contains(k@),
{
    let mut i: usize = 0;
    while i < names.len()
        invariant
            i <= names.len(),
            forall|j: int| 0 <= j < i ==> names.deep_view()[j] != k@,
        decreases names.len() - i,
    {
        if names[i] == *k {
            assert(names.deep_view()[i as int] == k@);
            return true;
        }
        i += 1;
    }
    false
}

/// The recursive pruning pass. Returns the pruned copy of `v` together with
/// the kept flag that the caller's own keep decision folds in.
pub fn prune_value(v: &JsonValue, keys: &Vec<String>, pres: &Vec<String>) -> (r: (
    JsonValue,
    bool,
))
    ensures
        r.0@ == data_pruned(v@, keys.deep_view(), pres.deep_view()),
        r.1 == data_keeps(v@, keys.deep_view(), pres.deep_view()),
    decreases data_height(v@),
{
    let ghost keysv = keys.deep_view();
    let ghost presv = pres.deep_view();
    match v {
        JsonValue::Null => (JsonValue::Null, false),
        JsonValue::Bool(b) => (JsonValue::Bool(*b), false),
        JsonValue::Number(s) => (JsonValue::Number(s.clone()), false),
        JsonValue::Text(s) => (JsonValue::Text(s.clone()), false),
        JsonValue::Array(elems) => {
            let ghost dvs = views_of_elems(elems@);
            proof {
                lemma_views_of_elems(elems@);
            }
            let mut out: Vec<JsonValue> = Vec::new();
            let mut kept = false;
            let mut i: usize = 0;
            while i < elems.len()
                invariant
                    i <= elems.len(),
                    keysv == keys.deep_view(),
                    presv == pres.deep_view(),
                    v@ == JsonData::Array(dvs),
                    dvs == views_of_elems(elems@),
                    dvs.len() == elems@.len(),
                    forall|j: int| 0 <= j < elems@.len() ==> dvs[j] == json_view(elems@[j]),
                    views_of_elems(out@) == pruned_elems(dvs.subrange(0, i as int), keysv, presv),
                    kept == elems_keep(dvs.subrange(0, i as int), keysv, presv),
                decreases elems.len() - i,
            {
                let ghost out0 = out@;
                proof {
                    lemma_elem_height(dvs, i as int);
                    assert(v@ == JsonData::Array(dvs));
                    assert(data_height(v@) == 1 + elems_height(dvs));
                    assert(data_height(dvs[i as int]) < data_height(v@));
                }
                let (pv, pk) = prune_value(&elems[i], keys, pres);
                let leaf = !matches!(&elems[i], JsonValue::Array(_) | JsonValue::Object(_));
                if pk {
                    kept = true;
                }
                if pk || leaf {
                    out.push(pv);
                    proof {
                        assert(out@.subrange(0, out0.len() as int) =~= out0);
                        assert(views_of_elems(out@) == views_of_elems(out0).push(pv@));
                    }
                }
                proof {
                    assert(dvs.subrange(0, i + 1).subrange(0, i as int) =~= dvs.subrange(
                        0,
                        i as int,
                    ));
                    assert(dvs.subrange(0, i + 1)[i as int] == json_view(elems@[i as int]));
                    assert(is_container(json_view(elems@[i as int])) <==> !leaf);
                }
                i += 1;
            }
            proof {
                assert(dvs.subrange(0, elems@.len() as int) =~= dvs);
            }
            (JsonValue::Array(out), kept)
        },
        JsonValue::Object(fields) => {
            let ghost dvs = views_of_fields(fields@);
            proof {
                lemma_views_of_fields(fields@);
            }
            let mut out: Vec<JsonField> = Vec::new();
            let mut kept = false;
            let mut i: usize = 0;
            while i < fields.len()
                invariant
                    i <= fields.len(),
                    keysv == keys.deep_view(),
                    presv == pres.deep_view(),
                    v@ == JsonData::Object(dvs),
                    dvs == views_of_fields(fields@),
                    dvs.len() == fields@.len(),
                    forall|j: int|
                        0 <= j < fields@.len() ==> dvs[j] == (
                            fields@[j].key@,
                            json_view(fields@[j].value),
                        ),
                    views_of_fields(out@) == pruned_fields(dvs.subrange(0, i as int), keysv, presv),
                    kept == fields_keep(dvs.subrange(0, i as int), keysv, presv),
                decreases fields.len() - i,
            {
                let ghost out0 = out@;
                proof {
                    lemma_field_height(dvs, i as int);
                    assert(data_height(dvs[i as int].1) < data_height(v@));
                }
                let (pv, pk) = prune_value(&fields[i].value, keys, pres);
                let stay = names_contain(keys, &fields[i].key);
                let presd = names_contain(pres, &fields[i].key);
                if pk || stay || presd {
                    let nk = fields[i].key.clone();
                    out.push(JsonField { key: nk, value: pv });
                    kept = true;
                    proof {
                        assert(out@.subrange(0, out0.len() as int) =~= out0);
                        assert(views_of_fields(out@) == views_of_fields(out0).push(
                            (fields@[i as int].key@, pv@),
                        ));
                    }
                }
                proof {
                    assert(dvs.subrange(0, i + 1).subrange(0, i as int) =~= dvs.subrange(
                        0,
                        i as int,
                    ));
                    assert(dvs.subrange(0, i + 1)[i as int] == dvs[i as int]);
                    assert(field_hit(dvs[i as int], keysv, presv) == (pk || stay || presd));
                }
                i += 1;
            }
            proof {
                assert(dvs.subrange(0, fields@.len() as int) =~= dvs);
            }
            (JsonValue::Object(out), kept)
        },
    }
}


/// Pruning leaves the keep verdict unchanged: a document reports "kept"
/// before pruning exactly when its pruned form still does.
pub proof fn lemma_keeps_pruned(d: JsonData, keys: Seq<Seq<char>>, pres: Seq<Seq<char>>)
    ensures
        data_keeps(data_pruned(d, keys, pres), keys, pres) == data_keeps(d, keys, pres),
    decreases data_height(d), 0nat,
{
    match d {
        JsonData::Object(fields) => {
            lemma_fields_keep_pruned(fields, keys, pres);
        },
        JsonData::Array(elems) => {
            lemma_elems_keep_pruned(elems, keys, pres);
        },
        _ => {},
    }
}

proof fn lemma_fields_keep_pruned(
    fields: Seq<(Seq<char>, JsonData)>,
    keys: Seq<Seq<char>>,
    pres: Seq<Seq<char>>,
)
    ensures
        fields_keep(pruned_fields(fields, keys, pres), keys, pres) == fields_keep(
            fields,
            keys,
            pres,
        ),
    decreases fields_height(fields), fields.len() + 1,
{
    if fields.len() > 0 {
        let rest = fields.subrange(0, fields.len() - 1);
        let f = fields[fields.len() - 1];
        lemma_fields_keep_pruned(rest, keys, pres);
        lemma_keeps_pruned(f.1, keys, pres);
        if field_hit(f, keys, pres) {
            let g = (f.0, data_pruned(f.1, keys, pres));
            let x = pruned_fields(rest, keys, pres);
            assert(x.push(g).subrange(0, x.len() as int) =~= x);
            assert(fields_keep(x.push(g), keys, pres) == (fields_keep(x, keys, pres)
                || field_hit(g, keys, pres)));
        }
    }
}

proof fn lemma_elems_keep_pruned(
    elems: Seq<JsonData>,
    keys: Seq<Seq<char>>,
    pres: Seq<Seq<char>>,
)
    ensures
        elems_keep(pruned_elems(elems, keys, pres), keys, pres) == elems_keep(elems, keys, pres),
    decreases elems_height(elems), elems.len() + 1,
{
    if elems.len() > 0 {
        let rest = elems.subrange(0, elems.len() - 1);
        let e = elems[elems.len() - 1];
        lemma_elems_keep_pruned(rest, keys, pres);
        lemma_keeps_pruned(e, keys, pres);
        if data_keeps(e, keys, pres) || !is_container(e) {
            let g = data_pruned(e, keys, pres);
            let x = pruned_elems(rest, keys, pres);
            assert(x.push(g).subrange(0, x.len() as int) =~= x);
            assert(elems_keep(x.push(g), keys, pres) == (elems_keep(x, keys, pres) || data_keeps(
                g,
                keys,
                pres,
            )));
        }
    }
}

/// Pruning is idempotent: a document that already contains only kept
/// subtrees, keep-keys and preserved leaves is left untouched by a second
/// pruning pass with the same sets.
pub proof fn lemma_prune_idempotent(d: JsonData, keys: Seq<Seq<char>>, pres: Seq<Seq<char>>)
    ensures
        data_pruned(data_pruned(d, keys, pres), keys, pres) == data_pruned(d, keys, pres),
    decreases data_height(d), 0nat,
{
    match d {
        JsonData::Object(fields) => {
            lemma_pruned_fields_idempotent(fields, keys, pres);
        },
        JsonData::Array(elems) => {
            lemma_pruned_elems_idempotent(elems, keys, pres);
        },
        _ => {},
    }
}

proof fn lemma_pruned_fields_idempotent(
    fields: Seq<(Seq<char>, JsonData)>,
    keys: Seq<Seq<char>>,
    pres: Seq<Seq<char>>,
)
    ensures
        pruned_fields(pruned_fields(fields, keys, pres), keys, pres) == pruned_fields(
            fields,
            keys,
            pres,
        ),
    decreases fields_height(fields), fields.len() + 1,
{
    if fields.len() > 0 {
        let rest = fields.subrange(0, fields.len() - 1);
        let f = fields[fields.len() - 1];
        lemma_pruned_fields_idempotent(rest, keys, pres);
        lemma_keeps_pruned(f.1, keys, pres);
        lemma_prune_idempotent(f.1, keys, pres);
        if field_hit(f, keys, pres) {
            let g = (f.0, data_pruned(f.1, keys, pres));
            let x = pruned_fields(rest, keys, pres);
            assert(x.push(g).subrange(0, x.len() as int) =~= x);
            assert(field_hit(g, keys, pres));
            assert(pruned_fields(x.push(g), keys, pres) == pruned_fields(x, keys, pres).push(
                (g.0, data_pruned(g.1, keys, pres)),
            ));
        }
    }
}

proof fn lemma_pruned_elems_idempotent(
    elems: Seq<JsonData>,
    keys: Seq<Seq<char>>,
    pres: Seq<Seq<char>>,
)
    ensures
        pruned_elems(pruned_elems(elems, keys, pres), keys, pres) == pruned_elems(
            elems,
            keys,
            pres,
        ),
    decreases elems_height(elems), elems.len() + 1,
{
    if elems.len() > 0 {
        let rest = elems.subrange(0, elems.len() - 1);
        let e = elems[elems.len() - 1];
        lemma_pruned_elems_idempotent(rest, keys, pres);
        lemma_keeps_pruned(e, keys, pres);
        lemma_prune_idempotent(e, keys, pres);
        if data_keeps(e, keys, pres) || !is_container(e) {
            let g = data_pruned(e, keys, pres);
            let x = pruned_elems(rest, keys, pres);
            assert(x.push(g).subrange(0, x.len() as int) =~= x);
            assert(is_container(g) == is_container(e));
            assert(pruned_elems(x.push(g), keys, pres) == pruned_elems(x, keys, pres).push(
                data_pruned(g, keys, pres),
            ));
        }
    }
}

} // verus!

