//! A structured-value model: a small recursive sum of null, booleans,
//! integers, strings, sequences, and mappings.
//!
//! Documents and opaque extension payloads are carried as values of this
//! type.  A mapping is a sequence of key/value pairs in insertion order;
//! lookup takes the first pair with a matching key.

use vstd::prelude::*;

verus! {

broadcast use vstd::group_vstd_default;

/// The mathematical model of a structured value, over sequences of
/// characters and mathematical integers.
pub enum SpecJson {
    Null,
    Bool(bool),
    Int(int),
    Str(Seq<char>),
    Arr(Seq<SpecJson>),
    Obj(Seq<(Seq<char>, SpecJson)>),
}

/// A structured value.  Numbers are restricted to signed 64-bit integers.
#[derive(Debug)]
pub enum Json {
    Null,
    Bool(bool),
    Int(i64),
    Str(String),
    Arr(Vec<Json>),
    Obj(Vec<(String, Json)>),
}

/// The model of a structured value.
pub open spec fn json_view(j: Json) -> SpecJson
    decreases j,
{
    match j {
        Json::Null => SpecJson::Null,
        Json::Bool(b) => SpecJson::Bool(b),
        Json::Int(i) => SpecJson::Int(i as int),
        Json::Str(s) => SpecJson::Str(s@),
        Json::Arr(items) => SpecJson::Arr(json_view_elems(items@)),
        Json::Obj(fields) => SpecJson::Obj(json_view_fields(fields@)),
    }
}

/// The models of the elements of a sequence of structured values.
pub open spec fn json_view_elems(s: Seq<Json>) -> Seq<SpecJson>
    decreases s,
{
    if s.len() == 0 {
        Seq::empty()
    } else {
        seq![json_view(s[0])] + json_view_elems(s.subrange(1, s.len() as int))
    }
}

/// The models of the pairs of a sequence of key/value pairs.
pub open spec fn json_view_fields(s: Seq<(String, Json)>) -> Seq<(Seq<char>, SpecJson)>
    decreases s,
{
    if s.len() == 0 {
        Seq::empty()
    } else {
        seq![(s[0].0@, json_view(s[0].1))] + json_view_fields(s.subrange(1, s.len() as int))
    }
}

impl DeepView for Json {
    type V = SpecJson;

    open spec fn deep_view(&self) -> SpecJson {
        json_view(*self)
    }
}

/// The element models are the models of the elements, pointwise.
pub broadcast proof fn lemma_json_view_elems(s: Seq<Json>)
    ensures
        #[trigger] json_view_elems(s).len() == s.len(),
        forall|i: int| 0 <= i < s.len() ==> json_view_elems(s)[i] == json_view(s[i]),
    decreases s,
{
    if s.len() > 0 {
        lemma_json_view_elems(s.subrange(1, s.len() as int));
    }
}

/// The pair models are the models of the pairs, pointwise.
pub broadcast proof fn lemma_json_view_fields(s: Seq<(String, Json)>)
    ensures
        #[trigger] json_view_fields(s).len() == s.len(),
        forall|i: int|
            0 <= i < s.len() ==> json_view_fields(s)[i] == (s[i].0@, json_view(s[i].1)),
    decreases s,
{
    if s.len() > 0 {
        lemma_json_view_fields(s.subrange(1, s.len() as int));
    }
}

/// First-match lookup in a mapping: the value of the first pair whose key
/// equals `key`, or nothing if no pair matches.
pub open spec fn lookup_field(fields: Seq<(Seq<char>, SpecJson)>, key: Seq<char>) -> Option<
    SpecJson,
>
    decreases fields.len(),
{
    if fields.len() == 0 {
        None
    } else if fields[0].0 == key {
        Some(fields[0].1)
    } else {
        lookup_field(fields.subrange(1, fields.len() as int), key)
    }
}

/// A first matching index determines the lookup result.
pub proof fn lemma_lookup_at_index(fields: Seq<(Seq<char>, SpecJson)>, key: Seq<char>, i: int)
    requires
        0 <= i < fields.len(),
        fields[i].0 == key,
        forall|j: int| 0 <= j < i ==> fields[j].0 != key,
    ensures
        lookup_field(fields, key) == Some(fields[i].1),
    decreases i,
{
    if i > 0 {
        lemma_lookup_at_index(fields.subrange(1, fields.len() as int), key, i - 1);
    }
}

/// When no key matches, the lookup finds nothing.
pub proof fn lemma_lookup_none(fields: Seq<(Seq<char>, SpecJson)>, key: Seq<char>)
    requires
        forall|j: int| 0 <= j < fields.len() ==> fields[j].0 != key,
    ensures
        lookup_field(fields, key) is None,
    decreases fields.len(),
{
    if fields.len() > 0 {
        lemma_lookup_none(fields.subrange(1, fields.len() as int), key);
    }
}

/// A found value is the value of some pair of the mapping.
pub proof fn lemma_lookup_member(fields: Seq<(Seq<char>, SpecJson)>, key: Seq<char>)
    requires
        lookup_field(fields, key) is Some,
    ensures
        exists|i: int|
            0 <= i < fields.len() && fields[i].1 == lookup_field(fields, key)->0,
    decreases fields.len(),
{
    if fields.len() > 0 && fields[0].0 != key {
        let sub = fields.subrange(1, fields.len() as int);
        lemma_lookup_member(sub, key);
        let i = choose|i: int| 0 <= i < sub.len() && sub[i].1 == lookup_field(sub, key)->0;
        assert(fields[i + 1].1 == lookup_field(fields, key)->0);
    }
}

/// The index of the first pair of `fields` whose key equals `key`.
pub fn find_field(fields: &Vec<(String, Json)>, key: &str) -> (r: Option<usize>)
    ensures
        match r {
            Some(i) => i < fields@.len() && fields@[i as int].0@ == key@ && (forall|j: int|
                0 <= j < i ==> fields@[j].0@ != key@) && lookup_field(
                json_view_fields(fields@),
                key@,
            ) == Some(json_view(fields@[i as int].1)),
            None => lookup_field(json_view_fields(fields@), key@) is None,
        },
{
    let k: String = key.to_owned();
    let mut i: usize = 0;
    while i < fields.len()
        invariant
            i <= fields@.len(),
            k@ == key@,
            forall|j: int| 0 <= j < i ==> fields@[j].0@ != key@,
        decreases fields@.len() - i,
    {
        if fields[i].0 == k {
            proof {
                lemma_json_view_fields(fields@);
                lemma_lookup_at_index(json_view_fields(fields@), key@, i as int);
            }
            return Some(i);
        }
        i += 1;
    }
    proof {
        lemma_json_view_fields(fields@);
        lemma_lookup_none(json_view_fields(fields@), key@);
    }
    None
}

/// A structural copy of a value: the copy has the same model.
#[verifier::loop_isolation(false)]
pub fn json_clone(j: &Json) -> (r: Json)
    ensures
        r.deep_view() == j.deep_view(),
    decreases *j,
{
    match j {
        Json::Null => Json::Null,
        Json::Bool(b) => Json::Bool(*b),
        Json::Int(i) => Json::Int(*i),
        Json::Str(s) => Json::Str(s.clone()),
        Json::Arr(items) => {
            let mut out: Vec<Json> = Vec::new();
            let mut i: usize = 0;
            while i < items.len()
                invariant
                    i <= items@.len(),
                    out@.len() == i,
                    forall|k: int| 0 <= k < i ==> out@[k].deep_view() == items@[k].deep_view(),
                decreases items@.len() - i,
            {
                proof {
                    assert(j->Arr_0 == *items);
                    assert(decreases_to!(*j => j->Arr_0));
                    assert(decreases_to!(*j => *items));
                    assert(decreases_to!(*items => items@));
                    assert(decreases_to!(items@ => items@[i as int]));
                }
                out.push(json_clone(&items[i]));
                i += 1;
            }
            proof {
                lemma_json_view_elems(out@);
                lemma_json_view_elems(items@);
                assert(json_view_elems(out@) =~= json_view_elems(items@));
            }
            Json::Arr(out)
        },
        Json::Obj(fields) => {
            let mut out: Vec<(String, Json)> = Vec::new();
            let mut i: usize = 0;
            while i < fields.len()
                invariant
                    i <= fields@.len(),
                    out@.len() == i,
                    forall|k: int|
                        0 <= k < i ==> out@[k].0@ == fields@[k].0@ && out@[k].1.deep_view()
                            == fields@[k].1.deep_view(),
                decreases fields@.len() - i,
            {
                proof {
                    assert(j->Obj_0 == *fields);
                    assert(decreases_to!(*j => j->Obj_0));
                    assert(decreases_to!(*j => *fields));
                    assert(decreases_to!(*fields => fields@));
                    assert(decreases_to!(fields@ => fields@[i as int]));
                    assert(decreases_to!(fields@[i as int] => fields@[i as int].1));
                }
                out.push((fields[i].0.clone(), json_clone(&fields[i].1)));
                i += 1;
            }
            proof {
                lemma_json_view_fields(out@);
                lemma_json_view_fields(fields@);
                assert(json_view_fields(out@) =~= json_view_fields(fields@));
            }
            Json::Obj(out)
        },
    }
}

/// The model of a value is built by the constructor matching the value's own.
pub proof fn lemma_json_view_shape(j: Json)
    ensures
        j is Null ==> json_view(j) is Null,
        j is Bool ==> json_view(j) is Bool,
        j is Int ==> json_view(j) is Int,
        j is Str ==> json_view(j) is Str,
        j is Arr ==> json_view(j) is Arr,
        j is Obj ==> json_view(j) is Obj,
{
}

/// Structural equality of two values: true exactly when the models agree.
#[verifier::loop_isolation(false)]
pub fn json_eq(a: &Json, b: &Json) -> (r: bool)
    ensures
        r == (a.deep_view() == b.deep_view()),
    decreases *a,
{
    match (a, b) {
        (Json::Null, Json::Null) => {
            proof {
                assert(a.deep_view() == SpecJson::Null);
                assert(b.deep_view() == SpecJson::Null);
            }
            true
        },
        (Json::Bool(x), Json::Bool(y)) => {
            proof {
                assert(a.deep_view() == SpecJson::Bool(*x));
                assert(b.deep_view() == SpecJson::Bool(*y));
            }
            *x == *y
        },
        (Json::Int(x), Json::Int(y)) => {
            proof {
                assert(a.deep_view() == SpecJson::Int(*x as int));
                assert(b.deep_view() == SpecJson::Int(*y as int));
            }
            *x == *y
        },
        (Json::Str(x), Json::Str(y)) => {
            proof {
                assert(a.deep_view() == SpecJson::Str(x@));
                assert(b.deep_view() == SpecJson::Str(y@));
            }
            *x == *y
        },
        (Json::Arr(x), Json::Arr(y)) => {
            proof {
                lemma_json_view_elems(x@);
                lemma_json_view_elems(y@);
                assert(a.deep_view() == SpecJson::Arr(json_view_elems(x@)));
                assert(b.deep_view() == SpecJson::Arr(json_view_elems(y@)));
            }
            if x.len() != y.len() {
                return false;
            }
            let mut i: usize = 0;
            while i < x.len()
                invariant
                    x@.len() == y@.len(),
                    i <= x@.len(),
                    json_view_elems(x@).len() == x@.len(),
                    json_view_elems(y@).len() == y@.len(),
                    forall|k: int| 0 <= k < x@.len() ==> json_view_elems(x@)[k] == json_view(x@[k]),
                    forall|k: int| 0 <= k < y@.len() ==> json_view_elems(y@)[k] == json_view(y@[k]),
                    forall|k: int| 0 <= k < i ==> json_view(x@[k]) == json_view(y@[k]),
                decreases x@.len() - i,
            {
                proof {
                    assert(a->Arr_0 == *x);
                    assert(decreases_to!(*a => a->Arr_0));
                    assert(decreases_to!(*x => x@));
                    assert(decreases_to!(x@ => x@[i as int]));
                }
                if !json_eq(&x[i], &y[i]) {
                    assert(json_view_elems(x@)[i as int] != json_view_elems(y@)[i as int]);
                    return false;
                }
                i += 1;
            }
            proof {
                assert(json_view_elems(x@) =~= json_view_elems(y@));
            }
            true
        },
        (Json::Obj(x), Json::Obj(y)) => {
            proof {
                lemma_json_view_fields(x@);
                lemma_json_view_fields(y@);
                assert(a.deep_view() == SpecJson::Obj(json_view_fields(x@)));
                assert(b.deep_view() == SpecJson::Obj(json_view_fields(y@)));
            }
            if x.len() != y.len() {
                return false;
            }
            let mut i: usize = 0;
            while i < x.len()
                invariant
                    x@.len() == y@.len(),
                    i <= x@.len(),
                    json_view_fields(x@).len() == x@.len(),
                    json_view_fields(y@).len() == y@.len(),
                    forall|k: int|
                        0 <= k < x@.len() ==> json_view_fields(x@)[k] == (
                        x@[k].0@,
                        json_view(x@[k].1),
                        ),
                    forall|k: int|
                        0 <= k < y@.len() ==> json_view_fields(y@)[k] == (
                        y@[k].0@,
                        json_view(y@[k].1),
                        ),
                    forall|k: int|
                        0 <= k < i ==> x@[k].0@ == y@[k].0@ && json_view(x@[k].1) == json_view(
                            y@[k].1,
                        ),
                decreases x@.len() - i,
            {
                if !(x[i].0 == y[i].0) {
                    assert(json_view_fields(x@)[i as int] != json_view_fields(y@)[i as int]);
                    return false;
                }
                proof {
                    assert(a->Obj_0 == *x);
                    assert(decreases_to!(*a => a->Obj_0));
                    assert(decreases_to!(*x => x@));
                    assert(decreases_to!(x@ => x@[i as int]));
                    assert(decreases_to!(x@[i as int] => x@[i as int].1));
                }
                if !json_eq(&x[i].1, &y[i].1) {
                    assert(json_view_fields(x@)[i as int] != json_view_fields(y@)[i as int]);
                    return false;
                }
                i += 1;
            }
            proof {
                assert(json_view_fields(x@) =~= json_view_fields(y@));
            }
            true
        },
        _ => {
            proof {
                lemma_json_view_shape(*a);
                lemma_json_view_shape(*b);
            }
            false
        },
    }
}

/// Structural equality of two key/value pair sequences: true exactly when
/// the models agree.
#[verifier::loop_isolation(false)]
pub fn fields_eq(a: &Vec<(String, Json)>, b: &Vec<(String, Json)>) -> (r: bool)
    ensures
        r == (json_view_fields(a@) == json_view_fields(b@)),
{
    proof {
        lemma_json_view_fields(a@);
        lemma_json_view_fields(b@);
    }
    if a.len() != b.len() {
        return false;
    }
    let mut i: usize = 0;
    while i < a.len()
        invariant
            a@.len() == b@.len(),
            i <= a@.len(),
            forall|k: int|
                #![trigger a@[k]]
                0 <= k < i ==> a@[k].0@ == b@[k].0@ && json_view(a@[k].1) == json_view(b@[k].1),
        decreases a@.len() - i,
    {
        if !(a[i].0 == b[i].0) {
            proof {
                assert(json_view_fields(a@)[i as int] != json_view_fields(b@)[i as int]);
            }
            return false;
        }
        if !json_eq(&a[i].1, &b[i].1) {
            proof {
                assert(json_view_fields(a@)[i as int] != json_view_fields(b@)[i as int]);
            }
            return false;
        }
        i += 1;
    }
    proof {
        assert forall|k: int|
            0 <= k < a@.len() implies json_view_fields(a@)[k] == json_view_fields(b@)[k] by {
            assert(json_view_fields(a@)[k] == (a@[k].0@, json_view(a@[k].1)));
        }
        assert(json_view_fields(a@) =~= json_view_fields(b@));
    }
    true
}

impl PartialEq for Json {
    fn eq(&self, other: &Json) -> bool {
        json_eq(self, other)
    }
}

impl vstd::std_specs::cmp::PartialEqSpecImpl for Json {
    open spec fn obeys_eq_spec() -> bool {
        true
    }

    open spec fn eq_spec(&self, other: &Json) -> bool {
        self.deep_view() == other.deep_view()
    }
}

} // verus!
