//! The version-1 generation record: its shape, and the decode/encode
//! contract between structured documents and records.
//!
//! Decoding is strict about the documented null-vs-absent rule for the two
//! map-typed fields (`specialisation`, `extensions`): an absent field
//! defaults to an empty map, an explicit null is rejected.  Unrecognized
//! top-level fields are ignored for forward compatibility.

use vstd::prelude::*;
use crate::json::{
    Json, SpecJson, json_view, json_view_elems, json_view_fields, lookup_field,
    lemma_lookup_member, lemma_lookup_at_index, lemma_lookup_none, lemma_json_view_elems,
    lemma_json_view_fields, lemma_json_view_shape, find_field, json_clone, fields_eq,
};
use crate::error::{DecodeError, SpecDecodeError};
use crate::{SpecialisationName, SystemConfigurationRoot};

verus! {

broadcast use vstd::group_vstd_default;

/// The schema version this module's record shape belongs to.
pub const SCHEMA_VERSION: u64 = 1;

/// The canonical file name under which external tools store a version-1
/// document.
pub const JSON_FILENAME: &'static str = "boot.v1.json";

/// The mathematical model of a version-1 generation record.
pub struct SpecGenerationV1 {
    pub system: Seq<char>,
    pub init: Seq<char>,
    pub initrd: Option<Seq<char>>,
    pub initrd_secrets: Option<Seq<char>>,
    pub kernel: Seq<char>,
    pub kernel_params: Seq<Seq<char>>,
    pub label: Seq<char>,
    pub toplevel: Seq<char>,
    pub specialisation: Seq<(Seq<char>, SpecGenerationV1)>,
    pub extensions: Seq<(Seq<char>, Seq<(Seq<char>, SpecJson)>)>,
}

/// A version-1 generation record.
///
/// `specialisation` and `extensions` are mappings held as key/value pairs in
/// insertion order; keys are unique when the record was built by decoding.
/// An extension payload is itself a mapping from string keys to opaque
/// structured values, carried losslessly.
#[derive(Debug)]
pub struct GenerationV1 {
    pub system: String,
    pub init: String,
    pub initrd: Option<String>,
    pub initrd_secrets: Option<String>,
    pub kernel: String,
    pub kernel_params: Vec<String>,
    pub label: String,
    pub toplevel: SystemConfigurationRoot,
    pub specialisation: Vec<(SpecialisationName, GenerationV1)>,
    pub extensions: Vec<(String, Vec<(String, Json)>)>,
}

/// The model of an optional string.
pub open spec fn opt_view(o: Option<String>) -> Option<Seq<char>> {
    match o {
        Option::None => Option::None,
        Option::Some(s) => Option::Some(s@),
    }
}

/// The models of the elements of a sequence of strings.
pub open spec fn strings_view(s: Seq<String>) -> Seq<Seq<char>> {
    Seq::new(s.len(), |i: int| s[i]@)
}

/// The models of the pairs of an extension mapping.
pub open spec fn ext_view(s: Seq<(String, Vec<(String, Json)>)>) -> Seq<
    (Seq<char>, Seq<(Seq<char>, SpecJson)>),
> {
    Seq::new(s.len(), |i: int| (s[i].0@, json_view_fields(s[i].1@)))
}

/// The model of a version-1 record.
pub open spec fn gen_view(g: GenerationV1) -> SpecGenerationV1
    decreases g, 1int,
{
    SpecGenerationV1 {
        system: g.system@,
        init: g.init@,
        initrd: opt_view(g.initrd),
        initrd_secrets: opt_view(g.initrd_secrets),
        kernel: g.kernel@,
        kernel_params: strings_view(g.kernel_params@),
        label: g.label@,
        toplevel: g.toplevel.0@,
        specialisation: gen_view_specs(g.specialisation@),
        extensions: ext_view(g.extensions@),
    }
}

/// The models of the pairs of a specialisation mapping.
pub open spec fn gen_view_specs(s: Seq<(SpecialisationName, GenerationV1)>) -> Seq<
    (Seq<char>, SpecGenerationV1),
>
    decreases s, 0int,
{
    if s.len() == 0 {
        Seq::empty()
    } else {
        seq![(s[0].0.0@, gen_view(s[0].1))] + gen_view_specs(s.subrange(1, s.len() as int))
    }
}

/// The pair models are the models of the pairs, pointwise.
pub broadcast proof fn lemma_gen_view_specs(s: Seq<(SpecialisationName, GenerationV1)>)
    ensures
        #[trigger] gen_view_specs(s).len() == s.len(),
        forall|i: int|
            0 <= i < s.len() ==> gen_view_specs(s)[i] == (s[i].0.0@, gen_view(s[i].1)),
    decreases s,
{
    if s.len() > 0 {
        lemma_gen_view_specs(s.subrange(1, s.len() as int));
    }
}

impl DeepView for GenerationV1 {
    type V = SpecGenerationV1;

    open spec fn deep_view(&self) -> SpecGenerationV1 {
        gen_view(*self)
    }
}

/// A required string field: absent is an error, any shape but a string is
/// an error.
pub open spec fn spec_req_string(fields: Seq<(Seq<char>, SpecJson)>, key: Seq<char>) -> Result<
    Seq<char>,
    SpecDecodeError,
> {
    match lookup_field(fields, key) {
        Option::None => Err(SpecDecodeError::MissingRequiredField(key)),
        Option::Some(SpecJson::Str(s)) => Ok(s),
        Option::Some(_) => Err(SpecDecodeError::TypeMismatch(key)),
    }
}

/// An optional string field: absent or null is no value, any other shape
/// but a string is an error.
pub open spec fn spec_opt_string(fields: Seq<(Seq<char>, SpecJson)>, key: Seq<char>) -> Result<
    Option<Seq<char>>,
    SpecDecodeError,
> {
    match lookup_field(fields, key) {
        Option::None => Ok(Option::None),
        Option::Some(SpecJson::Null) => Ok(Option::None),
        Option::Some(SpecJson::Str(s)) => Ok(Option::Some(s)),
        Option::Some(_) => Err(SpecDecodeError::TypeMismatch(key)),
    }
}

/// The strings of a sequence of values that must all be strings.
pub open spec fn spec_string_elems(items: Seq<SpecJson>, key: Seq<char>) -> Result<
    Seq<Seq<char>>,
    SpecDecodeError,
>
    decreases items.len(),
{
    if items.len() == 0 {
        Ok(Seq::empty())
    } else {
        match items[0] {
            SpecJson::Str(s) => match spec_string_elems(
                items.subrange(1, items.len() as int),
                key,
            ) {
                Ok(rest) => Ok(seq![s] + rest),
                Err(e) => Err(e),
            },
            _ => Err(SpecDecodeError::TypeMismatch(key)),
        }
    }
}

/// A required field holding an ordered sequence of strings.
pub open spec fn spec_req_string_array(
    fields: Seq<(Seq<char>, SpecJson)>,
    key: Seq<char>,
) -> Result<Seq<Seq<char>>, SpecDecodeError> {
    match lookup_field(fields, key) {
        Option::None => Err(SpecDecodeError::MissingRequiredField(key)),
        Option::Some(SpecJson::Arr(items)) => spec_string_elems(items, key),
        Option::Some(_) => Err(SpecDecodeError::TypeMismatch(key)),
    }
}

/// The payloads of an extension mapping: each value must itself be a
/// mapping, carried opaquely.
pub open spec fn spec_payload_entries(entries: Seq<(Seq<char>, SpecJson)>) -> Result<
    Seq<(Seq<char>, Seq<(Seq<char>, SpecJson)>)>,
    SpecDecodeError,
>
    decreases entries.len(),
{
    if entries.len() == 0 {
        Ok(Seq::empty())
    } else {
        match entries[0].1 {
            SpecJson::Obj(payload) => match spec_payload_entries(
                entries.subrange(1, entries.len() as int),
            ) {
                Ok(rest) => Ok(seq![(entries[0].0, payload)] + rest),
                Err(e) => Err(e),
            },
            _ => Err(SpecDecodeError::TypeMismatch("extensions"@)),
        }
    }
}

/// The decoded records of a specialisation mapping: each value must itself
/// decode as a version-1 record.
pub open spec fn spec_spec_entries(entries: Seq<(Seq<char>, SpecJson)>) -> Result<
    Seq<(Seq<char>, SpecGenerationV1)>,
    SpecDecodeError,
>
    decreases entries, 0int,
{
    if entries.len() == 0 {
        Ok(Seq::empty())
    } else {
        match spec_decode_v1(entries[0].1) {
            Ok(g) => match spec_spec_entries(entries.subrange(1, entries.len() as int)) {
                Ok(rest) => Ok(seq![(entries[0].0, g)] + rest),
                Err(e) => Err(e),
            },
            Err(e) => Err(e),
        }
    }
}

/// The specialisation field of a record mapping: absent defaults to an
/// empty mapping, an explicit null is rejected, and each value must itself
/// decode as a version-1 record.
pub open spec fn spec_specialisation_field(fields: Seq<(Seq<char>, SpecJson)>) -> Result<
    Seq<(Seq<char>, SpecGenerationV1)>,
    SpecDecodeError,
>
    decreases fields, 1int,
{
    match lookup_field(fields, "specialisation"@) {
        Option::None => Ok(Seq::<(Seq<char>, SpecGenerationV1)>::empty()),
        Option::Some(SpecJson::Null) => Err(
            SpecDecodeError::NullWhereMapExpected("specialisation"@),
        ),
        Option::Some(SpecJson::Obj(entries)) => {
            proof {
                lemma_lookup_member(fields, "specialisation"@);
                let v = lookup_field(fields, "specialisation"@)->0;
                let i = choose|i: int| 0 <= i < fields.len() && fields[i].1 == v;
                assert(decreases_to!(fields => fields[i]));
                assert(decreases_to!(fields[i] => fields[i].1));
                assert(v->Obj_0 == entries);
                assert(decreases_to!(v => v->Obj_0));
            }
            spec_spec_entries(entries)
        },
        Option::Some(_) => Err(SpecDecodeError::TypeMismatch("specialisation"@)),
    }
}

/// The extensions field of a record mapping: absent defaults to an empty
/// mapping, an explicit null is rejected, and each value must itself be a
/// mapping, carried opaquely.
pub open spec fn spec_extensions_field(fields: Seq<(Seq<char>, SpecJson)>) -> Result<
    Seq<(Seq<char>, Seq<(Seq<char>, SpecJson)>)>,
    SpecDecodeError,
> {
    match lookup_field(fields, "extensions"@) {
        Option::None => Ok(Seq::<(Seq<char>, Seq<(Seq<char>, SpecJson)>)>::empty()),
        Option::Some(SpecJson::Null) => Err(SpecDecodeError::NullWhereMapExpected("extensions"@)),
        Option::Some(SpecJson::Obj(entries)) => spec_payload_entries(entries),
        Option::Some(_) => Err(SpecDecodeError::TypeMismatch("extensions"@)),
    }
}

/// What decoding a structured value as a version-1 record yields, for every
/// value: either the record, or the first failure in check order: the two
/// map-typed fields (`specialisation`, `extensions`) first, then the
/// optional paths (`initrd`, `initrdSecrets`), then the required fields
/// (`system`, `init`, `kernel`, `kernelParams`, `label`, `toplevel`).
pub open spec fn spec_decode_v1(doc: SpecJson) -> Result<SpecGenerationV1, SpecDecodeError>
    decreases doc, 2int,
{
    match doc {
        SpecJson::Obj(fields) => {
            let r_spec = {
                proof {
                    assert(doc->Obj_0 == fields);
                    assert(decreases_to!(doc => doc->Obj_0));
                }
                spec_specialisation_field(fields)
            };
            let r_ext = spec_extensions_field(fields);
            if r_spec is Err {
                Err(r_spec->Err_0)
            } else if r_ext is Err {
                Err(r_ext->Err_0)
            } else {
                let r_initrd = spec_opt_string(fields, "initrd"@);
                let r_secrets = spec_opt_string(fields, "initrdSecrets"@);
                let r_system = spec_req_string(fields, "system"@);
                let r_init = spec_req_string(fields, "init"@);
                let r_kernel = spec_req_string(fields, "kernel"@);
                let r_params = spec_req_string_array(fields, "kernelParams"@);
                let r_label = spec_req_string(fields, "label"@);
                let r_toplevel = spec_req_string(fields, "toplevel"@);
                if r_initrd is Err {
                    Err(r_initrd->Err_0)
                } else if r_secrets is Err {
                    Err(r_secrets->Err_0)
                } else if r_system is Err {
                    Err(r_system->Err_0)
                } else if r_init is Err {
                    Err(r_init->Err_0)
                } else if r_kernel is Err {
                    Err(r_kernel->Err_0)
                } else if r_params is Err {
                    Err(r_params->Err_0)
                } else if r_label is Err {
                    Err(r_label->Err_0)
                } else if r_toplevel is Err {
                    Err(r_toplevel->Err_0)
                } else {
                    Ok(
                        SpecGenerationV1 {
                            system: r_system->Ok_0,
                            init: r_init->Ok_0,
                            initrd: r_initrd->Ok_0,
                            initrd_secrets: r_secrets->Ok_0,
                            kernel: r_kernel->Ok_0,
                            kernel_params: r_params->Ok_0,
                            label: r_label->Ok_0,
                            toplevel: r_toplevel->Ok_0,
                            specialisation: r_spec->Ok_0,
                            extensions: r_ext->Ok_0,
                        },
                    )
                }
            }
        },
        _ => Err(SpecDecodeError::TypeMismatch("generation"@)),
    }
}

/// The encodings of an ordered sequence of kernel parameters.
pub open spec fn spec_encode_params(ps: Seq<Seq<char>>) -> Seq<SpecJson> {
    Seq::new(ps.len(), |i: int| SpecJson::Str(ps[i]))
}

/// The encodings of the pairs of an extension mapping.
pub open spec fn spec_encode_exts(
    exts: Seq<(Seq<char>, Seq<(Seq<char>, SpecJson)>)>,
) -> Seq<(Seq<char>, SpecJson)> {
    Seq::new(exts.len(), |i: int| (exts[i].0, SpecJson::Obj(exts[i].1)))
}

/// The encodings of the pairs of a specialisation mapping.
pub open spec fn spec_encode_specs(sp: Seq<(Seq<char>, SpecGenerationV1)>) -> Seq<
    (Seq<char>, SpecJson),
>
    decreases sp, 0int,
{
    if sp.len() == 0 {
        Seq::empty()
    } else {
        seq![(sp[0].0, spec_encode_v1(sp[0].1))] + spec_encode_specs(
            sp.subrange(1, sp.len() as int),
        )
    }
}

/// The pair encodings are the encodings of the pairs, pointwise.
pub broadcast proof fn lemma_spec_encode_specs(sp: Seq<(Seq<char>, SpecGenerationV1)>)
    ensures
        #[trigger] spec_encode_specs(sp).len() == sp.len(),
        forall|i: int|
            0 <= i < sp.len() ==> spec_encode_specs(sp)[i] == (
                sp[i].0,
                spec_encode_v1(sp[i].1),
            ),
    decreases sp,
{
    if sp.len() > 0 {
        lemma_spec_encode_specs(sp.subrange(1, sp.len() as int));
    }
}

/// What encoding a version-1 record yields: a mapping with the required
/// fields in a fixed order, the two map fields always present, and the two
/// optional path fields present exactly when they hold a value.
pub open spec fn spec_encode_v1(g: SpecGenerationV1) -> SpecJson
    decreases g, 1int,
{
    let base = seq![
        ("system"@, SpecJson::Str(g.system)),
        ("init"@, SpecJson::Str(g.init)),
        ("kernel"@, SpecJson::Str(g.kernel)),
        ("kernelParams"@, SpecJson::Arr(spec_encode_params(g.kernel_params))),
        ("label"@, SpecJson::Str(g.label)),
        ("toplevel"@, SpecJson::Str(g.toplevel)),
        ("specialisation"@, SpecJson::Obj(spec_encode_specs(g.specialisation))),
        ("extensions"@, SpecJson::Obj(spec_encode_exts(g.extensions))),
    ];
    let with_initrd = match g.initrd {
        Option::Some(p) => base.push(("initrd"@, SpecJson::Str(p))),
        Option::None => base,
    };
    let with_secrets = match g.initrd_secrets {
        Option::Some(p) => with_initrd.push(("initrdSecrets"@, SpecJson::Str(p))),
        Option::None => with_initrd,
    };
    SpecJson::Obj(with_secrets)
}

/// Pointwise reading of `spec_string_elems`: all strings succeed, the first
/// non-string decides the failure.
pub proof fn lemma_spec_string_elems(items: Seq<SpecJson>, key: Seq<char>)
    ensures
        (forall|i: int| 0 <= i < items.len() ==> items[i] is Str) ==> spec_string_elems(
            items,
            key,
        ) is Ok && spec_string_elems(items, key)->Ok_0.len() == items.len() && (forall|i: int|
            0 <= i < items.len() ==> spec_string_elems(items, key)->Ok_0[i] == items[i]->Str_0),
        forall|i: int|
            #![trigger items[i]]
            (0 <= i < items.len() && !(items[i] is Str) && (forall|j: int|
                0 <= j < i ==> items[j] is Str)) ==> spec_string_elems(items, key) == Err::<
                Seq<Seq<char>>,
                SpecDecodeError,
            >(SpecDecodeError::TypeMismatch(key)),
    decreases items.len(),
{
    if items.len() > 0 {
        let sub = items.subrange(1, items.len() as int);
        lemma_spec_string_elems(sub, key);
        assert forall|i: int|
            (0 <= i < items.len() && !(items[i] is Str) && (forall|j: int|
                0 <= j < i ==> items[j] is Str)) implies spec_string_elems(items, key) == Err::<
            Seq<Seq<char>>,
            SpecDecodeError,
        >(SpecDecodeError::TypeMismatch(key)) by {
            if i > 0 {
                assert(!(sub[i - 1] is Str));
                assert(forall|j: int| 0 <= j < i - 1 ==> sub[j] is Str);
            }
        }
    }
}

/// Pointwise reading of `spec_payload_entries`: all mapping values succeed,
/// the first non-mapping value decides the failure.
pub proof fn lemma_spec_payload_entries(entries: Seq<(Seq<char>, SpecJson)>)
    ensures
        (forall|i: int| 0 <= i < entries.len() ==> entries[i].1 is Obj) ==> spec_payload_entries(
            entries,
        ) is Ok && spec_payload_entries(entries)->Ok_0.len() == entries.len() && (forall|i: int|
            0 <= i < entries.len() ==> spec_payload_entries(entries)->Ok_0[i] == (
                entries[i].0,
                entries[i].1->Obj_0,
            )),
        forall|i: int|
            #![trigger entries[i]]
            (0 <= i < entries.len() && !(entries[i].1 is Obj) && (forall|j: int|
                0 <= j < i ==> entries[j].1 is Obj)) ==> spec_payload_entries(entries) == Err::<
                Seq<(Seq<char>, Seq<(Seq<char>, SpecJson)>)>,
                SpecDecodeError,
            >(SpecDecodeError::TypeMismatch("extensions"@)),
    decreases entries.len(),
{
    if entries.len() > 0 {
        let sub = entries.subrange(1, entries.len() as int);
        lemma_spec_payload_entries(sub);
        assert forall|i: int|
            (0 <= i < entries.len() && !(entries[i].1 is Obj) && (forall|j: int|
                0 <= j < i ==> entries[j].1 is Obj)) implies spec_payload_entries(entries) == Err::<
            Seq<(Seq<char>, Seq<(Seq<char>, SpecJson)>)>,
            SpecDecodeError,
        >(SpecDecodeError::TypeMismatch("extensions"@)) by {
            if i > 0 {
                assert(!(sub[i - 1].1 is Obj));
                assert(forall|j: int| 0 <= j < i - 1 ==> sub[j].1 is Obj);
            }
        }
    }
}

/// Pointwise reading of `spec_spec_entries`: all decodable values succeed,
/// the first failing value decides the failure.
pub proof fn lemma_spec_spec_entries(entries: Seq<(Seq<char>, SpecJson)>)
    ensures
        (forall|i: int|
            0 <= i < entries.len() ==> spec_decode_v1(#[trigger] entries[i].1)
                is Ok) ==> spec_spec_entries(entries) is Ok && spec_spec_entries(entries)->Ok_0.len()
            == entries.len() && (forall|i: int|
            0 <= i < entries.len() ==> spec_spec_entries(entries)->Ok_0[i] == (
                entries[i].0,
                spec_decode_v1(entries[i].1)->Ok_0,
            )),
        forall|i: int|
            #![trigger entries[i]]
            (0 <= i < entries.len() && !(spec_decode_v1(entries[i].1) is Ok) && (forall|j: int|
                0 <= j < i ==> spec_decode_v1(entries[j].1) is Ok)) ==> spec_spec_entries(entries)
                == Err::<Seq<(Seq<char>, SpecGenerationV1)>, SpecDecodeError>(
                spec_decode_v1(entries[i].1)->Err_0,
            ),
    decreases entries.len(),
{
    if entries.len() > 0 {
        let sub = entries.subrange(1, entries.len() as int);
        lemma_spec_spec_entries(sub);
        assert forall|i: int|
            (0 <= i < entries.len() && !(spec_decode_v1(entries[i].1) is Ok) && (forall|j: int|
                0 <= j < i ==> spec_decode_v1(entries[j].1) is Ok)) implies spec_spec_entries(
            entries,
        ) == Err::<Seq<(Seq<char>, SpecGenerationV1)>, SpecDecodeError>(
            spec_decode_v1(entries[i].1)->Err_0,
        ) by {
            if i > 0 {
                assert(!(spec_decode_v1(sub[i - 1].1) is Ok));
                assert(forall|j: int| 0 <= j < i - 1 ==> spec_decode_v1(sub[j].1) is Ok);
            }
        }
    }
}

/// Reads a required string field of a decoded mapping.
pub(crate) fn req_string(fields: &Vec<(String, Json)>, key: &str) -> (r: Result<
    String,
    DecodeError,
>)
    ensures
        match r {
            Ok(s) => spec_req_string(json_view_fields(fields@), key@) == Ok::<
                Seq<char>,
                SpecDecodeError,
            >(s@),
            Err(e) => spec_req_string(json_view_fields(fields@), key@) == Err::<
                Seq<char>,
                SpecDecodeError,
            >(e.deep_view()),
        },
{
    match find_field(fields, key) {
        Option::Some(i) => {
            match &fields[i].1 {
                Json::Str(s) => {
                    proof {
                        assert(json_view(fields@[i as int].1) == SpecJson::Str(s@));
                    }
                    Ok(s.clone())
                },
                _ => {
                    proof {
                        lemma_json_view_shape(fields@[i as int].1);
                    }
                    Err(DecodeError::TypeMismatch(key.to_owned()))
                },
            }
        },
        Option::None => Err(DecodeError::MissingRequiredField(key.to_owned())),
    }
}

/// Reads an optional string field of a decoded mapping.
pub(crate) fn opt_string(fields: &Vec<(String, Json)>, key: &str) -> (r: Result<
    Option<String>,
    DecodeError,
>)
    ensures
        match r {
            Ok(o) => spec_opt_string(json_view_fields(fields@), key@) == Ok::<
                Option<Seq<char>>,
                SpecDecodeError,
            >(opt_view(o)),
            Err(e) => spec_opt_string(json_view_fields(fields@), key@) == Err::<
                Option<Seq<char>>,
                SpecDecodeError,
            >(e.deep_view()),
        },
{
    match find_field(fields, key) {
        Option::Some(i) => {
            match &fields[i].1 {
                Json::Str(s) => {
                    proof {
                        assert(json_view(fields@[i as int].1) == SpecJson::Str(s@));
                    }
                    Ok(Option::Some(s.clone()))
                },
                Json::Null => {
                    proof {
                        assert(json_view(fields@[i as int].1) == SpecJson::Null);
                    }
                    Ok(Option::None)
                },
                _ => {
                    proof {
                        lemma_json_view_shape(fields@[i as int].1);
                    }
                    Err(DecodeError::TypeMismatch(key.to_owned()))
                },
            }
        },
        Option::None => Ok(Option::None),
    }
}

/// Reads a required field holding an ordered sequence of strings.
#[verifier::loop_isolation(false)]
#[verifier::rlimit(40)]
pub(crate) fn req_string_array(fields: &Vec<(String, Json)>, key: &str) -> (r: Result<
    Vec<String>,
    DecodeError,
>)
    ensures
        match r {
            Ok(v) => spec_req_string_array(json_view_fields(fields@), key@) == Ok::<
                Seq<Seq<char>>,
                SpecDecodeError,
            >(strings_view(v@)),
            Err(e) => spec_req_string_array(json_view_fields(fields@), key@) == Err::<
                Seq<Seq<char>>,
                SpecDecodeError,
            >(e.deep_view()),
        },
{
    match find_field(fields, key) {
        Option::Some(i) => {
            match &fields[i].1 {
                Json::Arr(items) => {
                    proof {
                        assert(json_view(fields@[i as int].1) == SpecJson::Arr(
                            json_view_elems(items@),
                        ));
                        lemma_json_view_elems(items@);
                        lemma_spec_string_elems(json_view_elems(items@), key@);
                    }
                    let mut out: Vec<String> = Vec::new();
                    let mut j: usize = 0;
                    while j < items.len()
                        invariant
                            j <= items@.len(),
                            out@.len() == j,
                            forall|k: int|
                                #![trigger json_view(items@[k])]
                                0 <= k < j ==> json_view(items@[k]) is Str && out@[k]@
                                    == json_view(items@[k])->Str_0,
                        decreases items@.len() - j,
                    {
                        match &items[j] {
                            Json::Str(s) => {
                                proof {
                                    assert(json_view(items@[j as int]) == SpecJson::Str(s@));
                                }
                                out.push(s.clone());
                            },
                            _ => {
                                proof {
                                    lemma_json_view_shape(items@[j as int]);
                                    assert(!(json_view_elems(items@)[j as int] is Str));
                                    assert forall|k: int|
                                        0 <= k < j implies json_view_elems(items@)[k] is Str by {
                                        assert(json_view_elems(items@)[k] == json_view(
                                            items@[k],
                                        ));
                                    }
                                }
                                return Err(DecodeError::TypeMismatch(key.to_owned()));
                            },
                        }
                        j += 1;
                    }
                    proof {
                        let sv = json_view_elems(items@);
                        assert forall|k: int| 0 <= k < sv.len() implies sv[k] is Str by {
                            assert(sv[k] == json_view(items@[k]));
                        }
                        assert forall|k: int|
                            0 <= k < out@.len() implies strings_view(out@)[k]
                            == spec_string_elems(sv, key@)->Ok_0[k] by {
                            assert(sv[k] == json_view(items@[k]));
                            assert(strings_view(out@)[k] == out@[k]@);
                        }
                        assert(strings_view(out@) =~= spec_string_elems(sv, key@)->Ok_0);
                    }
                    Ok(out)
                },
                _ => {
                    proof {
                        lemma_json_view_shape(fields@[i as int].1);
                    }
                    Err(DecodeError::TypeMismatch(key.to_owned()))
                },
            }
        },
        Option::None => Err(DecodeError::MissingRequiredField(key.to_owned())),
    }
}

/// A structural copy of an extension payload: the copy has the same model.
#[verifier::loop_isolation(false)]
pub(crate) fn clone_payload(p: &Vec<(String, Json)>) -> (r: Vec<(String, Json)>)
    ensures
        json_view_fields(r@) == json_view_fields(p@),
{
    let mut out: Vec<(String, Json)> = Vec::new();
    let mut i: usize = 0;
    while i < p.len()
        invariant
            i <= p@.len(),
            out@.len() == i,
            forall|k: int|
                0 <= k < i ==> out@[k].0@ == p@[k].0@ && out@[k].1.deep_view()
                    == p@[k].1.deep_view(),
        decreases p@.len() - i,
    {
        out.push((p[i].0.clone(), json_clone(&p[i].1)));
        i += 1;
    }
    proof {
        lemma_json_view_fields(out@);
        lemma_json_view_fields(p@);
        assert(json_view_fields(out@) =~= json_view_fields(p@));
    }
    out
}


/// Decodes a structured value as a version-1 generation record.
///
/// Returns the record exactly when the model decode succeeds, and the same
/// failure the model decode names otherwise.
#[verifier::loop_isolation(false)]
#[verifier::rlimit(100)]
pub fn decode_v1(doc: &Json) -> (r: Result<GenerationV1, DecodeError>)
    ensures
        match r {
            Ok(g) => spec_decode_v1(doc.deep_view()) == Ok::<
                SpecGenerationV1,
                SpecDecodeError,
            >(g.deep_view()),
            Err(e) => spec_decode_v1(doc.deep_view()) == Err::<
                SpecGenerationV1,
                SpecDecodeError,
            >(e.deep_view()),
        },
    decreases *doc,
{
    match doc {
        Json::Obj(fields) => {
            proof {
                assert(doc.deep_view() == SpecJson::Obj(json_view_fields(fields@)));
            }
            let specialisation: Vec<(SpecialisationName, GenerationV1)> = match find_field(
                fields,
                "specialisation",
            ) {
                Option::None => {
                    proof {
                        lemma_gen_view_specs(Seq::<(SpecialisationName, GenerationV1)>::empty());
                        assert(gen_view_specs(Seq::<(SpecialisationName, GenerationV1)>::empty())
                            =~= Seq::<(Seq<char>, SpecGenerationV1)>::empty());
                    }
                    Vec::new()
                },
                Option::Some(i) => {
                    match &fields[i].1 {
                        Json::Null => {
                            proof {
                                assert(json_view(fields@[i as int].1) == SpecJson::Null);
                            }
                            return Err(DecodeError::NullWhereMapExpected(
                                "specialisation".to_owned(),
                            ));
                        },
                        Json::Obj(entries) => {
                            proof {
                                assert(json_view(fields@[i as int].1) == SpecJson::Obj(
                                    json_view_fields(entries@),
                                ));
                                lemma_json_view_fields(entries@);
                                lemma_spec_spec_entries(json_view_fields(entries@));
                            }
                            let mut out: Vec<(SpecialisationName, GenerationV1)> = Vec::new();
                            let mut j: usize = 0;
                            while j < entries.len()
                                invariant
                                    j <= entries@.len(),
                                    out@.len() == j,
                                    forall|k: int|
                                        #![trigger entries@[k]]
                                        0 <= k < j ==> spec_decode_v1(json_view(entries@[k].1))
                                            is Ok && out@[k].0.0@ == entries@[k].0@
                                            && out@[k].1.deep_view() == spec_decode_v1(
                                            json_view(entries@[k].1),
                                        )->Ok_0,
                                decreases entries@.len() - j,
                            {
                                proof {
                                    assert(doc->Obj_0 == *fields);
                                    assert(decreases_to!(*doc => doc->Obj_0));
                                    assert(decreases_to!(*fields => fields@));
                                    assert(decreases_to!(fields@ => fields@[i as int]));
                                    assert(decreases_to!(
                                        fields@[i as int] => fields@[i as int].1
                                    ));
                                    assert((fields@[i as int].1)->Obj_0 == *entries);
                                    assert(decreases_to!(
                                        fields@[i as int].1 => (fields@[i as int].1)->Obj_0
                                    ));
                                    assert(decreases_to!(*entries => entries@));
                                    assert(decreases_to!(entries@ => entries@[j as int]));
                                    assert(decreases_to!(
                                        entries@[j as int] => entries@[j as int].1
                                    ));
                                }
                                let rec = match decode_v1(&entries[j].1) {
                                    Ok(g) => g,
                                    Err(e) => {
                                        proof {
                                            let ev = json_view_fields(entries@);
                                            assert forall|k: int|
                                                0 <= k < j implies spec_decode_v1(
                                                ev[k].1,
                                            ) is Ok by {
                                                assert(ev[k] == (
                                                    entries@[k].0@,
                                                    json_view(entries@[k].1),
                                                ));
                                            }
                                            assert(ev[j as int] == (
                                                entries@[j as int].0@,
                                                json_view(entries@[j as int].1),
                                            ));
                                        }
                                        return Err(e);
                                    },
                                };
                                out.push((SpecialisationName(entries[j].0.clone()), rec));
                                j += 1;
                            }
                            proof {
                                let ev = json_view_fields(entries@);
                                assert forall|k: int|
                                    0 <= k < ev.len() implies spec_decode_v1(ev[k].1) is Ok by {
                                    assert(ev[k] == (entries@[k].0@, json_view(entries@[k].1)));
                                }
                                lemma_gen_view_specs(out@);
                                assert forall|k: int|
                                    0 <= k < out@.len() implies gen_view_specs(out@)[k]
                                    == spec_spec_entries(ev)->Ok_0[k] by {
                                    assert(ev[k] == (entries@[k].0@, json_view(entries@[k].1)));
                                    assert(gen_view_specs(out@)[k] == (
                                        out@[k].0.0@,
                                        gen_view(out@[k].1),
                                    ));
                                }
                                assert(gen_view_specs(out@) =~= spec_spec_entries(ev)->Ok_0);
                            }
                            out
                        },
                        _ => {
                            proof {
                                lemma_json_view_shape(fields@[i as int].1);
                            }
                            return Err(DecodeError::TypeMismatch("specialisation".to_owned()));
                        },
                    }
                },
            };
            let extensions: Vec<(String, Vec<(String, Json)>)> = match find_field(
                fields,
                "extensions",
            ) {
                Option::None => Vec::new(),
                Option::Some(i) => {
                    match &fields[i].1 {
                        Json::Null => {
                            proof {
                                assert(json_view(fields@[i as int].1) == SpecJson::Null);
                            }
                            return Err(DecodeError::NullWhereMapExpected("extensions".to_owned()));
                        },
                        Json::Obj(entries) => {
                            proof {
                                assert(json_view(fields@[i as int].1) == SpecJson::Obj(
                                    json_view_fields(entries@),
                                ));
                                lemma_json_view_fields(entries@);
                                lemma_spec_payload_entries(json_view_fields(entries@));
                            }
                            let mut out: Vec<(String, Vec<(String, Json)>)> = Vec::new();
                            let mut j: usize = 0;
                            while j < entries.len()
                                invariant
                                    j <= entries@.len(),
                                    out@.len() == j,
                                    forall|k: int|
                                        #![trigger entries@[k]]
                                        0 <= k < j ==> json_view(entries@[k].1) is Obj
                                            && out@[k].0@ == entries@[k].0@ && json_view_fields(
                                            out@[k].1@,
                                        ) == json_view(entries@[k].1)->Obj_0,
                                decreases entries@.len() - j,
                            {
                                match &entries[j].1 {
                                    Json::Obj(payload) => {
                                        proof {
                                            assert(json_view(entries@[j as int].1)
                                                == SpecJson::Obj(json_view_fields(payload@)));
                                        }
                                        out.push((entries[j].0.clone(), clone_payload(payload)));
                                    },
                                    _ => {
                                        proof {
                                            lemma_json_view_shape(entries@[j as int].1);
                                            let ev = json_view_fields(entries@);
                                            assert forall|k: int|
                                                0 <= k < j implies ev[k].1 is Obj by {
                                                assert(ev[k] == (
                                                    entries@[k].0@,
                                                    json_view(entries@[k].1),
                                                ));
                                            }
                                            assert(ev[j as int] == (
                                                entries@[j as int].0@,
                                                json_view(entries@[j as int].1),
                                            ));
                                        }
                                        return Err(DecodeError::TypeMismatch(
                                            "extensions".to_owned(),
                                        ));
                                    },
                                }
                                j += 1;
                            }
                            proof {
                                let ev = json_view_fields(entries@);
                                assert forall|k: int| 0 <= k < ev.len() implies ev[k].1 is Obj by {
                                    assert(ev[k] == (entries@[k].0@, json_view(entries@[k].1)));
                                }
                                assert forall|k: int|
                                    0 <= k < out@.len() implies ext_view(out@)[k]
                                    == spec_payload_entries(ev)->Ok_0[k] by {
                                    assert(ev[k] == (entries@[k].0@, json_view(entries@[k].1)));
                                }
                                assert(ext_view(out@) =~= spec_payload_entries(ev)->Ok_0);
                            }
                            out
                        },
                        _ => {
                            proof {
                                lemma_json_view_shape(fields@[i as int].1);
                            }
                            return Err(DecodeError::TypeMismatch("extensions".to_owned()));
                        },
                    }
                },
            };
            let initrd = match opt_string(fields, "initrd") {
                Ok(v) => v,
                Err(e) => { return Err(e); },
            };
            let initrd_secrets = match opt_string(fields, "initrdSecrets") {
                Ok(v) => v,
                Err(e) => { return Err(e); },
            };
            let system = match req_string(fields, "system") {
                Ok(v) => v,
                Err(e) => { return Err(e); },
            };
            let init = match req_string(fields, "init") {
                Ok(v) => v,
                Err(e) => { return Err(e); },
            };
            let kernel = match req_string(fields, "kernel") {
                Ok(v) => v,
                Err(e) => { return Err(e); },
            };
            let kernel_params = match req_string_array(fields, "kernelParams") {
                Ok(v) => v,
                Err(e) => { return Err(e); },
            };
            let label = match req_string(fields, "label") {
                Ok(v) => v,
                Err(e) => { return Err(e); },
            };
            let toplevel = match req_string(fields, "toplevel") {
                Ok(v) => v,
                Err(e) => { return Err(e); },
            };
            let g = GenerationV1 {
                system,
                init,
                initrd,
                initrd_secrets,
                kernel,
                kernel_params,
                label,
                toplevel: SystemConfigurationRoot(toplevel),
                specialisation,
                extensions,
            };
            proof {
                assert(ext_view(Seq::<(String, Vec<(String, Json)>)>::empty()) =~= Seq::<
                    (Seq<char>, Seq<(Seq<char>, SpecJson)>),
                >::empty());
            }
            Ok(g)
        },
        _ => {
            proof {
                lemma_json_view_shape(*doc);
            }
            Err(DecodeError::TypeMismatch("generation".to_owned()))
        },
    }
}


/// Encodes a version-1 generation record as a structured value, the exact
/// inverse of decoding: decoding the result yields an equal record.
#[verifier::loop_isolation(false)]
#[verifier::rlimit(100)]
pub fn encode_v1(g: &GenerationV1) -> (r: Json)
    ensures
        r.deep_view() == spec_encode_v1(g.deep_view()),
    decreases *g,
{
    let mut out: Vec<(String, Json)> = Vec::new();
    out.push(("system".to_owned(), Json::Str(g.system.clone())));
    out.push(("init".to_owned(), Json::Str(g.init.clone())));
    out.push(("kernel".to_owned(), Json::Str(g.kernel.clone())));
    let mut params: Vec<Json> = Vec::new();
    let mut i: usize = 0;
    while i < g.kernel_params.len()
        invariant
            i <= g.kernel_params@.len(),
            params@.len() == i,
            forall|k: int|
                #![trigger params@[k]]
                0 <= k < i ==> json_view(params@[k]) == SpecJson::Str(g.kernel_params@[k]@),
        decreases g.kernel_params@.len() - i,
    {
        params.push(Json::Str(g.kernel_params[i].clone()));
        i += 1;
    }
    proof {
        lemma_json_view_elems(params@);
        assert(json_view_elems(params@) =~= spec_encode_params(
            strings_view(g.kernel_params@),
        ));
    }
    out.push(("kernelParams".to_owned(), Json::Arr(params)));
    out.push(("label".to_owned(), Json::Str(g.label.clone())));
    out.push(("toplevel".to_owned(), Json::Str(g.toplevel.0.clone())));
    let mut specs: Vec<(String, Json)> = Vec::new();
    let mut i: usize = 0;
    while i < g.specialisation.len()
        invariant
            i <= g.specialisation@.len(),
            specs@.len() == i,
            forall|k: int|
                #![trigger specs@[k]]
                0 <= k < i ==> specs@[k].0@ == g.specialisation@[k].0.0@ && json_view(
                    specs@[k].1,
                ) == spec_encode_v1(gen_view(g.specialisation@[k].1)),
        decreases g.specialisation@.len() - i,
    {
        proof {
            assert(decreases_to!(*g => g.specialisation));
            assert(decreases_to!(g.specialisation => g.specialisation@));
            assert(decreases_to!(g.specialisation@ => g.specialisation@[i as int]));
            assert(decreases_to!(
                g.specialisation@[i as int] => g.specialisation@[i as int].1
            ));
        }
        let enc = encode_v1(&g.specialisation[i].1);
        specs.push((g.specialisation[i].0.0.clone(), enc));
        i += 1;
    }
    proof {
        lemma_json_view_fields(specs@);
        lemma_gen_view_specs(g.specialisation@);
        lemma_spec_encode_specs(gen_view_specs(g.specialisation@));
        assert forall|k: int|
            0 <= k < specs@.len() implies json_view_fields(specs@)[k] == spec_encode_specs(
            gen_view_specs(g.specialisation@),
        )[k] by {
            assert(gen_view_specs(g.specialisation@)[k] == (
                g.specialisation@[k].0.0@,
                gen_view(g.specialisation@[k].1),
            ));
        }
        assert(json_view_fields(specs@) =~= spec_encode_specs(
            gen_view_specs(g.specialisation@),
        ));
    }
    out.push(("specialisation".to_owned(), Json::Obj(specs)));
    let mut exts: Vec<(String, Json)> = Vec::new();
    let mut i: usize = 0;
    while i < g.extensions.len()
        invariant
            i <= g.extensions@.len(),
            exts@.len() == i,
            forall|k: int|
                #![trigger exts@[k]]
                0 <= k < i ==> exts@[k].0@ == g.extensions@[k].0@ && json_view(exts@[k].1)
                    == SpecJson::Obj(json_view_fields(g.extensions@[k].1@)),
        decreases g.extensions@.len() - i,
    {
        let payload = clone_payload(&g.extensions[i].1);
        exts.push((g.extensions[i].0.clone(), Json::Obj(payload)));
        i += 1;
    }
    proof {
        lemma_json_view_fields(exts@);
        assert(json_view_fields(exts@) =~= spec_encode_exts(ext_view(g.extensions@)));
    }
    out.push(("extensions".to_owned(), Json::Obj(exts)));
    match &g.initrd {
        Option::Some(p) => { out.push(("initrd".to_owned(), Json::Str(p.clone()))); },
        Option::None => {},
    }
    match &g.initrd_secrets {
        Option::Some(p) => { out.push(("initrdSecrets".to_owned(), Json::Str(p.clone()))); },
        Option::None => {},
    }
    proof {
        lemma_json_view_fields(out@);
        assert(json_view_fields(out@) =~= spec_encode_v1(g.deep_view())->Obj_0);
        assert(spec_encode_v1(g.deep_view()) is Obj);
    }
    Json::Obj(out)
}


/// The ten field-name literals are pairwise distinct.
proof fn lemma_keys_distinct()
    ensures
        "system"@ != "init"@,
        "system"@ != "kernel"@,
        "system"@ != "kernelParams"@,
        "system"@ != "label"@,
        "system"@ != "toplevel"@,
        "system"@ != "specialisation"@,
        "system"@ != "extensions"@,
        "system"@ != "initrd"@,
        "system"@ != "initrdSecrets"@,
        "init"@ != "kernel"@,
        "init"@ != "kernelParams"@,
        "init"@ != "label"@,
        "init"@ != "toplevel"@,
        "init"@ != "specialisation"@,
        "init"@ != "extensions"@,
        "init"@ != "initrd"@,
        "init"@ != "initrdSecrets"@,
        "kernel"@ != "kernelParams"@,
        "kernel"@ != "label"@,
        "kernel"@ != "toplevel"@,
        "kernel"@ != "specialisation"@,
        "kernel"@ != "extensions"@,
        "kernel"@ != "initrd"@,
        "kernel"@ != "initrdSecrets"@,
        "kernelParams"@ != "label"@,
        "kernelParams"@ != "toplevel"@,
        "kernelParams"@ != "specialisation"@,
        "kernelParams"@ != "extensions"@,
        "kernelParams"@ != "initrd"@,
        "kernelParams"@ != "initrdSecrets"@,
        "label"@ != "toplevel"@,
        "label"@ != "specialisation"@,
        "label"@ != "extensions"@,
        "label"@ != "initrd"@,
        "label"@ != "initrdSecrets"@,
        "toplevel"@ != "specialisation"@,
        "toplevel"@ != "extensions"@,
        "toplevel"@ != "initrd"@,
        "toplevel"@ != "initrdSecrets"@,
        "specialisation"@ != "extensions"@,
        "specialisation"@ != "initrd"@,
        "specialisation"@ != "initrdSecrets"@,
        "extensions"@ != "initrd"@,
        "extensions"@ != "initrdSecrets"@,
        "initrd"@ != "initrdSecrets"@,
{
    reveal_strlit("system");
    reveal_strlit("init");
    reveal_strlit("kernel");
    reveal_strlit("kernelParams");
    reveal_strlit("label");
    reveal_strlit("toplevel");
    reveal_strlit("specialisation");
    reveal_strlit("extensions");
    reveal_strlit("initrd");
    reveal_strlit("initrdSecrets");
    assert("system"@.len() == 6);
    assert("init"@.len() == 4);
    assert("kernel"@.len() == 6);
    assert("kernelParams"@.len() == 12);
    assert("label"@.len() == 5);
    assert("toplevel"@.len() == 8);
    assert("specialisation"@.len() == 14);
    assert("extensions"@.len() == 10);
    assert("initrd"@.len() == 6);
    assert("initrdSecrets"@.len() == 13);
    assert("system"@[0] == 's');
    assert("kernel"@[0] == 'k');
    assert("initrd"@[0] == 'i');
}

/// Appending a pair keeps earlier matches and can only supply a key that
/// was absent.
pub proof fn lemma_lookup_push(
    s: Seq<(Seq<char>, SpecJson)>,
    p: (Seq<char>, SpecJson),
    key: Seq<char>,
)
    ensures
        lookup_field(s.push(p), key) == (if lookup_field(s, key) is Some {
            lookup_field(s, key)
        } else if p.0 == key {
            Option::Some(p.1)
        } else {
            Option::None::<SpecJson>
        }),
    decreases s.len(),
{
    if s.len() == 0 {
        assert(s.push(p)[0] == p);
        assert(s.push(p).subrange(1, 1) =~= Seq::<(Seq<char>, SpecJson)>::empty());
        assert(lookup_field(s, key) is None);
        if p.0 == key {
            assert(lookup_field(s.push(p), key) == Option::Some(p.1));
        } else {
            assert(lookup_field(s.push(p), key) == lookup_field(s.push(p).subrange(1, 1), key));
            assert(lookup_field(s.push(p), key) is None);
        }
    } else {
        lemma_lookup_push(s.subrange(1, s.len() as int), p, key);
        assert(s.push(p)[0] == s[0]);
        assert(s.push(p).len() == s.len() + 1);
        assert(s.push(p).subrange(1, s.push(p).len() as int) =~= s.subrange(
            1,
            s.len() as int,
        ).push(p));
        if s[0].0 == key {
            assert(lookup_field(s.push(p), key) == Option::Some(s[0].1));
            assert(lookup_field(s, key) == Option::Some(s[0].1));
        } else {
            assert(lookup_field(s.push(p), key) == lookup_field(
                s.subrange(1, s.len() as int).push(p),
                key,
            ));
            assert(lookup_field(s, key) == lookup_field(s.subrange(1, s.len() as int), key));
        }
    }
}

/// Round-trip law for the specialisation mapping: decoding the encoded
/// pairs yields the pairs.
pub proof fn lemma_round_trip_specs(sp: Seq<(Seq<char>, SpecGenerationV1)>)
    ensures
        spec_spec_entries(spec_encode_specs(sp)) == Ok::<
            Seq<(Seq<char>, SpecGenerationV1)>,
            SpecDecodeError,
        >(sp),
    decreases sp, 0int,
{
    if sp.len() == 0 {
        assert(sp =~= Seq::<(Seq<char>, SpecGenerationV1)>::empty());
        assert(spec_encode_specs(sp) =~= Seq::<(Seq<char>, SpecJson)>::empty());
    } else {
        let es = spec_encode_specs(sp);
        assert(decreases_to!(sp => sp[0]));
        assert(decreases_to!(sp[0] => sp[0].1));
        lemma_round_trip_v1(sp[0].1);
        lemma_round_trip_specs(sp.subrange(1, sp.len() as int));
        assert(es[0] == (sp[0].0, spec_encode_v1(sp[0].1)));
        assert(es.subrange(1, es.len() as int) =~= spec_encode_specs(
            sp.subrange(1, sp.len() as int),
        ));
        assert(spec_spec_entries(es)->Ok_0 =~= sp);
    }
}

/// Round-trip law for version-1 records: decoding an encoded record yields
/// an equal record, for every record.
#[verifier::rlimit(100)]
pub proof fn lemma_round_trip_v1(g: SpecGenerationV1)
    ensures
        spec_decode_v1(spec_encode_v1(g)) == Ok::<SpecGenerationV1, SpecDecodeError>(g),
    decreases g, 2int,
{
    lemma_keys_distinct();
    let base = seq![
        ("system"@, SpecJson::Str(g.system)),
        ("init"@, SpecJson::Str(g.init)),
        ("kernel"@, SpecJson::Str(g.kernel)),
        ("kernelParams"@, SpecJson::Arr(spec_encode_params(g.kernel_params))),
        ("label"@, SpecJson::Str(g.label)),
        ("toplevel"@, SpecJson::Str(g.toplevel)),
        ("specialisation"@, SpecJson::Obj(spec_encode_specs(g.specialisation))),
        ("extensions"@, SpecJson::Obj(spec_encode_exts(g.extensions))),
    ];
    let with_initrd = match g.initrd {
        Option::Some(p) => base.push(("initrd"@, SpecJson::Str(p))),
        Option::None => base,
    };
    let ws = match g.initrd_secrets {
        Option::Some(p) => with_initrd.push(("initrdSecrets"@, SpecJson::Str(p))),
        Option::None => with_initrd,
    };
    assert(spec_encode_v1(g) == SpecJson::Obj(ws));
    lemma_lookup_at_index(base, "system"@, 0);
    lemma_lookup_at_index(base, "init"@, 1);
    lemma_lookup_at_index(base, "kernel"@, 2);
    lemma_lookup_at_index(base, "kernelParams"@, 3);
    lemma_lookup_at_index(base, "label"@, 4);
    lemma_lookup_at_index(base, "toplevel"@, 5);
    lemma_lookup_at_index(base, "specialisation"@, 6);
    lemma_lookup_at_index(base, "extensions"@, 7);
    lemma_lookup_none(base, "initrd"@);
    lemma_lookup_none(base, "initrdSecrets"@);
    assert(lookup_field(base, "system"@) == Option::Some(SpecJson::Str(g.system)));
    assert(lookup_field(base, "init"@) == Option::Some(SpecJson::Str(g.init)));
    assert(lookup_field(base, "kernel"@) == Option::Some(SpecJson::Str(g.kernel)));
    assert(lookup_field(base, "kernelParams"@) == Option::Some(
        SpecJson::Arr(spec_encode_params(g.kernel_params)),
    ));
    assert(lookup_field(base, "label"@) == Option::Some(SpecJson::Str(g.label)));
    assert(lookup_field(base, "toplevel"@) == Option::Some(SpecJson::Str(g.toplevel)));
    assert(lookup_field(base, "specialisation"@) == Option::Some(
        SpecJson::Obj(spec_encode_specs(g.specialisation)),
    ));
    assert(lookup_field(base, "extensions"@) == Option::Some(
        SpecJson::Obj(spec_encode_exts(g.extensions)),
    ));
    assert(lookup_field(base, "initrd"@) is None);
    assert(lookup_field(base, "initrdSecrets"@) is None);
    if g.initrd is Some {
        lemma_lookup_push(base, ("initrd"@, SpecJson::Str(g.initrd->0)), "system"@);
        lemma_lookup_push(base, ("initrd"@, SpecJson::Str(g.initrd->0)), "init"@);
        lemma_lookup_push(base, ("initrd"@, SpecJson::Str(g.initrd->0)), "kernel"@);
        lemma_lookup_push(base, ("initrd"@, SpecJson::Str(g.initrd->0)), "kernelParams"@);
        lemma_lookup_push(base, ("initrd"@, SpecJson::Str(g.initrd->0)), "label"@);
        lemma_lookup_push(base, ("initrd"@, SpecJson::Str(g.initrd->0)), "toplevel"@);
        lemma_lookup_push(base, ("initrd"@, SpecJson::Str(g.initrd->0)), "specialisation"@);
        lemma_lookup_push(base, ("initrd"@, SpecJson::Str(g.initrd->0)), "extensions"@);
        lemma_lookup_push(base, ("initrd"@, SpecJson::Str(g.initrd->0)), "initrd"@);
        lemma_lookup_push(base, ("initrd"@, SpecJson::Str(g.initrd->0)), "initrdSecrets"@);
    }
    if g.initrd_secrets is Some {
        let p = ("initrdSecrets"@, SpecJson::Str(g.initrd_secrets->0));
        lemma_lookup_push(with_initrd, p, "system"@);
        lemma_lookup_push(with_initrd, p, "init"@);
        lemma_lookup_push(with_initrd, p, "kernel"@);
        lemma_lookup_push(with_initrd, p, "kernelParams"@);
        lemma_lookup_push(with_initrd, p, "label"@);
        lemma_lookup_push(with_initrd, p, "toplevel"@);
        lemma_lookup_push(with_initrd, p, "specialisation"@);
        lemma_lookup_push(with_initrd, p, "extensions"@);
        lemma_lookup_push(with_initrd, p, "initrd"@);
        lemma_lookup_push(with_initrd, p, "initrdSecrets"@);
    }
    assert(lookup_field(ws, "system"@) == Option::Some(SpecJson::Str(g.system)));
    assert(lookup_field(ws, "init"@) == Option::Some(SpecJson::Str(g.init)));
    assert(lookup_field(ws, "kernel"@) == Option::Some(SpecJson::Str(g.kernel)));
    assert(lookup_field(ws, "kernelParams"@) == Option::Some(
        SpecJson::Arr(spec_encode_params(g.kernel_params)),
    ));
    assert(lookup_field(ws, "label"@) == Option::Some(SpecJson::Str(g.label)));
    assert(lookup_field(ws, "toplevel"@) == Option::Some(SpecJson::Str(g.toplevel)));
    assert(lookup_field(ws, "specialisation"@) == Option::Some(
        SpecJson::Obj(spec_encode_specs(g.specialisation)),
    ));
    assert(lookup_field(ws, "extensions"@) == Option::Some(
        SpecJson::Obj(spec_encode_exts(g.extensions)),
    ));
    assert(lookup_field(ws, "initrd"@) == match g.initrd {
        Option::Some(p) => Option::Some(SpecJson::Str(p)),
        Option::None => Option::None,
    });
    assert(lookup_field(ws, "initrdSecrets"@) == match g.initrd_secrets {
        Option::Some(p) => Option::Some(SpecJson::Str(p)),
        Option::None => Option::None,
    });
    lemma_spec_string_elems(spec_encode_params(g.kernel_params), "kernelParams"@);
    assert(spec_string_elems(spec_encode_params(g.kernel_params), "kernelParams"@)->Ok_0
        =~= g.kernel_params);
    lemma_spec_payload_entries(spec_encode_exts(g.extensions));
    assert(spec_payload_entries(spec_encode_exts(g.extensions))->Ok_0 =~= g.extensions);
    assert(decreases_to!(g => g.specialisation));
    lemma_round_trip_specs(g.specialisation);
    assert(spec_decode_v1(spec_encode_v1(g))->Ok_0 == g);
}


/// Null-vs-absent asymmetry for the `extensions` field: when the field is
/// absent and the record decodes, the decoded mapping is empty; when the
/// field is explicitly null, the record fails to decode.
pub proof fn lemma_extensions_null_vs_absent(fields: Seq<(Seq<char>, SpecJson)>)
    ensures
        (lookup_field(fields, "extensions"@) is None && spec_decode_v1(SpecJson::Obj(fields))
            is Ok) ==> spec_decode_v1(SpecJson::Obj(fields))->Ok_0.extensions == Seq::<
            (Seq<char>, Seq<(Seq<char>, SpecJson)>),
        >::empty(),
        lookup_field(fields, "extensions"@) == Option::Some(SpecJson::Null) ==> spec_decode_v1(
            SpecJson::Obj(fields),
        ) is Err,
{
}

/// Null-vs-absent asymmetry for the `specialisation` field: when the field
/// is absent and the record decodes, the decoded mapping is empty; when the
/// field is explicitly null, the record fails to decode.
pub proof fn lemma_specialisation_null_vs_absent(fields: Seq<(Seq<char>, SpecJson)>)
    ensures
        (lookup_field(fields, "specialisation"@) is None && spec_decode_v1(SpecJson::Obj(fields))
            is Ok) ==> spec_decode_v1(SpecJson::Obj(fields))->Ok_0.specialisation == Seq::<
            (Seq<char>, SpecGenerationV1),
        >::empty(),
        lookup_field(fields, "specialisation"@) == Option::Some(SpecJson::Null)
            ==> spec_decode_v1(SpecJson::Obj(fields)) is Err,
{
}

/// Optional field defaults: when the record decodes and `initrd` or
/// `initrdSecrets` is absent, the decoded field holds no value rather than
/// being an error.
pub proof fn lemma_optional_field_defaults(fields: Seq<(Seq<char>, SpecJson)>)
    ensures
        (lookup_field(fields, "initrd"@) is None && spec_decode_v1(SpecJson::Obj(fields)) is Ok)
            ==> spec_decode_v1(SpecJson::Obj(fields))->Ok_0.initrd is None,
        (lookup_field(fields, "initrdSecrets"@) is None && spec_decode_v1(SpecJson::Obj(fields))
            is Ok) ==> spec_decode_v1(SpecJson::Obj(fields))->Ok_0.initrd_secrets is None,
{
}

/// Extra-field tolerance: appending a pair under a key that is none of the
/// recognized field names does not change what a record mapping decodes to.
pub proof fn lemma_extra_field_tolerated(
    fields: Seq<(Seq<char>, SpecJson)>,
    key: Seq<char>,
    value: SpecJson,
)
    requires
        key != "system"@,
        key != "init"@,
        key != "initrd"@,
        key != "initrdSecrets"@,
        key != "kernel"@,
        key != "kernelParams"@,
        key != "label"@,
        key != "toplevel"@,
        key != "specialisation"@,
        key != "extensions"@,
    ensures
        spec_decode_v1(SpecJson::Obj(fields.push((key, value)))) == spec_decode_v1(
            SpecJson::Obj(fields),
        ),
{
    let p = (key, value);
    lemma_lookup_push(fields, p, "system"@);
    lemma_lookup_push(fields, p, "init"@);
    lemma_lookup_push(fields, p, "initrd"@);
    lemma_lookup_push(fields, p, "initrdSecrets"@);
    lemma_lookup_push(fields, p, "kernel"@);
    lemma_lookup_push(fields, p, "kernelParams"@);
    lemma_lookup_push(fields, p, "label"@);
    lemma_lookup_push(fields, p, "toplevel"@);
    lemma_lookup_push(fields, p, "specialisation"@);
    lemma_lookup_push(fields, p, "extensions"@);
}


/// Equality of two optional strings by their models.
fn opt_string_eq(a: &Option<String>, b: &Option<String>) -> (r: bool)
    ensures
        r == (opt_view(*a) == opt_view(*b)),
{
    match (a, b) {
        (Option::Some(x), Option::Some(y)) => *x == *y,
        (Option::None, Option::None) => true,
        _ => false,
    }
}

/// Structural equality of two version-1 records: true exactly when the
/// models agree, recursively through nested specialisation records and
/// opaque extension payloads.
#[verifier::loop_isolation(false)]
#[verifier::rlimit(100)]
pub fn gen_eq(a: &GenerationV1, b: &GenerationV1) -> (r: bool)
    ensures
        r == (a.deep_view() == b.deep_view()),
    decreases *a,
{
    if !(a.system == b.system) {
        return false;
    }
    if !(a.init == b.init) {
        return false;
    }
    if !opt_string_eq(&a.initrd, &b.initrd) {
        return false;
    }
    if !opt_string_eq(&a.initrd_secrets, &b.initrd_secrets) {
        return false;
    }
    if !(a.kernel == b.kernel) {
        return false;
    }
    if a.kernel_params.len() != b.kernel_params.len() {
        proof {
            assert(strings_view(a.kernel_params@).len() != strings_view(b.kernel_params@).len());
        }
        return false;
    }
    let mut i: usize = 0;
    while i < a.kernel_params.len()
        invariant
            a.kernel_params@.len() == b.kernel_params@.len(),
            i <= a.kernel_params@.len(),
            forall|k: int|
                #![trigger a.kernel_params@[k]]
                0 <= k < i ==> a.kernel_params@[k]@ == b.kernel_params@[k]@,
        decreases a.kernel_params@.len() - i,
    {
        if !(a.kernel_params[i] == b.kernel_params[i]) {
            proof {
                assert(strings_view(a.kernel_params@)[i as int] != strings_view(
                    b.kernel_params@,
                )[i as int]);
            }
            return false;
        }
        i += 1;
    }
    proof {
        assert(strings_view(a.kernel_params@) =~= strings_view(b.kernel_params@));
    }
    if !(a.label == b.label) {
        return false;
    }
    if !(a.toplevel.0 == b.toplevel.0) {
        return false;
    }
    if a.specialisation.len() != b.specialisation.len() {
        proof {
            lemma_gen_view_specs(a.specialisation@);
            lemma_gen_view_specs(b.specialisation@);
        }
        return false;
    }
    proof {
        lemma_gen_view_specs(a.specialisation@);
        lemma_gen_view_specs(b.specialisation@);
    }
    let mut i: usize = 0;
    while i < a.specialisation.len()
        invariant
            a.specialisation@.len() == b.specialisation@.len(),
            i <= a.specialisation@.len(),
            forall|k: int|
                #![trigger a.specialisation@[k]]
                0 <= k < i ==> a.specialisation@[k].0.0@ == b.specialisation@[k].0.0@ && gen_view(
                    a.specialisation@[k].1,
                ) == gen_view(b.specialisation@[k].1),
        decreases a.specialisation@.len() - i,
    {
        if !(a.specialisation[i].0.0 == b.specialisation[i].0.0) {
            proof {
                assert(gen_view_specs(a.specialisation@)[i as int] != gen_view_specs(
                    b.specialisation@,
                )[i as int]);
            }
            return false;
        }
        proof {
            assert(decreases_to!(*a => a.specialisation));
            assert(decreases_to!(a.specialisation => a.specialisation@));
            assert(decreases_to!(a.specialisation@ => a.specialisation@[i as int]));
            assert(decreases_to!(
                a.specialisation@[i as int] => a.specialisation@[i as int].1
            ));
        }
        if !gen_eq(&a.specialisation[i].1, &b.specialisation[i].1) {
            proof {
                assert(gen_view_specs(a.specialisation@)[i as int] != gen_view_specs(
                    b.specialisation@,
                )[i as int]);
            }
            return false;
        }
        i += 1;
    }
    proof {
        assert forall|k: int|
            0 <= k < a.specialisation@.len() implies gen_view_specs(a.specialisation@)[k]
            == gen_view_specs(b.specialisation@)[k] by {
            assert(gen_view_specs(a.specialisation@)[k] == (
                a.specialisation@[k].0.0@,
                gen_view(a.specialisation@[k].1),
            ));
        }
        assert(gen_view_specs(a.specialisation@) =~= gen_view_specs(b.specialisation@));
    }
    if a.extensions.len() != b.extensions.len() {
        proof {
            assert(ext_view(a.extensions@).len() != ext_view(b.extensions@).len());
        }
        return false;
    }
    let mut i: usize = 0;
    while i < a.extensions.len()
        invariant
            a.extensions@.len() == b.extensions@.len(),
            i <= a.extensions@.len(),
            forall|k: int|
                #![trigger a.extensions@[k]]
                0 <= k < i ==> a.extensions@[k].0@ == b.extensions@[k].0@ && json_view_fields(
                    a.extensions@[k].1@,
                ) == json_view_fields(b.extensions@[k].1@),
        decreases a.extensions@.len() - i,
    {
        if !(a.extensions[i].0 == b.extensions[i].0) {
            proof {
                assert(ext_view(a.extensions@)[i as int] != ext_view(b.extensions@)[i as int]);
            }
            return false;
        }
        if !fields_eq(&a.extensions[i].1, &b.extensions[i].1) {
            proof {
                assert(ext_view(a.extensions@)[i as int] != ext_view(b.extensions@)[i as int]);
            }
            return false;
        }
        i += 1;
    }
    proof {
        assert(ext_view(a.extensions@) =~= ext_view(b.extensions@));
        assert(opt_view(a.initrd) == opt_view(b.initrd));
    }
    true
}

/// A structural copy of a version-1 record: the copy has the same model.
#[verifier::loop_isolation(false)]
pub fn gen_clone(g: &GenerationV1) -> (r: GenerationV1)
    ensures
        r.deep_view() == g.deep_view(),
    decreases *g,
{
    let mut kernel_params: Vec<String> = Vec::new();
    let mut i: usize = 0;
    while i < g.kernel_params.len()
        invariant
            i <= g.kernel_params@.len(),
            kernel_params@.len() == i,
            forall|k: int|
                #![trigger kernel_params@[k]]
                0 <= k < i ==> kernel_params@[k]@ == g.kernel_params@[k]@,
        decreases g.kernel_params@.len() - i,
    {
        kernel_params.push(g.kernel_params[i].clone());
        i += 1;
    }
    proof {
        assert(strings_view(kernel_params@) =~= strings_view(g.kernel_params@));
    }
    let mut specialisation: Vec<(SpecialisationName, GenerationV1)> = Vec::new();
    let mut i: usize = 0;
    while i < g.specialisation.len()
        invariant
            i <= g.specialisation@.len(),
            specialisation@.len() == i,
            forall|k: int|
                #![trigger specialisation@[k]]
                0 <= k < i ==> specialisation@[k].0.0@ == g.specialisation@[k].0.0@ && gen_view(
                    specialisation@[k].1,
                ) == gen_view(g.specialisation@[k].1),
        decreases g.specialisation@.len() - i,
    {
        proof {
            assert(decreases_to!(*g => g.specialisation));
            assert(decreases_to!(g.specialisation => g.specialisation@));
            assert(decreases_to!(g.specialisation@ => g.specialisation@[i as int]));
            assert(decreases_to!(
                g.specialisation@[i as int] => g.specialisation@[i as int].1
            ));
        }
        let rec = gen_clone(&g.specialisation[i].1);
        specialisation.push((SpecialisationName(g.specialisation[i].0.0.clone()), rec));
        i += 1;
    }
    proof {
        lemma_gen_view_specs(specialisation@);
        lemma_gen_view_specs(g.specialisation@);
        assert forall|k: int|
            0 <= k < specialisation@.len() implies gen_view_specs(specialisation@)[k]
            == gen_view_specs(g.specialisation@)[k] by {
            assert(gen_view_specs(specialisation@)[k] == (
                specialisation@[k].0.0@,
                gen_view(specialisation@[k].1),
            ));
        }
        assert(gen_view_specs(specialisation@) =~= gen_view_specs(g.specialisation@));
    }
    let mut extensions: Vec<(String, Vec<(String, Json)>)> = Vec::new();
    let mut i: usize = 0;
    while i < g.extensions.len()
        invariant
            i <= g.extensions@.len(),
            extensions@.len() == i,
            forall|k: int|
                #![trigger extensions@[k]]
                0 <= k < i ==> extensions@[k].0@ == g.extensions@[k].0@ && json_view_fields(
                    extensions@[k].1@,
                ) == json_view_fields(g.extensions@[k].1@),
        decreases g.extensions@.len() - i,
    {
        extensions.push((g.extensions[i].0.clone(), clone_payload(&g.extensions[i].1)));
        i += 1;
    }
    proof {
        assert(ext_view(extensions@) =~= ext_view(g.extensions@));
    }
    let initrd = match &g.initrd {
        Option::Some(p) => Option::Some(p.clone()),
        Option::None => Option::None,
    };
    let initrd_secrets = match &g.initrd_secrets {
        Option::Some(p) => Option::Some(p.clone()),
        Option::None => Option::None,
    };
    GenerationV1 {
        system: g.system.clone(),
        init: g.init.clone(),
        initrd,
        initrd_secrets,
        kernel: g.kernel.clone(),
        kernel_params,
        label: g.label.clone(),
        toplevel: SystemConfigurationRoot(g.toplevel.0.clone()),
        specialisation,
        extensions,
    }
}

impl PartialEq for GenerationV1 {
    fn eq(&self, other: &GenerationV1) -> bool {
        gen_eq(self, other)
    }
}

impl vstd::std_specs::cmp::PartialEqSpecImpl for GenerationV1 {
    open spec fn obeys_eq_spec() -> bool {
        true
    }

    open spec fn eq_spec(&self, other: &GenerationV1) -> bool {
        self.deep_view() == other.deep_view()
    }
}

} // verus!
