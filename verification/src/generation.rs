//! The version discriminator: a tagged union over all supported document
//! versions, and the decode/encode contract for whole documents.
//!
//! A document is a single-entry mapping whose sole key is a version tag
//! (`"v1"`).  Any other key, several keys, or a non-mapping input is a
//! decode failure; unknown tags fail closed rather than falling back to a
//! known version.

use vstd::prelude::*;
use crate::json::{
    Json, SpecJson, json_view_fields, lemma_json_view_fields, lemma_json_view_shape,
};
use crate::error::{DecodeError, SpecDecodeError};
use crate::v1::{
    GenerationV1, SpecGenerationV1, spec_decode_v1, spec_encode_v1, decode_v1, encode_v1,
    lemma_round_trip_v1, gen_eq, SCHEMA_VERSION,
};

verus! {

broadcast use vstd::group_vstd_default;

/// An enum of all available document versions.
///
/// This enum should be used when decoding or encoding a document, so that
/// the contents are checked against the version of the document.
///
/// It is non-exhaustive because future versions may be added at any point;
/// tools should handle an unrecognized variant explicitly (e.g. by noting
/// it is currently unsupported).
#[derive(Debug)]
#[non_exhaustive]
pub enum Generation {
    V1(GenerationV1),
}

/// The mathematical model of a versioned document record.
pub enum SpecGeneration {
    V1(SpecGenerationV1),
}

impl DeepView for Generation {
    type V = SpecGeneration;

    open spec fn deep_view(&self) -> SpecGeneration {
        match self {
            Generation::V1(g) => SpecGeneration::V1(g.deep_view()),
        }
    }
}

/// The schema version of a record model: fixed per variant, not derived
/// from the data.
pub open spec fn spec_version(g: SpecGeneration) -> u64 {
    match g {
        SpecGeneration::V1(_) => 1,
    }
}

impl Generation {
    /// The version of the document's schema, fixed per variant.
    pub fn version(&self) -> (v: u64)
        ensures
            v == spec_version(self.deep_view()),
    {
        match self {
            Generation::V1(_) => SCHEMA_VERSION,
        }
    }
}

/// What decoding a structured document yields, for every value: the sole
/// key of a single-entry mapping selects the record shape; a non-mapping
/// is a shape failure, and a missing, duplicated or unrecognized tag fails
/// with `UnrecognizedVersion`.
pub open spec fn spec_decode(doc: SpecJson) -> Result<SpecGeneration, SpecDecodeError> {
    match doc {
        SpecJson::Obj(fields) => {
            if fields.len() != 1 {
                Err(SpecDecodeError::UnrecognizedVersion(Seq::<char>::empty()))
            } else if fields[0].0 == "v1"@ {
                match spec_decode_v1(fields[0].1) {
                    Ok(g) => Ok(SpecGeneration::V1(g)),
                    Err(e) => Err(e),
                }
            } else {
                Err(SpecDecodeError::UnrecognizedVersion(fields[0].0))
            }
        },
        _ => Err(SpecDecodeError::TypeMismatch("generation"@)),
    }
}

/// What encoding a record yields: the record's encoding wrapped under its
/// own version tag.
pub open spec fn spec_encode(g: SpecGeneration) -> SpecJson {
    match g {
        SpecGeneration::V1(r) => SpecJson::Obj(seq![("v1"@, spec_encode_v1(r))]),
    }
}

/// Decodes a structured document into the record of its tagged version.
pub fn decode(doc: &Json) -> (r: Result<Generation, DecodeError>)
    ensures
        match r {
            Ok(g) => spec_decode(doc.deep_view()) == Ok::<SpecGeneration, SpecDecodeError>(
                g.deep_view(),
            ),
            Err(e) => spec_decode(doc.deep_view()) == Err::<SpecGeneration, SpecDecodeError>(
                e.deep_view(),
            ),
        },
{
    match doc {
        Json::Obj(fields) => {
            proof {
                assert(doc.deep_view() == SpecJson::Obj(json_view_fields(fields@)));
                lemma_json_view_fields(fields@);
            }
            if fields.len() != 1 {
                Err(DecodeError::UnrecognizedVersion(String::new()))
            } else {
                let v1_tag: String = "v1".to_owned();
                if fields[0].0 == v1_tag {
                    match decode_v1(&fields[0].1) {
                        Ok(g) => Ok(Generation::V1(g)),
                        Err(e) => Err(e),
                    }
                } else {
                    Err(DecodeError::UnrecognizedVersion(fields[0].0.clone()))
                }
            }
        },
        _ => {
            proof {
                lemma_json_view_shape(*doc);
            }
            Err(DecodeError::TypeMismatch("generation".to_owned()))
        },
    }
}

/// Encodes a record as a structured document under its version tag, the
/// exact inverse of decoding.
pub fn encode(g: &Generation) -> (r: Json)
    ensures
        r.deep_view() == spec_encode(g.deep_view()),
{
    match g {
        Generation::V1(rec) => {
            let mut out: Vec<(String, Json)> = Vec::new();
            out.push(("v1".to_owned(), encode_v1(rec)));
            proof {
                lemma_json_view_fields(out@);
                assert(json_view_fields(out@) =~= seq![
                    ("v1"@, spec_encode_v1(rec.deep_view())),
                ]);
            }
            Json::Obj(out)
        },
    }
}

/// Round-trip law: decoding an encoded record yields an equal record, for
/// every record.
pub proof fn lemma_round_trip(g: SpecGeneration)
    ensures
        spec_decode(spec_encode(g)) == Ok::<SpecGeneration, SpecDecodeError>(g),
{
    match g {
        SpecGeneration::V1(r) => {
            lemma_round_trip_v1(r);
        },
    }
}

/// Version fidelity: a document that decodes at all carries the `v1` tag,
/// and its record's version is 1.
pub proof fn lemma_version_fidelity(doc: SpecJson)
    requires
        spec_decode(doc) is Ok,
    ensures
        doc is Obj && doc->Obj_0.len() == 1 && doc->Obj_0[0].0 == "v1"@,
        spec_version(spec_decode(doc)->Ok_0) == 1,
{
}

/// Unknown-version rejection: a single-entry document whose tag is not a
/// recognized version fails with `UnrecognizedVersion` naming the tag,
/// never falling back to a known version.
pub proof fn lemma_unknown_version_rejected(doc: SpecJson, tag: Seq<char>)
    requires
        doc is Obj,
        doc->Obj_0.len() == 1,
        doc->Obj_0[0].0 == tag,
        tag != "v1"@,
    ensures
        spec_decode(doc) == Err::<SpecGeneration, SpecDecodeError>(
            SpecDecodeError::UnrecognizedVersion(tag),
        ),
{
}

impl PartialEq for Generation {
    fn eq(&self, other: &Generation) -> bool {
        match (self, other) {
            (Generation::V1(a), Generation::V1(b)) => gen_eq(a, b),
        }
    }
}

impl vstd::std_specs::cmp::PartialEqSpecImpl for Generation {
    open spec fn obeys_eq_spec() -> bool {
        true
    }

    open spec fn eq_spec(&self, other: &Generation) -> bool {
        self.deep_view() == other.deep_view()
    }
}

} // verus!
