//! Decode failures.
//!
//! Every failure is returned as a value; nothing panics.  Each variant names
//! the offending version tag or field.

use vstd::prelude::*;
use vstd::string::StringExecFns;

verus! {

broadcast use vstd::group_vstd_default;

/// The mathematical model of a decode failure.
pub enum SpecDecodeError {
    /// The version tag is missing, duplicated, or not among the known ones.
    UnrecognizedVersion(Seq<char>),
    /// A required record field is absent; holds the field name.
    MissingRequiredField(Seq<char>),
    /// A value does not match its expected shape; holds the field name.
    TypeMismatch(Seq<char>),
    /// A map-typed optional field is present but explicitly null; holds the
    /// field name.  Distinct from absence, which defaults to an empty map.
    NullWhereMapExpected(Seq<char>),
}

/// A decode failure.
#[derive(Debug, Clone)]
pub enum DecodeError {
    /// The version tag is missing, duplicated, or not among the known ones.
    UnrecognizedVersion(String),
    /// A required record field is absent; holds the field name.
    MissingRequiredField(String),
    /// A value does not match its expected shape; holds the field name.
    TypeMismatch(String),
    /// A map-typed optional field is present but explicitly null; holds the
    /// field name.  Distinct from absence, which defaults to an empty map.
    NullWhereMapExpected(String),
}

impl DeepView for DecodeError {
    type V = SpecDecodeError;

    open spec fn deep_view(&self) -> SpecDecodeError {
        match self {
            DecodeError::UnrecognizedVersion(t) => SpecDecodeError::UnrecognizedVersion(t@),
            DecodeError::MissingRequiredField(f) => SpecDecodeError::MissingRequiredField(f@),
            DecodeError::TypeMismatch(f) => SpecDecodeError::TypeMismatch(f@),
            DecodeError::NullWhereMapExpected(f) => SpecDecodeError::NullWhereMapExpected(f@),
        }
    }
}

impl DecodeError {
    /// A human-readable description of the failure.
    pub fn message(&self) -> (r: String)
        ensures
            r@ == match self.deep_view() {
                SpecDecodeError::UnrecognizedVersion(t) => "unknown variant `"@ + t
                    + "`, expected `v1`"@,
                SpecDecodeError::MissingRequiredField(f) => "missing field `"@ + f + "`"@,
                SpecDecodeError::TypeMismatch(f) => "invalid type for `"@ + f + "`"@,
                SpecDecodeError::NullWhereMapExpected(f) => "invalid type: null, expected a map for `"@
                    + f + "`"@,
            },
    {
        match self {
            DecodeError::UnrecognizedVersion(t) => {
                "unknown variant `".to_owned().concat(t.as_str()).concat("`, expected `v1`")
            },
            DecodeError::MissingRequiredField(f) => {
                "missing field `".to_owned().concat(f.as_str()).concat("`")
            },
            DecodeError::TypeMismatch(f) => {
                "invalid type for `".to_owned().concat(f.as_str()).concat("`")
            },
            DecodeError::NullWhereMapExpected(f) => {
                "invalid type: null, expected a map for `".to_owned().concat(f.as_str()).concat("`")
            },
        }
    }
}

} // verus!
