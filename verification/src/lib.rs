//! A versioned boot-specification document model.
//!
//! A boot specification describes one immutable boot-time configuration of a
//! system: kernel, initrd, init program, kernel parameters, named
//! specialisations, and free-form vendor extensions.  The document is a
//! single-key mapping whose key is a version tag (`"v1"`, ...) selecting the
//! concrete record shape.  This crate holds the schema types and the verified
//! decode/encode contract between structured documents and records.

pub mod json;
pub mod error;
pub mod v1;
pub mod generation;
pub mod extension;

use vstd::prelude::*;

verus! {

/// A wrapper type describing the name of a specialisation.
///
/// Exists purely so that a specialisation name cannot be confused with any
/// other string; it carries no behaviour beyond equality and default.
#[derive(Debug, Clone, Hash)]
pub struct SpecialisationName(pub String);

/// A wrapper type describing the root directory of a realized system
/// configuration.
///
/// Exists purely so that this path cannot be confused with any other path
/// field of a record.
#[derive(Debug, Clone)]
pub struct SystemConfigurationRoot(pub String);

impl PartialEq for SpecialisationName {
    fn eq(&self, other: &SpecialisationName) -> bool {
        self.0 == other.0
    }
}

impl vstd::std_specs::cmp::PartialEqSpecImpl for SpecialisationName {
    open spec fn obeys_eq_spec() -> bool {
        true
    }

    open spec fn eq_spec(&self, other: &SpecialisationName) -> bool {
        self.0@ == other.0@
    }
}

impl Default for SpecialisationName {
    /// The default name is empty.
    fn default() -> (r: SpecialisationName)
        ensures
            r.0@ == Seq::<char>::empty(),
    {
        SpecialisationName(String::new())
    }
}

impl PartialEq for SystemConfigurationRoot {
    fn eq(&self, other: &SystemConfigurationRoot) -> bool {
        self.0 == other.0
    }
}

impl vstd::std_specs::cmp::PartialEqSpecImpl for SystemConfigurationRoot {
    open spec fn obeys_eq_spec() -> bool {
        true
    }

    open spec fn eq_spec(&self, other: &SystemConfigurationRoot) -> bool {
        self.0@ == other.0@
    }
}

impl Default for SystemConfigurationRoot {
    /// The default root is the empty path.
    fn default() -> (r: SystemConfigurationRoot)
        ensures
            r.0@ == Seq::<char>::empty(),
    {
        SystemConfigurationRoot(String::new())
    }
}

/// The current record shape.
pub type BootJson = v1::GenerationV1;

/// The current schema version.
pub const SCHEMA_VERSION: u64 = v1::SCHEMA_VERSION;

/// The current canonical document file name.
pub const JSON_FILENAME: &'static str = v1::JSON_FILENAME;

} // verus!
