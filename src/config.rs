//! The typed model of a pipeline configuration.
use vstd::prelude::*;

verus! {

/// A JSON value as parsed by serde_json. The configuration carries such values
/// for the top-level capabilities, where only their presence matters.
#[verifier::external_type_specification]
#[verifier::external_body]
pub struct ExValue(serde_json::Value);

/// One configured unit of a section. Only its kind (the `type` tag of the
/// configuration file) matters; every other field of the block is ignored.
pub struct Component {
    pub kind: String,
}

/// The three sections of a configuration that hold components.
#[derive(PartialEq, Eq, Structural, Clone, Copy, Debug)]
pub enum Section {
    Sources,
    Transforms,
    Sinks,
}

/// A parsed configuration. The components of each section are kept without
/// their names: names never influence the derived features.
pub struct SingerConfig {
    pub api: Option<serde_json::Value>,
    pub enterprise: Option<serde_json::Value>,
    pub sources: Vec<Component>,
    pub transforms: Vec<Component>,
    pub sinks: Vec<Component>,
}

impl Component {
    /// A component of the given kind.
    pub fn new(kind: &str) -> (r: Component)
        ensures
            r.kind@ == kind@,
    {
        Component { kind: kind.to_owned() }
    }
}

} // verus!
