//! Compares infrastructure snapshots by the intent they express rather than
//! by their text: rules observe facts in YAML documents, the diff matches
//! observations across two snapshots, and the policy ranks what drifted.

pub mod cli;
pub mod diff;
pub mod engine;
pub mod policy;
pub mod report;
pub mod semantic;
pub mod snapshot;
pub mod text;
pub mod yaml;
pub mod yaml_stream;


pub use diff::{diff_observations, DiffResult, ObservationChange};
pub use engine::{AnalysisResult, Engine};
pub use policy::{DefaultPolicyEvaluator, PolicyEvaluator, PolicyFinding, PolicyReport};
pub use report::{render_markdown, render_terminal};
pub use semantic::observation::{IntentObservation, ObservationValue};
pub use semantic::profile::Profile;
pub use semantic::rule_id::RuleId;
pub use semantic::signal::{Severity, SignalCategory, SignalStrength};
pub use semantic::{BasicAnalyzer, BuiltinRule, SemanticAnalyzer};
pub use snapshot::{
    ResourceMatchKey, ResourceRef, Snapshot, SnapshotDocument, SnapshotParseError,
};
pub use yaml::{YamlEntry, YamlValue};
pub use yaml_stream::YamlParseFailure;
