//! What rules observe about a document.

use vstd::prelude::*;
use vstd::string::StringExecFns;
use crate::semantic::rule_id::RuleId;
use crate::semantic::signal::SignalCategory;
use crate::snapshot::{ResourceRef, ResourceRefView};

verus! {

/// The value a rule observed.
#[derive(Debug, Clone, PartialEq, Eq, Hash)]
pub enum ObservationValue {
    Bool(bool),
    String(String),
    Keyword(&'static str),
}

/// The mathematical content of an `ObservationValue`.
pub enum ObservationValueView {
    Bool(bool),
    String(Seq<char>),
    Keyword(Seq<char>),
}

impl View for ObservationValue {
    type V = ObservationValueView;

    open spec fn view(&self) -> ObservationValueView {
        match self {
            ObservationValue::Bool(b) => ObservationValueView::Bool(*b),
            ObservationValue::String(s) => ObservationValueView::String(s@),
            ObservationValue::Keyword(k) => ObservationValueView::Keyword(k@),
        }
    }
}

/// How a value is displayed: `true`/`false`, or the text itself.
pub open spec fn spec_value_text(v: ObservationValueView) -> Seq<char> {
    match v {
        ObservationValueView::Bool(b) => if b { "true"@ } else { "false"@ },
        ObservationValueView::String(s) => s,
        ObservationValueView::Keyword(k) => k,
    }
}

impl ObservationValue {
    /// A copy of this value.
    pub fn copy(&self) -> (r: ObservationValue)
        ensures
            r == *self,
    {
        match self {
            ObservationValue::Bool(b) => ObservationValue::Bool(*b),
            ObservationValue::String(s) => ObservationValue::String(s.clone()),
            ObservationValue::Keyword(k) => ObservationValue::Keyword(k),
        }
    }

    /// Whether two values are the same: same variant, same content.
    pub fn same_as(&self, other: &ObservationValue) -> (r: bool)
        ensures
            r == (self@ == other@),
    {
        match (self, other) {
            (ObservationValue::Bool(a), ObservationValue::Bool(b)) => *a == *b,
            (ObservationValue::String(a), ObservationValue::String(b)) => *a == *b,
            (ObservationValue::Keyword(a), ObservationValue::Keyword(b)) => {
                let x = String::from_str(a);
                let y = String::from_str(b);
                x == y
            },
            _ => false,
        }
    }

    /// The value as it is displayed.
    pub fn to_string(&self) -> (r: String)
        ensures
            r@ == spec_value_text(self@),
    {
        match self {
            ObservationValue::Bool(b) => if *b {
                String::from_str("true")
            } else {
                String::from_str("false")
            },
            ObservationValue::String(s) => s.clone(),
            ObservationValue::Keyword(k) => String::from_str(k),
        }
    }
}

/// One fact a rule observed about one resource of one snapshot.
#[derive(Debug, Clone, PartialEq, Eq, Hash)]
pub struct IntentObservation {
    pub rule_id: RuleId,
    pub resource: ResourceRef,
    pub category: SignalCategory,
    pub value: ObservationValue,
    pub description: String,
    pub source_path: String,
}

/// The mathematical content of an `IntentObservation`.
pub struct IntentObservationView {
    pub rule_id: Seq<char>,
    pub resource: ResourceRefView,
    pub category: SignalCategory,
    pub value: ObservationValueView,
    pub description: Seq<char>,
    pub source_path: Seq<char>,
}

impl View for IntentObservation {
    type V = IntentObservationView;

    open spec fn view(&self) -> IntentObservationView {
        IntentObservationView {
            rule_id: self.rule_id.0@,
            resource: self.resource@,
            category: self.category,
            value: self.value@,
            description: self.description@,
            source_path: self.source_path@,
        }
    }
}

/// The views of a sequence of observations.
pub open spec fn observation_views(s: Seq<IntentObservation>) -> Seq<IntentObservationView> {
    s.map_values(|o: IntentObservation| o@)
}

impl IntentObservation {
    /// A copy of this observation.
    pub fn copy(&self) -> (r: IntentObservation)
        ensures
            r == *self,
    {
        IntentObservation {
            rule_id: self.rule_id,
            resource: self.resource.copy(),
            category: self.category,
            value: self.value.copy(),
            description: self.description.clone(),
            source_path: self.source_path.clone(),
        }
    }
}

} // verus!
