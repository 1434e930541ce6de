//! What the operator does with a message that the transport hands over.
use vstd::prelude::*;
use vstd::string::StringExecFns;
use crate::codec::DecodeError;
use crate::message_types::GraphcastMessage;
use crate::metrics::{LabelledCounter, MetricUpdate, MetricUpdateView};
use crate::operator::RadioOperator;

verus! {

/// What follows from one delivery of the transport.
#[derive(Debug, PartialEq, Eq)]
pub struct Handled {
    /// the counter that the delivery adds to
    pub count: MetricUpdate,
    /// the message to pass on for processing, where the delivery held one
    pub forward: Option<GraphcastMessage>,
}

impl RadioOperator {
    /// Decides what follows from one delivery of the transport. A message that
    /// passed validation is counted under its identifier and passed on. A
    /// failure is counted under the name of its kind, and nothing is passed on.
    pub fn radio_msg_handler(msg: Result<GraphcastMessage, DecodeError>) -> (r: Handled)
        ensures
            match msg {
                Ok(m) => r.count@ == (MetricUpdateView::IncrementLabelled {
                    family: LabelledCounter::ValidatedMessages,
                    label: m.identifier@,
                }) && r.forward == Some(m),
                Err(e) => r.count@ == (MetricUpdateView::IncrementLabelled {
                    family: LabelledCounter::InvalidatedMessages,
                    label: e.spec_type_string(),
                }) && r.forward is None,
            },
    {
        match msg {
            Ok(m) => Handled {
                count: MetricUpdate::IncrementLabelled {
                    family: LabelledCounter::ValidatedMessages,
                    label: m.identifier.clone(),
                },
                forward: Some(m),
            },
            Err(e) => Handled {
                count: MetricUpdate::IncrementLabelled {
                    family: LabelledCounter::InvalidatedMessages,
                    label: String::from_str(e.type_string()),
                },
                forward: None,
            },
        }
    }
}

} // verus!
