//! Models and what they exchange with the engine.

use crate::time::Time;
use vstd::prelude::*;

pub mod model;
pub mod model_trait;

pub use self::model::{Model, ModelView};
pub use self::model_trait::{DevsModel, EventOutcome, Reportable, ReportableModel};

verus! {

/// A message as a model sees it: the port it arrives at or leaves from, and its
/// content.  It carries no routing information.
#[derive(Debug, PartialEq, Eq)]
pub struct ModelMessage {
    pub port_name: String,
    pub content: String,
}

/// The text that a `ModelMessage` holds.
pub struct ModelMessageView {
    pub port_name: Seq<char>,
    pub content: Seq<char>,
}

impl View for ModelMessage {
    type V = ModelMessageView;

    open spec fn view(&self) -> ModelMessageView {
        ModelMessageView { port_name: self.port_name@, content: self.content@ }
    }
}

impl DeepView for ModelMessage {
    type V = ModelMessageView;

    open spec fn deep_view(&self) -> ModelMessageView {
        self@
    }
}

impl Clone for ModelMessage {
    fn clone(&self) -> (copy: Self)
        ensures
            copy@ == self@,
    {
        ModelMessage { port_name: self.port_name.clone(), content: self.content.clone() }
    }
}

/// An entry of a model's own log.  The engine hands records on and never reads
/// them.
#[derive(Debug, PartialEq, Eq)]
pub struct ModelRecord {
    pub time: Time,
    pub action: String,
    pub subject: String,
}

/// What a `ModelRecord` holds.
pub struct ModelRecordView {
    pub time: Time,
    pub action: Seq<char>,
    pub subject: Seq<char>,
}

impl View for ModelRecord {
    type V = ModelRecordView;

    open spec fn view(&self) -> ModelRecordView {
        ModelRecordView { time: self.time, action: self.action@, subject: self.subject@ }
    }
}

impl DeepView for ModelRecord {
    type V = ModelRecordView;

    open spec fn deep_view(&self) -> ModelRecordView {
        self@
    }
}

impl Clone for ModelRecord {
    fn clone(&self) -> (copy: Self)
        ensures
            copy@ == self@,
    {
        ModelRecord { time: self.time, action: self.action.clone(), subject: self.subject.clone() }
    }
}

/// What an event handler returns when it cannot handle its event.  Its view is
/// the reason that it gives.
#[derive(Debug, PartialEq, Eq)]
pub struct ModelFailure {
    pub reason: String,
}

impl View for ModelFailure {
    type V = Seq<char>;

    open spec fn view(&self) -> Seq<char> {
        self.reason@
    }
}

impl ModelFailure {
    pub fn new(reason: String) -> (failure: Self)
        ensures
            failure@ == reason@,
    {
        ModelFailure { reason }
    }
}

} // verus!
