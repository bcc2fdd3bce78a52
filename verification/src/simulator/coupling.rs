//! Connectors couple an output port of one model to an input port of another;
//! messages travel along them.

use crate::time::Time;
use vstd::prelude::*;

verus! {

/// A directed coupling from the port `source_port` of the model `source_id` to
/// the port `target_port` of the model `target_id`.
#[derive(Debug, PartialEq, Eq)]
pub struct Connector {
    pub id: String,
    pub source_id: String,
    pub source_port: String,
    pub target_id: String,
    pub target_port: String,
}

/// The text that a `Connector` holds.
pub struct ConnectorView {
    pub id: Seq<char>,
    pub source_id: Seq<char>,
    pub source_port: Seq<char>,
    pub target_id: Seq<char>,
    pub target_port: Seq<char>,
}

impl ConnectorView {
    /// Whether this connector leaves the port `source_port` of the model `source_id`.
    pub open spec fn leaves(self, source_id: Seq<char>, source_port: Seq<char>) -> bool {
        self.source_id == source_id && self.source_port == source_port
    }
}

impl View for Connector {
    type V = ConnectorView;

    open spec fn view(&self) -> ConnectorView {
        ConnectorView {
            id: self.id@,
            source_id: self.source_id@,
            source_port: self.source_port@,
            target_id: self.target_id@,
            target_port: self.target_port@,
        }
    }
}

impl DeepView for Connector {
    type V = ConnectorView;

    open spec fn deep_view(&self) -> ConnectorView {
        self@
    }
}

impl Connector {
    pub fn new(
        id: String,
        source_id: String,
        target_id: String,
        source_port: String,
        target_port: String,
    ) -> (connector: Self)
        ensures
            connector == (Connector { id, source_id, source_port, target_id, target_port }),
    {
        Connector { id, source_id, source_port, target_id, target_port }
    }

    pub fn id(&self) -> (id: &str)
        ensures
            id@ == self.id@,
    {
        self.id.as_str()
    }

    pub fn source_id(&self) -> (id: &str)
        ensures
            id@ == self.source_id@,
    {
        self.source_id.as_str()
    }

    pub fn source_port(&self) -> (port: &str)
        ensures
            port@ == self.source_port@,
    {
        self.source_port.as_str()
    }

    pub fn target_id(&self) -> (id: &str)
        ensures
            id@ == self.target_id@,
    {
        self.target_id.as_str()
    }

    pub fn target_port(&self) -> (port: &str)
        ensures
            port@ == self.target_port@,
    {
        self.target_port.as_str()
    }
}

impl Clone for Connector {
    fn clone(&self) -> (copy: Self)
        ensures
            copy@ == self@,
    {
        Connector {
            id: self.id.clone(),
            source_id: self.source_id.clone(),
            source_port: self.source_port.clone(),
            target_id: self.target_id.clone(),
            target_port: self.target_port.clone(),
        }
    }
}

/// What one model sends to another: the route it takes, the simulated time at
/// which it was sent, and its content.
#[derive(Debug, PartialEq, Eq)]
pub struct Message {
    pub source_id: String,
    pub source_port: String,
    pub target_id: String,
    pub target_port: String,
    pub time: Time,
    pub content: String,
}

/// What a `Message` holds.
pub struct MessageView {
    pub source_id: Seq<char>,
    pub source_port: Seq<char>,
    pub target_id: Seq<char>,
    pub target_port: Seq<char>,
    pub time: Time,
    pub content: Seq<char>,
}

impl View for Message {
    type V = MessageView;

    open spec fn view(&self) -> MessageView {
        MessageView {
            source_id: self.source_id@,
            source_port: self.source_port@,
            target_id: self.target_id@,
            target_port: self.target_port@,
            time: self.time,
            content: self.content@,
        }
    }
}

impl DeepView for Message {
    type V = MessageView;

    open spec fn deep_view(&self) -> MessageView {
        self@
    }
}

impl Message {
    pub fn new(
        source_id: String,
        source_port: String,
        target_id: String,
        target_port: String,
        time: Time,
        content: String,
    ) -> (message: Self)
        ensures
            message == (Message { source_id, source_port, target_id, target_port, time, content }),
    {
        Message { source_id, source_port, target_id, target_port, time, content }
    }

    pub fn source_id(&self) -> (id: &str)
        ensures
            id@ == self.source_id@,
    {
        self.source_id.as_str()
    }

    pub fn source_port(&self) -> (port: &str)
        ensures
            port@ == self.source_port@,
    {
        self.source_port.as_str()
    }

    pub fn target_id(&self) -> (id: &str)
        ensures
            id@ == self.target_id@,
    {
        self.target_id.as_str()
    }

    pub fn target_port(&self) -> (port: &str)
        ensures
            port@ == self.target_port@,
    {
        self.target_port.as_str()
    }

    pub fn time(&self) -> (time: Time)
        ensures
            time == self.time,
    {
        self.time
    }

    pub fn content(&self) -> (content: &str)
        ensures
            content@ == self.content@,
    {
        self.content.as_str()
    }
}

impl Clone for Message {
    fn clone(&self) -> (copy: Self)
        ensures
            copy@ == self@,
    {
        Message {
            source_id: self.source_id.clone(),
            source_port: self.source_port.clone(),
            target_id: self.target_id.clone(),
            target_port: self.target_port.clone(),
            time: self.time,
            content: self.content.clone(),
        }
    }
}

/// A copy of a list of messages.
pub fn clone_messages(messages: &Vec<Message>) -> (copy: Vec<Message>)
    ensures
        copy.deep_view() == messages.deep_view(),
{
    let mut copy: Vec<Message> = Vec::new();
    let mut i: usize = 0;
    while i < messages.len()
        invariant
            i <= messages.len(),
            copy.len() == i,
            forall|j: int| 0 <= j < i ==> (#[trigger] copy@[j])@ == messages@[j]@,
        decreases messages.len() - i,
    {
        copy.push(messages[i].clone());
        i = i + 1;
    }
    assert(copy.deep_view() =~= messages.deep_view());
    copy
}

} // verus!
