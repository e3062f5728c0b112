//! The errors of the pipeline, one type per stage.

use vstd::prelude::*;

verus! {

/// The process as a whole failed.
#[derive(Clone, Copy, Debug, PartialEq, Eq, Structural)]
pub struct Error;

/// Reading from a feed's connection failed.
#[derive(Clone, Copy, Debug, PartialEq, Eq, Structural)]
pub enum ClientError {
    /// The transport failed, or the peer broke the protocol.
    Error,
    /// A message arrived that is not text.
    ParsingError,
    /// The peer closed the connection.
    EndpointClosedConnection,
}

/// A listener cannot go on.
#[derive(Clone, Copy, Debug, PartialEq, Eq, Structural)]
pub struct ListenerError;

/// The aggregator cannot go on.
#[derive(Clone, Copy, Debug, PartialEq, Eq, Structural)]
pub struct ListenerAggregatorError;

/// A feed did not confirm the subscription.
#[derive(Clone, Debug, PartialEq, Eq)]
pub struct SubscriberError {
    /// The message that was read in place of the confirmation, or `None`
    /// where no message could be read.
    pub payload: Option<String>,
}

impl Error {
    /// The error as it is shown.
    pub fn to_string(&self) -> (text: String)
        ensures
            text@ == "MainError"@,
    {
        "MainError".to_owned()
    }
}

impl ClientError {
    /// The error as it is shown.
    pub fn to_string(&self) -> (text: String)
        ensures
            text@ == "ClientError"@,
    {
        "ClientError".to_owned()
    }
}

impl ListenerError {
    /// The error as it is shown.
    pub fn to_string(&self) -> (text: String)
        ensures
            text@ == "MainError"@,
    {
        "MainError".to_owned()
    }
}

impl ListenerAggregatorError {
    /// The error as it is shown.
    pub fn to_string(&self) -> (text: String)
        ensures
            text@ == "ListenerAggregatorError"@,
    {
        "ListenerAggregatorError".to_owned()
    }
}

impl SubscriberError {
    /// The offending message as a value.
    pub open spec fn payload_view(self) -> Option<Seq<char>> {
        match self.payload {
            Some(text) => Some(text@),
            None => None,
        }
    }

    /// The error as it is shown.
    pub fn to_string(&self) -> (text: String)
        ensures
            text@ == "SubscriberError"@,
    {
        "SubscriberError".to_owned()
    }
}

} // verus!
