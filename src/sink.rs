//! Retry classification and responses of the MongoDB delivery sink.

use vstd::prelude::*;

verus! {

/// The kind of a MongoDB client error, as far as retrying is concerned.
#[derive(Clone, Copy, Debug, PartialEq, Eq)]
pub enum MongoErrorKind {
    /// An I/O error on the connection.
    Io,
    /// The connection pool was cleared.
    ConnectionPoolCleared,
    /// Any other error.
    Other,
}

/// An error of the MongoDB sink.
#[derive(Clone, Copy, Debug, PartialEq, Eq)]
pub enum MongoDbSinkError {
    MongoDb { kind: MongoErrorKind },
}

/// Which sink errors are worth retrying.
#[derive(Clone, Copy, Debug)]
pub struct MongoDbRetryLogic;

impl MongoDbRetryLogic {
    /// An error is retried when the connection failed: an I/O error or a
    /// cleared connection pool.
    pub fn is_retriable_error(&self, error: &MongoDbSinkError) -> (r: bool)
        ensures
            r <==> (error.kind() == MongoErrorKind::Io || error.kind()
                == MongoErrorKind::ConnectionPoolCleared),
    {
        let MongoDbSinkError::MongoDb { kind } = error;
        match kind {
            MongoErrorKind::Io => true,
            MongoErrorKind::ConnectionPoolCleared => true,
            MongoErrorKind::Other => false,
        }
    }
}

impl MongoDbSinkError {
    /// The kind of the underlying client error.
    pub open spec fn kind(&self) -> MongoErrorKind {
        match self {
            MongoDbSinkError::MongoDb { kind } => *kind,
        }
    }
}

/// The delivery status of a batch of events.
#[derive(Clone, Copy, Debug, PartialEq, Eq)]
pub enum EventStatus {
    Delivered,
    Errored,
    Rejected,
}

/// The response to one delivered batch: its event count, their estimated
/// size and the encoded request size.
#[derive(Clone, Copy, Debug, PartialEq, Eq)]
pub struct MongoDbResponse {
    pub events_count: usize,
    pub events_byte_size: usize,
    pub request_encoded_size: usize,
}

impl MongoDbResponse {
    /// A response reaches the sink only for a batch that was written.
    pub fn event_status(&self) -> (r: EventStatus)
        ensures
            r == EventStatus::Delivered,
    {
        EventStatus::Delivered
    }

    /// The events sent: their count and estimated size.
    pub fn events_sent(&self) -> (r: (usize, usize))
        ensures
            r == (self.events_count, self.events_byte_size),
    {
        (self.events_count, self.events_byte_size)
    }

    /// The bytes sent: the encoded request size.
    pub fn bytes_sent(&self) -> (r: Option<usize>)
        ensures
            r == Some(self.request_encoded_size),
    {
        Some(self.request_encoded_size)
    }
}

} // verus!
